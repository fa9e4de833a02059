//! What functions are called with.

use crate::binds::BindsV;
use crate::catalog::{ComputedColumn, EmbedPlan, FunctionArgument, Parameter, Routine, SchemaCache};
use crate::computed::{
    arguments_from, computed_field_sql, computed_sql, given_for, leading_arguments,
    relationship_arguments, session_from, session_parameter,
};
use crate::error::{plain_refusal, ErrorV};
use crate::json::JsonV;
use crate::read::{function_rows, FunctionCall};
use crate::text::{decimal, ident, ident2, joined};
use vstd::prelude::*;

verus! {

/// How the caller's session is passed.
pub open spec fn session_passed(parameter: Seq<char>) -> Seq<char> {
    ident(parameter) + " => "@ + "coalesce(current_setting('hasura.session', true), '{}')::json"@
}

/// A computed column is its function called on the row. A function that reads
/// the session is given it too, and both by the names of their parameters.
pub proof fn law_a_computed_column_is_called_on_its_row(
    definition: ComputedColumn,
    row: Seq<char>,
    row_by_name: Seq<char>,
)
    ensures
        ({
            let name = ident2(definition.function.schema@, definition.function.name@);
            let sql = computed_sql(definition, row, row_by_name);
            if definition.session_argument is Some && definition.row_argument is Some {
                sql == name + "("@ + ident(definition.row_argument->0@) + " => "@ + row_by_name
                    + ", "@ + session_passed(definition.session_argument->0@) + ")"@
            } else {
                sql == name + "("@ + row + ")"@
            }
        }),
{
    if definition.session_argument is Some && definition.row_argument is Some {
        let name = ident2(definition.function.schema@, definition.function.name@);
        assert(computed_sql(definition, row, row_by_name) =~= name + "("@ + ident(
            definition.row_argument->0@,
        ) + " => "@ + row_by_name + ", "@ + session_passed(definition.session_argument->0@)
            + ")"@);
    }
}

/// The row comes first among the arguments, and the session where it is read
/// after it.
pub proof fn law_the_row_comes_first(
    row_argument: Seq<char>,
    row: Seq<char>,
    session: Option<Seq<char>>,
)
    ensures
        leading_arguments(row_argument, row, session) == (match session {
            None => seq![ident(row_argument) + " => "@ + row],
            Some(s) => seq![ident(row_argument) + " => "@ + row, session_passed(s)],
        }),
{
    match session {
        None => {},
        Some(s) => {
            assert(leading_arguments(row_argument, row, session) =~= seq![
                ident(row_argument) + " => "@ + row,
                session_passed(s),
            ]);
        },
    }
}

/// An argument that is given is passed by its name and bound in the form of its
/// type.
pub proof fn law_a_given_argument_is_bound(
    who: Seq<char>,
    argument: FunctionArgument,
    given: JsonV,
    passed: Seq<Seq<char>>,
    at: BindsV,
)
    requires
        at.next < usize::MAX,
        given.get(argument.name@) is Some,
    ensures
        arguments_from(who, seq![argument], Some(given), 0, passed, at) == Ok::<
            (Seq<Seq<char>>, BindsV),
            (ErrorV, Seq<Seq<char>>, BindsV),
        >(
            (
                passed.push(
                    ident(argument.name@) + " => "@ + ("$"@ + decimal(at.next as nat)) + "::"@
                        + argument.pg_type@,
                ),
                BindsV {
                    next: (at.next + 1) as usize,
                    values: at.values.push(given.get(argument.name@)->0),
                },
            ),
        ),
{
    let list = seq![argument];
    assert(list[0] == argument);
    let value = given.get(argument.name@)->0;
    let more = passed.push(
        ident(argument.name@) + " => "@ + ("$"@ + decimal(at.next as nat)) + "::"@
            + argument.pg_type@,
    );
    let end = BindsV { next: (at.next + 1) as usize, values: at.values.push(value) };
    assert(arguments_from(who, list, Some(given), 1, more, end) == Ok::<
        (Seq<Seq<char>>, BindsV),
        (ErrorV, Seq<Seq<char>>, BindsV),
    >((more, end)));
    assert(given_for(Some(given), argument.name@) == Some(value));
    assert(crate::binds::placeholder(at) =~= "$"@ + decimal(at.next as nat));
    assert(crate::binds::bound(at, value) == end);
}

/// An argument that is not given is left to its default; one that has none is
/// refused by its name.
pub proof fn law_a_missing_argument_is_left_out(
    who: Seq<char>,
    argument: FunctionArgument,
    given: Option<JsonV>,
    passed: Seq<Seq<char>>,
    at: BindsV,
)
    requires
        given is None || given->0.get(argument.name@) is None,
    ensures
        arguments_from(who, seq![argument], given, 0, passed, at) == (if argument.required {
            Err::<(Seq<Seq<char>>, BindsV), (ErrorV, Seq<Seq<char>>, BindsV)>(
                (
                    plain_refusal(who + " needs the argument \""@ + argument.name@ + "\""@),
                    passed,
                    at,
                ),
            )
        } else {
            Ok((passed, at))
        }),
{
    let list = seq![argument];
    assert(list[0] == argument);
    assert(arguments_from(who, list, given, 1, passed, at) == Ok::<
        (Seq<Seq<char>>, BindsV),
        (ErrorV, Seq<Seq<char>>, BindsV),
    >((passed, at)));
}

proof fn lemma_arguments_after(
    who: Seq<char>,
    first: Seq<FunctionArgument>,
    rest: Seq<FunctionArgument>,
    given: Option<JsonV>,
    i: nat,
    passed: Seq<Seq<char>>,
    at: BindsV,
)
    ensures
        arguments_from(who, first + rest, given, first.len() + i, passed, at) == arguments_from(
            who,
            rest,
            given,
            i,
            passed,
            at,
        ),
    decreases rest.len() - i,
{
    let all = first + rest;
    if i < rest.len() {
        assert(all[(first.len() + i) as int] == rest[i as int]);
        let argument = rest[i as int];
        match given_for(given, argument.name@) {
            None => lemma_arguments_after(who, first, rest, given, i + 1, passed, at),
            Some(value) => lemma_arguments_after(
                who,
                first,
                rest,
                given,
                i + 1,
                passed.push(
                    ident(argument.name@) + " => "@ + crate::binds::placeholder(at) + "::"@
                        + argument.pg_type@,
                ),
                crate::binds::bound(at, value),
            ),
        }
    }
}

proof fn lemma_arguments_split(
    who: Seq<char>,
    first: Seq<FunctionArgument>,
    rest: Seq<FunctionArgument>,
    given: Option<JsonV>,
    i: nat,
    passed: Seq<Seq<char>>,
    at: BindsV,
)
    requires
        i <= first.len(),
    ensures
        arguments_from(who, first + rest, given, i, passed, at) == (match arguments_from(
            who,
            first,
            given,
            i,
            passed,
            at,
        ) {
            Err(e) => Err(e),
            Ok((mid, end)) => arguments_from(who, rest, given, 0, mid, end),
        }),
    decreases first.len() - i,
{
    let all = first + rest;
    if i < first.len() {
        assert(all[i as int] == first[i as int]);
        let argument = first[i as int];
        match given_for(given, argument.name@) {
            None => lemma_arguments_split(who, first, rest, given, i + 1, passed, at),
            Some(value) => lemma_arguments_split(
                who,
                first,
                rest,
                given,
                i + 1,
                passed.push(
                    ident(argument.name@) + " => "@ + crate::binds::placeholder(at) + "::"@
                        + argument.pg_type@,
                ),
                crate::binds::bound(at, value),
            ),
        }
    } else {
        lemma_arguments_after(who, first, rest, given, 0, passed, at);
    }
}

/// Arguments are passed one after another, in the order the function declares
/// them.
pub proof fn law_arguments_are_passed_in_turn(
    who: Seq<char>,
    first: Seq<FunctionArgument>,
    rest: Seq<FunctionArgument>,
    given: Option<JsonV>,
    passed: Seq<Seq<char>>,
    at: BindsV,
)
    ensures
        arguments_from(who, first + rest, given, 0, passed, at) == (match arguments_from(
            who,
            first,
            given,
            0,
            passed,
            at,
        ) {
            Err(e) => Err(e),
            Ok((mid, end)) => arguments_from(who, rest, given, 0, mid, end),
        }),
{
    lemma_arguments_split(who, first, rest, given, 0, passed, at);
}

/// A computed field that takes arguments is its function called on the row, the
/// session where it reads it, and those that were given.
pub proof fn law_a_computed_field_takes_its_arguments(
    computed: ComputedColumn,
    row: Seq<char>,
    field: Seq<char>,
    given: Option<JsonV>,
    at: BindsV,
    passed: Seq<Seq<char>>,
    end: BindsV,
)
    requires
        computed.arguments@.len() > 0,
        computed.row_argument is Some,
        arguments_from(
            field,
            computed.arguments@,
            given,
            0,
            if computed.session_argument is Some {
                seq![
                    ident(computed.row_argument->0@) + " => "@ + row,
                    session_passed(computed.session_argument->0@),
                ]
            } else {
                seq![ident(computed.row_argument->0@) + " => "@ + row]
            },
            at,
        ) == Ok::<(Seq<Seq<char>>, BindsV), (ErrorV, Seq<Seq<char>>, BindsV)>((passed, end)),
    ensures
        computed_field_sql(computed, row, field, given, at) == Ok::<
            (Seq<char>, BindsV),
            (ErrorV, BindsV),
        >(
            (
                ident2(computed.function.schema@, computed.function.name@) + "("@ + joined(
                    passed,
                    ", "@,
                ) + ")"@,
                end,
            ),
        ),
{
    law_the_row_comes_first(
        computed.row_argument->0@,
        row,
        crate::text::text_opt(computed.session_argument),
    );
}

/// One that takes none is its function called on the row, and binds nothing.
pub proof fn law_a_computed_field_is_called_on_its_row(
    computed: ComputedColumn,
    row: Seq<char>,
    field: Seq<char>,
    given: Option<JsonV>,
    at: BindsV,
)
    requires
        computed.arguments@.len() == 0,
        computed.session_argument is None,
    ensures
        computed_field_sql(computed, row, field, given, at) == Ok::<
            (Seq<char>, BindsV),
            (ErrorV, BindsV),
        >(
            (
                ident2(computed.function.schema@, computed.function.name@) + "("@ + row + ")"@,
                at,
            ),
        ),
{
}

/// The rows a function answers with are those of its call, under the alias they
/// are read by. The session is passed where the function reads it.
pub proof fn law_a_functions_rows_are_those_of_its_call(
    call: FunctionCall,
    given: Option<JsonV>,
    alias: Seq<char>,
    at: BindsV,
    passed: Seq<Seq<char>>,
    end: BindsV,
)
    requires
        arguments_from(call.name@, call.arguments@, given, 0, Seq::empty(), at) == Ok::<
            (Seq<Seq<char>>, BindsV),
            (ErrorV, Seq<Seq<char>>, BindsV),
        >((passed, end)),
    ensures
        function_rows(call, given, alias, at) == Ok::<(Seq<char>, BindsV), (ErrorV, BindsV)>(
            (
                ident2(call.schema@, call.name@) + "("@ + joined(
                    if call.session_argument is Some {
                        passed + seq![session_passed(call.session_argument->0@)]
                    } else {
                        passed
                    },
                    ", "@,
                ) + ") AS "@ + ident(alias),
                end,
            ),
        ),
{
    if call.session_argument is Some {
        let s = session_passed(call.session_argument->0@);
        assert(passed + seq![s] =~= passed.push(s));
    }
}

/// Whether a parameter takes the caller's session.
pub open spec fn is_session(p: Parameter) -> bool {
    p.name@ == "hasura_session"@ && (p.param_type@ == "json"@ || p.param_type@ == "jsonb"@)
}

proof fn lemma_session_from(routine: Routine, i: nat)
    ensures
        (session_from(routine, i) is None) == (forall|k: int|
            i <= k < routine.params@.len() ==> !is_session(#[trigger] routine.params@[k])),
        session_from(routine, i) is Some ==> session_from(routine, i) == Some("hasura_session"@),
    decreases routine.params@.len() - i,
{
    if i < routine.params@.len() {
        lemma_session_from(routine, i + 1);
        if is_session(routine.params@[i as int]) {
            assert(session_from(routine, i) is Some);
        }
    }
}

/// A function reads the session where it has a document parameter of that name.
pub proof fn law_the_session_is_read_by_name(routine: Routine)
    ensures
        session_from(routine, 0) == (if exists|k: int|
            0 <= k < routine.params@.len() && is_session(#[trigger] routine.params@[k]) {
            Some("hasura_session"@)
        } else {
            None
        }),
{
    lemma_session_from(routine, 0);
}

/// A relationship that a function answers is called on the row it starts from
/// with what was given; where there is nothing to pass it is called as it is.
pub proof fn law_a_relationship_is_called_on_its_row(
    name: Seq<char>,
    arguments: Seq<FunctionArgument>,
    plan: EmbedPlan,
    parent_row: Seq<char>,
    given: Option<JsonV>,
    cache: SchemaCache,
    at: BindsV,
    passed: Seq<Seq<char>>,
    end: BindsV,
)
    requires
        plan.function is Some,
        plan.row_argument is Some,
        arguments.len() > 0,
        session_parameter(cache, (plan.function->0)@) is None,
        arguments_from(
            name,
            arguments,
            given,
            0,
            seq![ident((plan.row_argument->0)@) + " => "@ + parent_row],
            at,
        ) == Ok::<(Seq<Seq<char>>, BindsV), (ErrorV, Seq<Seq<char>>, BindsV)>((passed, end)),
    ensures
        relationship_arguments(name, arguments, plan, parent_row, given, cache, at) == Ok::<
            (Option<Seq<char>>, BindsV),
            (ErrorV, BindsV),
        >((Some(joined(passed, ", "@)), end)),
        relationship_arguments(name, Seq::empty(), plan, parent_row, given, cache, at) == Ok::<
            (Option<Seq<char>>, BindsV),
            (ErrorV, BindsV),
        >((None, at)),
{
    law_the_row_comes_first((plan.row_argument->0)@, parent_row, None);
}

} // verus!

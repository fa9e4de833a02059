//! Calls of the functions behind computed fields and relationships.

use crate::binds::{bind, binds, bound, placeholder, BindsV};
use crate::catalog::{
    ComputedColumn, EmbedPlan, FunctionArgument, QualifiedIdentifier, RelationshipField, Routine,
    SchemaCache,
};
use crate::comparison::{outcome, PartsV, SqlV};
use crate::error::{plain_refusal, Error, ErrorV};
use crate::json::{json_ref, Json, JsonV};
use crate::lookup::{find_qualified, qualified};
use crate::text::{
    cat3, cat4, cat5, escape_ident, escape_ident2, ident, ident2, join, joined, push_text, same,
    str_opt, text_opt, texts,
};
use vstd::prelude::*;

verus! {

/// What a parameter that takes the session is given: the session document,
/// read from the setting the transaction opens with.
pub const SESSION_ARGUMENT: &'static str =
    "coalesce(current_setting('hasura.session', true), '{}')::json";

/// The call of a computed column's function on a row. By name where the
/// function also takes the session, positionally otherwise.
pub open spec fn computed_sql(
    definition: ComputedColumn,
    row: Seq<char>,
    row_by_name: Seq<char>,
) -> Seq<char> {
    let function = ident2(definition.function.schema@, definition.function.name@);
    match (definition.session_argument, definition.row_argument) {
        (Some(session), Some(row_argument)) => function + "("@ + ident(row_argument@) + " => "@
            + row_by_name + ", "@ + ident(session@) + " => "@ + SESSION_ARGUMENT@ + ")"@,
        _ => function + "("@ + row + ")"@,
    }
}

/// The call that produces a computed field's value.
pub fn computed_call(definition: &ComputedColumn, row: &str, row_by_name: &str) -> (r: String)
    ensures
        r@ == computed_sql(*definition, row@, row_by_name@),
{
    let function = escape_ident2(&definition.function.schema, &definition.function.name);
    match (&definition.session_argument, &definition.row_argument) {
        (Some(session), Some(row_argument)) => crate::text::cat10(
            &function,
            "(",
            &escape_ident(row_argument),
            " => ",
            row_by_name,
            ", ",
            &escape_ident(session),
            " => ",
            SESSION_ARGUMENT,
            ")",
        ),
        _ => cat4(&function, "(", row, ")"),
    }
}

// ---------------------------------------------------------------------------
// Arguments the caller writes
// ---------------------------------------------------------------------------

/// What was given for an argument.
pub open spec fn given_for(given: Option<JsonV>, name: Seq<char>) -> Option<JsonV> {
    match given {
        Some(g) => g.get(name),
        None => None,
    }
}

/// The arguments from the `i`th on, after those already passed. One that was
/// left out keeps the function's default, unless it has to be given.
pub open spec fn arguments_from(
    who: Seq<char>,
    arguments: Seq<FunctionArgument>,
    given: Option<JsonV>,
    i: nat,
    passed: Seq<Seq<char>>,
    at: BindsV,
) -> PartsV
    decreases arguments.len() - i,
{
    if i >= arguments.len() {
        Ok((passed, at))
    } else {
        let argument = arguments[i as int];
        match given_for(given, argument.name@) {
            None => if argument.required {
                Err(
                    (
                        plain_refusal(
                            who + " needs the argument \""@ + argument.name@ + "\""@,
                        ),
                        passed,
                        at,
                    ),
                )
            } else {
                arguments_from(who, arguments, given, i + 1, passed, at)
            },
            Some(value) => arguments_from(
                who,
                arguments,
                given,
                i + 1,
                passed.push(ident(argument.name@) + " => "@ + placeholder(at) + "::"@
                    + argument.pg_type@),
                bound(at, value),
            ),
        }
    }
}

/// Passes the arguments the caller gave, by name, after those already passed.
pub fn pass_arguments(
    who: &str,
    arguments: &Vec<FunctionArgument>,
    given: Option<&Json>,
    passed: &mut Vec<String>,
    param_idx: &mut usize,
    values: &mut Vec<Json>,
) -> (r: Result<(), Error>)
    ensures
        crate::comparison::parts_outcome(r, final(passed)@, *final(param_idx), final(values)@)
            == arguments_from(
            who@,
            arguments@,
            json_ref(given),
            0,
            texts(old(passed)@),
            binds(*old(param_idx), old(values)@),
        ),
{
    let mut i: usize = 0;
    while i < arguments.len()
        invariant
            i <= arguments.len(),
            arguments_from(
                who@,
                arguments@,
                json_ref(given),
                0,
                texts(old(passed)@),
                binds(*old(param_idx), old(values)@),
            ) == arguments_from(
                who@,
                arguments@,
                json_ref(given),
                i as nat,
                texts(passed@),
                binds(*param_idx, values@),
            ),
        decreases arguments.len() - i,
    {
        let argument = &arguments[i];
        let value: Option<&Json> = match given {
            Some(g) => g.get(&argument.name),
            None => None,
        };
        match value {
            None => if argument.required {
                return Err(
                    Error::new(cat4(who, " needs the argument \"", &argument.name, "\"")),
                );
            },
            Some(value) => {
                let text = bind(param_idx, values, value.copy());
                push_text(
                    passed,
                    cat5(&escape_ident(&argument.name), " => ", &text, "::", &argument.pg_type),
                );
            },
        }
        i += 1;
    }
    Ok(())
}

/// The arguments named first: the row, and the session where it is taken.
pub open spec fn leading_arguments(
    row_argument: Seq<char>,
    row: Seq<char>,
    session: Option<Seq<char>>,
) -> Seq<Seq<char>> {
    let first = seq![ident(row_argument) + " => "@ + row];
    match session {
        Some(s) => first.push(ident(s) + " => "@ + SESSION_ARGUMENT@),
        None => first,
    }
}

fn lead_arguments(row_argument: &str, row: &str, session: Option<&str>) -> (r: Vec<String>)
    ensures
        texts(r@) == leading_arguments(row_argument@, row@, str_opt(session)),
{
    let mut passed = crate::text::no_texts();
    push_text(&mut passed, cat3(&escape_ident(row_argument), " => ", row));
    proof {
        assert(texts(passed@) =~= seq![ident(row_argument@) + " => "@ + row@]);
    }
    if let Some(s) = session {
        push_text(&mut passed, cat3(&escape_ident(s), " => ", SESSION_ARGUMENT));
    }
    passed
}

/// The call behind a computed field, with whatever the caller passed it.
pub open spec fn computed_field_sql(
    computed: ComputedColumn,
    row: Seq<char>,
    field: Seq<char>,
    given: Option<JsonV>,
    at: BindsV,
) -> SqlV {
    if computed.arguments@.len() == 0 || computed.row_argument is None {
        Ok((computed_sql(computed, row, row), at))
    } else {
        match arguments_from(
            field,
            computed.arguments@,
            given,
            0,
            leading_arguments(
                computed.row_argument->0@,
                row,
                text_opt(computed.session_argument),
            ),
            at,
        ) {
            Ok((passed, end)) => Ok(
                (
                    ident2(computed.function.schema@, computed.function.name@) + "("@ + joined(
                        passed,
                        ", "@,
                    ) + ")"@,
                    end,
                ),
            ),
            Err((e, _, end)) => Err((e, end)),
        }
    }
}

/// The call behind a computed field, including whatever the caller passed.
///
/// A function of the row alone is called positionally. Anything else is
/// called by name: the row, the session where it is asked for, and each
/// argument the caller gave.
pub fn computed_column_call(
    computed: &ComputedColumn,
    row: &str,
    field: &str,
    given: Option<&Json>,
    param_idx: &mut usize,
    values: &mut Vec<Json>,
) -> (r: Result<String, Error>)
    ensures
        outcome(r, *final(param_idx), final(values)@) == computed_field_sql(
            *computed,
            row@,
            field@,
            json_ref(given),
            binds(*old(param_idx), old(values)@),
        ),
{
    if computed.arguments.len() == 0 {
        return Ok(computed_call(computed, row, row));
    }
    let row_argument = match &computed.row_argument {
        Some(row_argument) => row_argument,
        None => return Ok(computed_call(computed, row, row)),
    };
    let session: Option<&str> = match &computed.session_argument {
        Some(s) => Some(s.as_str()),
        None => None,
    };
    let mut passed = lead_arguments(row_argument, row, session);
    match pass_arguments(field, &computed.arguments, given, &mut passed, param_idx, values) {
        Ok(_) => {
            let function = escape_ident2(&computed.function.schema, &computed.function.name);
            Ok(cat4(&function, "(", &join(&passed, ", "), ")"))
        },
        Err(e) => Err(e),
    }
}

// ---------------------------------------------------------------------------
// Computed relationships
// ---------------------------------------------------------------------------

/// Whether a parameter takes the session.
pub open spec fn takes_session(name: Seq<char>, param_type: Seq<char>) -> bool {
    name == "hasura_session"@ && (param_type == "json"@ || param_type == "jsonb"@)
}

/// The first parameter from the `i`th on that takes the session.
pub open spec fn session_from(routine: Routine, i: nat) -> Option<Seq<char>>
    decreases routine.params@.len() - i,
{
    if i >= routine.params@.len() {
        None
    } else if takes_session(routine.params@[i as int].name@, routine.params@[i as int].param_type@) {
        Some(routine.params@[i as int].name@)
    } else {
        session_from(routine, i + 1)
    }
}

/// The parameter of a function that takes the session, if it has one.
pub open spec fn session_parameter(cache: SchemaCache, function: (Seq<char>, Seq<char>)) -> Option<
    Seq<char>,
> {
    match qualified(cache.routines@, function.0, function.1) {
        Some(routine) => session_from(routine, 0),
        None => None,
    }
}

/// The name of a function's session parameter, if it has one.
pub fn computed_session_argument(cache: &SchemaCache, function: &QualifiedIdentifier) -> (r: Option<
    String,
>)
    ensures
        text_opt(r) == session_parameter(*cache, function@),
{
    let routine = match find_qualified(&cache.routines, &function.schema, &function.name) {
        Some(routine) => routine,
        None => return None,
    };
    let mut i: usize = 0;
    while i < routine.params.len()
        invariant
            i <= routine.params.len(),
            session_from(*routine, 0) == session_from(*routine, i as nat),
            session_parameter(*cache, function@) == session_from(*routine, 0),
        decreases routine.params.len() - i,
    {
        let param = &routine.params[i];
        if same(&param.name, "hasura_session") && (same(&param.param_type, "json") || same(
            &param.param_type,
            "jsonb",
        )) {
            return Some(param.name.clone());
        }
        i += 1;
    }
    None
}

/// The named arguments a computed relationship's function is called with;
/// none where the parent row is all it takes.
pub open spec fn relationship_arguments(
    name: Seq<char>,
    arguments: Seq<FunctionArgument>,
    plan: EmbedPlan,
    parent_row: Seq<char>,
    given: Option<JsonV>,
    cache: SchemaCache,
    at: BindsV,
) -> Result<(Option<Seq<char>>, BindsV), (ErrorV, BindsV)> {
    match (plan.function, plan.row_argument) {
        (Some(function), Some(row_argument)) => {
            let session = session_parameter(cache, function@);
            if arguments.len() == 0 && session is None {
                Ok((None, at))
            } else {
                match arguments_from(
                    name,
                    arguments,
                    given,
                    0,
                    leading_arguments(row_argument@, parent_row, session),
                    at,
                ) {
                    Ok((passed, end)) => Ok((Some(joined(passed, ", "@)), end)),
                    Err((e, _, end)) => Err((e, end)),
                }
            }
        },
        _ => Ok((None, at)),
    }
}

/// What a function that binds values and may yield no SQL reports.
pub open spec fn optional_outcome(
    r: Result<Option<String>, Error>,
    param_idx: usize,
    values: Seq<Json>,
) -> Result<(Option<Seq<char>>, BindsV), (ErrorV, BindsV)> {
    match r {
        Ok(sql) => Ok((text_opt(sql), binds(param_idx, values))),
        Err(e) => Err((e@, binds(param_idx, values))),
    }
}

/// The argument list a computed relationship's function is called with.
///
/// `None` where the parent row is the only thing it takes. Anything else is
/// written by name: the row, the session where the function asks for one, and
/// whatever the client gave.
pub fn computed_arguments(
    relationship: &RelationshipField,
    plan: &EmbedPlan,
    parent_row: &str,
    given: Option<&Json>,
    param_idx: &mut usize,
    values: &mut Vec<Json>,
    cache: &SchemaCache,
) -> (r: Result<Option<String>, Error>)
    ensures
        optional_outcome(r, *final(param_idx), final(values)@) == relationship_arguments(
            relationship.name@,
            relationship.arguments@,
            *plan,
            parent_row@,
            json_ref(given),
            *cache,
            binds(*old(param_idx), old(values)@),
        ),
{
    match (&plan.function, &plan.row_argument) {
        (Some(function), Some(row_argument)) => {
            let session = computed_session_argument(cache, function);
            if relationship.arguments.len() == 0 && session.is_none() {
                return Ok(None);
            }
            let session: Option<&str> = match &session {
                Some(s) => Some(s.as_str()),
                None => None,
            };
            let mut passed = lead_arguments(row_argument, parent_row, session);
            match pass_arguments(
                &relationship.name,
                &relationship.arguments,
                given,
                &mut passed,
                param_idx,
                values,
            ) {
                Ok(_) => Ok(Some(join(&passed, ", "))),
                Err(e) => Err(e),
            }
        },
        _ => Ok(None),
    }
}

} // verus!

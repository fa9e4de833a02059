//! What a permission does to whatever is asked.

use crate::binds::BindsV;
use crate::catalog::EmbedPlan;
use crate::condition::{
    condition, conjunction, entries_from, entry_condition, members_from, CursorV,
};
use crate::embed::{narrowing, Selected};
use crate::error::ErrorV;
use crate::json::JsonV;
use crate::mutate::{
    entry_update_of, key_predicate, mutation_of, reached_rows, MutationType, MutationV,
};
use crate::read::{aggregated_rows, read_filter, read_of, read_scope, ReadField};
use crate::role::{both, filter_of, marked, Caller, Verb, PERMISSION};
use crate::scope::{ScopeV, Sources};
use crate::statement::{numbered_after, WriteSources};
use crate::text::joined;
use vstd::prelude::*;

verus! {

proof fn lemma_marks()
    ensures
        PERMISSION@ != "_and"@,
        PERMISSION@ != "_or"@,
        PERMISSION@ != "_not"@,
        "_and"@ != "_or"@,
{
    reveal_strlit("_permission");
    reveal_strlit("_and");
    reveal_strlit("_or");
    reveal_strlit("_not");
    assert(PERMISSION@.len() == 11);
    assert("_and"@.len() == 4);
    assert("_or"@.len() == 3);
}

/// A permission's predicate is compiled as the server's own: under the mark it
/// means what it means with no caller and its root at the table it is on.
pub proof fn law_permission_is_the_servers(predicate: JsonV, scope: ScopeV, at: CursorV)
    ensures
        condition(marked(predicate), scope, at) == condition(predicate, scope.system(), at),
{
    lemma_marks();
    let entries = seq![(PERMISSION@, predicate)];
    let none = Seq::<Seq<char>>::empty();
    match condition(predicate, scope.system(), at) {
        Ok((sql, end)) => {
            let parts = match sql {
                Some(sql) => none.push(sql),
                None => none,
            };
            assert(entry_condition(PERMISSION@, predicate, scope, none, at) == Ok::<
                (Seq<Seq<char>>, CursorV),
                (crate::error::ErrorV, CursorV),
            >((parts, end)));
            assert(entries_from(entries, 1, scope, parts, end) == Ok::<
                (Seq<Seq<char>>, CursorV),
                (crate::error::ErrorV, CursorV),
            >((parts, end)));
            assert(entries_from(entries, 0, scope, none, at) == entries_from(
                entries,
                1,
                scope,
                parts,
                end,
            ));
            assert(conjunction(parts) == sql);
        },
        Err(e) => {
            assert(entries_from(entries, 0, scope, none, at) == Err::<
                (Seq<Seq<char>>, CursorV),
                (crate::error::ErrorV, CursorV),
            >(e));
        },
    }
}

/// Who is asking changes nothing of what a permission says.
pub proof fn law_permission_ignores_the_caller(
    predicate: JsonV,
    scope: ScopeV,
    other: Option<Caller>,
    at: CursorV,
)
    ensures
        condition(marked(predicate), scope, at) == condition(
            marked(predicate),
            ScopeV { caller: other, ..scope },
            at,
        ),
{
    let elsewhere = ScopeV { caller: other, ..scope };
    law_permission_is_the_servers(predicate, scope, at);
    law_permission_is_the_servers(predicate, elsewhere, at);
    assert(scope.system() == elsewhere.system());
}

/// A request's predicate and a permission's are both held: where each
/// constrains something, the condition is the two with `AND` between them.
pub proof fn law_both_are_held(
    request: JsonV,
    permission: JsonV,
    scope: ScopeV,
    at: CursorV,
    asked: Seq<char>,
    mid: CursorV,
    granted: Seq<char>,
    end: CursorV,
)
    requires
        condition(request, scope, at) == Ok::<(Option<Seq<char>>, CursorV), (crate::error::ErrorV, CursorV)>(
            (Some(asked), mid),
        ),
        condition(permission, scope, mid) == Ok::<
            (Option<Seq<char>>, CursorV),
            (crate::error::ErrorV, CursorV),
        >((Some(granted), end)),
    ensures
        condition(both(Some(request), Some(permission))->0, scope, at) == Ok::<
            (Option<Seq<char>>, CursorV),
            (crate::error::ErrorV, CursorV),
        >((Some("("@ + (asked + " AND "@ + granted) + ")"@), end)),
{
    lemma_marks();
    let none = Seq::<Seq<char>>::empty();
    let members = seq![request, permission];
    let one = none.push(asked);
    let two = one.push(granted);
    assert(members_from(members, 2, scope, two, end) == Ok::<
        (Seq<Seq<char>>, CursorV),
        (crate::error::ErrorV, CursorV),
    >((two, end)));
    assert(members_from(members, 1, scope, one, mid) == members_from(members, 2, scope, two, end));
    assert(members_from(members, 0, scope, none, at) == members_from(members, 1, scope, one, mid));
    assert(two.drop_last() =~= one);
    assert(joined(one, " AND "@) == asked);
    assert(joined(two, " AND "@) == asked + " AND "@ + granted);
    let all = "("@ + joined(two, " AND "@) + ")"@;
    let entries = seq![("_and"@, JsonV::Array(members))];
    let parts = none.push(all);
    assert(entry_condition("_and"@, JsonV::Array(members), scope, none, at) == Ok::<
        (Seq<Seq<char>>, CursorV),
        (crate::error::ErrorV, CursorV),
    >((parts, end)));
    assert(entries_from(entries, 1, scope, parts, end) == Ok::<
        (Seq<Seq<char>>, CursorV),
        (crate::error::ErrorV, CursorV),
    >((parts, end)));
    assert(entries_from(entries, 0, scope, none, at) == entries_from(entries, 1, scope, parts, end));
    assert(conjunction(parts) == Some(all));
}

/// A permission that grants nothing refuses the whole, whatever is asked
/// beside it: a predicate that cannot be compiled is never passed over.
pub proof fn law_refused_permission_refuses(
    request: JsonV,
    permission: JsonV,
    scope: ScopeV,
    at: CursorV,
)
    requires
        condition(request, scope, at) is Ok ==> condition(
            permission,
            scope,
            (condition(request, scope, at)->Ok_0).1,
        ) is Err,
    ensures
        condition(both(Some(request), Some(permission))->0, scope, at) is Err,
{
    lemma_marks();
    let none = Seq::<Seq<char>>::empty();
    let members = seq![request, permission];
    match condition(request, scope, at) {
        Ok((sql, mid)) => {
            let one = match sql {
                Some(sql) => none.push(sql),
                None => none,
            };
            assert(members_from(members, 1, scope, one, mid) is Err);
            assert(members_from(members, 0, scope, none, at) == members_from(
                members,
                1,
                scope,
                one,
                mid,
            ));
        },
        Err(_) => {
            assert(members_from(members, 0, scope, none, at) is Err);
        },
    }
    let entries = seq![("_and"@, JsonV::Array(members))];
    assert(entry_condition("_and"@, JsonV::Array(members), scope, none, at) is Err);
    assert(entries_from(entries, 0, scope, none, at) is Err);
}

/// Where no rule restricts an operation, a request is compiled as it came.
pub proof fn law_unrestricted_is_unchanged(
    caller: Caller,
    schema: Seq<char>,
    table: Seq<char>,
    verb: Verb,
    request: Option<JsonV>,
)
    requires
        caller.ruled(schema, table, verb).filter is Ok,
        caller.ruled(schema, table, verb).filter->Ok_0 is None,
    ensures
        filter_of(caller.ruled(schema, table, verb)) == Ok::<
            Option<JsonV>,
            crate::error::ErrorV,
        >(None),
        both(request, None) == request,
{
}

/// A permission narrows every read: where a request asks for some rows and the
/// rule grants some, the rows read are those that both hold of, the rule's half
/// being what it is with no caller at all.
pub proof fn law_reads_hold_the_permission(
    field: ReadField,
    src: Sources<'_>,
    caller: Caller,
    request: JsonV,
    table_alias: Option<Seq<char>>,
    before: Seq<JsonV>,
    granted: JsonV,
    asked_sql: Seq<char>,
    mid: CursorV,
    granted_sql: Seq<char>,
    end: CursorV,
)
    requires
        filter_of(caller.ruled(field.schema_name@, field.table_name@, Verb::Select)) == Ok::<
            Option<JsonV>,
            ErrorV,
        >(Some(marked(granted))),
        condition(
            request,
            read_scope(field, src, caller, table_alias),
            CursorV {
                binds: BindsV { next: numbered_after(1, before.len()), values: Seq::empty() },
                aliases: 0,
            },
        ) == Ok::<(Option<Seq<char>>, CursorV), (ErrorV, CursorV)>((Some(asked_sql), mid)),
        condition(granted, read_scope(field, src, caller, table_alias).system(), mid) == Ok::<
            (Option<Seq<char>>, CursorV),
            (ErrorV, CursorV),
        >((Some(granted_sql), end)),
    ensures
        read_filter(field, src, caller, Some(request), table_alias, before) == Ok::<
            (Option<Seq<char>>, Seq<JsonV>),
            ErrorV,
        >(
            (
                Some("("@ + (asked_sql + " AND "@ + granted_sql) + ")"@),
                before + end.binds.values,
            ),
        ),
{
    let scope = read_scope(field, src, caller, table_alias);
    let at = CursorV {
        binds: BindsV { next: numbered_after(1, before.len()), values: Seq::empty() },
        aliases: 0,
    };
    law_permission_is_the_servers(granted, scope, mid);
    law_both_are_held(
        request,
        marked(granted),
        scope,
        at,
        asked_sql,
        mid,
        granted_sql,
        end,
    );
}

/// A table that a rule withholds is not read: not its rows, not numbers about
/// them, and not through a relationship.
pub proof fn law_withheld_tables_are_not_read(
    field: ReadField,
    src: Sources<'_>,
    caller: Caller,
    args: JsonV,
    selection: Selected,
)
    requires
        caller.ruled(field.schema_name@, field.table_name@, Verb::Select).filter is Err,
    ensures
        read_of(field, src, caller, args, selection) is Err,
        aggregated_rows(field, src, caller, args) is Err,
{
}

/// A relationship to a table that a rule withholds is not embedded.
pub proof fn law_withheld_tables_are_not_embedded(
    arguments: JsonV,
    plan: EmbedPlan,
    src: Sources<'_>,
    caller: Caller,
    target_type: Seq<char>,
    child_alias: Seq<char>,
    max_rows: Option<i64>,
    at: BindsV,
)
    requires
        caller.ruled(plan.foreign_schema@, plan.foreign_table@, Verb::Select).filter is Err,
    ensures
        narrowing(arguments, plan, src, caller, target_type, child_alias, max_rows, at) is Err,
{
}

/// A table that a rule withholds from updates or deletes is not reached by
/// one, by key or otherwise.
pub proof fn law_withheld_tables_are_not_written(
    ws: WriteSources<'_>,
    verb: Verb,
    by_key: bool,
    schema: Seq<char>,
    table: Seq<char>,
    pk_columns: Seq<(String, String)>,
    args: JsonV,
)
    requires
        ws.caller.ruled(schema, table, verb).filter is Err,
    ensures
        reached_rows(ws, verb, by_key, schema, table, pk_columns, args) is Err,
{
}

/// A write by key is narrowed as any other: naming the key of a row that a
/// rule withholds is no way to reach it.
pub proof fn law_keys_are_narrowed_too(
    ws: WriteSources<'_>,
    verb: Verb,
    schema: Seq<char>,
    table: Seq<char>,
    pk_columns: Seq<(String, String)>,
    args: JsonV,
    granted: JsonV,
)
    requires
        filter_of(ws.caller.ruled(schema, table, verb)) == Ok::<Option<JsonV>, ErrorV>(
            Some(marked(granted)),
        ),
        reached_rows(ws, verb, true, schema, table, pk_columns, args) is Ok,
    ensures
        ({
            let key = key_predicate(pk_columns, args, *ws.src.names, schema, table);
            key is Ok && reached_rows(ws, verb, true, schema, table, pk_columns, args)->Ok_0
                == both(Some(key->Ok_0), Some(marked(granted)))
        }),
{
}

/// Each of several updates is narrowed, and refused, as though it were sent
/// alone: that they share a transaction is the whole difference.
pub proof fn law_each_update_is_as_one_alone(
    ws: WriteSources<'_>,
    schema: Seq<char>,
    table: Seq<char>,
    pk_columns: Seq<(String, String)>,
    entry: JsonV,
    selection: Selected,
    max_rows: Option<i64>,
)
    requires
        entry is Object,
    ensures
        mutation_of(
            ws,
            MutationType::Update,
            schema,
            table,
            pk_columns,
            entry,
            selection,
            max_rows,
        ) == (match entry_update_of(ws, schema, table, entry) {
            Ok(statement) => Ok::<MutationV, ErrorV>(MutationV::Update(statement)),
            Err(e) => Err(e),
        }),
{
}

} // verus!

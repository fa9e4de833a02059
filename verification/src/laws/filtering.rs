//! What a filter is: how its conditions are put together.

use crate::binds::BindsV;
use crate::catalog::{column_behind, computed_behind, EmbedPlan, RelationshipField};
use crate::comparison::comparison;
use crate::computed::computed_sql;
use crate::condition::{
    aggregated, alias_of, column_operator, condition, conjunction, correlation_of, entries_from,
    entry_condition, members_from, operators_from, related_exists, table_exists, where_clause,
    ConditionV, ConditionsV, CursorV,
};
use crate::error::ErrorV;
use crate::json::JsonV;
use crate::laws::quoting::law_lists_are_separated;
use crate::role::Verb;
use crate::scope::ScopeV;
use crate::text::{decimal, ident, ident2, joined};
use vstd::prelude::*;

verus! {

// ---------------------------------------------------------------------------
// Several conditions
// ---------------------------------------------------------------------------

/// Two conditions that both have to hold.
pub open spec fn both_hold(a: Option<Seq<char>>, b: Option<Seq<char>>) -> Option<Seq<char>> {
    match (a, b) {
        (None, other) => other,
        (Some(only), None) => Some(only),
        (Some(x), Some(y)) => Some(x + " AND "@ + y),
    }
}

/// What comes after a condition, put together with it.
pub open spec fn with_more(first: Option<Seq<char>>, more: ConditionV) -> ConditionV {
    match more {
        Err(e) => Err(e),
        Ok((second, end)) => Ok((both_hold(first, second), end)),
    }
}

proof fn lemma_operators_after(
    ops: Seq<(Seq<char>, JsonV)>,
    i: nat,
    key: Seq<char>,
    scope: ScopeV,
    parts: Seq<Seq<char>>,
    at: CursorV,
)
    ensures
        operators_from(ops, i, key, scope, parts, at) == added(
            parts,
            operators_from(ops, i, key, scope, Seq::empty(), at),
        ),
    decreases ops.len() - i,
{
    let none = Seq::<Seq<char>>::empty();
    if i >= ops.len() {
        assert(parts + none =~= parts);
    } else {
        let (op, operand) = ops[i as int];
        match column_operator(op) {
            Some(operator) => match scope.other_column(operand, op) {
                Ok(other) => {
                    let sql = scope.column(key) + " "@ + operator + " "@ + other;
                    lemma_operators_after(ops, i + 1, key, scope, parts.push(sql), at);
                    lemma_operators_after(ops, i + 1, key, scope, none.push(sql), at);
                    lemma_added(
                        parts,
                        sql,
                        operators_from(ops, i + 1, key, scope, Seq::empty(), at),
                    );
                },
                Err(_) => {},
            },
            None => match comparison(
                scope.words,
                scope.column(key),
                key,
                scope.column_type(key),
                op,
                operand,
                at.binds,
            ) {
                Ok((sql, end)) => {
                    let next = CursorV { binds: end, aliases: at.aliases };
                    lemma_operators_after(ops, i + 1, key, scope, parts.push(sql), next);
                    lemma_operators_after(ops, i + 1, key, scope, none.push(sql), next);
                    lemma_added(
                        parts,
                        sql,
                        operators_from(ops, i + 1, key, scope, Seq::empty(), next),
                    );
                },
                Err(_) => {},
            },
        }
    }
}

/// Conditions after those that there are.
spec fn added(parts: Seq<Seq<char>>, more: ConditionsV) -> ConditionsV {
    match more {
        Ok((p, end)) => Ok((parts + p, end)),
        Err(e) => Err(e),
    }
}

proof fn lemma_added(parts: Seq<Seq<char>>, sql: Seq<char>, more: ConditionsV)
    ensures
        added(parts.push(sql), more) == added(
            parts,
            added(Seq::<Seq<char>>::empty().push(sql), more),
        ),
{
    match more {
        Ok((p, end)) => {
            assert(parts.push(sql) + p =~= parts + (Seq::<Seq<char>>::empty().push(sql) + p));
        },
        Err(_) => {},
    }
}

proof fn lemma_entry_after(
    key: Seq<char>,
    value: JsonV,
    scope: ScopeV,
    parts: Seq<Seq<char>>,
    at: CursorV,
)
    ensures
        entry_condition(key, value, scope, parts, at) == added(
            parts,
            entry_condition(key, value, scope, Seq::empty(), at),
        ),
{
    let none = Seq::<Seq<char>>::empty();
    assert(parts + none =~= parts);
    assert forall|sql: Seq<char>| #[trigger] parts.push(sql) == parts + none.push(sql) by {
        assert(parts.push(sql) =~= parts + none.push(sql));
    }
    match value {
        JsonV::Object(ops) => {
            lemma_operators_after(ops, 0, key, scope, parts, at);
        },
        _ => {},
    }
}

proof fn lemma_entries_after(
    entries: Seq<(Seq<char>, JsonV)>,
    i: nat,
    scope: ScopeV,
    parts: Seq<Seq<char>>,
    at: CursorV,
)
    ensures
        entries_from(entries, i, scope, parts, at) == added(
            parts,
            entries_from(entries, i, scope, Seq::empty(), at),
        ),
    decreases entries.len() - i,
{
    let none = Seq::<Seq<char>>::empty();
    if i >= entries.len() {
        assert(parts + none =~= parts);
    } else {
        let (key, value) = entries[i as int];
        lemma_entry_after(key, value, scope, parts, at);
        match entry_condition(key, value, scope, none, at) {
            Err(_) => {},
            Ok((p, mid)) => {
                lemma_entries_after(entries, i + 1, scope, parts + p, mid);
                lemma_entries_after(entries, i + 1, scope, p, mid);
                match entries_from(entries, i + 1, scope, none, mid) {
                    Ok((q, end)) => {
                        assert((parts + p) + q =~= parts + (p + q));
                    },
                    Err(_) => {},
                }
            },
        }
    }
}

proof fn lemma_entries_shifted(
    a: Seq<(Seq<char>, JsonV)>,
    b: Seq<(Seq<char>, JsonV)>,
    j: nat,
    scope: ScopeV,
    parts: Seq<Seq<char>>,
    at: CursorV,
)
    ensures
        entries_from(a + b, a.len() + j, scope, parts, at) == entries_from(b, j, scope, parts, at),
    decreases b.len() - j,
{
    if j < b.len() {
        assert((a + b)[(a.len() + j) as int] == b[j as int]);
        match entry_condition(b[j as int].0, b[j as int].1, scope, parts, at) {
            Ok((more, mid)) => lemma_entries_shifted(a, b, j + 1, scope, more, mid),
            Err(_) => {},
        }
    }
}

proof fn lemma_entries_split(
    a: Seq<(Seq<char>, JsonV)>,
    b: Seq<(Seq<char>, JsonV)>,
    i: nat,
    scope: ScopeV,
    parts: Seq<Seq<char>>,
    at: CursorV,
)
    requires
        i <= a.len(),
    ensures
        entries_from(a + b, i, scope, parts, at) == (match entries_from(a, i, scope, parts, at) {
            Ok((p, mid)) => entries_from(b, 0, scope, p, mid),
            Err(e) => Err(e),
        }),
    decreases a.len() - i,
{
    if i < a.len() {
        assert((a + b)[i as int] == a[i as int]);
        match entry_condition(a[i as int].0, a[i as int].1, scope, parts, at) {
            Ok((more, mid)) => lemma_entries_split(a, b, i + 1, scope, more, mid),
            Err(_) => {},
        }
    } else {
        lemma_entries_shifted(a, b, 0, scope, parts, at);
    }
}

proof fn lemma_conjoined(p: Seq<Seq<char>>, q: Seq<Seq<char>>)
    ensures
        conjunction(p + q) == both_hold(conjunction(p), conjunction(q)),
{
    law_lists_are_separated(p, q, " AND "@);
    if p.len() == 0 {
        assert(p + q =~= q);
    }
    if q.len() == 0 {
        assert(p + q =~= p);
    }
}

/// A filter that says several things is all of them, one after another and in
/// the order they were said: what some of its entries are, and what the others
/// are, with `AND` between. One that says nothing is no condition.
pub proof fn law_everything_said_has_to_hold(
    a: Seq<(Seq<char>, JsonV)>,
    b: Seq<(Seq<char>, JsonV)>,
    scope: ScopeV,
    at: CursorV,
)
    ensures
        condition(JsonV::Object(Seq::empty()), scope, at) == Ok::<
            (Option<Seq<char>>, CursorV),
            (ErrorV, CursorV),
        >((None, at)),
        condition(JsonV::Object(a + b), scope, at) == (match condition(
            JsonV::Object(a),
            scope,
            at,
        ) {
            Err(e) => Err(e),
            Ok((first, mid)) => with_more(first, condition(JsonV::Object(b), scope, mid)),
        }),
{
    let none = Seq::<Seq<char>>::empty();
    assert(entries_from(Seq::empty(), 0, scope, none, at) == Ok::<
        (Seq<Seq<char>>, CursorV),
        (ErrorV, CursorV),
    >((none, at)));
    lemma_entries_split(a, b, 0, scope, none, at);
    match entries_from(a, 0, scope, none, at) {
        Err(_) => {},
        Ok((p, mid)) => {
            lemma_entries_after(b, 0, scope, p, mid);
            match entries_from(b, 0, scope, none, mid) {
                Err(_) => {},
                Ok((q, end)) => {
                    lemma_conjoined(p, q);
                },
            }
        },
    }
}

/// A filter that says one thing is the conditions of that entry.
proof fn lemma_one_entry(key: Seq<char>, value: JsonV, scope: ScopeV, at: CursorV)
    ensures
        condition(JsonV::Object(seq![(key, value)]), scope, at) == (match entry_condition(
            key,
            value,
            scope,
            Seq::empty(),
            at,
        ) {
            Ok((parts, end)) => Ok((conjunction(parts), end)),
            Err(e) => Err(e),
        }),
{
    let entries = seq![(key, value)];
    assert(entries[0] == (key, value));
    let none = Seq::<Seq<char>>::empty();
    match entry_condition(key, value, scope, none, at) {
        Ok((parts, end)) => {
            assert(entries_from(entries, 1, scope, parts, end) == Ok::<
                (Seq<Seq<char>>, CursorV),
                (ErrorV, CursorV),
            >((parts, end)));
        },
        Err(_) => {},
    }
    assert(entries_from(entries, 0, scope, none, at) == entry_condition(
        key,
        value,
        scope,
        none,
        at,
    ));
}

proof fn lemma_one_part(sql: Seq<char>)
    ensures
        conjunction(Seq::<Seq<char>>::empty().push(sql)) == Some(sql),
{
    let parts = Seq::<Seq<char>>::empty().push(sql);
    assert(parts.len() == 1 && parts[0] == sql);
}

// ---------------------------------------------------------------------------
// Columns
// ---------------------------------------------------------------------------

/// Whether a key of a filter names a column: no connective is called so, nor a
/// relationship, nor what counts one.
pub open spec fn names_column(scope: ScopeV, key: Seq<char>) -> bool {
    &&& key != "_and"@
    &&& key != "_or"@
    &&& key != "_not"@
    &&& key != "_permission"@
    &&& key != "_exists"@
    &&& scope.relationship(key) is None
    &&& aggregated(scope, key) is None
}

/// A filter on a column is the comparison it asks for, of that column, as a
/// column of its type.
pub proof fn law_a_column_is_compared(
    scope: ScopeV,
    key: Seq<char>,
    op: Seq<char>,
    value: JsonV,
    at: CursorV,
)
    requires
        names_column(scope, key),
        column_operator(op) is None,
    ensures
        condition(
            JsonV::Object(seq![(key, JsonV::Object(seq![(op, value)]))]),
            scope,
            at,
        ) == (match comparison(
            scope.words,
            scope.column(key),
            key,
            scope.column_type(key),
            op,
            value,
            at.binds,
        ) {
            Ok((sql, end)) => Ok((Some(sql), CursorV { binds: end, aliases: at.aliases })),
            Err((e, end)) => Err((e, CursorV { binds: end, aliases: at.aliases })),
        }),
{
    let ops = seq![(op, value)];
    assert(ops[0] == (op, value));
    lemma_one_entry(key, JsonV::Object(ops), scope, at);
    let none = Seq::<Seq<char>>::empty();
    match comparison(
        scope.words,
        scope.column(key),
        key,
        scope.column_type(key),
        op,
        value,
        at.binds,
    ) {
        Ok((sql, end)) => {
            let next = CursorV { binds: end, aliases: at.aliases };
            assert(operators_from(ops, 1, key, scope, none.push(sql), next) == Ok::<
                (Seq<Seq<char>>, CursorV),
                (ErrorV, CursorV),
            >((none.push(sql), next)));
            lemma_one_part(sql);
        },
        Err(_) => {},
    }
}

/// A filter on a column that gives a bare value asks that the column equals it.
pub proof fn law_a_bare_value_is_equalled(
    scope: ScopeV,
    key: Seq<char>,
    value: JsonV,
    at: CursorV,
)
    requires
        names_column(scope, key),
        !(value is Object),
        at.binds.next < usize::MAX,
    ensures
        condition(JsonV::Object(seq![(key, value)]), scope, at) == Ok::<
            (Option<Seq<char>>, CursorV),
            (ErrorV, CursorV),
        >(
            (
                Some(scope.column(key) + " = "@ + ("$"@ + decimal(at.binds.next as nat))),
                CursorV {
                    binds: BindsV {
                        next: (at.binds.next + 1) as usize,
                        values: at.binds.values.push(value),
                    },
                    aliases: at.aliases,
                },
            ),
        ),
{
    lemma_one_entry(key, value, scope, at);
    lemma_one_part(scope.column(key) + " = "@ + ("$"@ + decimal(at.binds.next as nat)));
}

/// A column compared in two ways is compared in both.
pub proof fn law_every_comparison_has_to_hold(
    scope: ScopeV,
    key: Seq<char>,
    a: Seq<(Seq<char>, JsonV)>,
    b: Seq<(Seq<char>, JsonV)>,
    at: CursorV,
)
    requires
        names_column(scope, key),
    ensures
        condition(JsonV::Object(seq![(key, JsonV::Object(a + b))]), scope, at) == (match condition(
            JsonV::Object(seq![(key, JsonV::Object(a))]),
            scope,
            at,
        ) {
            Err(e) => Err(e),
            Ok((first, mid)) => with_more(
                first,
                condition(JsonV::Object(seq![(key, JsonV::Object(b))]), scope, mid),
            ),
        }),
{
    let none = Seq::<Seq<char>>::empty();
    lemma_one_entry(key, JsonV::Object(a + b), scope, at);
    lemma_one_entry(key, JsonV::Object(a), scope, at);
    lemma_operators_split(a, b, 0, key, scope, none, at);
    match operators_from(a, 0, key, scope, none, at) {
        Err(_) => {},
        Ok((p, mid)) => {
            lemma_one_entry(key, JsonV::Object(b), scope, mid);
            lemma_operators_after(b, 0, key, scope, p, mid);
            match operators_from(b, 0, key, scope, none, mid) {
                Err(_) => {},
                Ok((q, end)) => {
                    lemma_conjoined(p, q);
                },
            }
        },
    }
}

proof fn lemma_operators_shifted(
    a: Seq<(Seq<char>, JsonV)>,
    b: Seq<(Seq<char>, JsonV)>,
    j: nat,
    key: Seq<char>,
    scope: ScopeV,
    parts: Seq<Seq<char>>,
    at: CursorV,
)
    ensures
        operators_from(a + b, a.len() + j, key, scope, parts, at) == operators_from(
            b,
            j,
            key,
            scope,
            parts,
            at,
        ),
    decreases b.len() - j,
{
    if j < b.len() {
        assert((a + b)[(a.len() + j) as int] == b[j as int]);
        let (op, operand) = b[j as int];
        match column_operator(op) {
            Some(operator) => match scope.other_column(operand, op) {
                Ok(other) => lemma_operators_shifted(
                    a,
                    b,
                    j + 1,
                    key,
                    scope,
                    parts.push(scope.column(key) + " "@ + operator + " "@ + other),
                    at,
                ),
                Err(_) => {},
            },
            None => match comparison(
                scope.words,
                scope.column(key),
                key,
                scope.column_type(key),
                op,
                operand,
                at.binds,
            ) {
                Ok((sql, end)) => lemma_operators_shifted(
                    a,
                    b,
                    j + 1,
                    key,
                    scope,
                    parts.push(sql),
                    CursorV { binds: end, aliases: at.aliases },
                ),
                Err(_) => {},
            },
        }
    }
}

proof fn lemma_operators_split(
    a: Seq<(Seq<char>, JsonV)>,
    b: Seq<(Seq<char>, JsonV)>,
    i: nat,
    key: Seq<char>,
    scope: ScopeV,
    parts: Seq<Seq<char>>,
    at: CursorV,
)
    requires
        i <= a.len(),
    ensures
        operators_from(a + b, i, key, scope, parts, at) == (match operators_from(
            a,
            i,
            key,
            scope,
            parts,
            at,
        ) {
            Ok((p, mid)) => operators_from(b, 0, key, scope, p, mid),
            Err(e) => Err(e),
        }),
    decreases a.len() - i,
{
    if i < a.len() {
        assert((a + b)[i as int] == a[i as int]);
        let (op, operand) = a[i as int];
        match column_operator(op) {
            Some(operator) => match scope.other_column(operand, op) {
                Ok(other) => lemma_operators_split(
                    a,
                    b,
                    i + 1,
                    key,
                    scope,
                    parts.push(scope.column(key) + " "@ + operator + " "@ + other),
                    at,
                ),
                Err(_) => {},
            },
            None => match comparison(
                scope.words,
                scope.column(key),
                key,
                scope.column_type(key),
                op,
                operand,
                at.binds,
            ) {
                Ok((sql, end)) => lemma_operators_split(
                    a,
                    b,
                    i + 1,
                    key,
                    scope,
                    parts.push(sql),
                    CursorV { binds: end, aliases: at.aliases },
                ),
                Err(_) => {},
            },
        }
    } else {
        lemma_operators_shifted(a, b, 0, key, scope, parts, at);
    }
}

/// A column is written after what its rows are called, under its own name, and
/// it is of its own type. A computed field is the call that computes it.
pub proof fn law_columns_are_named(scope: ScopeV, name: Seq<char>)
    ensures
        ({
            let column = column_behind(scope.names, scope.qualified.0, scope.qualified.1, name);
            let plain = scope.sql_ref + "."@ + ident(column);
            match scope.resolution {
                None => scope.column(name) == plain && scope.column_type(name) is None,
                Some((cache, _)) => match cache.table(scope.qualified.0, scope.qualified.1) {
                    None => scope.column(name) == plain && scope.column_type(name) is None,
                    Some(table) => match table.column(column) {
                        Some(found) => {
                            &&& scope.column(name) == plain
                            &&& scope.column_type(name) == Some(found.nominal_type@)
                        },
                        None => {
                            &&& scope.column_type(name) is None
                            &&& computed_behind(scope.names, table, name) is None
                                ==> scope.column(name) == plain
                            &&& computed_behind(scope.names, table, name) is Some
                                ==> scope.column(name) == computed_sql(
                                computed_behind(scope.names, table, name)->0,
                                scope.row_ref + ".*"@,
                                scope.row_ref,
                            )
                        },
                    },
                },
            }
        }),
{
}

/// Another column is one of the same rows, by its name or by a list of its name
/// alone, or one of the rows the filter began with, after `$`.
pub proof fn law_other_columns_are_named(scope: ScopeV, name: Seq<char>, op: Seq<char>)
    ensures
        scope.other_column(JsonV::String(name), op) == Ok::<Seq<char>, ErrorV>(
            scope.sql_ref + "."@ + ident(
                column_behind(scope.names, scope.qualified.0, scope.qualified.1, name),
            ),
        ),
        scope.other_column(JsonV::Array(seq![JsonV::String(name)]), op) == Ok::<Seq<char>, ErrorV>(
            scope.sql_ref + "."@ + ident(
                column_behind(scope.names, scope.qualified.0, scope.qualified.1, name),
            ),
        ),
        scope.other_column(JsonV::Array(seq![JsonV::String("$"@), JsonV::String(name)]), op)
            == Ok::<Seq<char>, ErrorV>(
            scope.root_ref + "."@ + ident(
                column_behind(scope.names, scope.root_qualified.0, scope.root_qualified.1, name),
            ),
        ),
        scope.other_column(JsonV::Null, op) is Err,
{
}

// ---------------------------------------------------------------------------
// Connectives
// ---------------------------------------------------------------------------

/// What each of several filters is, in order; those that say nothing are left
/// out.
pub open spec fn each_of(members: Seq<JsonV>, scope: ScopeV, at: CursorV) -> ConditionsV
    decreases members.len(),
{
    if members.len() == 0 {
        Ok((Seq::empty(), at))
    } else {
        match condition(members[0], scope, at) {
            Err(e) => Err(e),
            Ok((first, mid)) => match each_of(members.drop_first(), scope, mid) {
                Err(e) => Err(e),
                Ok((rest, end)) => Ok(
                    (
                        match first {
                            Some(sql) => seq![sql] + rest,
                            None => rest,
                        },
                        end,
                    ),
                ),
            },
        }
    }
}

proof fn lemma_members(
    members: Seq<JsonV>,
    i: nat,
    scope: ScopeV,
    parts: Seq<Seq<char>>,
    at: CursorV,
)
    requires
        i <= members.len(),
    ensures
        members_from(members, i, scope, parts, at) == added(
            parts,
            each_of(members.skip(i as int), scope, at),
        ),
    decreases members.len() - i,
{
    let rest = members.skip(i as int);
    if i >= members.len() {
        assert(parts + Seq::<Seq<char>>::empty() =~= parts);
    } else {
        assert(rest[0] == members[i as int]);
        assert(rest.drop_first() =~= members.skip((i + 1) as int));
        match condition(members[i as int], scope, at) {
            Err(_) => {},
            Ok((Some(sql), mid)) => {
                lemma_members(members, i + 1, scope, parts.push(sql), mid);
                match each_of(rest.drop_first(), scope, mid) {
                    Ok((more, end)) => {
                        assert(parts.push(sql) + more =~= parts + (seq![sql] + more));
                    },
                    Err(_) => {},
                }
            },
            Ok((None, mid)) => {
                lemma_members(members, i + 1, scope, parts, mid);
            },
        }
    }
}

proof fn lemma_connectives()
    ensures
        "_and"@ != "_or"@,
        "_and"@ != "_not"@,
        "_or"@ != "_not"@,
        "_permission"@ != "_and"@,
        "_permission"@ != "_or"@,
        "_permission"@ != "_not"@,
        "_exists"@ != "_and"@,
        "_exists"@ != "_or"@,
        "_exists"@ != "_not"@,
        "_exists"@ != "_permission"@,
{
    reveal_strlit("_and");
    reveal_strlit("_or");
    reveal_strlit("_not");
    reveal_strlit("_permission");
    reveal_strlit("_exists");
    assert("_and"@.len() == 4 && "_or"@.len() == 3 && "_not"@.len() == 4);
    assert("_and"@[1] != "_not"@[1]);
    assert("_permission"@.len() == 11 && "_exists"@.len() == 7);
}

/// `_and` is every one of its members, and `_or` is any of them, in brackets.
/// With no member that says anything, `_and` holds of every row and `_or` of
/// none.
pub proof fn law_all_and_any(members: Seq<JsonV>, scope: ScopeV, at: CursorV)
    ensures
        ({
            let list = JsonV::Array(members);
            let all = condition(JsonV::Object(seq![("_and"@, list)]), scope, at);
            let any = condition(JsonV::Object(seq![("_or"@, list)]), scope, at);
            match each_of(members, scope, at) {
                Err(e) => {
                    &&& all == Err::<(Option<Seq<char>>, CursorV), (ErrorV, CursorV)>(e)
                    &&& any == Err::<(Option<Seq<char>>, CursorV), (ErrorV, CursorV)>(e)
                },
                Ok((texts, end)) => if texts.len() == 0 {
                    &&& all == Ok::<(Option<Seq<char>>, CursorV), (ErrorV, CursorV)>((None, end))
                    &&& any == Ok::<(Option<Seq<char>>, CursorV), (ErrorV, CursorV)>(
                        (Some("false"@), end),
                    )
                } else {
                    &&& all == Ok::<(Option<Seq<char>>, CursorV), (ErrorV, CursorV)>(
                        (Some("("@ + joined(texts, " AND "@) + ")"@), end),
                    )
                    &&& any == Ok::<(Option<Seq<char>>, CursorV), (ErrorV, CursorV)>(
                        (Some("("@ + joined(texts, " OR "@) + ")"@), end),
                    )
                },
            }
        }),
{
    lemma_connectives();
    let none = Seq::<Seq<char>>::empty();
    let list = JsonV::Array(members);
    lemma_one_entry("_and"@, list, scope, at);
    lemma_one_entry("_or"@, list, scope, at);
    lemma_members(members, 0, scope, none, at);
    assert(members.skip(0) =~= members);
    match each_of(members, scope, at) {
        Err(_) => {},
        Ok((texts, end)) => {
            assert(none + texts =~= texts);
            lemma_one_part("false"@);
            lemma_one_part("("@ + joined(texts, " AND "@) + ")"@);
            lemma_one_part("("@ + joined(texts, " OR "@) + ")"@);
        },
    }
}

/// `_not` is that its filter does not hold, and says nothing of a filter that
/// says nothing.
pub proof fn law_not_denies(value: JsonV, scope: ScopeV, at: CursorV)
    ensures
        condition(JsonV::Object(seq![("_not"@, value)]), scope, at) == (match condition(
            value,
            scope,
            at,
        ) {
            Err(e) => Err(e),
            Ok((None, end)) => Ok((None, end)),
            Ok((Some(sql), end)) => Ok((Some("NOT ("@ + sql + ")"@), end)),
        }),
{
    lemma_connectives();
    lemma_one_entry("_not"@, value, scope, at);
    match condition(value, scope, at) {
        Ok((Some(sql), end)) => {
            lemma_one_part("NOT ("@ + sql + ")"@);
        },
        _ => {},
    }
}

/// Whatever is not a list is refused as the members of `_and` and `_or`, and a
/// filter that is no object says nothing.
pub proof fn law_connectives_take_lists(value: JsonV, scope: ScopeV, at: CursorV)
    ensures
        !(value is Array) ==> (condition(
            JsonV::Object(seq![("_and"@, value)]),
            scope,
            at,
        ) matches Err((e, end)) && end == at),
        !(value is Array) ==> (condition(
            JsonV::Object(seq![("_or"@, value)]),
            scope,
            at,
        ) matches Err((e, end)) && end == at),
        !(value is Object) ==> condition(value, scope, at) == Ok::<
            (Option<Seq<char>>, CursorV),
            (ErrorV, CursorV),
        >((None, at)),
{
    lemma_connectives();
    lemma_one_entry("_and"@, value, scope, at);
    lemma_one_entry("_or"@, value, scope, at);
}

// ---------------------------------------------------------------------------
// Related rows
// ---------------------------------------------------------------------------

/// Where a filter goes on in rows of another table, called by a name of their
/// own.
pub open spec fn among(
    scope: ScopeV,
    schema: Seq<char>,
    table: Seq<char>,
    alias: Seq<char>,
    typename: Seq<char>,
) -> ScopeV {
    ScopeV {
        qualified: (schema, table),
        sql_ref: ident(alias),
        row_ref: ident(alias),
        typename,
        ..scope
    }
}

/// The same filter read by the server, for which the rows it stands in are
/// those it began with.
pub open spec fn by_the_server(scope: ScopeV) -> ScopeV {
    ScopeV { root_ref: scope.sql_ref, root_qualified: scope.qualified, caller: None, ..scope }
}

/// The conditions in brackets, after those that there are.
pub open spec fn and_bracketed(parts: Seq<Seq<char>>, more: Option<Seq<char>>) -> Seq<Seq<char>> {
    match more {
        None => parts,
        Some(sql) => parts + seq!["("@ + sql + ")"@],
    }
}

/// A filter on a relationship asks for a related row: one of the table at the
/// other end whose key columns equal this row's, for which what is asked holds,
/// and which the caller may see.
pub proof fn law_a_related_row_exists(
    key: Seq<char>,
    name: Seq<char>,
    field: RelationshipField,
    plan: EmbedPlan,
    value: JsonV,
    scope: ScopeV,
    at: CursorV,
)
    requires
        key != "_and"@,
        key != "_or"@,
        key != "_not"@,
        key != "_permission"@,
        key != "_exists"@,
        scope.resolution is Some,
        scope.relationship(key) == Some((name, field)),
        field.relationship.plan == Ok::<EmbedPlan, String>(plan),
        !plan.junction,
        plan.function is None,
        plan.columns@.len() > 0,
        at.aliases < usize::MAX,
    ensures
        ({
            let alias = "pgrst_rel_"@ + decimal((at.aliases + 1) as nat);
            let there = among(
                scope,
                plan.foreign_schema@,
                plan.foreign_table@,
                alias,
                field.target_type@,
            );
            let keys = Seq::new(
                plan.columns@.len(),
                |i: int|
                    scope.column(plan.columns@[i].0@) + " = "@ + there.column(
                        plan.columns@[i].1@,
                    ),
            );
            let head = "EXISTS (SELECT 1 FROM "@ + ident2(
                plan.foreign_schema@,
                plan.foreign_table@,
            ) + " AS "@ + ident(alias) + " WHERE "@;
            let start = CursorV { binds: at.binds, aliases: (at.aliases + 1) as usize };
            let r = condition(JsonV::Object(seq![(key, value)]), scope, at);
            match condition(value, there, start) {
                Err(e) => r == Err::<(Option<Seq<char>>, CursorV), (ErrorV, CursorV)>(e),
                Ok((asked, mid)) => match granted_there(plan, there, mid) {
                    Err(e) => r == Err::<(Option<Seq<char>>, CursorV), (ErrorV, CursorV)>(e),
                    Ok((granted, end)) => r == Ok::<
                        (Option<Seq<char>>, CursorV),
                        (ErrorV, CursorV),
                    >(
                        (
                            Some(
                                head + joined(
                                    and_bracketed(and_bracketed(keys, asked), granted),
                                    " AND "@,
                                ) + ")"@,
                            ),
                            end,
                        ),
                    ),
                },
            }
        }),
{
    lemma_one_entry(key, value, scope, at);
    let alias = "pgrst_rel_"@ + decimal((at.aliases + 1) as nat);
    let there = among(
        scope,
        plan.foreign_schema@,
        plan.foreign_table@,
        alias,
        field.target_type@,
    );
    let keys = Seq::new(
        plan.columns@.len(),
        |i: int| scope.column(plan.columns@[i].0@) + " = "@ + there.column(plan.columns@[i].1@),
    );
    assert(alias_of("pgrst_rel_"@, (at.aliases + 1) as usize) == alias);
    assert(crate::condition::child_of(scope, plan, alias, field) == there);
    assert(correlation_of(plan, scope, there) =~= keys);
    let start = CursorV { binds: at.binds, aliases: (at.aliases + 1) as usize };
    match condition(value, there, start) {
        Err(_) => {},
        Ok((asked, mid)) => {
            lemma_bracketed(keys, asked);
            let first = and_bracketed(keys, asked);
            match granted_there(plan, there, mid) {
                Err(_) => {},
                Ok((granted, end)) => {
                    lemma_bracketed(first, granted);
                    let r = related_exists(name, field, value, scope, at);
                    assert(r is Ok && (r->Ok_0).1 == end);
                    lemma_one_part((r->Ok_0).0);
                },
            }
        },
    }
}

proof fn lemma_bracketed(parts: Seq<Seq<char>>, more: Option<Seq<char>>)
    ensures
        crate::condition::with_bracketed(parts, more) == and_bracketed(parts, more),
{
    match more {
        None => {},
        Some(sql) => {
            assert(parts.push("("@ + sql + ")"@) =~= parts + seq!["("@ + sql + ")"@]);
        },
    }
}

/// What the caller may see of the rows of another table: the permission to
/// select them, read by the server.
pub open spec fn granted_there(plan: EmbedPlan, there: ScopeV, at: CursorV) -> ConditionV {
    match there.caller {
        None => Ok((None, at)),
        Some(caller) => match caller.ruled(
            plan.foreign_schema@,
            plan.foreign_table@,
            Verb::Select,
        ).filter {
            Err(fault) => Err(
                (
                    ErrorV { message: fault.message@, code: Some(fault.code@), path: None },
                    at,
                ),
            ),
            Ok(None) => Ok((None, at)),
            Ok(Some(predicate)) => condition(predicate@, by_the_server(there), at),
        },
    }
}

/// `_exists` asks for a row of any table the server has: one for which its
/// `_where` holds, whoever is asking.
pub proof fn law_a_row_exists(
    table: Seq<char>,
    asked: JsonV,
    scope: ScopeV,
    at: CursorV,
)
    requires
        at.aliases < usize::MAX,
        scope.resolution is Some ==> (scope.resolution->0).0.table(
            scope.qualified.0,
            table,
        ) is Some,
        scope.names.base(scope.qualified.0, table) is None,
    ensures
        ({
            let alias = "pgrst_exists_"@ + decimal((at.aliases + 1) as nat);
            let there = ScopeV {
                caller: None,
                ..among(scope, scope.qualified.0, table, alias, table)
            };
            let spec = JsonV::Object(seq![("_table"@, JsonV::String(table)), ("_where"@, asked)]);
            let start = CursorV { binds: at.binds, aliases: (at.aliases + 1) as usize };
            let head = "EXISTS (SELECT 1 FROM "@ + ident2(scope.qualified.0, table) + " AS "@
                + ident(alias) + " WHERE "@;
            condition(JsonV::Object(seq![("_exists"@, spec)]), scope, at) == (match condition(
                asked,
                there,
                start,
            ) {
                Err(e) => Err(e),
                Ok((None, end)) => Ok((Some(head + "true"@ + ")"@), end)),
                Ok((Some(sql), end)) => Ok((Some(head + sql + ")"@), end)),
            })
        }),
{
    lemma_connectives();
    reveal_strlit("_table");
    reveal_strlit("_where");
    let alias = "pgrst_exists_"@ + decimal((at.aliases + 1) as nat);
    let entries = seq![("_table"@, JsonV::String(table)), ("_where"@, asked)];
    let spec = JsonV::Object(entries);
    lemma_one_entry("_exists"@, spec, scope, at);
    assert("_table"@[1] == 't' && "_where"@[1] == 'w');
    assert(entries[0] == ("_table"@, JsonV::String(table)));
    assert(entries[1] == ("_where"@, asked));
    assert(spec.get("_table"@) == Some(JsonV::String(table)));
    crate::condition::lemma_place_range(entries, "_where"@, 0);
    assert(crate::condition::place_of(entries, "_where"@, 0) == 1);
    assert(alias_of("pgrst_exists_"@, (at.aliases + 1) as usize) == alias);
    let r = table_exists(spec, scope, at);
    if r is Ok {
        lemma_one_part((r->Ok_0).0);
    }
}

// ---------------------------------------------------------------------------
// A filter as a clause
// ---------------------------------------------------------------------------

/// A filter makes a clause of its condition, numbered on from where the
/// statement is, and one that says nothing makes none.
pub proof fn law_a_clause_is_its_condition(value: JsonV, start: usize, scope: ScopeV)
    ensures
        where_clause(None, start, scope) == Ok::<(Seq<char>, Seq<JsonV>), ErrorV>(
            (Seq::empty(), Seq::empty()),
        ),
        where_clause(Some(value), start, scope) == (match condition(
            value,
            scope,
            CursorV { binds: BindsV { next: start, values: Seq::empty() }, aliases: 0 },
        ) {
            Err((e, _)) => Err(e),
            Ok((None, end)) => Ok((Seq::empty(), end.binds.values)),
            Ok((Some(sql), end)) => Ok(("WHERE "@ + sql, end.binds.values)),
        }),
{
}

} // verus!

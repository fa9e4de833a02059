//! What holds of every write.

use crate::binds::{advanced, bound, following, BindsV};
use crate::condition::{condition, entries_from, where_clause, CursorV};
use crate::context::law_put_then_get;
use crate::error::ErrorV;
use crate::insert::{answered, next_step, InsertionV};
use crate::json::{entry_of, JsonV};
use crate::laws::binding::{grown, lemma_grown_bound, lemma_grown_on, lemma_grown_start};
use crate::laws::placeholder::{law_alike_to_itself, law_condition_is_a_template};
use crate::projection::second_of;
use crate::scope::ScopeV;
use crate::statement::{
    assignment, columns_set, deleted_rows, is_preset, numbered_after, operators_set,
    preset_assignments, put, put_all, unbounded_refusal, update_of, write_scope, written_row, SetV,
    StatementV, WriteSources,
};
use crate::text::has_text;
use crate::write::{written_as, written_value};
use vstd::prelude::*;

verus! {

// ---------------------------------------------------------------------------
// A write names the rows it reaches
// ---------------------------------------------------------------------------

/// Whether a filter names every row: there is none, or it asks nothing.
pub open spec fn constrains_nothing(filter: Option<JsonV>, scope: ScopeV) -> bool {
    match filter {
        None => true,
        Some(value) => condition(
            value,
            scope,
            CursorV { binds: BindsV { next: 1, values: Seq::empty() }, aliases: 0 },
        ) matches Ok((None, _)),
    }
}

/// No filter, an empty one and null name every row.
pub proof fn law_empty_filters_constrain_nothing(scope: ScopeV)
    ensures
        constrains_nothing(None, scope),
        constrains_nothing(Some(JsonV::Null), scope),
        constrains_nothing(Some(JsonV::Object(Seq::empty())), scope),
{
    let at = CursorV { binds: BindsV { next: 1, values: Seq::empty() }, aliases: 0 };
    assert(entries_from(Seq::empty(), 0, scope, Seq::empty(), at) == Ok::<
        (Seq<Seq<char>>, CursorV),
        (ErrorV, CursorV),
    >((Seq::empty(), at)));
}

/// A delete that names no rows is refused, not read as naming every row:
/// where there is no filter, and where there is one that asks nothing.
pub proof fn law_unbounded_delete_is_refused(
    ws: WriteSources<'_>,
    schema: Seq<char>,
    table: Seq<char>,
    typename: Seq<char>,
    filter: Option<JsonV>,
)
    requires
        constrains_nothing(filter, write_scope(ws, schema, table, typename)),
    ensures
        deleted_rows(ws, schema, table, typename, filter) == Err::<
            (Seq<char>, Seq<JsonV>),
            ErrorV,
        >(unbounded_refusal("delete"@, table)),
{
    lemma_asks_nothing(filter, 1, write_scope(ws, schema, table, typename));
}

/// An update that names no rows writes none: it is refused, or sets nothing.
pub proof fn law_unbounded_update_writes_nothing(
    ws: WriteSources<'_>,
    schema: Seq<char>,
    table: Seq<char>,
    typename: Seq<char>,
    operators: Seq<(Seq<char>, JsonV)>,
    types: Seq<(Seq<char>, Seq<char>)>,
    filter: Option<JsonV>,
)
    requires
        constrains_nothing(filter, write_scope(ws, schema, table, typename)),
    ensures
        ({
            let r = update_of(ws, schema, table, typename, operators, types, filter);
            r is Err || r == Ok::<Option<StatementV>, ErrorV>(None)
        }),
{
    let scope = write_scope(ws, schema, table, typename);
    assert forall|n: usize| (#[trigger] where_clause(filter, n, scope)) is Ok && (where_clause(
        filter,
        n,
        scope,
    )->Ok_0).0.len() == 0 by {
        lemma_asks_nothing(filter, n, scope);
    }
}

/// A filter that asks nothing asks nothing wherever its numbers begin.
proof fn lemma_asks_nothing(filter: Option<JsonV>, start: usize, scope: ScopeV)
    requires
        constrains_nothing(filter, scope),
    ensures
        where_clause(filter, start, scope) is Ok,
        (where_clause(filter, start, scope)->Ok_0).0.len() == 0,
{
    if let Some(value) = filter {
        let first = CursorV { binds: BindsV { next: 1, values: Seq::empty() }, aliases: 0 };
        let at = CursorV { binds: BindsV { next: start, values: Seq::empty() }, aliases: 0 };
        law_alike_to_itself(value);
        law_condition_is_a_template(value, value, scope, first, at);
    }
}

// ---------------------------------------------------------------------------
// Presets
// ---------------------------------------------------------------------------

proof fn lemma_put_all(
    entries: Seq<(Seq<char>, JsonV)>,
    over: Seq<(Seq<char>, JsonV)>,
    i: nat,
    key: Seq<char>,
)
    requires
        i <= over.len(),
        forall|a: int, b: int|
            0 <= a < b < over.len() ==> (#[trigger] over[a]).0 != (#[trigger] over[b]).0,
    ensures
        forall|k: int|
            i <= k < over.len() && over[k].0 == key ==> entry_of(put_all(entries, over, i), key)
                == Some((#[trigger] over[k]).1),
        (forall|k: int| i <= k < over.len() ==> (#[trigger] over[k]).0 != key) ==> entry_of(
            put_all(entries, over, i),
            key,
        ) == entry_of(entries, key),
    decreases over.len() - i,
{
    if i < over.len() {
        let next = put(entries, over[i as int].0, over[i as int].1);
        law_put_then_get(entries, over[i as int].0, over[i as int].1, key);
        lemma_put_all(next, over, i + 1, key);
        if over[i as int].0 == key {
            assert forall|k: int| i + 1 <= k < over.len() implies (#[trigger] over[k]).0 != key by {
                assert(over[i as int].0 != over[k].0);
            }
            assert forall|k: int|
                i <= k < over.len() && over[k].0 == key implies entry_of(
                put_all(entries, over, i),
                key,
            ) == Some((#[trigger] over[k]).1) by {
                if k != i {
                    assert(over[i as int].0 != over[k].0);
                }
            }
        }
    }
}

/// What a permission presets is inserted whatever was sent, and what it does
/// not preset is inserted as it was sent.
pub proof fn law_presets_are_inserted(
    sent: Seq<(Seq<char>, JsonV)>,
    presets: Seq<(Seq<char>, JsonV)>,
    k: int,
    other: Seq<char>,
)
    requires
        forall|a: int, b: int|
            0 <= a < b < presets.len() ==> (#[trigger] presets[a]).0 != (#[trigger] presets[b]).0,
        0 <= k < presets.len(),
        !is_preset(presets, other),
    ensures
        entry_of(put_all(sent, presets, 0), presets[k].0) == Some(presets[k].1),
        entry_of(put_all(sent, presets, 0), other) == entry_of(sent, other),
{
    lemma_put_all(sent, presets, 0, presets[k].0);
    lemma_put_all(sent, presets, 0, other);
}

/// Whether no column of a list is there twice, or preset.
pub open spec fn written_once(
    written: Seq<Seq<char>>,
    presets: Seq<(Seq<char>, JsonV)>,
) -> bool {
    &&& written.no_duplicates()
    &&& forall|i: int| 0 <= i < written.len() ==> !is_preset(presets, #[trigger] written[i])
}

proof fn lemma_columns_set(
    op: Seq<char>,
    map: Seq<(Seq<char>, JsonV)>,
    i: nat,
    ws: WriteSources<'_>,
    schema: Seq<char>,
    table: Seq<char>,
    presets: Seq<(Seq<char>, JsonV)>,
    types: Seq<(Seq<char>, Seq<char>)>,
    set: SetV,
)
    requires
        written_once(set.written, presets),
    ensures
        ({
            let r = columns_set(op, map, i, ws, schema, table, presets, types, set);
            r is Ok ==> written_once((r->Ok_0).written, presets) && grown(
                set.binds,
                (r->Ok_0).binds,
            )
        }),
    decreases map.len() - i,
{
    lemma_grown_start(set.binds);
    if i < map.len() {
        let column = crate::catalog::column_behind(
            *ws.src.names,
            schema,
            table,
            map[i as int].0,
        );
        if is_preset(presets, column) {
            lemma_columns_set(op, map, i + 1, ws, schema, table, presets, types, set);
        } else if !has_text(set.written, column) {
            match assignment(op, column, map[i as int].1, types, set.binds) {
                Err(_) => {},
                Ok((sql, end)) => {
                    let next = SetV {
                        parts: set.parts.push(sql),
                        written: set.written.push(column),
                        binds: end,
                    };
                    assert forall|j: int| 0 <= j < set.written.len() implies #[trigger] set.written[j]
                        != column by {}
                    assert(next.written.no_duplicates());
                    lemma_assignment(op, column, map[i as int].1, types, set.binds);
                    lemma_columns_set(op, map, i + 1, ws, schema, table, presets, types, next);
                    let r = columns_set(op, map, i, ws, schema, table, presets, types, set);
                    if r is Ok {
                        lemma_grown_on(set.binds, end, (r->Ok_0).binds);
                    }
                },
            }
        }
    }
}

proof fn lemma_assignment(
    op: Seq<char>,
    column: Seq<char>,
    value: JsonV,
    types: Seq<(Seq<char>, Seq<char>)>,
    at: BindsV,
)
    ensures
        ({
            let r = assignment(op, column, value, types, at);
            r is Ok ==> grown(at, (r->Ok_0).1)
        }),
{
    lemma_grown_start(at);
    lemma_grown_bound(at, at, value);
    lemma_grown_bound(at, at, written_value(second_of(types, column), value));
    if value is Array {
        crate::laws::binding::lemma_array(value->Array_0, "text[]"@, at);
    }
}

/// An update writes no column twice, leaves every preset column to the preset,
/// and gives each value it binds the next number.
pub proof fn law_update_writes_each_column_once(
    operators: Seq<(Seq<char>, JsonV)>,
    i: nat,
    ws: WriteSources<'_>,
    schema: Seq<char>,
    table: Seq<char>,
    presets: Seq<(Seq<char>, JsonV)>,
    types: Seq<(Seq<char>, Seq<char>)>,
    set: SetV,
)
    requires
        written_once(set.written, presets),
    ensures
        ({
            let r = operators_set(operators, i, ws, schema, table, presets, types, set);
            r is Ok ==> written_once((r->Ok_0).written, presets) && grown(
                set.binds,
                (r->Ok_0).binds,
            )
        }),
    decreases operators.len() - i,
{
    lemma_grown_start(set.binds);
    if i < operators.len() {
        match operators[i as int].1 {
            JsonV::Object(map) => {
                let op = operators[i as int].0;
                lemma_columns_set(op, map, 0, ws, schema, table, presets, types, set);
                match columns_set(op, map, 0, ws, schema, table, presets, types, set) {
                    Ok(more) => {
                        law_update_writes_each_column_once(
                            operators,
                            i + 1,
                            ws,
                            schema,
                            table,
                            presets,
                            types,
                            more,
                        );
                        let r = operators_set(
                            operators,
                            i,
                            ws,
                            schema,
                            table,
                            presets,
                            types,
                            set,
                        );
                        if r is Ok {
                            lemma_grown_on(set.binds, more.binds, (r->Ok_0).binds);
                        }
                    },
                    Err(_) => {},
                }
            },
            _ => {},
        }
    }
}

// ---------------------------------------------------------------------------
// Numbers of parameters
// ---------------------------------------------------------------------------

proof fn lemma_numbered_after(n: usize, k: nat)
    requires
        k <= usize::MAX,
    ensures
        advanced(n, k) == numbered_after(n, k),
    decreases k,
{
    if k > 0 {
        lemma_numbered_after(n, (k - 1) as nat);
    }
}

/// Counting on from the values that are bound gives the number that binding
/// them one by one has reached. So the parts of a statement, each numbered
/// after the values of those before it, share no number.
pub proof fn law_parts_are_numbered_on(from: BindsV, to: BindsV)
    requires
        grown(from, to),
        to.values.len() - from.values.len() <= usize::MAX,
    ensures
        to.next == numbered_after(from.next, (to.values.len() - from.values.len()) as nat),
{
    lemma_numbered_after(from.next, (to.values.len() - from.values.len()) as nat);
}

/// A row that is inserted binds one value for each of its columns, in order.
pub proof fn law_one_value_for_each_column(
    columns: Seq<(Seq<char>, JsonV)>,
    i: nat,
    types: Seq<(Seq<char>, Seq<char>)>,
    parts: Seq<Seq<char>>,
    at: BindsV,
)
    requires
        i <= columns.len(),
    ensures
        ({
            let (written, end) = written_row(columns, i, types, parts, at);
            &&& written.len() == parts.len() + columns.len() - i
            &&& end.values.len() == at.values.len() + columns.len() - i
            &&& grown(at, end)
        }),
    decreases columns.len() - i,
{
    lemma_grown_start(at);
    if i < columns.len() {
        let (column, value) = columns[i as int];
        let t = second_of(types, column);
        let mid = bound(at, written_value(t, value));
        lemma_grown_bound(at, at, written_value(t, value));
        law_one_value_for_each_column(
            columns,
            i + 1,
            types,
            parts.push(written_as(t, value, crate::binds::placeholder(at))),
            mid,
        );
        lemma_grown_on(at, mid, written_row(columns, i, types, parts, at).1);
    }
}

/// A preset binds one value for each of its columns.
pub proof fn law_one_value_for_each_preset(
    presets: Seq<(Seq<char>, JsonV)>,
    i: nat,
    types: Seq<(Seq<char>, Seq<char>)>,
    parts: Seq<Seq<char>>,
    at: BindsV,
)
    requires
        i <= presets.len(),
    ensures
        ({
            let (written, end) = preset_assignments(presets, i, types, parts, at);
            &&& written.len() == parts.len() + presets.len() - i
            &&& end.values.len() == at.values.len() + presets.len() - i
            &&& grown(at, end)
        }),
    decreases presets.len() - i,
{
    lemma_grown_start(at);
    if i < presets.len() {
        let (column, value) = presets[i as int];
        let t = second_of(types, column);
        let mid = bound(at, written_value(t, value));
        lemma_grown_bound(at, at, written_value(t, value));
        law_one_value_for_each_preset(
            presets,
            i + 1,
            types,
            parts.push(
                crate::text::ident(column) + " = "@ + written_as(
                    t,
                    value,
                    crate::binds::placeholder(at),
                ),
            ),
            mid,
        );
        lemma_grown_on(at, mid, preset_assignments(presets, i, types, parts, at).1);
    }
}

// ---------------------------------------------------------------------------
// The order of a nested insert
// ---------------------------------------------------------------------------

/// A row is written only once every row it points at is: its statement comes
/// when none of those is left, and when the row itself is not written yet.
pub proof fn law_rows_pointed_at_come_first(ws: WriteSources<'_>, state: InsertionV)
    requires
        state.frames.len() > 0,
        next_step(ws, state) is Ok,
        (next_step(ws, state)->Ok_0).1 is Execute,
    ensures
        state.frames.last().next_one >= state.frames.last().to_one.len(),
        state.frames.last().row is None,
        (next_step(ws, state)->Ok_0).0.frames.len() == state.frames.len(),
{
}

/// A row inside another is begun either before the other is written, where the
/// other points at it, or after, where it points at the other.
pub proof fn law_rows_pointing_back_come_last(ws: WriteSources<'_>, state: InsertionV)
    requires
        state.frames.len() > 0,
        next_step(ws, state) is Ok,
        (next_step(ws, state)->Ok_0).0.frames.len() > state.frames.len(),
    ensures
        ({
            let top = state.frames.last();
            top.next_one < top.to_one.len() || (top.row is Some && top.next_many
                < top.to_many.len())
        }),
{
}

/// A row that fails its permission's check takes the whole insert with it.
pub proof fn law_failed_check_refuses(state: InsertionV, row: JsonV)
    requires
        state.frames.len() > 0,
        state.frames.last().checked,
    ensures
        answered(state, Some((row, false))) is Err,
{
}

/// Only a row that was written is counted, and each is counted once.
pub proof fn law_written_rows_are_counted(
    state: InsertionV,
    answer: Option<(JsonV, bool)>,
)
    requires
        state.frames.len() > 0,
        answered(state, answer) is Ok,
    ensures
        (answered(state, answer)->Ok_0).0.written == (if answer is Some {
            following(state.written)
        } else {
            state.written
        }),
{
}

/// Going on counts nothing.
pub proof fn law_steps_count_nothing(ws: WriteSources<'_>, state: InsertionV)
    requires
        next_step(ws, state) is Ok,
    ensures
        (next_step(ws, state)->Ok_0).0.written == state.written,
{
}

} // verus!

//! What is written: the statements of inserts, upserts, updates and deletes.

use crate::binds::{bound, BindsV};
use crate::catalog::{column_behind, NameOverrides, Table};
use crate::condition::{condition, where_clause, CursorV};
use crate::error::ErrorV;
use crate::json::{entries_view, JsonV};
use crate::laws::comparing::{after_list, after_one, law_arrays_hold_their_members, nth_item};
use crate::ordering::strings_from;
use crate::projection::{own_types, row_as_json, second_of};
use crate::role::{Rule, Verb};
use crate::scope::ScopeV;
use crate::statement::{
    assignment, check_clause, conflict_clause, excluded_assignments, insert_of, is_constraint,
    is_preset, numbered_after, operators_set, preset_assignments, update_of, updated_fields,
    write_scope, written_row, SetV, StatementV, WriteSources,
};
use crate::text::{decimal, has_text, ident, ident2, joined};
use crate::write::{written_as, written_value};
use vstd::prelude::*;

verus! {

// ---------------------------------------------------------------------------
// Values
// ---------------------------------------------------------------------------

/// A value is written as its placeholder, taken as its column's type. A shape
/// is read from its document and an amount of money is written by its number.
pub proof fn law_values_are_written_as_their_columns(
    column_type: Option<Seq<char>>,
    value: JsonV,
    n: nat,
)
    ensures
        ({
            let dollar = "$"@ + decimal(n);
            let sql = written_as(column_type, value, dollar);
            match column_type {
                None => sql == dollar,
                Some(t) => if value is Object && t == "geography"@ {
                    sql == "ST_GeomFromGeoJSON("@ + dollar + ")::geography"@
                } else if value is Object && t == "geometry"@ {
                    sql == "ST_GeomFromGeoJSON("@ + dollar + ")"@
                } else if value is Number && t == "money"@ {
                    sql == dollar + "::numeric::money"@
                } else {
                    sql == dollar + "::"@ + t
                },
            }
        }),
{
    reveal_strlit("");
    let dollar = "$"@ + decimal(n);
    assert(dollar + ""@ =~= dollar);
    if column_type is Some {
        assert(dollar + ("::"@ + column_type->0) =~= dollar + "::"@ + column_type->0);
    }
}

/// A value is bound as it was sent. Only a column of documents takes a text, a
/// number or a truth as the document it is, and only a column of arrays takes a
/// list as an array.
pub proof fn law_values_are_bound_as_sent(column_type: Option<Seq<char>>, value: JsonV)
    ensures
        ({
            let sent = written_value(column_type, value);
            match column_type {
                None => sent == value,
                Some(t) => if t == "json"@ || t == "jsonb"@ {
                    sent == (if value is String || value is Number || value is Bool {
                        JsonV::String(crate::json::json_text(value))
                    } else {
                        value
                    })
                } else if value is Array && crate::write::names_array(t) {
                    sent == JsonV::String(crate::write::array_text(value))
                } else {
                    sent == value
                },
            }
        }),
{
}

// ---------------------------------------------------------------------------
// What an update does to a column
// ---------------------------------------------------------------------------

proof fn lemma_update_words()
    ensures
        "_set"@.len() == 4,
        "_inc"@.len() == 4,
        "_append"@.len() == 7,
        "_prepend"@.len() == 8,
        "_delete_key"@.len() == 11,
        "_delete_elem"@.len() == 12,
        "_delete_at_path"@.len() == 15,
        "_set"@[1] == 's',
        "_inc"@[1] == 'i',
{
    reveal_strlit("_set");
    reveal_strlit("_inc");
    reveal_strlit("_append");
    reveal_strlit("_prepend");
    reveal_strlit("_delete_key");
    reveal_strlit("_delete_elem");
    reveal_strlit("_delete_at_path");
}

/// What each operator of an update does to a column. `_set` gives it the value
/// and `_inc` adds the value to it. `_append` and `_prepend` put the value after
/// the document and before it. `_delete_key` and `_delete_elem` take a key and an
/// element out of it, and `_delete_at_path` what a path leads to.
pub proof fn law_each_operator_changes_its_column(
    column: Seq<char>,
    value: JsonV,
    types: Seq<(Seq<char>, Seq<char>)>,
    at: BindsV,
)
    requires
        at.next < usize::MAX,
    ensures
        ({
            let c = ident(column);
            let t = second_of(types, column);
            let dollar = "$"@ + decimal(at.next as nat);
            let written = written_as(t, value, dollar);
            &&& !(t == Some("geometry"@) || t == Some("geography"@)) ==> assignment(
                "_set"@,
                column,
                value,
                types,
                at,
            ) == Ok::<(Seq<char>, BindsV), (ErrorV, BindsV)>(
                (c + " = "@ + written, after_one(at, written_value(t, value))),
            )
            &&& assignment("_inc"@, column, value, types, at) == Ok::<
                (Seq<char>, BindsV),
                (ErrorV, BindsV),
            >((c + " = "@ + c + " + "@ + written, after_one(at, value)))
            &&& assignment("_append"@, column, value, types, at) == Ok::<
                (Seq<char>, BindsV),
                (ErrorV, BindsV),
            >((c + " = "@ + c + " || "@ + dollar + "::jsonb"@, after_one(at, value)))
            &&& assignment("_prepend"@, column, value, types, at) == Ok::<
                (Seq<char>, BindsV),
                (ErrorV, BindsV),
            >((c + " = "@ + dollar + "::jsonb || "@ + c, after_one(at, value)))
            &&& assignment("_delete_key"@, column, value, types, at) == Ok::<
                (Seq<char>, BindsV),
                (ErrorV, BindsV),
            >((c + " = "@ + c + " - "@ + dollar + "::text"@, after_one(at, value)))
            &&& assignment("_delete_elem"@, column, value, types, at) == Ok::<
                (Seq<char>, BindsV),
                (ErrorV, BindsV),
            >((c + " = "@ + c + " - "@ + dollar + "::int"@, after_one(at, value)))
            &&& !(value is Array) ==> (assignment(
                "_delete_at_path"@,
                column,
                value,
                types,
                at,
            ) matches Err((e, end)) && end == at)
            &&& value is Array && at.next + value->Array_0.len() < usize::MAX ==> assignment(
                "_delete_at_path"@,
                column,
                value,
                types,
                at,
            ) == Ok::<(Seq<char>, BindsV), (ErrorV, BindsV)>(
                (
                    c + " = "@ + c + " #- "@ + ("ARRAY["@ + joined(
                        Seq::new(value->Array_0.len(), |k: int| nth_item(at.next as nat, k)),
                        ", "@,
                    ) + "]::"@ + "text[]"@),
                    after_list(at, value->Array_0),
                ),
            )
        }),
{
    lemma_update_words();
    if value is Array && at.next + value->Array_0.len() < usize::MAX {
        law_arrays_hold_their_members(value->Array_0, "text[]"@, at);
    }
}

/// Any other operator is refused.
pub proof fn law_no_other_operator_changes_a_column(
    op: Seq<char>,
    column: Seq<char>,
    value: JsonV,
    types: Seq<(Seq<char>, Seq<char>)>,
    at: BindsV,
)
    requires
        op != "_set"@,
        op != "_inc"@,
        op != "_append"@,
        op != "_prepend"@,
        op != "_delete_key"@,
        op != "_delete_elem"@,
        op != "_delete_at_path"@,
    ensures
        assignment(op, column, value, types, at) is Err,
{
}

/// An update of one column of a table, by one operator, with a filter, that no
/// permission narrows: the column is changed as the operator says, on the rows
/// for which the filter holds, and those rows come back.
pub proof fn law_an_update_changes_the_rows_it_names(
    ws: WriteSources<'_>,
    schema: Seq<char>,
    table: Seq<char>,
    typename: Seq<char>,
    op: Seq<char>,
    field: Seq<char>,
    value: JsonV,
    types: Seq<(Seq<char>, Seq<char>)>,
    filter: JsonV,
    change: Seq<char>,
    changed: BindsV,
    held: Seq<char>,
    values: Seq<JsonV>,
)
    requires
        ({
            let rule = ws.caller.ruled(schema, table, Verb::Update);
            &&& rule.presets is Ok && rule.presets->Ok_0@.len() == 0
            &&& rule.check matches Ok(None)
        }),
        assignment(
            op,
            column_behind(*ws.src.names, schema, table, field),
            value,
            types,
            BindsV { next: 1, values: Seq::empty() },
        ) == Ok::<(Seq<char>, BindsV), (ErrorV, BindsV)>((change, changed)),
        where_clause(Some(filter), changed.next, write_scope(ws, schema, table, typename)) == Ok::<
            (Seq<char>, Seq<JsonV>),
            ErrorV,
        >((held, values)),
        held.len() > 0,
    ensures
        update_of(
            ws,
            schema,
            table,
            typename,
            seq![(op, JsonV::Object(seq![(field, value)]))],
            types,
            Some(filter),
        ) == Ok::<Option<StatementV>, ErrorV>(
            Some(
                StatementV {
                    sql: "UPDATE "@ + ident2(schema, table) + " AS "@ + ident("pgrst_row"@)
                        + " SET "@ + change + " "@ + held + " RETURNING "@ + row_as_json(
                        ident("pgrst_row"@),
                        types,
                    ),
                    values: changed.values + values,
                    checked: false,
                },
            ),
        ),
{
    let rule = ws.caller.ruled(schema, table, Verb::Update);
    let presets = entries_view(rule.presets->Ok_0@);
    assert(presets.len() == 0);
    let none = Seq::<Seq<char>>::empty();
    let start = BindsV { next: 1, values: Seq::empty() };
    assert(preset_assignments(presets, 0, types, none, start) == (none, start));
    let operators = seq![(op, JsonV::Object(seq![(field, value)]))];
    let map = seq![(field, value)];
    assert(map[0] == (field, value));
    assert(operators[0] == (op, JsonV::Object(map)));
    let column = column_behind(*ws.src.names, schema, table, field);
    let set = SetV { parts: none, written: none, binds: start };
    let after = SetV { parts: none.push(change), written: none.push(column), binds: changed };
    assert(!is_preset(presets, column));
    assert(!has_text(none, column));
    assert(crate::statement::columns_set(
        op,
        map,
        1,
        ws,
        schema,
        table,
        presets,
        types,
        after,
    ) == Ok::<SetV, ErrorV>(after));
    assert(crate::statement::columns_set(op, map, 0, ws, schema, table, presets, types, set)
        == Ok::<SetV, ErrorV>(after));
    assert(operators_set(operators, 1, ws, schema, table, presets, types, after) == Ok::<
        SetV,
        ErrorV,
    >(after));
    assert(operators_set(operators, 0, ws, schema, table, presets, types, set) == Ok::<
        SetV,
        ErrorV,
    >(after));
    assert(joined(after.parts, ", "@) == change);
    let scope = write_scope(ws, schema, table, typename);
    assert(check_clause(rule, scope, numbered_after(changed.next, values.len())) == Ok::<
        (Seq<char>, Seq<JsonV>),
        ErrorV,
    >((Seq::empty(), Seq::empty())));
    let text = "UPDATE "@ + ident2(schema, table) + " AS "@ + ident("pgrst_row"@) + " SET "@
        + change + " "@ + held + " RETURNING "@ + row_as_json(ident("pgrst_row"@), types);
    assert(text + Seq::<char>::empty() =~= text);
    assert(changed.values + values + Seq::<JsonV>::empty() =~= changed.values + values);
}

/// What a write is checked by comes back with its rows, after them: whether the
/// permission's check holds of the row that was written.
pub proof fn law_a_check_comes_back(rule: Rule, check: JsonV, scope: ScopeV, start: usize)
    requires
        rule.check matches Ok(Some(found)) && found@ == check,
    ensures
        check_clause(rule, scope, start) == (match condition(
            check,
            scope,
            CursorV { binds: BindsV { next: start, values: Seq::empty() }, aliases: 0 },
        ) {
            Err((e, _)) => Err(e),
            Ok((None, _)) => Ok((Seq::empty(), Seq::empty())),
            Ok((Some(sql), end)) => Ok(
                (", ("@ + sql + ") AS "@ + ident("pgrst_permission_check"@), end.binds.values),
            ),
        }),
{
}

// ---------------------------------------------------------------------------
// Inserts
// ---------------------------------------------------------------------------

/// The value of the `i`th column of a row that is written.
pub open spec fn nth_value(
    columns: Seq<(Seq<char>, JsonV)>,
    types: Seq<(Seq<char>, Seq<char>)>,
    i: int,
) -> Seq<char> {
    written_as(
        second_of(types, columns[i].0),
        columns[i].1,
        "$"@ + decimal((i + 1) as nat),
    )
}

/// What is bound for the `i`th column.
pub open spec fn nth_bound(
    columns: Seq<(Seq<char>, JsonV)>,
    types: Seq<(Seq<char>, Seq<char>)>,
    i: int,
) -> JsonV {
    written_value(second_of(types, columns[i].0), columns[i].1)
}

proof fn lemma_written_row(
    columns: Seq<(Seq<char>, JsonV)>,
    i: nat,
    types: Seq<(Seq<char>, Seq<char>)>,
    parts: Seq<Seq<char>>,
    at: BindsV,
)
    requires
        i <= columns.len(),
        columns.len() + 1 < usize::MAX,
        at.next == i + 1,
        at.values == Seq::new(i, |k: int| nth_bound(columns, types, k)),
        parts == Seq::new(i, |k: int| nth_value(columns, types, k)),
    ensures
        written_row(columns, i, types, parts, at).0 == Seq::new(
            columns.len(),
            |k: int| nth_value(columns, types, k),
        ),
        written_row(columns, i, types, parts, at).1.values == Seq::new(
            columns.len(),
            |k: int| nth_bound(columns, types, k),
        ),
    decreases columns.len() - i,
{
    if i < columns.len() {
        let more = parts.push(nth_value(columns, types, i as int));
        assert(more =~= Seq::new(i + 1, |k: int| nth_value(columns, types, k)));
        let next = bound(at, nth_bound(columns, types, i as int));
        assert(next.values =~= Seq::new(i + 1, |k: int| nth_bound(columns, types, k)));
        lemma_written_row(columns, i + 1, types, more, next);
    }
}

/// A row is inserted with each of its columns given its own value, in order,
/// and it comes back as it was written. A row of no columns takes every
/// default.
pub proof fn law_an_insert_writes_its_columns(
    ws: WriteSources<'_>,
    table: Table,
    schema: Seq<char>,
    name: Seq<char>,
    columns: Seq<(Seq<char>, JsonV)>,
    path: Seq<char>,
)
    requires
        ({
            let rule = ws.caller.ruled(schema, name, Verb::Insert);
            &&& rule.presets is Ok && rule.presets->Ok_0@.len() == 0
            &&& rule.check matches Ok(None)
        }),
        columns.len() + 1 < usize::MAX,
    ensures
        ({
            let types = own_types(table);
            let target = "INSERT INTO "@ + ident2(schema, name) + " AS "@ + ident("pgrst_row"@);
            let answer = " RETURNING "@ + row_as_json(ident("pgrst_row"@), types);
            let names = Seq::new(columns.len(), |k: int| ident(columns[k].0));
            let given = Seq::new(columns.len(), |k: int| nth_value(columns, types, k));
            insert_of(ws, table, schema, name, columns, None, path) == Ok::<StatementV, ErrorV>(
                StatementV {
                    sql: if columns.len() == 0 {
                        target + " DEFAULT VALUES"@ + answer
                    } else {
                        target + " ("@ + joined(names, ", "@) + ") VALUES ("@ + joined(
                            given,
                            ", "@,
                        ) + ")"@ + answer
                    },
                    values: Seq::new(columns.len(), |k: int| nth_bound(columns, types, k)),
                    checked: false,
                },
            )
        }),
{
    let types = own_types(table);
    let rule = ws.caller.ruled(schema, name, Verb::Insert);
    let presets = entries_view(rule.presets->Ok_0@);
    assert(presets.len() == 0);
    assert(crate::statement::put_all(columns, presets, 0) == columns);
    let none = Seq::<Seq<char>>::empty();
    let start = BindsV { next: 1, values: Seq::empty() };
    assert(none =~= Seq::new(0, |k: int| nth_value(columns, types, k)));
    assert(start.values =~= Seq::new(0, |k: int| nth_bound(columns, types, k)));
    lemma_written_row(columns, 0, types, none, start);
    let names = Seq::new(columns.len(), |k: int| ident(columns[k].0));
    assert(crate::statement::column_list(columns) =~= names);
    let r = insert_of(ws, table, schema, name, columns, None, path);
    assert(r is Ok);
    let sent = Seq::new(columns.len(), |k: int| nth_bound(columns, types, k));
    assert((r->Ok_0).values =~= sent);
    let target = "INSERT INTO "@ + ident2(schema, name) + " AS "@ + ident("pgrst_row"@);
    let answer = " RETURNING "@ + row_as_json(ident("pgrst_row"@), types);
    let given = Seq::new(columns.len(), |k: int| nth_value(columns, types, k));
    if columns.len() == 0 {
        assert((r->Ok_0).sql =~= target + " DEFAULT VALUES"@ + answer);
    } else {
        assert((r->Ok_0).sql =~= target + " ("@ + joined(names, ", "@) + ") VALUES ("@ + joined(
            given,
            ", "@,
        ) + ")"@ + answer);
    }
}

// ---------------------------------------------------------------------------
// Upserts
// ---------------------------------------------------------------------------

/// A column given the value that was proposed for it, rather than the one that
/// is stored.
pub open spec fn takes_the_proposed(column: Seq<char>) -> Seq<char> {
    ident(column) + " = EXCLUDED."@ + ident(column)
}

/// Whether an assignment gives a column that was asked for the value that was
/// proposed for it: one of the fields from the `i`th on, and none that a preset
/// writes.
pub open spec fn is_proposal(
    fields: Seq<Seq<char>>,
    i: nat,
    names: NameOverrides,
    table: Table,
    presets: Seq<(Seq<char>, JsonV)>,
    sql: Seq<char>,
) -> bool {
    exists|k: int|
        {
            let column = column_behind(names, table.schema@, table.name@, #[trigger] fields[k]);
            i <= k < fields.len() && !is_preset(presets, column) && sql == ident(column)
                + " = EXCLUDED."@ + ident(column)
        }
}

proof fn lemma_proposed(
    fields: Seq<Seq<char>>,
    i: nat,
    ws: WriteSources<'_>,
    table: Table,
    presets: Seq<(Seq<char>, JsonV)>,
    parts: Seq<Seq<char>>,
)
    requires
        i <= fields.len(),
    ensures
        ({
            let r = excluded_assignments(fields, i, ws, table, presets, parts);
            &&& parts.len() <= r.len()
            &&& r.take(parts.len() as int) == parts
            &&& forall|k: int|
                {
                    let column = column_behind(
                        *ws.src.names,
                        table.schema@,
                        table.name@,
                        #[trigger] fields[k],
                    );
                    i <= k < fields.len() && !is_preset(presets, column) ==> r.contains(
                        takes_the_proposed(column),
                    )
                }
            &&& forall|m: int|
                parts.len() <= m < r.len() ==> is_proposal(
                    fields,
                    i,
                    *ws.src.names,
                    table,
                    presets,
                    #[trigger] r[m],
                )
        }),
    decreases fields.len() - i,
{
    if i < fields.len() {
        let column = column_behind(*ws.src.names, table.schema@, table.name@, fields[i as int]);
        let next = if is_preset(presets, column) {
            parts
        } else {
            parts.push(takes_the_proposed(column))
        };
        lemma_proposed(fields, i + 1, ws, table, presets, next);
        let r = excluded_assignments(fields, i, ws, table, presets, parts);
        assert(r == excluded_assignments(fields, i + 1, ws, table, presets, next));
        assert forall|m: int| 0 <= m < next.len() implies r[m] == next[m] by {
            assert(r.take(next.len() as int)[m] == next[m]);
        }
        assert(r.take(parts.len() as int) =~= parts);
        if !is_preset(presets, column) {
            assert(r[parts.len() as int] == takes_the_proposed(column));
            assert(r.contains(takes_the_proposed(column)));
        }
        assert forall|m: int| parts.len() <= m < r.len() implies is_proposal(
            fields,
            i,
            *ws.src.names,
            table,
            presets,
            #[trigger] r[m],
        ) by {
            if m < next.len() {
                assert(fields[i as int] == fields[i as int]);
            } else {
                assert(is_proposal(fields, i + 1, *ws.src.names, table, presets, r[m]));
            }
        }
    } else {
        assert(parts.take(parts.len() as int) =~= parts);
    }
}

/// An upsert gives each column it was asked to update the value that the insert
/// proposed for it, whatever is stored, unless a preset writes the column; and
/// it changes no other. What a preset writes comes before.
pub proof fn law_upserts_take_what_was_proposed(
    fields: Seq<Seq<char>>,
    ws: WriteSources<'_>,
    table: Table,
    presets: Seq<(Seq<char>, JsonV)>,
    preset: Seq<Seq<char>>,
)
    ensures
        ({
            let r = excluded_assignments(fields, 0, ws, table, presets, preset);
            &&& preset.len() <= r.len()
            &&& r.take(preset.len() as int) == preset
            &&& forall|k: int|
                {
                    let column = column_behind(
                        *ws.src.names,
                        table.schema@,
                        table.name@,
                        #[trigger] fields[k],
                    );
                    0 <= k < fields.len() && !is_preset(presets, column) ==> r.contains(
                        ident(column) + " = EXCLUDED."@ + ident(column),
                    )
                }
            &&& forall|m: int|
                preset.len() <= m < r.len() ==> is_proposal(
                    fields,
                    0,
                    *ws.src.names,
                    table,
                    presets,
                    #[trigger] r[m],
                )
        }),
{
    lemma_proposed(fields, 0, ws, table, presets, preset);
    let r = excluded_assignments(fields, 0, ws, table, presets, preset);
    assert forall|k: int|
        {
            let column = column_behind(
                *ws.src.names,
                table.schema@,
                table.name@,
                #[trigger] fields[k],
            );
            0 <= k < fields.len() && !is_preset(presets, column) ==> r.contains(
                ident(column) + " = EXCLUDED."@ + ident(column),
            )
        } by {
        let column = column_behind(*ws.src.names, table.schema@, table.name@, fields[k]);
        assert(takes_the_proposed(column) == ident(column) + " = EXCLUDED."@ + ident(column));
    }
}

proof fn lemma_all_proposed(
    fields: Seq<Seq<char>>,
    i: nat,
    ws: WriteSources<'_>,
    table: Table,
    parts: Seq<Seq<char>>,
)
    requires
        i <= fields.len(),
        parts == Seq::new(
            i,
            |k: int|
                takes_the_proposed(
                    column_behind(*ws.src.names, table.schema@, table.name@, fields[k]),
                ),
        ),
    ensures
        excluded_assignments(fields, i, ws, table, Seq::empty(), parts) == Seq::new(
            fields.len(),
            |k: int|
                takes_the_proposed(
                    column_behind(*ws.src.names, table.schema@, table.name@, fields[k]),
                ),
        ),
    decreases fields.len() - i,
{
    if i < fields.len() {
        let column = column_behind(*ws.src.names, table.schema@, table.name@, fields[i as int]);
        let more = parts.push(takes_the_proposed(column));
        assert(!is_preset(Seq::empty(), column));
        assert(more =~= Seq::new(
            i + 1,
            |k: int|
                takes_the_proposed(
                    column_behind(*ws.src.names, table.schema@, table.name@, fields[k]),
                ),
        ));
        lemma_all_proposed(fields, i + 1, ws, table, more);
    }
}

/// What an insert does where a row is there already: with no columns to update
/// it leaves that row alone, and otherwise gives each of them the value that was
/// proposed, where the filter it was given holds of that row.
pub proof fn law_a_conflict_is_resolved(
    ws: WriteSources<'_>,
    table: Table,
    schema: Seq<char>,
    name: Seq<char>,
    types: Seq<(Seq<char>, Seq<char>)>,
    entries: Seq<(Seq<char>, JsonV)>,
    constraint: Seq<char>,
    path: Seq<char>,
    start: usize,
)
    requires
        JsonV::Object(entries).get("constraint"@) == Some(JsonV::String(constraint)),
        is_constraint(table.unique_constraints@, constraint),
        !has_text(updated_fields(JsonV::Object(entries)), "_PLACEHOLDER"@),
        ({
            let rule = ws.caller.ruled(schema, name, Verb::Update);
            &&& rule.presets is Ok && rule.presets->Ok_0@.len() == 0
            &&& rule.filter matches Ok(None)
        }),
    ensures
        ({
            let given = JsonV::Object(entries);
            let fields = updated_fields(given);
            let on = " ON CONFLICT ON CONSTRAINT "@ + ident(constraint);
            let set = on + " DO UPDATE SET "@ + joined(
                Seq::new(
                    fields.len(),
                    |k: int|
                        takes_the_proposed(
                            column_behind(*ws.src.names, table.schema@, table.name@, fields[k]),
                        ),
                ),
                ", "@,
            );
            let r = conflict_clause(ws, table, schema, name, types, Some(given), path, start);
            let at = CursorV { binds: BindsV { next: start, values: Seq::empty() }, aliases: 0 };
            if fields.len() == 0 {
                r == Ok::<(Seq<char>, Seq<JsonV>), ErrorV>((on + " DO NOTHING"@, Seq::empty()))
            } else if given.get("where"@) is None || given.get("where"@) == Some(JsonV::Null) {
                r == Ok::<(Seq<char>, Seq<JsonV>), ErrorV>((set, Seq::empty()))
            } else {
                r == (match condition(
                    given.get("where"@)->0,
                    write_scope(
                        ws,
                        schema,
                        name,
                        crate::statement::typename_of(ws.type_names@, schema, name),
                    ),
                    at,
                ) {
                    Err((e, _)) => Err(e),
                    Ok((None, end)) => Ok((set, end.binds.values)),
                    Ok((Some(sql), end)) => Ok((set + " WHERE "@ + sql, end.binds.values)),
                })
            }
        }),
{
    reveal_strlit("");
    let given = JsonV::Object(entries);
    let fields = updated_fields(given);
    let rule = ws.caller.ruled(schema, name, Verb::Update);
    let presets = entries_view(rule.presets->Ok_0@);
    assert(presets =~= Seq::empty());
    let none = Seq::<Seq<char>>::empty();
    let at = BindsV { next: start, values: Seq::empty() };
    assert(preset_assignments(presets, 0, types, none, at) == (none, at));
    assert(none =~= Seq::new(
        0,
        |k: int|
            takes_the_proposed(
                column_behind(*ws.src.names, table.schema@, table.name@, fields[k]),
            ),
    ));
    lemma_all_proposed(fields, 0, ws, table, none);
    let set = " ON CONFLICT ON CONSTRAINT "@ + ident(constraint) + " DO UPDATE SET "@ + joined(
        Seq::new(
            fields.len(),
            |k: int|
                takes_the_proposed(
                    column_behind(*ws.src.names, table.schema@, table.name@, fields[k]),
                ),
        ),
        ", "@,
    );
    assert(set + ""@ =~= set);
    assert forall|sql: Seq<char>| #[trigger] (set + (" WHERE "@ + sql)) == set + " WHERE "@
        + sql by {
        assert(set + (" WHERE "@ + sql) =~= set + " WHERE "@ + sql);
    }
}

/// The columns an upsert updates are the names that were listed, in order.
pub proof fn law_listed_columns_are_updated(
    entries: Seq<(Seq<char>, JsonV)>,
    names: Seq<Seq<char>>,
)
    requires
        JsonV::Object(entries).get("update_columns"@) == Some(
            JsonV::Array(names.map_values(|n: Seq<char>| JsonV::String(n))),
        ),
    ensures
        updated_fields(JsonV::Object(entries)) == names,
{
    let items = names.map_values(|n: Seq<char>| JsonV::String(n));
    assert(Seq::<Seq<char>>::empty() =~= names.take(0));
    lemma_strings(items, names, 0, Seq::empty());
}

proof fn lemma_strings(
    items: Seq<JsonV>,
    names: Seq<Seq<char>>,
    i: nat,
    found: Seq<Seq<char>>,
)
    requires
        items == names.map_values(|n: Seq<char>| JsonV::String(n)),
        i <= names.len(),
        found == names.take(i as int),
    ensures
        strings_from(items, i, found) == names,
    decreases names.len() - i,
{
    if i < names.len() {
        assert(items[i as int] == JsonV::String(names[i as int]));
        assert(found.push(names[i as int]) =~= names.take((i + 1) as int));
        lemma_strings(items, names, i + 1, found.push(names[i as int]));
    } else {
        assert(names.take(i as int) =~= names);
    }
}

/// An upsert on a constraint that the table does not have is refused, and so is
/// one that names none.
pub proof fn law_conflicts_are_on_constraints(
    ws: WriteSources<'_>,
    table: Table,
    schema: Seq<char>,
    name: Seq<char>,
    types: Seq<(Seq<char>, Seq<char>)>,
    entries: Seq<(Seq<char>, JsonV)>,
    path: Seq<char>,
    start: usize,
)
    requires
        !(JsonV::Object(entries).get("constraint"@) matches Some(JsonV::String(_))) || !(exists|
            i: int,
        |
            0 <= i < table.unique_constraints@.len() && (
            #[trigger] table.unique_constraints@[i]).name@ == (JsonV::Object(entries).get(
                "constraint"@,
            )->0)->String_0),
    ensures
        conflict_clause(
            ws,
            table,
            schema,
            name,
            types,
            Some(JsonV::Object(entries)),
            path,
            start,
        ) is Err,
        conflict_clause(ws, table, schema, name, types, None, path, start) == Ok::<
            (Seq<char>, Seq<JsonV>),
            ErrorV,
        >((Seq::empty(), Seq::empty())),
{
}

} // verus!

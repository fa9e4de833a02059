//! What holds of rows that are inserted together with the rows they are
//! related to.

use crate::catalog::{
    column_behind, keyed_by_child, Cardinality, EmbedPlan, NameOverrides, RelationshipField,
    RelationshipKind, Table,
};
use crate::condition::{lemma_place_of, lemma_place_range, place_of};
use crate::context::law_put_then_get;
use crate::insert::{
    begun, children_of, finished, given_rows, keys_given, keys_taken, next_step, pointing_back,
    table_fields, taken_apart, FrameV, InsertionV, NestedV, PlaceV, RowV, StepV,
};
use crate::json::{entry_of, lemma_entry_of, JsonV};
use crate::lookup::{named, once};
use crate::statement::{law_put_keeps_keys_once, put, WriteSources};
use vstd::prelude::*;

verus! {

// ---------------------------------------------------------------------------
// Keys
// ---------------------------------------------------------------------------

/// Whether no two of the columns a relationship joins on are the same column of
/// the other table.
pub open spec fn foreign_columns_differ(plan: EmbedPlan) -> bool {
    forall|i: int, j: int|
        0 <= i < j < plan.columns@.len() ==> (#[trigger] plan.columns@[i]).1@
            != (#[trigger] plan.columns@[j]).1@
}

/// The same of this table's.
pub open spec fn local_columns_differ(plan: EmbedPlan) -> bool {
    forall|i: int, j: int|
        0 <= i < j < plan.columns@.len() ==> (#[trigger] plan.columns@[i]).0@
            != (#[trigger] plan.columns@[j]).0@
}

/// Whether a relationship joins on a column of the other table.
pub open spec fn joins_foreign(plan: EmbedPlan, column: Seq<char>) -> bool {
    exists|i: int| 0 <= i < plan.columns@.len() && (#[trigger] plan.columns@[i]).1@ == column
}

/// The same of this table's.
pub open spec fn joins_local(plan: EmbedPlan, column: Seq<char>) -> bool {
    exists|i: int| 0 <= i < plan.columns@.len() && (#[trigger] plan.columns@[i]).0@ == column
}

proof fn lemma_keys_given(
    plan: EmbedPlan,
    i: nat,
    parent: JsonV,
    child: Seq<(Seq<char>, JsonV)>,
    path: Seq<char>,
    column: Seq<char>,
)
    requires
        foreign_columns_differ(plan),
        i <= plan.columns@.len(),
    ensures
        ({
            let r = keys_given(plan, i, parent, child, path);
            &&& r is Err <==> exists|j: int|
                i <= j < plan.columns@.len() && JsonV::Object(child).present(
                    (#[trigger] plan.columns@[j]).1@,
                ) is Some
            &&& r is Ok ==> forall|j: int|
                i <= j < plan.columns@.len() && parent.get((#[trigger] plan.columns@[j]).0@) is Some
                    ==> entry_of(r->Ok_0, plan.columns@[j].1@) == parent.get(plan.columns@[j].0@)
            &&& r is Ok && !(exists|j: int|
                i <= j < plan.columns@.len() && (#[trigger] plan.columns@[j]).1@ == column
                    && parent.get(plan.columns@[j].0@) is Some) ==> entry_of(r->Ok_0, column)
                == entry_of(child, column)
        }),
    decreases plan.columns@.len() - i,
{
    if i < plan.columns@.len() {
        let foreign = plan.columns@[i as int].1@;
        let local = plan.columns@[i as int].0@;
        if JsonV::Object(child).present(foreign) is None {
            let next = match parent.get(local) {
                Some(value) => put(child, foreign, value),
                None => child,
            };
            lemma_keys_given(plan, i + 1, parent, next, path, column);
            lemma_keys_given(plan, i + 1, parent, next, path, foreign);
            if parent.get(local) is Some {
                law_put_then_get(child, foreign, parent.get(local)->0, column);
                assert forall|j: int| i < j < plan.columns@.len() implies JsonV::Object(
                    next,
                ).present((#[trigger] plan.columns@[j]).1@) == JsonV::Object(child).present(
                    plan.columns@[j].1@,
                ) by {
                    assert(plan.columns@[i as int].1@ != plan.columns@[j].1@);
                    law_put_then_get(child, foreign, parent.get(local)->0, plan.columns@[j].1@);
                }
            }
            let r = keys_given(plan, i, parent, child, path);
            assert(r == keys_given(plan, i + 1, parent, next, path));
            if r is Ok {
                assert forall|j: int|
                    i <= j < plan.columns@.len() && parent.get(
                        (#[trigger] plan.columns@[j]).0@,
                    ) is Some implies entry_of(r->Ok_0, plan.columns@[j].1@) == parent.get(
                    plan.columns@[j].0@,
                ) by {
                    if j == i {
                        assert forall|k: int| i + 1 <= k < plan.columns@.len() implies (
                        #[trigger] plan.columns@[k]).1@ != foreign by {
                            assert(plan.columns@[i as int].1@ != plan.columns@[k].1@);
                        }
                    }
                }
                if !(exists|j: int|
                    i <= j < plan.columns@.len() && (#[trigger] plan.columns@[j]).1@ == column
                        && parent.get(plan.columns@[j].0@) is Some) {
                    if parent.get(local) is Some {
                        assert(plan.columns@[i as int].1@ != column);
                    }
                }
            } else {
                let j = choose|j: int|
                    i + 1 <= j < plan.columns@.len() && JsonV::Object(next).present(
                        (#[trigger] plan.columns@[j]).1@,
                    ) is Some;
                assert(JsonV::Object(child).present(plan.columns@[j].1@) is Some);
            }
            if exists|j: int|
                i <= j < plan.columns@.len() && JsonV::Object(child).present(
                    (#[trigger] plan.columns@[j]).1@,
                ) is Some {
                let j = choose|j: int|
                    i <= j < plan.columns@.len() && JsonV::Object(child).present(
                        (#[trigger] plan.columns@[j]).1@,
                    ) is Some;
                assert(JsonV::Object(next).present(plan.columns@[j].1@) is Some);
            }
        } else {
            assert(JsonV::Object(child).present(plan.columns@[i as int].1@) is Some);
        }
    }
}

/// A row that points back at its parent holds the parent's keys: under each
/// column of its own that the relationship joins on, exactly what the parent
/// row holds under the column it is joined to. Everything else it holds is
/// unchanged, and a row that names one of those columns itself is refused.
pub proof fn law_children_hold_their_parents_keys(
    plan: EmbedPlan,
    parent: JsonV,
    child: Seq<(Seq<char>, JsonV)>,
    path: Seq<char>,
)
    requires
        foreign_columns_differ(plan),
    ensures
        ({
            let r = keys_given(plan, 0, parent, child, path);
            &&& r is Err <==> exists|j: int|
                0 <= j < plan.columns@.len() && JsonV::Object(child).present(
                    (#[trigger] plan.columns@[j]).1@,
                ) is Some
            &&& r is Err ==> (r->Err_0).path == Some(path)
            &&& r is Ok ==> forall|j: int|
                0 <= j < plan.columns@.len() && parent.get((#[trigger] plan.columns@[j]).0@) is Some
                    ==> JsonV::Object(r->Ok_0).get(plan.columns@[j].1@) == parent.get(
                    plan.columns@[j].0@,
                )
            &&& r is Ok ==> forall|column: Seq<char>|
                !joins_foreign(plan, column) ==> #[trigger] JsonV::Object(r->Ok_0).get(column)
                    == JsonV::Object(child).get(column)
            &&& r is Ok ==> forall|j: int|
                0 <= j < plan.columns@.len() && parent.get((#[trigger] plan.columns@[j]).0@) is None
                    ==> JsonV::Object(r->Ok_0).get(plan.columns@[j].1@) == JsonV::Object(child).get(
                    plan.columns@[j].1@,
                )
        }),
{
    let r = keys_given(plan, 0, parent, child, path);
    lemma_keys_given(plan, 0, parent, child, path, Seq::empty());
    lemma_refused_path(plan, 0, parent, child, path);
    if r is Ok {
        assert forall|column: Seq<char>| !joins_foreign(plan, column) implies
            #[trigger] JsonV::Object(r->Ok_0).get(column) == JsonV::Object(child).get(column) by {
            lemma_keys_given(plan, 0, parent, child, path, column);
        }
        assert forall|j: int|
            0 <= j < plan.columns@.len() && parent.get(
                (#[trigger] plan.columns@[j]).0@,
            ) is None implies JsonV::Object(r->Ok_0).get(plan.columns@[j].1@) == JsonV::Object(
            child,
        ).get(plan.columns@[j].1@) by {
            let column = plan.columns@[j].1@;
            lemma_keys_given(plan, 0, parent, child, path, column);
            assert forall|k: int|
                0 <= k < plan.columns@.len() && (#[trigger] plan.columns@[k]).1@
                    == column implies parent.get(plan.columns@[k].0@) is None by {
                if k < j {
                    assert(plan.columns@[k].1@ != plan.columns@[j].1@);
                } else if j < k {
                    assert(plan.columns@[j].1@ != plan.columns@[k].1@);
                }
            }
        }
    }
}

proof fn lemma_refused_path(
    plan: EmbedPlan,
    i: nat,
    parent: JsonV,
    child: Seq<(Seq<char>, JsonV)>,
    path: Seq<char>,
)
    ensures
        keys_given(plan, i, parent, child, path) is Err ==> (keys_given(
            plan,
            i,
            parent,
            child,
            path,
        )->Err_0).path == Some(path),
    decreases plan.columns@.len() - i,
{
    if i < plan.columns@.len() {
        let next = match parent.get(plan.columns@[i as int].0@) {
            Some(value) => put(child, plan.columns@[i as int].1@, value),
            None => child,
        };
        lemma_refused_path(plan, i + 1, parent, next, path);
    }
}

proof fn lemma_keys_taken(
    plan: EmbedPlan,
    i: nat,
    written: JsonV,
    columns: Seq<(Seq<char>, JsonV)>,
    column: Seq<char>,
)
    requires
        local_columns_differ(plan),
        i <= plan.columns@.len(),
    ensures
        ({
            let r = keys_taken(plan, i, written, columns);
            &&& forall|j: int|
                i <= j < plan.columns@.len() && written.get((#[trigger] plan.columns@[j]).1@) is Some
                    ==> entry_of(r, plan.columns@[j].0@) == written.get(plan.columns@[j].1@)
            &&& !(exists|j: int|
                i <= j < plan.columns@.len() && (#[trigger] plan.columns@[j]).0@ == column
                    && written.get(plan.columns@[j].1@) is Some) ==> entry_of(r, column) == entry_of(
                columns,
                column,
            )
        }),
    decreases plan.columns@.len() - i,
{
    if i < plan.columns@.len() {
        let foreign = plan.columns@[i as int].1@;
        let local = plan.columns@[i as int].0@;
        let next = match written.get(foreign) {
            Some(value) => put(columns, local, value),
            None => columns,
        };
        lemma_keys_taken(plan, i + 1, written, next, column);
        lemma_keys_taken(plan, i + 1, written, next, local);
        if written.get(foreign) is Some {
            law_put_then_get(columns, local, written.get(foreign)->0, column);
        }
        let r = keys_taken(plan, i, written, columns);
        assert(r == keys_taken(plan, i + 1, written, next));
        assert forall|j: int|
            i <= j < plan.columns@.len() && written.get(
                (#[trigger] plan.columns@[j]).1@,
            ) is Some implies entry_of(r, plan.columns@[j].0@) == written.get(
            plan.columns@[j].1@,
        ) by {
            if j == i {
                assert forall|k: int| i + 1 <= k < plan.columns@.len() implies (
                #[trigger] plan.columns@[k]).0@ != local by {
                    assert(plan.columns@[i as int].0@ != plan.columns@[k].0@);
                }
            }
        }
        if !(exists|j: int|
            i <= j < plan.columns@.len() && (#[trigger] plan.columns@[j]).0@ == column
                && written.get(plan.columns@[j].1@) is Some) {
            if written.get(foreign) is Some {
                assert(plan.columns@[i as int].0@ != column);
            }
        }
    }
}

/// A row that points at another takes its keys once that is written: under each
/// column of its own that the relationship joins on, exactly what the written
/// row holds under the column it is joined to, and everything else is
/// unchanged.
pub proof fn law_rows_take_the_keys_they_point_at(
    plan: EmbedPlan,
    written: JsonV,
    columns: Seq<(Seq<char>, JsonV)>,
)
    requires
        local_columns_differ(plan),
    ensures
        ({
            let r = JsonV::Object(keys_taken(plan, 0, written, columns));
            &&& forall|j: int|
                0 <= j < plan.columns@.len() && written.get((#[trigger] plan.columns@[j]).1@) is Some
                    ==> r.get(plan.columns@[j].0@) == written.get(plan.columns@[j].1@)
            &&& forall|column: Seq<char>|
                !joins_local(plan, column) ==> #[trigger] r.get(column) == JsonV::Object(
                    columns,
                ).get(column)
        }),
{
    lemma_keys_taken(plan, 0, written, columns, Seq::empty());
    let r = JsonV::Object(keys_taken(plan, 0, written, columns));
    assert forall|column: Seq<char>| !joins_local(plan, column) implies #[trigger] r.get(column)
        == JsonV::Object(columns).get(column) by {
        lemma_keys_taken(plan, 0, written, columns, column);
    }
}

// ---------------------------------------------------------------------------
// Taking a row apart
// ---------------------------------------------------------------------------

/// Whether an entry of a row to insert is a value of its own column, rather
/// than related rows.
pub open spec fn is_own(fields: Seq<RelationshipField>, key: Seq<char>) -> bool {
    named(fields, key) is None
}

/// Whether an entry is the only one that names its column.
pub open spec fn names_alone(
    object: Seq<(Seq<char>, JsonV)>,
    fields: Seq<RelationshipField>,
    names: NameOverrides,
    table: Table,
    k: int,
) -> bool {
    forall|j: int|
        0 <= j < object.len() && j != k && is_own(fields, (#[trigger] object[j]).0)
            ==> column_behind(names, table.schema@, table.name@, object[j].0) != column_behind(
            names,
            table.schema@,
            table.name@,
            object[k].0,
        )
}

proof fn lemma_taken_apart(
    object: Seq<(Seq<char>, JsonV)>,
    i: nat,
    fields: Seq<RelationshipField>,
    names: NameOverrides,
    table: Table,
    row: RowV,
    k: int,
)
    requires
        0 <= k < object.len(),
        i <= object.len(),
        is_own(fields, object[k].0),
        names_alone(object, fields, names, table, k),
    ensures
        ({
            let column = column_behind(names, table.schema@, table.name@, object[k].0);
            entry_of(taken_apart(object, i, fields, names, table, row).columns, column) == (if i
                <= k {
                Some(object[k].1)
            } else {
                entry_of(row.columns, column)
            })
        }),
    decreases object.len() - i,
{
    let column = column_behind(names, table.schema@, table.name@, object[k].0);
    if i < object.len() {
        let (key, value) = object[i as int];
        let next = taken_next(object[i as int], fields, names, table, row);
        lemma_taken_apart(object, i + 1, fields, names, table, next, k);
        assert(taken_apart(object, i, fields, names, table, row) == taken_apart(
            object,
            i + 1,
            fields,
            names,
            table,
            next,
        ));
        if named(fields, key) is None {
            law_put_then_get(
                row.columns,
                column_behind(names, table.schema@, table.name@, key),
                value,
                column,
            );
            if i != k {
                assert(is_own(fields, object[i as int].0));
            }
        }
    }
}

/// Every value of a row to insert is written under its column, unless another
/// entry of the row names the same column.
pub proof fn law_each_value_is_written_under_its_column(
    ws: WriteSources<'_>,
    schema: Seq<char>,
    table: Seq<char>,
    object: Seq<(Seq<char>, JsonV)>,
    place: PlaceV,
    k: int,
)
    requires
        0 <= k < object.len(),
        ws.src.cache.table(schema, table) is Some,
        is_own(table_fields(ws, schema, table), object[k].0),
        names_alone(
            object,
            table_fields(ws, schema, table),
            *ws.src.names,
            ws.src.cache.table(schema, table)->0,
            k,
        ),
    ensures
        ({
            let found = ws.src.cache.table(schema, table)->0;
            let r = begun(ws, schema, table, object, place);
            r is Ok ==> {
                &&& (r->Ok_0).schema == schema
                &&& (r->Ok_0).table == table
                &&& (r->Ok_0).place == place
                &&& (r->Ok_0).row is None
                &&& JsonV::Object((r->Ok_0).columns).get(
                    column_behind(*ws.src.names, found.schema@, found.name@, object[k].0),
                ) == Some(object[k].1)
            }
        }),
{
    lemma_taken_apart(
        object,
        0,
        table_fields(ws, schema, table),
        *ws.src.names,
        ws.src.cache.table(schema, table)->0,
        RowV { columns: Seq::empty(), to_one: Seq::empty(), to_many: Seq::empty() },
        k,
    );
}

proof fn lemma_related(
    object: Seq<(Seq<char>, JsonV)>,
    i: nat,
    fields: Seq<RelationshipField>,
    names: NameOverrides,
    table: Table,
    row: RowV,
)
    requires
        i <= object.len(),
    ensures
        ({
            let r = taken_apart(object, i, fields, names, table, row);
            &&& row.to_one.len() <= r.to_one.len()
            &&& row.to_many.len() <= r.to_many.len()
            &&& r.to_one.take(row.to_one.len() as int) == row.to_one
            &&& r.to_many.take(row.to_many.len() as int) == row.to_many
        }),
    decreases object.len() - i,
{
    if i < object.len() {
        let next = taken_next(object[i as int], fields, names, table, row);
        lemma_related(object, i + 1, fields, names, table, next);
        let r = taken_apart(object, i, fields, names, table, row);
        assert(r == taken_apart(object, i + 1, fields, names, table, next));
        assert(r.to_one.take(row.to_one.len() as int) =~= next.to_one.take(
            row.to_one.len() as int,
        )) by {
            assert(r.to_one.take(next.to_one.len() as int) == next.to_one);
            assert forall|k: int| 0 <= k < row.to_one.len() implies r.to_one[k] == next.to_one[k] by {
                assert(r.to_one.take(next.to_one.len() as int)[k] == next.to_one[k]);
            }
        }
        assert(r.to_many.take(row.to_many.len() as int) =~= next.to_many.take(
            row.to_many.len() as int,
        )) by {
            assert forall|k: int| 0 <= k < row.to_many.len() implies r.to_many[k]
                == next.to_many[k] by {
                assert(r.to_many.take(next.to_many.len() as int)[k] == next.to_many[k]);
            }
        }
        assert(next.to_one.take(row.to_one.len() as int) =~= row.to_one);
        assert(next.to_many.take(row.to_many.len() as int) =~= row.to_many);
    } else {
        assert(row.to_one.take(row.to_one.len() as int) =~= row.to_one);
        assert(row.to_many.take(row.to_many.len() as int) =~= row.to_many);
    }
}

/// A row taken apart by one entry more.
spec fn taken_next(
    entry: (Seq<char>, JsonV),
    fields: Seq<RelationshipField>,
    names: NameOverrides,
    table: Table,
    row: RowV,
) -> RowV {
    let (key, value) = entry;
    match named(fields, key) {
        None => RowV {
            columns: put(
                row.columns,
                column_behind(names, table.schema@, table.name@, key),
                value,
            ),
            ..row
        },
        Some(relationship) => if value is Null {
            row
        } else if keyed_by_child(relationship.relationship.kind) {
            RowV { to_many: row.to_many.push(given_rows(relationship, value)), ..row }
        } else {
            RowV { to_one: row.to_one.push(given_rows(relationship, value)), ..row }
        },
    }
}

proof fn lemma_related_is_kept(
    object: Seq<(Seq<char>, JsonV)>,
    i: nat,
    fields: Seq<RelationshipField>,
    names: NameOverrides,
    table: Table,
    row: RowV,
    k: int,
)
    requires
        i <= k < object.len(),
        named(fields, object[k].0) is Some,
        !(object[k].1 is Null),
    ensures
        ({
            let r = taken_apart(object, i, fields, names, table, row);
            let rel = named(fields, object[k].0)->0;
            if keyed_by_child(rel.relationship.kind) {
                r.to_many.contains(given_rows(rel, object[k].1))
            } else {
                r.to_one.contains(given_rows(rel, object[k].1))
            }
        }),
    decreases object.len() - i,
{
    let next = taken_next(object[i as int], fields, names, table, row);
    let r = taken_apart(object, i, fields, names, table, row);
    assert(r == taken_apart(object, i + 1, fields, names, table, next));
    if i < k {
        lemma_related_is_kept(object, i + 1, fields, names, table, next, k);
    } else {
        lemma_related(object, i + 1, fields, names, table, next);
        let rel = named(fields, object[k].0)->0;
        if keyed_by_child(rel.relationship.kind) {
            let last = next.to_many.len() - 1;
            assert(r.to_many.take(next.to_many.len() as int)[last] == r.to_many[last]);
            assert(r.to_many[last] == given_rows(rel, object[k].1));
        } else {
            let last = next.to_one.len() - 1;
            assert(r.to_one.take(next.to_one.len() as int)[last] == r.to_one[last]);
            assert(r.to_one[last] == given_rows(rel, object[k].1));
        }
    }
}

/// The rows given for a relationship are inserted with the row that holds them:
/// after it where they hold its key, and before it where it holds theirs. They
/// are what stands under `data`, or else the value itself, and their conflict
/// is resolved as stands under `on_conflict`.
pub proof fn law_related_rows_are_inserted_too(
    ws: WriteSources<'_>,
    schema: Seq<char>,
    table: Seq<char>,
    object: Seq<(Seq<char>, JsonV)>,
    place: PlaceV,
    k: int,
    rel: RelationshipField,
)
    requires
        0 <= k < object.len(),
        named(table_fields(ws, schema, table), object[k].0) == Some(rel),
        !(object[k].1 is Null),
    ensures
        ({
            let r = begun(ws, schema, table, object, place);
            let value = object[k].1;
            let after = match rel.relationship.kind {
                RelationshipKind::Computed => true,
                RelationshipKind::ForeignKey(Cardinality::ManyToOne { .. }) => false,
                RelationshipKind::ForeignKey(Cardinality::OneToOne { is_parent, .. }) => is_parent,
                RelationshipKind::ForeignKey(_) => true,
            };
            let given = NestedV {
                relationship: rel,
                data: if value.get("data"@) is Some {
                    value.get("data"@)->0
                } else {
                    value
                },
                conflict: if value.get("on_conflict"@) == Some(JsonV::Null) {
                    None
                } else {
                    value.get("on_conflict"@)
                },
            };
            r is Ok ==> {
                &&& after ==> (r->Ok_0).to_many.contains(given)
                &&& !after ==> (r->Ok_0).to_one.contains(given)
                &&& (r->Ok_0).next_one == 0
                &&& (r->Ok_0).next_many == 0
                &&& (r->Ok_0).next_child == 0
            }
        }),
{
    let value = object[k].1;
    match ws.src.cache.table(schema, table) {
        None => {},
        Some(found) => {
            lemma_related_is_kept(
                object,
                0,
                table_fields(ws, schema, table),
                *ws.src.names,
                found,
                RowV { columns: Seq::empty(), to_one: Seq::empty(), to_many: Seq::empty() },
                k,
            );
            if !(value is Object) {
                assert(value.entries() =~= Seq::empty());
                assert(value.get("data"@) is None);
                assert(value.get("on_conflict"@) is None);
            }
        },
    }
}

// ---------------------------------------------------------------------------
// Children, one after another
// ---------------------------------------------------------------------------

proof fn lemma_given_once(
    plan: EmbedPlan,
    i: nat,
    parent: JsonV,
    child: Seq<(Seq<char>, JsonV)>,
    path: Seq<char>,
)
    requires
        once(child),
    ensures
        keys_given(plan, i, parent, child, path) is Ok ==> once(
            keys_given(plan, i, parent, child, path)->Ok_0,
        ),
    decreases plan.columns@.len() - i,
{
    if i < plan.columns@.len() {
        match parent.get(plan.columns@[i as int].0@) {
            Some(value) => {
                law_put_keeps_keys_once(child, plan.columns@[i as int].1@, value);
                lemma_given_once(
                    plan,
                    i + 1,
                    parent,
                    put(child, plan.columns@[i as int].1@, value),
                    path,
                );
            },
            None => {
                lemma_given_once(plan, i + 1, parent, child, path);
            },
        }
    }
}

proof fn lemma_unrenamed(names: NameOverrides, schema: Seq<char>, table: Seq<char>, field: Seq<char>)
    requires
        !names.renames(schema, table),
    ensures
        column_behind(names, schema, table, field) == field,
{
}

/// After a row is written, the next row that points back at it is begun in the
/// table at the other end of the relationship, and it holds the keys of the row
/// that was written: where that row holds `v` under a column it is joined by,
/// this one is about to be inserted with exactly `v` under its own. What it was
/// given beside, it keeps.
pub proof fn law_a_child_is_inserted_with_its_parents_keys(
    ws: WriteSources<'_>,
    state: InsertionV,
    plan: EmbedPlan,
    items: Seq<JsonV>,
    row: JsonV,
    child: Seq<(Seq<char>, JsonV)>,
)
    requires
        state.frames.len() > 0,
        ({
            let top = state.frames.last();
            &&& top.next_one >= top.to_one.len()
            &&& top.row == Some(row)
            &&& top.next_many < top.to_many.len()
            &&& top.to_many[top.next_many as int].relationship.relationship.plan == Ok::<
                EmbedPlan,
                String,
            >(plan)
            &&& top.to_many[top.next_many as int].data == JsonV::Array(items)
            &&& top.next_child < items.len()
            &&& items[top.next_child as int] == JsonV::Object(child)
        }),
        foreign_columns_differ(plan),
        once(child),
    ensures
        ({
            let r = next_step(ws, state);
            r is Ok ==> {
                let (after, step) = r->Ok_0;
                let frame = after.frames.last();
                let schema = plan.foreign_schema@;
                let table = plan.foreign_table@;
                let own = table_fields(ws, schema, table);
                &&& step is Continue
                &&& after.frames == state.frames.push(frame)
                &&& after.written == state.written
                &&& frame.schema == schema
                &&& frame.table == table
                &&& frame.row is None
                &&& ws.src.cache.table(schema, table) is Some
                &&& {
                    let found = ws.src.cache.table(schema, table)->0;
                    !ws.src.names.renames(found.schema@, found.name@) ==> {
                        &&& forall|j: int|
                            0 <= j < plan.columns@.len() && is_own(
                                own,
                                (#[trigger] plan.columns@[j]).1@,
                            ) && row.get(plan.columns@[j].0@) is Some ==> JsonV::Object(
                                frame.columns,
                            ).get(plan.columns@[j].1@) == row.get(plan.columns@[j].0@)
                        &&& forall|k: int|
                            0 <= k < child.len() && is_own(own, (#[trigger] child[k]).0)
                                && !joins_foreign(plan, child[k].0) ==> JsonV::Object(
                                frame.columns,
                            ).get(child[k].0) == Some(child[k].1)
                    }
                }
            }
        }),
{
    let top = state.frames.last();
    let nested = top.to_many[top.next_many as int];
    let schema = plan.foreign_schema@;
    let table = plan.foreign_table@;
    let r = next_step(ws, state);
    assert(children_of(nested) == Ok::<Seq<JsonV>, crate::error::ErrorV>(items));
    if r is Ok {
        let frame = (r->Ok_0).0.frames.last();
        let own = table_fields(ws, schema, table);
        let back = pointing_back(ws, top, nested, plan, row, child);
        assert(back is Ok && back->Ok_0 == frame);
        assert((r->Ok_0).0.frames =~= state.frames.push(frame));
        let place = frame.place;
        let given = keys_given(plan, 0, row, child, place.row);
        assert(given is Ok && begun(ws, schema, table, given->Ok_0, place) == Ok::<
            FrameV,
            crate::error::ErrorV,
        >(frame));
        let keyed = given->Ok_0;
        lemma_given_once(plan, 0, row, child, place.row);
        law_children_hold_their_parents_keys(plan, row, child, place.row);
        let found = ws.src.cache.table(schema, table)->0;
        if !ws.src.names.renames(found.schema@, found.name@) {
            assert forall|key: Seq<char>|
                is_own(own, key) && #[trigger] JsonV::Object(keyed).get(
                    key,
                ) is Some implies JsonV::Object(frame.columns).get(key) == JsonV::Object(keyed).get(
                key,
            ) by {
                lemma_place_of(keyed, key);
                lemma_place_range(keyed, key, 0);
                let k = place_of(keyed, key, 0) as int;
                assert forall|j: int|
                    0 <= j < keyed.len() && j != k && is_own(
                        own,
                        (#[trigger] keyed[j]).0,
                    ) implies column_behind(*ws.src.names, found.schema@, found.name@, keyed[j].0)
                    != column_behind(*ws.src.names, found.schema@, found.name@, keyed[k].0) by {
                    lemma_unrenamed(*ws.src.names, found.schema@, found.name@, keyed[j].0);
                    lemma_unrenamed(*ws.src.names, found.schema@, found.name@, keyed[k].0);
                    if j < k {
                        assert(keyed[j].0 != keyed[k].0);
                    } else {
                        assert(keyed[k].0 != keyed[j].0);
                    }
                }
                lemma_unrenamed(*ws.src.names, found.schema@, found.name@, keyed[k].0);
                law_each_value_is_written_under_its_column(ws, schema, table, keyed, place, k);
            }
            assert forall|k: int|
                0 <= k < child.len() && is_own(own, (#[trigger] child[k]).0) && !joins_foreign(
                    plan,
                    child[k].0,
                ) implies JsonV::Object(frame.columns).get(child[k].0) == Some(child[k].1) by {
                assert forall|j: int| 0 <= j < k implies (#[trigger] child[j]).0 != child[k].0 by {}
                lemma_entry_of(child, child[k].0, k);
                assert(JsonV::Object(keyed).get(child[k].0) == JsonV::Object(child).get(
                    child[k].0,
                ));
            }
        }
    }
}

/// When a row that another points at is done, that other goes on with the keys
/// of the row in place, and to the next row it points at.
pub proof fn law_a_row_goes_on_with_the_keys_it_points_at(
    state: InsertionV,
    row: JsonV,
    plan: EmbedPlan,
)
    requires
        state.frames.len() > 1,
        ({
            let parent = state.frames.drop_last().last();
            &&& parent.next_one < parent.to_one.len()
            &&& parent.to_one[parent.next_one as int].relationship.relationship.plan == Ok::<
                EmbedPlan,
                String,
            >(plan)
        }),
        local_columns_differ(plan),
    ensures
        ({
            let (after, step) = finished(state, row);
            let parent = state.frames.drop_last().last();
            let next = after.frames.last();
            &&& step is Continue
            &&& after.frames.len() == state.frames.len() - 1
            &&& after.written == state.written
            &&& next.next_one == parent.next_one + 1
            &&& next.schema == parent.schema && next.table == parent.table
            &&& forall|j: int|
                0 <= j < plan.columns@.len() && row.get((#[trigger] plan.columns@[j]).1@) is Some
                    ==> JsonV::Object(next.columns).get(plan.columns@[j].0@) == row.get(
                    plan.columns@[j].1@,
                )
            &&& forall|column: Seq<char>|
                !joins_local(plan, column) ==> #[trigger] JsonV::Object(next.columns).get(column)
                    == JsonV::Object(parent.columns).get(column)
        }),
{
    let parent = state.frames.drop_last().last();
    law_rows_take_the_keys_they_point_at(plan, row, parent.columns);
}

/// The row that was asked for is the answer: the outermost row, as it came back
/// from the database.
pub proof fn law_the_outermost_row_is_answered(state: InsertionV, row: JsonV)
    requires
        state.frames.len() == 1,
    ensures
        finished(state, row).1 == StepV::Done(row),
{
    assert(state.frames.drop_last().len() == 0);
}

} // verus!

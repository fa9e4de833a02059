//! Inserting a row together with the rows nested inside it.
//!
//! Which row goes first follows from which side holds the key. A related row
//! whose key this row carries is written first, and its key is what this
//! row's column is set to. A related row that carries this row's key is
//! written after it. Each statement is handed out to be executed and its
//! answer handed back, so that everything runs in the one transaction.

use crate::binds::{following, next_number};
use crate::catalog::{
    child_holds_the_key, column_behind, exposed_name, field_for, fields_of, keyed_by_child,
    relationships_of, table_column_for, EmbedPlan, NameOverrides, RelationshipField, Table,
};
use crate::condition::position_of;
use crate::error::{
    at_path, coded_error, coded_refusal, plain_refusal, validation_error, validation_refusal, Error,
    ErrorV,
};
use crate::geojson::{check_geojson, shape_fault};
use crate::json::{
    entries_view, json_opt, json_ref, jsons, lemma_array_view, lemma_object_view, Json, JsonV,
};
use crate::lookup::{find_named, named, once};
use crate::projection::{
    column_types_of, is_shape, is_shape_type, own_types, pairs, second_of, type_of,
};
use crate::statement::{
    insert_of, insert_statement, law_put_keeps_keys_once, number_after, numbered_after, put,
    put_entry, Statement, StatementV, WriteSources, CHECK_FAILED,
};
use crate::text::{cat2, cat3, cat4, cat5, decimal, decimal_text, owned};
use vstd::prelude::*;

verus! {

// ---------------------------------------------------------------------------
// Rows and the rows inside them
// ---------------------------------------------------------------------------

/// Rows to be written with another one.
pub struct Nested<'a> {
    pub relationship: &'a RelationshipField,
    pub data: Json,
    pub conflict: Option<Json>,
}

/// What a [`Nested`] holds.
#[verifier::ext_equal]
pub struct NestedV {
    pub relationship: RelationshipField,
    pub data: JsonV,
    pub conflict: Option<JsonV>,
}

impl<'a> View for Nested<'a> {
    type V = NestedV;

    open spec fn view(&self) -> NestedV {
        NestedV {
            relationship: *self.relationship,
            data: self.data@,
            conflict: json_opt(self.conflict),
        }
    }
}

/// What several hold.
pub open spec fn nesteds(v: Seq<Nested<'_>>) -> Seq<NestedV> {
    v.map_values(|n: Nested<'_>| n@)
}

/// A row taken apart: its own columns, the rows it points at, and the rows
/// that point at it.
#[verifier::ext_equal]
pub struct RowV {
    pub columns: Seq<(Seq<char>, JsonV)>,
    pub to_one: Seq<NestedV>,
    pub to_many: Seq<NestedV>,
}

/// What a relationship is given: the rows, and what to do about one that is
/// already there.
pub open spec fn given_rows(relationship: RelationshipField, value: JsonV) -> NestedV {
    match value {
        JsonV::Object(_) => NestedV {
            relationship,
            data: match value.get("data"@) {
                Some(data) => data,
                None => value,
            },
            conflict: value.present("on_conflict"@),
        },
        other => NestedV { relationship, data: other, conflict: None },
    }
}

/// A row taken apart from its `i`th entry on. A relationship given as null is
/// no relationship.
pub open spec fn taken_apart(
    object: Seq<(Seq<char>, JsonV)>,
    i: nat,
    fields: Seq<RelationshipField>,
    names: NameOverrides,
    table: Table,
    row: RowV,
) -> RowV
    decreases object.len() - i,
{
    if i >= object.len() {
        row
    } else {
        let (key, value) = object[i as int];
        let next = match named(fields, key) {
            None => RowV {
                columns: put(
                    row.columns,
                    column_behind(names, table.schema@, table.name@, key),
                    value,
                ),
                ..row
            },
            Some(relationship) => if value is Null {
                row
            } else if keyed_by_child(relationship.relationship.kind) {
                RowV { to_many: row.to_many.push(given_rows(relationship, value)), ..row }
            } else {
                RowV { to_one: row.to_one.push(given_rows(relationship, value)), ..row }
            },
        };
        taken_apart(object, i + 1, fields, names, table, next)
    }
}

fn rows_given<'a>(relationship: &'a RelationshipField, value: &Json) -> (r: Nested<'a>)
    ensures
        r@ == given_rows(*relationship, value@),
{
    match value {
        Json::Object(_) => {
            let data = match value.get("data") {
                Some(data) => data.copy(),
                None => value.copy(),
            };
            let conflict = match value.present("on_conflict") {
                Some(conflict) => Some(conflict.copy()),
                None => None,
            };
            Nested { relationship, data, conflict }
        },
        _ => Nested { relationship, data: value.copy(), conflict: None },
    }
}

fn push_nested<'a>(v: &mut Vec<Nested<'a>>, n: Nested<'a>)
    ensures
        nesteds(final(v)@) == nesteds(old(v)@).push(n@),
{
    proof {
        assert(nesteds(v@.push(n)) =~= nesteds(v@).push(n@));
    }
    v.push(n);
}

fn take_apart<'a>(
    object: &Vec<(String, Json)>,
    fields: &'a Vec<RelationshipField>,
    names: &NameOverrides,
    table: &Table,
    columns: &mut Vec<(String, Json)>,
    to_one: &mut Vec<Nested<'a>>,
    to_many: &mut Vec<Nested<'a>>,
)
    ensures
        (RowV {
            columns: entries_view(final(columns)@),
            to_one: nesteds(final(to_one)@),
            to_many: nesteds(final(to_many)@),
        }) == taken_apart(
            entries_view(object@),
            0,
            fields@,
            *names,
            *table,
            (RowV {
                columns: entries_view(old(columns)@),
                to_one: nesteds(old(to_one)@),
                to_many: nesteds(old(to_many)@),
            }),
        ),
{
    let mut i: usize = 0;
    while i < object.len()
        invariant
            i <= object.len(),
            taken_apart(
                entries_view(object@),
                0,
                fields@,
                *names,
                *table,
                (RowV {
                    columns: entries_view(old(columns)@),
                    to_one: nesteds(old(to_one)@),
                    to_many: nesteds(old(to_many)@),
                }),
            ) == taken_apart(
                entries_view(object@),
                i as nat,
                fields@,
                *names,
                *table,
                (RowV {
                    columns: entries_view(columns@),
                    to_one: nesteds(to_one@),
                    to_many: nesteds(to_many@),
                }),
            ),
        decreases object.len() - i,
    {
        assert(entries_view(object@)[i as int] == (object@[i as int].0@, object@[i as int].1@));
        let key = &object[i].0;
        let value = &object[i].1;
        match find_named(fields, key) {
            None => {
                let column = table_column_for(names, table, key);
                put_entry(columns, owned(column), value.copy());
            },
            Some(relationship) => if !value.is_null() {
                if child_holds_the_key(&relationship.relationship) {
                    push_nested(to_many, rows_given(relationship, value));
                } else {
                    push_nested(to_one, rows_given(relationship, value));
                }
            },
        }
        i += 1;
    }
}

// ---------------------------------------------------------------------------
// Places in the request
// ---------------------------------------------------------------------------

/// Where a row is in the request, which is where an error about it is
/// reported, and what to do about one that is already there.
pub struct Place {
    pub on_conflict: Option<Json>,
    /// The row itself.
    pub row: String,
    /// The argument that named the rows of the statement.
    pub objects: String,
    /// The statement's `on_conflict`.
    pub conflict: String,
}

/// What a [`Place`] holds.
#[verifier::ext_equal]
pub struct PlaceV {
    pub on_conflict: Option<JsonV>,
    pub row: Seq<char>,
    pub objects: Seq<char>,
    pub conflict: Seq<char>,
}

impl View for Place {
    type V = PlaceV;

    open spec fn view(&self) -> PlaceV {
        PlaceV {
            on_conflict: json_opt(self.on_conflict),
            row: self.row@,
            objects: self.objects@,
            conflict: self.conflict@,
        }
    }
}

/// The place of a row under another one: `.data` for one row, `.data[i]` for
/// an item of a list.
pub open spec fn place_under(
    row: Seq<char>,
    relationship: Seq<char>,
    index: Option<nat>,
    conflict: Option<JsonV>,
) -> PlaceV {
    let under = row + "."@ + relationship;
    PlaceV {
        on_conflict: conflict,
        row: match index {
            Some(i) => under + (".data["@ + decimal(i) + "]"@),
            None => under + ".data"@,
        },
        objects: under + ".data"@,
        conflict: under + ".on_conflict"@,
    }
}

fn nested_place(row: &str, relationship: &str, index: Option<usize>, conflict: Option<Json>) -> (r:
    Place)
    ensures
        r@ == place_under(
            row@,
            relationship@,
            match index {
                Some(i) => Some(i as nat),
                None => None,
            },
            json_opt(conflict),
        ),
{
    let under = cat3(row, ".", relationship);
    let row = match index {
        Some(i) => cat2(&under, &cat3(".data[", &decimal_text(i as u128), "]")),
        None => cat2(&under, ".data"),
    };
    let objects = cat2(&under, ".data");
    let at_conflict = cat2(&under, ".on_conflict");
    Place { on_conflict: conflict, row, objects, conflict: at_conflict }
}

fn copy_conflict(conflict: &Option<Json>) -> (r: Option<Json>)
    ensures
        json_opt(r) == json_opt(*conflict),
{
    match conflict {
        Some(c) => Some(c.copy()),
        None => None,
    }
}

/// The place of one of the rows of a mutation: the argument itself for one
/// row spelled without a list, and its item otherwise.
pub open spec fn top_place(base: PlaceV, single: bool, index: nat) -> PlaceV {
    PlaceV {
        row: if single {
            base.objects
        } else {
            base.objects + "["@ + decimal(index) + "]"@
        },
        ..base
    }
}

/// The place of one of the rows of a mutation.
pub fn row_place(base: &Place, single: bool, index: usize) -> (r: Place)
    ensures
        r@ == top_place(base@, single, index as nat),
{
    let row = if single {
        base.objects.clone()
    } else {
        cat4(&base.objects, "[", &decimal_text(index as u128), "]")
    };
    Place {
        on_conflict: copy_conflict(&base.on_conflict),
        row,
        objects: base.objects.clone(),
        conflict: base.conflict.clone(),
    }
}

// ---------------------------------------------------------------------------
// One row under way
// ---------------------------------------------------------------------------

/// A row whose insert is under way.
pub struct Frame<'a> {
    pub schema: String,
    pub table: String,
    pub columns: Vec<(String, Json)>,
    /// The rows it points at, and how many of them are written.
    pub to_one: Vec<Nested<'a>>,
    pub next_one: usize,
    /// The rows that point at it, how many relationships are done, and how
    /// many rows of the next.
    pub to_many: Vec<Nested<'a>>,
    pub next_many: usize,
    pub next_child: usize,
    /// The row, once it is written.
    pub row: Option<Json>,
    /// Whether its statement comes back with a permission's check.
    pub checked: bool,
    pub place: Place,
}

/// What a [`Frame`] holds.
#[verifier::ext_equal]
pub struct FrameV {
    pub schema: Seq<char>,
    pub table: Seq<char>,
    pub columns: Seq<(Seq<char>, JsonV)>,
    pub to_one: Seq<NestedV>,
    pub next_one: nat,
    pub to_many: Seq<NestedV>,
    pub next_many: nat,
    pub next_child: usize,
    pub row: Option<JsonV>,
    pub checked: bool,
    pub place: PlaceV,
}

impl<'a> View for Frame<'a> {
    type V = FrameV;

    open spec fn view(&self) -> FrameV {
        FrameV {
            schema: self.schema@,
            table: self.table@,
            columns: entries_view(self.columns@),
            to_one: nesteds(self.to_one@),
            next_one: self.next_one as nat,
            to_many: nesteds(self.to_many@),
            next_many: self.next_many as nat,
            next_child: self.next_child,
            row: json_opt(self.row),
            checked: self.checked,
            place: self.place@,
        }
    }
}

/// The refusal of the first column from the `i`th on that holds a shape that
/// is none, told under the field the client wrote it under.
pub open spec fn shapes_refused(
    columns: Seq<(Seq<char>, JsonV)>,
    i: nat,
    types: Seq<(Seq<char>, Seq<char>)>,
    names: NameOverrides,
    schema: Seq<char>,
    table: Seq<char>,
    row: Seq<char>,
) -> Option<ErrorV>
    decreases columns.len() - i,
{
    if i >= columns.len() {
        None
    } else {
        let (column, value) = columns[i as int];
        let t = second_of(types, column);
        if t is Some && is_shape_type(t->0) && shape_fault(value) is Some {
            Some(
                ErrorV {
                    path: Some(row + "."@ + field_for(names, schema, table, column)),
                    ..coded_refusal("parse-failed"@, shape_fault(value)->0)
                },
            )
        } else {
            shapes_refused(columns, i + 1, types, names, schema, table, row)
        }
    }
}

fn check_shapes(
    columns: &Vec<(String, Json)>,
    types: &Vec<(String, String)>,
    names: &NameOverrides,
    schema: &str,
    table: &str,
    row: &str,
) -> (r: Result<(), Error>)
    ensures
        (match r {
            Ok(_) => None,
            Err(e) => Some(e@),
        }) == shapes_refused(
            entries_view(columns@),
            0,
            pairs(types@),
            *names,
            schema@,
            table@,
            row@,
        ),
{
    let mut i: usize = 0;
    while i < columns.len()
        invariant
            i <= columns.len(),
            shapes_refused(
                entries_view(columns@),
                0,
                pairs(types@),
                *names,
                schema@,
                table@,
                row@,
            ) == shapes_refused(
                entries_view(columns@),
                i as nat,
                pairs(types@),
                *names,
                schema@,
                table@,
                row@,
            ),
        decreases columns.len() - i,
    {
        assert(entries_view(columns@)[i as int] == (columns@[i as int].0@, columns@[i as int].1@));
        if let Some(t) = type_of(types, &columns[i].0) {
            if is_shape(t) {
                match check_geojson(&columns[i].1) {
                    Ok(_) => {},
                    Err(e) => {
                        let field = exposed_name(names, schema, table, &columns[i].0);
                        return Err(at_path(e, &cat3(row, ".", field)));
                    },
                }
            }
        }
        i += 1;
    }
    Ok(())
}

/// The relationships of a table's type.
pub open spec fn table_fields(ws: WriteSources<'_>, schema: Seq<char>, table: Seq<char>) -> Seq<
    RelationshipField,
> {
    match crate::lookup::qualified(ws.type_names@, schema, table) {
        Some(found) => match fields_of(ws.src.relationships@, found.typename@) {
            Some(fields) => fields@,
            None => Seq::empty(),
        },
        None => Seq::empty(),
    }
}

/// However a row names its columns, each is written once.
proof fn lemma_taken_apart_once(
    object: Seq<(Seq<char>, JsonV)>,
    i: nat,
    fields: Seq<RelationshipField>,
    names: NameOverrides,
    table: Table,
    row: RowV,
)
    requires
        once(row.columns),
    ensures
        once(taken_apart(object, i, fields, names, table, row).columns),
    decreases object.len() - i,
{
    if i < object.len() {
        let (key, value) = object[i as int];
        let next = match named(fields, key) {
            None => RowV {
                columns: put(
                    row.columns,
                    column_behind(names, table.schema@, table.name@, key),
                    value,
                ),
                ..row
            },
            Some(relationship) => if value is Null {
                row
            } else if keyed_by_child(relationship.relationship.kind) {
                RowV { to_many: row.to_many.push(given_rows(relationship, value)), ..row }
            } else {
                RowV { to_one: row.to_one.push(given_rows(relationship, value)), ..row }
            },
        };
        law_put_keeps_keys_once(
            row.columns,
            column_behind(names, table.schema@, table.name@, key),
            value,
        );
        lemma_taken_apart_once(object, i + 1, fields, names, table, next);
    }
}

/// A row about to be inserted.
pub open spec fn begun(
    ws: WriteSources<'_>,
    schema: Seq<char>,
    table: Seq<char>,
    object: Seq<(Seq<char>, JsonV)>,
    place: PlaceV,
) -> Result<FrameV, ErrorV> {
    match ws.src.cache.table(schema, table) {
        None => Err(plain_refusal("unknown table \""@ + table + "\""@)),
        Some(found) => {
            let row = taken_apart(
                object,
                0,
                table_fields(ws, schema, table),
                *ws.src.names,
                found,
                RowV { columns: Seq::empty(), to_one: Seq::empty(), to_many: Seq::empty() },
            );
            match shapes_refused(
                row.columns,
                0,
                own_types(found),
                *ws.src.names,
                schema,
                table,
                place.row,
            ) {
                Some(e) => Err(e),
                None => Ok(
                    FrameV {
                        schema,
                        table,
                        columns: row.columns,
                        to_one: row.to_one,
                        next_one: 0,
                        to_many: row.to_many,
                        next_many: 0,
                        next_child: 0,
                        row: None,
                        checked: false,
                        place,
                    },
                ),
            }
        },
    }
}

/// What beginning a row reports.
pub open spec fn frame_outcome(r: Result<Frame<'_>, Error>) -> Result<FrameV, ErrorV> {
    match r {
        Ok(frame) => Ok(frame@),
        Err(e) => Err(e@),
    }
}

fn begin_row<'a>(
    ws: WriteSources<'a>,
    schema: &str,
    table: &str,
    object: &Vec<(String, Json)>,
    place: Place,
) -> (r: Result<Frame<'a>, Error>)
    ensures
        frame_outcome(r) == begun(ws, schema@, table@, entries_view(object@), place@),
{
    let found = match ws.src.cache.get_table(schema, table) {
        Some(found) => found,
        None => return Err(Error::new(cat3("unknown table \"", table, "\""))),
    };
    let mut columns: Vec<(String, Json)> = Vec::new();
    let mut to_one: Vec<Nested<'a>> = Vec::new();
    let mut to_many: Vec<Nested<'a>> = Vec::new();
    let fields: Option<&'a Vec<RelationshipField>> = match crate::lookup::find_qualified(
        ws.type_names,
        schema,
        table,
    ) {
        Some(known) => relationships_of(ws.src.relationships, &known.typename),
        None => None,
    };
    assert(entries_view(columns@) =~= Seq::<(Seq<char>, JsonV)>::empty());
    assert(nesteds(to_one@) =~= Seq::<NestedV>::empty());
    assert(nesteds(to_many@) =~= Seq::<NestedV>::empty());
    match fields {
        Some(fields) => take_apart(
            object,
            fields,
            ws.src.names,
            found,
            &mut columns,
            &mut to_one,
            &mut to_many,
        ),
        None => put_columns(object, ws.src.names, found, &mut columns),
    }
    let types = column_types_of(found);
    match check_shapes(&columns, &types, ws.src.names, schema, table, &place.row) {
        Ok(_) => {},
        Err(e) => return Err(e),
    }
    Ok(
        Frame {
            schema: owned(schema),
            table: owned(table),
            columns,
            to_one,
            next_one: 0,
            to_many,
            next_many: 0,
            next_child: 0,
            row: None,
            checked: false,
            place,
        },
    )
}

/// A row of a type without relationships: every entry is a column.
fn put_columns(
    object: &Vec<(String, Json)>,
    names: &NameOverrides,
    table: &Table,
    columns: &mut Vec<(String, Json)>,
)
    requires
        old(columns)@.len() == 0,
    ensures
        (RowV {
            columns: entries_view(final(columns)@),
            to_one: Seq::empty(),
            to_many: Seq::empty(),
        }) == taken_apart(
            entries_view(object@),
            0,
            Seq::empty(),
            *names,
            *table,
            (RowV { columns: Seq::empty(), to_one: Seq::empty(), to_many: Seq::empty() }),
        ),
{
    let mut i: usize = 0;
    assert(entries_view(columns@) =~= Seq::<(Seq<char>, JsonV)>::empty());
    while i < object.len()
        invariant
            i <= object.len(),
            taken_apart(
                entries_view(object@),
                0,
                Seq::empty(),
                *names,
                *table,
                (RowV { columns: Seq::empty(), to_one: Seq::empty(), to_many: Seq::empty() }),
            ) == taken_apart(
                entries_view(object@),
                i as nat,
                Seq::empty(),
                *names,
                *table,
                (RowV {
                    columns: entries_view(columns@),
                    to_one: Seq::empty(),
                    to_many: Seq::empty(),
                }),
            ),
        decreases object.len() - i,
    {
        assert(entries_view(object@)[i as int] == (object@[i as int].0@, object@[i as int].1@));
        let column = table_column_for(names, table, &object[i].0);
        put_entry(columns, owned(column), object[i].1.copy());
        i += 1;
    }
}

// ---------------------------------------------------------------------------
// Keys between rows
// ---------------------------------------------------------------------------

/// The first key column from the `i`th on that the row writes itself.
pub open spec fn determined_from(
    plan: EmbedPlan,
    i: nat,
    columns: Seq<(Seq<char>, JsonV)>,
) -> Option<Seq<char>>
    decreases plan.columns@.len() - i,
{
    if i >= plan.columns@.len() {
        None
    } else if JsonV::Object(columns).present(plan.columns@[i as int].0@) is Some {
        Some(plan.columns@[i as int].0@)
    } else {
        determined_from(plan, i + 1, columns)
    }
}

/// A row's columns with the keys of a row it points at, from the `i`th on.
pub open spec fn keys_taken(
    plan: EmbedPlan,
    i: nat,
    written: JsonV,
    columns: Seq<(Seq<char>, JsonV)>,
) -> Seq<(Seq<char>, JsonV)>
    decreases plan.columns@.len() - i,
{
    if i >= plan.columns@.len() {
        columns
    } else {
        keys_taken(
            plan,
            i + 1,
            written,
            match written.get(plan.columns@[i as int].1@) {
                Some(value) => put(columns, plan.columns@[i as int].0@, value),
                None => columns,
            },
        )
    }
}

/// A row with the keys of the row it points at the way back, from the `i`th
/// on. A child that writes its parent's key asks for another parent.
pub open spec fn keys_given(
    plan: EmbedPlan,
    i: nat,
    parent: JsonV,
    child: Seq<(Seq<char>, JsonV)>,
    path: Seq<char>,
) -> Result<Seq<(Seq<char>, JsonV)>, ErrorV>
    decreases plan.columns@.len() - i,
{
    if i >= plan.columns@.len() {
        Ok(child)
    } else {
        let foreign = plan.columns@[i as int].1@;
        if JsonV::Object(child).present(foreign) is Some {
            Err(
                ErrorV {
                    path: Some(path),
                    ..validation_refusal(
                        "cannot insert \""@ + foreign
                            + "\" columns as their values are already being determined by parent insert"@,
                    )
                },
            )
        } else {
            keys_given(
                plan,
                i + 1,
                parent,
                match parent.get(plan.columns@[i as int].0@) {
                    Some(value) => put(child, foreign, value),
                    None => child,
                },
                path,
            )
        }
    }
}

/// The value under a key of a list of entries, where it is not null.
fn present_in<'a>(entries: &'a Vec<(String, Json)>, key: &str) -> (r: Option<&'a Json>)
    ensures
        json_ref(r) == JsonV::Object(entries_view(entries@)).present(key@),
{
    proof {
        crate::condition::lemma_place_of(entries_view(entries@), key@);
    }
    match position_of(entries, key) {
        None => None,
        Some(k) => {
            assert(entries_view(entries@)[k as int].1 == entries@[k as int].1@);
            if entries[k].1.is_null() {
                None
            } else {
                Some(&entries[k].1)
            }
        },
    }
}

fn determined<'p>(plan: &'p EmbedPlan, columns: &Vec<(String, Json)>) -> (r: Option<&'p str>)
    ensures
        crate::text::str_opt(r) == determined_from(*plan, 0, entries_view(columns@)),
{
    let mut i: usize = 0;
    while i < plan.columns.len()
        invariant
            i <= plan.columns.len(),
            determined_from(*plan, 0, entries_view(columns@)) == determined_from(
                *plan,
                i as nat,
                entries_view(columns@),
            ),
        decreases plan.columns.len() - i,
    {
        if present_in(columns, &plan.columns[i].0).is_some() {
            return Some(plan.columns[i].0.as_str());
        }
        i += 1;
    }
    None
}

fn take_keys(plan: &EmbedPlan, written: &Json, columns: &mut Vec<(String, Json)>)
    ensures
        entries_view(final(columns)@) == keys_taken(
            *plan,
            0,
            written@,
            entries_view(old(columns)@),
        ),
{
    let mut i: usize = 0;
    while i < plan.columns.len()
        invariant
            i <= plan.columns.len(),
            keys_taken(*plan, 0, written@, entries_view(old(columns)@)) == keys_taken(
                *plan,
                i as nat,
                written@,
                entries_view(columns@),
            ),
        decreases plan.columns.len() - i,
    {
        if let Some(value) = written.get(&plan.columns[i].1) {
            put_entry(columns, plan.columns[i].0.clone(), value.copy());
        }
        i += 1;
    }
}

fn give_keys(
    plan: &EmbedPlan,
    parent: &Json,
    child: &mut Vec<(String, Json)>,
    path: &str,
) -> (r: Result<(), Error>)
    ensures
        (match r {
            Ok(_) => Ok(entries_view(final(child)@)),
            Err(e) => Err(e@),
        }) == keys_given(*plan, 0, parent@, entries_view(old(child)@), path@),
{
    let mut i: usize = 0;
    while i < plan.columns.len()
        invariant
            i <= plan.columns.len(),
            keys_given(*plan, 0, parent@, entries_view(old(child)@), path@) == keys_given(
                *plan,
                i as nat,
                parent@,
                entries_view(child@),
                path@,
            ),
        decreases plan.columns.len() - i,
    {
        let foreign = &plan.columns[i].1;
        if present_in(child, foreign).is_some() {
            return Err(
                at_path(
                    validation_error(
                        cat3(
                            "cannot insert \"",
                            foreign,
                            "\" columns as their values are already being determined by parent insert",
                        ),
                    ),
                    path,
                ),
            );
        }
        if let Some(value) = parent.get(&plan.columns[i].0) {
            put_entry(child, foreign.clone(), value.copy());
        }
        i += 1;
    }
    Ok(())
}

// ---------------------------------------------------------------------------
// The rows of one mutation
// ---------------------------------------------------------------------------

/// The insert of one row with everything inside it, under way: the rows begun
/// and not yet done, innermost last, and how many were written.
pub struct Insertion<'a> {
    pub ws: WriteSources<'a>,
    pub frames: Vec<Frame<'a>>,
    pub written: usize,
}

/// What an [`Insertion`] holds.
#[verifier::ext_equal]
pub struct InsertionV {
    pub frames: Seq<FrameV>,
    pub written: usize,
}

impl InsertionV {
    /// A column of a row under way is written once.
    pub open spec fn wf(self) -> bool {
        forall|i: int| 0 <= i < self.frames.len() ==> once((#[trigger] self.frames[i]).columns)
    }
}

/// What the rows under way hold.
pub open spec fn frames_of(v: Seq<Frame<'_>>) -> Seq<FrameV> {
    v.map_values(|f: Frame<'_>| f@)
}

impl<'a> View for Insertion<'a> {
    type V = InsertionV;

    open spec fn view(&self) -> InsertionV {
        InsertionV { frames: frames_of(self.frames@), written: self.written }
    }
}

/// What has to happen next.
pub enum Step {
    /// Nothing outside: go on.
    Continue,
    /// Execute this statement, and say what it wrote.
    Execute(Statement),
    /// The row is written, with everything inside it.
    Done(Json),
}

/// What a [`Step`] holds.
#[verifier::ext_equal]
pub enum StepV {
    Continue,
    Execute(StatementV),
    Done(JsonV),
}

impl View for Step {
    type V = StepV;

    open spec fn view(&self) -> StepV {
        match *self {
            Step::Continue => StepV::Continue,
            Step::Execute(statement) => StepV::Execute(statement@),
            Step::Done(row) => StepV::Done(row@),
        }
    }
}

/// The state after a step, and what has to happen next; or the refusal, and the
/// state it leaves.
pub type NextV = Result<(InsertionV, StepV), (ErrorV, InsertionV)>;

/// What a step reports.
pub open spec fn step_outcome(r: Result<Step, Error>, state: InsertionV) -> NextV {
    match r {
        Ok(step) => Ok((state, step@)),
        Err(e) => Err((e@, state)),
    }
}

/// A row that is begun writes each column once.
proof fn lemma_begun_once(
    ws: WriteSources<'_>,
    schema: Seq<char>,
    table: Seq<char>,
    object: Seq<(Seq<char>, JsonV)>,
    place: PlaceV,
)
    ensures
        begun(ws, schema, table, object, place) is Ok ==> once(
            (begun(ws, schema, table, object, place)->Ok_0).columns,
        ),
{
    match ws.src.cache.table(schema, table) {
        None => {},
        Some(found) => {
            lemma_taken_apart_once(
                object,
                0,
                table_fields(ws, schema, table),
                *ws.src.names,
                found,
                RowV { columns: Seq::empty(), to_one: Seq::empty(), to_many: Seq::empty() },
            );
        },
    }
}

proof fn lemma_keys_taken_once(
    plan: EmbedPlan,
    i: nat,
    written: JsonV,
    columns: Seq<(Seq<char>, JsonV)>,
)
    requires
        once(columns),
    ensures
        once(keys_taken(plan, i, written, columns)),
    decreases plan.columns@.len() - i,
{
    if i < plan.columns@.len() {
        match written.get(plan.columns@[i as int].1@) {
            Some(value) => {
                let key = plan.columns@[i as int].0@;
                law_put_keeps_keys_once(columns, key, value);
                lemma_keys_taken_once(plan, i + 1, written, put(columns, key, value));
            },
            None => lemma_keys_taken_once(plan, i + 1, written, columns),
        }
    }
}

proof fn lemma_finished_once(state: InsertionV, row: JsonV)
    requires
        state.wf(),
        state.frames.len() > 0,
    ensures
        finished(state, row).0.wf(),
{
    let rest = state.frames.drop_last();
    assert forall|i: int| 0 <= i < rest.len() implies once((#[trigger] rest[i]).columns) by {
        assert(rest[i] == state.frames[i]);
    }
    if rest.len() > 0 {
        let parent = rest.last();
        if parent.next_one < parent.to_one.len() {
            match parent.to_one[parent.next_one as int].relationship.relationship.plan {
                Ok(plan) => lemma_keys_taken_once(plan, 0, row, parent.columns),
                Err(_) => {},
            }
        }
        let after = finished(state, row).0.frames;
        assert forall|i: int| 0 <= i < after.len() implies once((#[trigger] after[i]).columns) by {
            if i < rest.len() - 1 {
                assert(after[i] == rest[i]);
            }
        }
    }
}

/// A step of an insert keeps every row under way writing a column once.
pub proof fn law_steps_write_columns_once(ws: WriteSources<'_>, state: InsertionV)
    requires
        state.wf(),
    ensures
        match next_step(ws, state) {
            Ok((after, _)) => after.wf(),
            Err((_, after)) => after.wf(),
        },
{
    if state.frames.len() > 0 {
        let top = state.frames.last();
        let under = state.frames.drop_last();
        assert(once(top.columns));
        assert forall|f: FrameV, i: int|
            #![trigger under.push(f)[i]]
            once(f.columns) && 0 <= i < under.push(f).len() implies once(
            under.push(f)[i].columns,
        ) by {
            if i < under.len() {
                assert(under.push(f)[i] == state.frames[i]);
            }
        }
        if top.next_one < top.to_one.len() {
            let nested = top.to_one[top.next_one as int];
            match (nested.relationship.relationship.plan, nested.data) {
                (Ok(plan), JsonV::Object(child)) => lemma_begun_once(
                    ws,
                    plan.foreign_schema@,
                    plan.foreign_table@,
                    child,
                    place_under(top.place.row, nested.relationship.name@, None, nested.conflict),
                ),
                _ => {},
            }
        } else if top.row is Some && top.next_many < top.to_many.len() {
            let nested = top.to_many[top.next_many as int];
            match (nested.relationship.relationship.plan, children_of(nested)) {
                (Ok(plan), Ok(children)) => {
                    if top.next_child < children.len() {
                        match children[top.next_child as int] {
                            JsonV::Object(child) => {
                                let index = if nested.relationship.is_list {
                                    Some(top.next_child as nat)
                                } else {
                                    None
                                };
                                let place = place_under(
                                    top.place.row,
                                    nested.relationship.name@,
                                    index,
                                    nested.conflict,
                                );
                                match keys_given(plan, 0, top.row->0, child, place.row) {
                                    Ok(keyed) => lemma_begun_once(
                                        ws,
                                        plan.foreign_schema@,
                                        plan.foreign_table@,
                                        keyed,
                                        place,
                                    ),
                                    Err(_) => {},
                                }
                            },
                            _ => {},
                        }
                    }
                },
                _ => {},
            }
        } else if top.row is Some {
            lemma_finished_once(state, top.row->0);
        }
    }
}

/// Taking in what a statement wrote keeps every row under way writing a column
/// once.
pub proof fn law_answers_write_columns_once(state: InsertionV, answer: Option<(JsonV, bool)>)
    requires
        state.wf(),
    ensures
        match answered(state, answer) {
            Ok((after, _)) => after.wf(),
            Err((_, after)) => after.wf(),
        },
{
    if state.frames.len() > 0 {
        match answer {
            None => lemma_finished_once(state, JsonV::Null),
            Some((row, _)) => {
                let under = state.frames.drop_last();
                let after = under.push(FrameV { row: Some(row), ..state.frames.last() });
                assert forall|i: int| 0 <= i < after.len() implies once(
                    (#[trigger] after[i]).columns,
                ) by {
                    if i < under.len() {
                        assert(after[i] == state.frames[i]);
                    }
                }
            },
        }
    }
}

/// A row is done. The row it was nested in takes its key where it points at
/// it, and goes on to its next child where it does not.
pub open spec fn finished(state: InsertionV, row: JsonV) -> (InsertionV, StepV) {
    let rest = state.frames.drop_last();
    if rest.len() == 0 {
        (InsertionV { frames: rest, ..state }, StepV::Done(row))
    } else {
        let parent = rest.last();
        let next = if parent.next_one < parent.to_one.len() {
            FrameV {
                columns: match parent.to_one[parent.next_one as int].relationship.relationship.plan {
                    Ok(plan) => keys_taken(plan, 0, row, parent.columns),
                    Err(_) => parent.columns,
                },
                next_one: parent.next_one + 1,
                ..parent
            }
        } else {
            FrameV { next_child: following(parent.next_child), ..parent }
        };
        (InsertionV { frames: rest.drop_last().push(next), ..state }, StepV::Continue)
    }
}

/// A row this one points at is begun: it is written first. A key column that
/// this row writes too is refused, since one of the two would be discarded.
pub open spec fn pointed_at(ws: WriteSources<'_>, top: FrameV) -> Result<FrameV, ErrorV> {
    let nested = top.to_one[top.next_one as int];
    let name = nested.relationship.name@;
    match nested.relationship.relationship.plan {
        Err(message) => Err(plain_refusal(message@)),
        Ok(plan) => match nested.data {
            JsonV::Object(child) => match determined_from(plan, 0, top.columns) {
                Some(local) => Err(
                    ErrorV {
                        path: Some(top.place.row + "."@ + name),
                        ..validation_refusal(
                            "cannot insert object relationship \""@ + name + "\" as \""@ + local
                                + "\" column values are already determined"@,
                        )
                    },
                ),
                None => begun(
                    ws,
                    plan.foreign_schema@,
                    plan.foreign_table@,
                    child,
                    place_under(top.place.row, name, None, nested.conflict),
                ),
            },
            _ => Err(plain_refusal("\""@ + name + "\" takes an object to insert"@)),
        },
    }
}

/// The rows that a relationship to many is given: a list of them, or one.
pub open spec fn children_of(nested: NestedV) -> Result<Seq<JsonV>, ErrorV> {
    match nested.data {
        JsonV::Array(items) => Ok(items),
        JsonV::Object(_) => Ok(seq![nested.data]),
        JsonV::Null => Ok(Seq::empty()),
        _ => Err(
            plain_refusal("\""@ + nested.relationship.name@ + "\" takes objects to insert"@),
        ),
    }
}

/// A row that points at this one is begun, with this row's key.
pub open spec fn pointing_back(
    ws: WriteSources<'_>,
    top: FrameV,
    nested: NestedV,
    plan: EmbedPlan,
    row: JsonV,
    child: Seq<(Seq<char>, JsonV)>,
) -> Result<FrameV, ErrorV> {
    let index = if nested.relationship.is_list {
        Some(top.next_child as nat)
    } else {
        None
    };
    let place = place_under(top.place.row, nested.relationship.name@, index, nested.conflict);
    match keys_given(plan, 0, row, child, place.row) {
        Err(e) => Err(e),
        Ok(keyed) => begun(ws, plan.foreign_schema@, plan.foreign_table@, keyed, place),
    }
}

/// One step of an insert: a row it points at, then the row itself, then the
/// rows that point at it, and then it is done. A step that is refused changes
/// nothing.
pub open spec fn next_step(ws: WriteSources<'_>, state: InsertionV) -> NextV {
    if state.frames.len() == 0 {
        Ok((state, StepV::Done(JsonV::Null)))
    } else {
        let top = state.frames.last();
        let under = state.frames.drop_last();
        if top.next_one < top.to_one.len() {
            match pointed_at(ws, top) {
                Err(e) => Err((e, state)),
                Ok(frame) => Ok(
                    (
                        InsertionV { frames: state.frames.push(frame), ..state },
                        StepV::Continue,
                    ),
                ),
            }
        } else if top.row is None {
            match ws.src.cache.table(top.schema, top.table) {
                None => Err((plain_refusal("unknown table \""@ + top.table + "\""@), state)),
                Some(table) => match insert_of(
                    ws,
                    table,
                    top.schema,
                    top.table,
                    top.columns,
                    top.place.on_conflict,
                    top.place.conflict,
                ) {
                    Err(e) => Err((e, state)),
                    Ok(statement) => Ok(
                        (
                            InsertionV {
                                frames: under.push(
                                    FrameV { checked: statement.checked, ..top },
                                ),
                                ..state
                            },
                            StepV::Execute(statement),
                        ),
                    ),
                },
            }
        } else if top.next_many < top.to_many.len() {
            let nested = top.to_many[top.next_many as int];
            match nested.relationship.relationship.plan {
                Err(message) => Err((plain_refusal(message@), state)),
                Ok(plan) => match children_of(nested) {
                    Err(e) => Err((e, state)),
                    Ok(children) => if top.next_child >= children.len() {
                        let next = FrameV { next_many: top.next_many + 1, next_child: 0, ..top };
                        Ok(
                            (
                                InsertionV { frames: under.push(next), ..state },
                                StepV::Continue,
                            ),
                        )
                    } else {
                        match children[top.next_child as int] {
                            JsonV::Object(child) => match pointing_back(
                                ws,
                                top,
                                nested,
                                plan,
                                top.row->0,
                                child,
                            ) {
                                Err(e) => Err((e, state)),
                                Ok(frame) => Ok(
                                    (
                                        InsertionV { frames: state.frames.push(frame), ..state },
                                        StepV::Continue,
                                    ),
                                ),
                            },
                            _ => {
                                let next = FrameV { next_child: following(top.next_child), ..top };
                                Ok(
                                    (
                                        InsertionV { frames: under.push(next), ..state },
                                        StepV::Continue,
                                    ),
                                )
                            },
                        }
                    },
                },
            }
        } else {
            Ok(finished(state, top.row->0))
        }
    }
}

/// What a statement wrote is taken in: the row and whether it passed its
/// permission's check, or nothing, which is the answer where a row was already
/// there and was left alone. A row that is refused is not taken in.
pub open spec fn answered(state: InsertionV, answer: Option<(JsonV, bool)>) -> NextV {
    if state.frames.len() == 0 {
        Ok((state, StepV::Done(JsonV::Null)))
    } else {
        let top = state.frames.last();
        match answer {
            None => Ok(finished(state, JsonV::Null)),
            Some((row, passed)) => if top.checked && !passed {
                Err(
                    (
                        ErrorV {
                            path: Some(top.place.objects),
                            ..coded_refusal("permission-error"@, CHECK_FAILED@)
                        },
                        state,
                    ),
                )
            } else {
                Ok(
                    (
                        InsertionV {
                            frames: state.frames.drop_last().push(FrameV { row: Some(row), ..top }),
                            written: following(state.written),
                        },
                        StepV::Continue,
                    ),
                )
            },
        }
    }
}

/// What a statement answered holds.
pub open spec fn answer_view(answer: Option<(Json, bool)>) -> Option<(JsonV, bool)> {
    match answer {
        Some((row, passed)) => Some((row@, passed)),
        None => None,
    }
}

fn point_at<'a>(ws: WriteSources<'a>, top: &Frame<'a>) -> (r: Result<Frame<'a>, Error>)
    requires
        top.next_one < top.to_one@.len(),
    ensures
        frame_outcome(r) == pointed_at(ws, top@),
{
    let nested = &top.to_one[top.next_one];
    assert(nesteds(top.to_one@)[top.next_one as int] == nested@);
    let name = &nested.relationship.name;
    let plan = match &nested.relationship.relationship.plan {
        Ok(plan) => plan,
        Err(message) => return Err(Error::new(message.clone())),
    };
    let child = match &nested.data {
        Json::Object(child) => child,
        _ => {
            return Err(Error::new(cat3("\"", name, "\" takes an object to insert")));
        },
    };
    proof {
        lemma_object_view(*child);
    }
    if let Some(local) = determined(plan, &top.columns) {
        return Err(
            at_path(
                validation_error(
                    cat5(
                        "cannot insert object relationship \"",
                        name,
                        "\" as \"",
                        local,
                        "\" column values are already determined",
                    ),
                ),
                &cat3(&top.place.row, ".", name),
            ),
        );
    }
    let place = nested_place(&top.place.row, name, None, copy_conflict(&nested.conflict));
    begin_row(ws, &plan.foreign_schema, &plan.foreign_table, child, place)
}

fn point_back<'a>(
    ws: WriteSources<'a>,
    top: &Frame<'a>,
    nested: &Nested<'a>,
    plan: &EmbedPlan,
    row: &Json,
    child: &Vec<(String, Json)>,
) -> (r: Result<Frame<'a>, Error>)
    ensures
        frame_outcome(r) == pointing_back(
            ws,
            top@,
            nested@,
            *plan,
            row@,
            entries_view(child@),
        ),
{
    let index: Option<usize> = if nested.relationship.is_list {
        Some(top.next_child)
    } else {
        None
    };
    let place = nested_place(
        &top.place.row,
        &nested.relationship.name,
        index,
        copy_conflict(&nested.conflict),
    );
    let mut keyed: Vec<(String, Json)> = copy_entries(child);
    match give_keys(plan, row, &mut keyed, &place.row) {
        Ok(_) => {},
        Err(e) => return Err(e),
    }
    begin_row(ws, &plan.foreign_schema, &plan.foreign_table, &keyed, place)
}

fn copy_entries(entries: &Vec<(String, Json)>) -> (r: Vec<(String, Json)>)
    ensures
        entries_view(r@) == entries_view(entries@),
{
    let mut copied: Vec<(String, Json)> = Vec::new();
    let mut i: usize = 0;
    while i < entries.len()
        invariant
            i <= entries.len(),
            copied@.len() == i,
            forall|j: int|
                0 <= j < i ==> copied@[j].0@ == entries@[j].0@ && copied@[j].1@ == entries@[j].1@,
        decreases entries.len() - i,
    {
        copied.push((entries[i].0.clone(), entries[i].1.copy()));
        i += 1;
    }
    assert(entries_view(copied@) =~= entries_view(entries@));
    copied
}

proof fn lemma_frames_push(v: Seq<Frame<'_>>, f: Frame<'_>)
    ensures
        frames_of(v.push(f)) == frames_of(v).push(f@),
{
    assert(frames_of(v.push(f)) =~= frames_of(v).push(f@));
}

proof fn lemma_frames_pop(v: Seq<Frame<'_>>)
    requires
        v.len() > 0,
    ensures
        frames_of(v.drop_last()) == frames_of(v).drop_last(),
        frames_of(v).last() == v.last()@,
{
    assert(frames_of(v.drop_last()) =~= frames_of(v).drop_last());
}

impl<'a> Insertion<'a> {
    /// The insert of one row, begun.
    pub fn start(
        ws: WriteSources<'a>,
        schema: &str,
        table: &str,
        object: &Json,
        place: Place,
    ) -> (r: Result<Insertion<'a>, Error>)
        ensures
            (match r {
                Ok(state) => Ok(state@),
                Err(e) => Err(e@),
            }) == (match object@ {
                JsonV::Object(entries) => match begun(ws, schema@, table@, entries, place@) {
                    Ok(frame) => Ok((InsertionV { frames: seq![frame], written: 0 })),
                    Err(e) => Err(e),
                },
                _ => Err(plain_refusal("each object to insert is an object"@)),
            }),
            r is Ok ==> r->Ok_0.ws == ws,
            r is Ok ==> r->Ok_0@.wf(),
    {
        let entries = match object {
            Json::Object(entries) => entries,
            _ => return Err(Error::new(owned("each object to insert is an object"))),
        };
        proof {
            lemma_begun_once(ws, schema@, table@, entries_view(entries@), place@);
            lemma_object_view(*entries);
        }
        match begin_row(ws, schema, table, entries, place) {
            Err(e) => Err(e),
            Ok(frame) => {
                let mut frames: Vec<Frame<'a>> = Vec::new();
                proof {
                    lemma_frames_push(frames@, frame);
                    assert(frames_of(frames@).push(frame@) =~= seq![frame@]);
                }
                frames.push(frame);
                Ok(Insertion { ws, frames, written: 0 })
            },
        }
    }

    /// A database's refusal of the statement under way, told against the rows
    /// the statement was given.
    pub fn refused(&self, error: Error) -> (r: Error)
        ensures
            r@ == (if self.frames@.len() == 0 {
                error@
            } else {
                ErrorV { path: Some(self@.frames.last().place.objects), ..error@ }
            }),
    {
        if self.frames.len() == 0 {
            return error;
        }
        proof {
            lemma_frames_pop(self.frames@);
        }
        at_path(error, &self.frames[self.frames.len() - 1].place.objects)
    }

    /// A row is done: hands it to the row it was nested in, if any.
    fn finish(&mut self, row: Json) -> (r: Step)
        requires
            old(self).frames@.len() > 0,
        ensures
            (final(self)@, r@) == finished(old(self)@, row@),
            final(self).ws == old(self).ws,
    {
        proof {
            lemma_frames_pop(self.frames@);
        }
        let _ = self.frames.pop();
        if self.frames.len() == 0 {
            return Step::Done(row);
        }
        proof {
            lemma_frames_pop(self.frames@);
        }
        match self.frames.pop() {
            Some(parent) => {
                let mut next = parent;
                let ghost before = next@;
                if next.next_one < next.to_one.len() {
                    let at: usize = next.next_one;
                    assert(nesteds(next.to_one@)[at as int] == next.to_one@[at as int]@);
                    let relationship: &'a RelationshipField = next.to_one[at].relationship;
                    if let Ok(plan) = &relationship.relationship.plan {
                        take_keys(plan, &row, &mut next.columns);
                    }
                    next.next_one = at + 1;
                } else {
                    next.next_child = next_number(next.next_child);
                }
                proof {
                    lemma_frames_push(self.frames@, next);
                }
                self.frames.push(next);
            },
            None => {},
        }
        Step::Continue
    }

    /// One step of the insert.
    pub fn advance(&mut self) -> (r: Result<Step, Error>)
        ensures
            step_outcome(r, final(self)@) == next_step(old(self).ws, old(self)@),
            final(self).ws == old(self).ws,
            old(self)@.wf() ==> final(self)@.wf(),
    {
        proof {
            if self@.wf() {
                law_steps_write_columns_once(self.ws, self@);
            }
        }
        if self.frames.len() == 0 {
            return Ok(Step::Done(Json::Null));
        }
        proof {
            lemma_frames_pop(self.frames@);
        }
        let last: usize = self.frames.len() - 1;
        let ws = self.ws;
        if self.frames[last].next_one < self.frames[last].to_one.len() {
            match point_at(ws, &self.frames[last]) {
                Err(e) => return Err(e),
                Ok(frame) => {
                    proof {
                        lemma_frames_push(self.frames@, frame);
                    }
                    self.frames.push(frame);
                    return Ok(Step::Continue);
                },
            }
        }
        if self.frames[last].row.is_none() {
            return self.execute();
        }
        if self.frames[last].next_many < self.frames[last].to_many.len() {
            return self.descend();
        }
        let row = match &self.frames[last].row {
            Some(row) => row.copy(),
            None => Json::Null,
        };
        Ok(self.finish(row))
    }

    /// Hands out the statement of the innermost row.
    fn execute(&mut self) -> (r: Result<Step, Error>)
        requires
            old(self).frames@.len() > 0,
            old(self)@.frames.last().next_one >= old(self)@.frames.last().to_one.len(),
            old(self)@.frames.last().row is None,
        ensures
            step_outcome(r, final(self)@) == next_step(old(self).ws, old(self)@),
            final(self).ws == old(self).ws,
    {
        proof {
            lemma_frames_pop(self.frames@);
        }
        let ws = self.ws;
        match self.frames.pop() {
            Some(popped) => {
                let mut top = popped;
                let table = match ws.src.cache.get_table(&top.schema, &top.table) {
                    Some(table) => table,
                    None => {
                        let refusal = Error::new(cat3("unknown table \"", &top.table, "\""));
                        proof {
                            lemma_frames_push(self.frames@, top);
                            assert(frames_of(self.frames@).push(top@) =~= old(self)@.frames);
                        }
                        self.frames.push(top);
                        return Err(refusal);
                    },
                };
                let mut columns = copy_entries(&top.columns);
                let on_conflict: Option<&Json> = match &top.place.on_conflict {
                    Some(conflict) => Some(conflict),
                    None => None,
                };
                match insert_statement(
                    ws,
                    table,
                    &top.schema,
                    &top.table,
                    &mut columns,
                    on_conflict,
                    &top.place.conflict,
                ) {
                    Err(e) => {
                        proof {
                            lemma_frames_push(self.frames@, top);
                            assert(frames_of(self.frames@).push(top@) =~= old(self)@.frames);
                        }
                        self.frames.push(top);
                        Err(e)
                    },
                    Ok(statement) => {
                        top.checked = statement.checked;
                        proof {
                            lemma_frames_push(self.frames@, top);
                        }
                        self.frames.push(top);
                        Ok(Step::Execute(statement))
                    },
                }
            },
            None => Ok(Step::Continue),
        }
    }

    /// Begins the next row that points at the innermost one.
    fn descend(&mut self) -> (r: Result<Step, Error>)
        requires
            old(self).frames@.len() > 0,
            old(self)@.frames.last().next_one >= old(self)@.frames.last().to_one.len(),
            old(self)@.frames.last().row is Some,
            old(self)@.frames.last().next_many < old(self)@.frames.last().to_many.len(),
        ensures
            step_outcome(r, final(self)@) == next_step(old(self).ws, old(self)@),
            final(self).ws == old(self).ws,
    {
        proof {
            lemma_frames_pop(self.frames@);
        }
        let ws = self.ws;
        match self.frames.pop() {
            Some(popped) => {
                let mut top = popped;
                match next_child(ws, &top) {
                    Err(e) => {
                        proof {
                            lemma_frames_push(self.frames@, top);
                            assert(frames_of(self.frames@).push(top@) =~= old(self)@.frames);
                        }
                        self.frames.push(top);
                        return Err(e);
                    },
                    Ok(Child::Row(frame)) => {
                        proof {
                            lemma_frames_push(self.frames@, top);
                            assert(frames_of(self.frames@).push(top@) =~= old(self)@.frames);
                        }
                        self.frames.push(top);
                        proof {
                            lemma_frames_push(self.frames@, frame);
                        }
                        self.frames.push(frame);
                    },
                    Ok(Child::Skip) => {
                        top.next_child = next_number(top.next_child);
                        proof {
                            lemma_frames_push(self.frames@, top);
                        }
                        self.frames.push(top);
                    },
                    Ok(Child::End) => {
                        let many: usize = top.to_many.len();
                        assert(top.next_many < many);
                        top.next_many = top.next_many + 1;
                        top.next_child = 0;
                        proof {
                            lemma_frames_push(self.frames@, top);
                        }
                        self.frames.push(top);
                    },
                }
                Ok(Step::Continue)
            },
            None => Ok(Step::Continue),
        }
    }

    /// Takes in what a statement wrote: the row, and whether it passed its
    /// permission's check; or nothing, where a row that was already there was
    /// left alone.
    pub fn answer(&mut self, answer: Option<(Json, bool)>) -> (r: Result<Step, Error>)
        ensures
            step_outcome(r, final(self)@) == answered(old(self)@, answer_view(answer)),
            final(self).ws == old(self).ws,
            old(self)@.wf() ==> final(self)@.wf(),
    {
        proof {
            if self@.wf() {
                law_answers_write_columns_once(self@, answer_view(answer));
            }
        }
        if self.frames.len() == 0 {
            return Ok(Step::Done(Json::Null));
        }
        let (row, passed) = match answer {
            Some(written) => written,
            None => return Ok(self.finish(Json::Null)),
        };
        proof {
            lemma_frames_pop(self.frames@);
        }
        match self.frames.pop() {
            Some(popped) => {
                let mut top = popped;
                if top.checked && !passed {
                    let refusal = at_path(
                        coded_error("permission-error", owned(CHECK_FAILED)),
                        &top.place.objects,
                    );
                    proof {
                        lemma_frames_push(self.frames@, top);
                        assert(frames_of(self.frames@).push(top@) =~= old(self)@.frames);
                    }
                    self.frames.push(top);
                    return Err(refusal);
                }
                top.row = Some(row);
                proof {
                    lemma_frames_push(self.frames@, top);
                }
                self.frames.push(top);
                self.written = next_number(self.written);
                Ok(Step::Continue)
            },
            None => Ok(Step::Continue),
        }
    }
}

/// What comes next among the rows that point at one.
enum Child<'a> {
    Row(Frame<'a>),
    Skip,
    End,
}

/// What comes next among the rows that point at one.
enum ChildV {
    Row(FrameV),
    Skip,
    End,
}

spec fn child_view(c: Child<'_>) -> ChildV {
    match c {
        Child::Row(frame) => ChildV::Row(frame@),
        Child::Skip => ChildV::Skip,
        Child::End => ChildV::End,
    }
}

spec fn child_next(ws: WriteSources<'_>, top: FrameV) -> Result<ChildV, ErrorV> {
    let nested = top.to_many[top.next_many as int];
    match nested.relationship.relationship.plan {
        Err(message) => Err(plain_refusal(message@)),
        Ok(plan) => match children_of(nested) {
            Err(e) => Err(e),
            Ok(children) => if top.next_child >= children.len() {
                Ok(ChildV::End)
            } else {
                match children[top.next_child as int] {
                    JsonV::Object(child) => match pointing_back(
                        ws,
                        top,
                        nested,
                        plan,
                        top.row->0,
                        child,
                    ) {
                        Err(e) => Err(e),
                        Ok(frame) => Ok(ChildV::Row(frame)),
                    },
                    _ => Ok(ChildV::Skip),
                }
            },
        },
    }
}

fn child_at<'a>(
    ws: WriteSources<'a>,
    top: &Frame<'a>,
    nested: &Nested<'a>,
    plan: &EmbedPlan,
    child: &Json,
) -> (r: Result<Child<'a>, Error>)
    requires
        top.row is Some,
    ensures
        (match r {
            Ok(c) => Ok(child_view(c)),
            Err(e) => Err(e@),
        }) == (match child@ {
            JsonV::Object(entries) => match pointing_back(
                ws,
                top@,
                nested@,
                *plan,
                top@.row->0,
                entries,
            ) {
                Err(e) => Err(e),
                Ok(frame) => Ok(ChildV::Row(frame)),
            },
            _ => Ok(ChildV::Skip),
        }),
{
    match child {
        Json::Object(entries) => {
            proof {
                lemma_object_view(*entries);
            }
            match &top.row {
                Some(row) => match point_back(ws, top, nested, plan, row, entries) {
                    Ok(frame) => Ok(Child::Row(frame)),
                    Err(e) => Err(e),
                },
                None => Ok(Child::Skip),
            }
        },
        _ => Ok(Child::Skip),
    }
}

fn next_child<'a>(ws: WriteSources<'a>, top: &Frame<'a>) -> (r: Result<Child<'a>, Error>)
    requires
        top.next_many < top.to_many@.len(),
        top.row is Some,
    ensures
        (match r {
            Ok(c) => Ok(child_view(c)),
            Err(e) => Err(e@),
        }) == child_next(ws, top@),
{
    let nested = &top.to_many[top.next_many];
    assert(nesteds(top.to_many@)[top.next_many as int] == nested@);
    let plan = match &nested.relationship.relationship.plan {
        Ok(plan) => plan,
        Err(message) => return Err(Error::new(message.clone())),
    };
    match &nested.data {
        Json::Array(items) => {
            proof {
                lemma_array_view(*items);
            }
            if top.next_child >= items.len() {
                return Ok(Child::End);
            }
            assert(jsons(items@)[top.next_child as int] == items@[top.next_child as int]@);
            child_at(ws, top, nested, plan, &items[top.next_child])
        },
        Json::Object(_) => if top.next_child >= 1 {
            Ok(Child::End)
        } else {
            child_at(ws, top, nested, plan, &nested.data)
        },
        Json::Null => Ok(Child::End),
        _ => Err(
            Error::new(
                cat3("\"", &nested.relationship.name, "\" takes objects to insert"),
            ),
        ),
    }
}

// ---------------------------------------------------------------------------
// What a mutation inserts and answers
// ---------------------------------------------------------------------------

/// The rows an insert is given: a list of them, or one, and at least one.
pub open spec fn rows_of(objects: JsonV) -> Result<Seq<JsonV>, ErrorV> {
    match objects {
        JsonV::Array(items) => if items.len() == 0 {
            Err(plain_refusal("objects cannot be empty"@))
        } else {
            Ok(items)
        },
        JsonV::Object(_) => Ok(seq![objects]),
        _ => Err(plain_refusal("objects must be an array or object"@)),
    }
}

/// The rows an insert is given.
pub fn rows_to_insert(objects: Json) -> (r: Result<Vec<Json>, Error>)
    ensures
        (match r {
            Ok(rows) => Ok(jsons(rows@)),
            Err(e) => Err(e@),
        }) == rows_of(objects@),
{
    match objects {
        Json::Array(items) => {
            proof {
                lemma_array_view(items);
            }
            if items.len() == 0 {
                Err(Error::new(owned("objects cannot be empty")))
            } else {
                Ok(items)
            }
        },
        Json::Object(entries) => {
            let ghost given = Json::Object(entries)@;
            let rows: Vec<Json> = vec![Json::Object(entries)];
            assert(jsons(rows@) =~= seq![given]);
            Ok(rows)
        },
        _ => Err(Error::new(owned("objects must be an array or object"))),
    }
}

/// The rows of one mutation, inserted one after another: how many are done,
/// what came of them, and how many rows that wrote.
pub struct Batch<'a> {
    pub ws: WriteSources<'a>,
    pub schema: String,
    pub table: String,
    pub rows: Vec<Json>,
    pub place: Place,
    pub single: bool,
    pub next: usize,
    pub inserted: Vec<Json>,
    pub written: usize,
}

/// What becomes of the rows inserted so far once another is done. A row that
/// was left alone is not this mutation's to report.
pub open spec fn with_inserted(inserted: Seq<JsonV>, row: JsonV) -> Seq<JsonV> {
    match row {
        JsonV::Null => inserted,
        _ => inserted.push(row),
    }
}

/// The insert of the `i`th of several rows, begun.
pub open spec fn row_begun(
    ws: WriteSources<'_>,
    schema: Seq<char>,
    table: Seq<char>,
    row: JsonV,
    place: PlaceV,
) -> Result<InsertionV, ErrorV> {
    match row {
        JsonV::Object(entries) => match begun(ws, schema, table, entries, place) {
            Ok(frame) => Ok((InsertionV { frames: seq![frame], written: 0 })),
            Err(e) => Err(e),
        },
        _ => Err(plain_refusal("each object to insert is an object"@)),
    }
}

impl<'a> Batch<'a> {
    /// Rows to be inserted, none of them yet.
    pub fn new(
        ws: WriteSources<'a>,
        schema: &str,
        table: &str,
        rows: Vec<Json>,
        place: Place,
        single: bool,
    ) -> (r: Batch<'a>)
        ensures
            r.ws == ws,
            r.schema@ == schema@,
            r.table@ == table@,
            r.rows == rows,
            r.place == place,
            r.single == single,
            r.next == 0,
            r.inserted@.len() == 0,
            r.written == 0,
    {
        Batch {
            ws,
            schema: owned(schema),
            table: owned(table),
            rows,
            place,
            single,
            next: 0,
            inserted: Vec::new(),
            written: 0,
        }
    }

    /// The insert of the next row, begun; nothing where every row is done. An
    /// error inside a row is reported against its own place in the request.
    pub fn begin(&self) -> (r: Result<Option<Insertion<'a>>, Error>)
        ensures
            self.next >= self.rows@.len() ==> r is Ok && r->Ok_0 is None,
            self.next < self.rows@.len() ==> (match r {
                Ok(Some(state)) => Ok(Some(state@)),
                Ok(None) => Ok(None),
                Err(e) => Err(e@),
            }) == (match row_begun(
                self.ws,
                self.schema@,
                self.table@,
                self.rows@[self.next as int]@,
                top_place(self.place@, self.single, self.next as nat),
            ) {
                Ok(state) => Ok(Some(state)),
                Err(e) => Err(e),
            }),
            r is Ok && r->Ok_0 is Some ==> (r->Ok_0->0).ws == self.ws,
    {
        if self.next >= self.rows.len() {
            return Ok(None);
        }
        let place = row_place(&self.place, self.single, self.next);
        match Insertion::start(
            self.ws,
            &self.schema,
            &self.table,
            &self.rows[self.next],
            place,
        ) {
            Ok(state) => Ok(Some(state)),
            Err(e) => Err(e),
        }
    }

    /// Takes in a row that is done, and how many rows that wrote.
    pub fn take(&mut self, row: Json, written: usize)
        requires
            old(self).next < old(self).rows@.len(),
        ensures
            jsons(final(self).inserted@) == with_inserted(jsons(old(self).inserted@), row@),
            final(self).written == numbered_after(old(self).written, written as nat),
            final(self).next == old(self).next + 1,
            final(self).rows == old(self).rows,
            final(self).ws == old(self).ws,
            final(self).schema == old(self).schema,
            final(self).table == old(self).table,
            final(self).place == old(self).place,
            final(self).single == old(self).single,
    {
        if !matches!(&row, Json::Null) {
            proof {
                assert(jsons(self.inserted@.push(row)) =~= jsons(self.inserted@).push(row@));
            }
            self.inserted.push(row);
        }
        self.written = number_after(self.written, written);
        assert(self.next < self.rows.len());
        self.next = self.next + 1;
    }
}

/// What a mutation answers: the row of a by-key one, if it matched, and
/// otherwise how many rows were written beside the rows themselves.
pub open spec fn mutation_answer(rows: Seq<JsonV>, affected: usize, by_key: bool) -> Option<JsonV> {
    if by_key {
        if rows.len() == 0 {
            None
        } else {
            Some(rows[0])
        }
    } else {
        Some(
            JsonV::Object(
                seq![
                    (
                        "affected_rows"@,
                        JsonV::Number(crate::json::NumberV::Int(affected as int)),
                    ),
                    ("returning"@, JsonV::Array(rows)),
                ],
            ),
        )
    }
}

/// Shape a mutation's result for the field that asked for it.
///
/// The count is passed in rather than taken from the rows, because a nested
/// insert writes more rows than it returns.
pub fn mutation_result(rows: Vec<Json>, affected: usize, by_key: bool) -> (r: Option<Json>)
    ensures
        json_opt(r) == mutation_answer(jsons(rows@), affected, by_key),
{
    if by_key {
        if rows.len() == 0 {
            return None;
        }
        assert(jsons(rows@)[0] == rows@[0]@);
        return Some(rows[0].copy());
    }
    let ghost given = jsons(rows@);
    proof {
        lemma_array_view(rows);
    }
    let entries: Vec<(String, Json)> = vec![
        (owned("affected_rows"), Json::Number(crate::json::Number::PosInt(affected as u64))),
        (owned("returning"), Json::Array(rows)),
    ];
    proof {
        lemma_object_view(entries);
        assert(entries_view(entries@) =~= seq![
            ("affected_rows"@, JsonV::Number(crate::json::NumberV::Int(affected as int))),
            ("returning"@, JsonV::Array(given)),
        ]);
    }
    Some(Json::Object(entries))
}

} // verus!

//! Which rows mutations reach, what they are given and where their faults lie.

use crate::catalog::{field_for, EmbedPlan, NameOverrides};
use crate::context::law_put_then_get;
use crate::embed::Selected;
use crate::error::ErrorV;
use crate::insert::{
    begun, determined_from, place_under, pointed_at, row_begun, rows_of, shapes_refused, top_place,
    FrameV, InsertionV, PlaceV,
};
use crate::json::{entry_of, JsonV};
use crate::mutate::{
    entry_update_of, insert_place_of, inserted_objects, key_conditions, key_predicate, known_types,
    may_reread, mutation_of, operator_names, operators_given, operators_in, reached_rows,
    returned_fields, MutationType, MutationV,
};
use crate::projection::{own_types, second_of};
use crate::read::{delete_query_of, selected_from};
use crate::role::{both, filter_of, Verb};
use crate::statement::{put, typename_of, update_of, StatementV, WriteSources};
use crate::text::decimal;
use vstd::prelude::*;

verus! {

// ---------------------------------------------------------------------------
// Keys
// ---------------------------------------------------------------------------

/// What is given for a field of the key: under the argument that holds the key
/// where there is one, and as an argument of its own otherwise.
pub open spec fn given_key(args: JsonV, field: Seq<char>) -> Option<JsonV> {
    match args.get("pk_columns"@) {
        Some(JsonV::Object(entries)) => JsonV::Object(entries).get(field),
        _ => args.get(field),
    }
}

proof fn lemma_key_conditions(
    pk_columns: Seq<(String, String)>,
    i: nat,
    args: JsonV,
    names: NameOverrides,
    schema: Seq<char>,
    table: Seq<char>,
    found: Seq<(Seq<char>, JsonV)>,
    k: int,
)
    requires
        0 <= k < pk_columns.len(),
        i <= pk_columns.len(),
        k < i ==> given_key(args, field_for(names, schema, table, pk_columns[k].0@)) is Some
            && entry_of(found, field_for(names, schema, table, pk_columns[k].0@)) == Some(
            JsonV::Object(
                seq![
                    (
                        "_eq"@,
                        given_key(args, field_for(names, schema, table, pk_columns[k].0@))->0,
                    ),
                ],
            ),
        ),
    ensures
        ({
            let r = key_conditions(pk_columns, i, args, names, schema, table, found);
            let field = field_for(names, schema, table, pk_columns[k].0@);
            r is Ok ==> given_key(args, field) is Some && entry_of(r->Ok_0, field) == Some(
                JsonV::Object(seq![("_eq"@, given_key(args, field)->0)]),
            )
        }),
    decreases pk_columns.len() - i,
{
    if i < pk_columns.len() {
        let field = field_for(names, schema, table, pk_columns[i as int].0@);
        let mine = field_for(names, schema, table, pk_columns[k].0@);
        match given_key(args, field) {
            None => {},
            Some(value) => {
                let next = put(found, field, JsonV::Object(seq![("_eq"@, value)]));
                law_put_then_get(found, field, JsonV::Object(seq![("_eq"@, value)]), mine);
                lemma_key_conditions(
                    pk_columns,
                    i + 1,
                    args,
                    names,
                    schema,
                    table,
                    next,
                    k,
                );
            },
        }
    }
}

/// A mutation by key reaches the row whose key columns equal what is given for
/// each of them.
pub proof fn law_a_mutation_by_key_reaches_its_row(
    pk_columns: Seq<(String, String)>,
    args: JsonV,
    names: NameOverrides,
    schema: Seq<char>,
    table: Seq<char>,
    k: int,
)
    requires
        0 <= k < pk_columns.len(),
    ensures
        ({
            let r = key_predicate(pk_columns, args, names, schema, table);
            let field = field_for(names, schema, table, pk_columns[k].0@);
            &&& r is Ok ==> given_key(args, field) is Some && (r->Ok_0).get(field) == Some(
                JsonV::Object(seq![("_eq"@, given_key(args, field)->0)]),
            )
            &&& given_key(args, field) is None ==> r is Err
        }),
{
    lemma_key_conditions(pk_columns, 0, args, names, schema, table, Seq::empty(), k);
}

/// A table without a key has no row to reach by one, and one whose key is not
/// given is told which field is missing.
pub proof fn law_keys_have_to_be_given(
    column: (String, String),
    args: JsonV,
    names: NameOverrides,
    schema: Seq<char>,
    table: Seq<char>,
)
    ensures
        key_predicate(Seq::empty(), args, names, schema, table) == Err::<JsonV, ErrorV>(
            ErrorV {
                message: "\""@ + table
                    + "\" has no primary key, so it cannot be mutated by key"@,
                code: None,
                path: None,
            },
        ),
        ({
            let field = field_for(names, schema, table, column.0@);
            given_key(args, field) is None ==> key_predicate(
                seq![column],
                args,
                names,
                schema,
                table,
            ) == Err::<JsonV, ErrorV>(
                ErrorV {
                    message: if args.get("pk_columns"@) matches Some(JsonV::Object(_)) {
                        "pk_columns is missing the key column \""@ + field + "\""@
                    } else {
                        "missing required primary key argument \""@ + field + "\""@
                    },
                    code: None,
                    path: None,
                },
            )
        }),
{
    let one = seq![column];
    assert(one[0] == column);
}

// ---------------------------------------------------------------------------
// Arguments
// ---------------------------------------------------------------------------

proof fn lemma_operators_given(
    given: JsonV,
    i: nat,
    found: Seq<(Seq<char>, JsonV)>,
    name: Seq<char>,
    value: JsonV,
)
    requires
        i <= operator_names().len(),
    ensures
        operators_given(given, i, found).contains((name, value)) == (found.contains((name, value))
            || (exists|k: int|
            i <= k < operator_names().len() && #[trigger] operator_names()[k] == name
                && given.present(name) == Some(value))),
    decreases operator_names().len() - i,
{
    let names = operator_names();
    if i < names.len() {
        let next = match given.present(names[i as int]) {
            Some(v) => found.push((names[i as int], v)),
            None => found,
        };
        lemma_operators_given(given, i + 1, next, name, value);
        let r = operators_given(given, i, found);
        assert(r == operators_given(given, i + 1, next));
        if found.contains((name, value)) {
            let m = choose|m: int| 0 <= m < found.len() && found[m] == (name, value);
            assert(next[m] == (name, value));
        }
        if names[i as int] == name && given.present(name) == Some(value) {
            assert(next[found.len() as int] == (name, value));
        }
        if next.contains((name, value)) && !found.contains((name, value)) {
            let m = choose|m: int| 0 <= m < next.len() && next[m] == (name, value);
            if m < found.len() {
                assert(found[m] == (name, value));
            }
            assert(names[i as int] == name);
        }
    }
}

/// An update takes the operators that it is given and no other argument.
pub proof fn law_an_update_takes_its_operators(given: JsonV, name: Seq<char>, value: JsonV)
    ensures
        operators_in(given).contains((name, value)) == (given.present(name) == Some(value) && (name
            == "_set"@ || name == "_inc"@ || name == "_append"@ || name == "_prepend"@ || name
            == "_delete_key"@ || name == "_delete_elem"@ || name == "_delete_at_path"@)),
{
    lemma_operators_given(given, 0, Seq::empty(), name, value);
    let names = operator_names();
    assert(names[0] == "_set"@ && names[1] == "_inc"@ && names[2] == "_append"@ && names[3]
        == "_prepend"@ && names[4] == "_delete_key"@ && names[5] == "_delete_elem"@ && names[6]
        == "_delete_at_path"@ && names.len() == 7);
}

/// What is inserted: the list that is given, or the one object that is.
pub proof fn law_what_is_given_is_inserted(args: JsonV)
    ensures
        args.get("objects"@) is Some ==> inserted_objects(args) == args.get("objects"@)->0,
        args.get("objects"@) is None && args.get("object"@) is Some ==> inserted_objects(args)
            == JsonV::Array(seq![args.get("object"@)->0]),
        args.get("objects"@) is None && args.get("object"@) is None ==> inserted_objects(args)
            == JsonV::Array(Seq::empty()),
        rows_of(JsonV::Array(Seq::empty())) == Err::<Seq<JsonV>, ErrorV>(
            ErrorV { message: "objects cannot be empty"@, code: None, path: None },
        ),
        rows_of(JsonV::Null) == Err::<Seq<JsonV>, ErrorV>(
            ErrorV { message: "objects must be an array or object"@, code: None, path: None },
        ),
{
}

/// A mutation of one row answers with what is asked of it, and one of many with
/// what is asked of the rows it returns.
pub proof fn law_mutations_return_what_is_asked(kind: MutationType, selection: Selected)
    ensures
        kind is InsertOne || kind is UpdateByPk || kind is DeleteByPk ==> returned_fields(
            kind,
            selection,
        ) == Some(selection.fields@),
        kind is Insert || kind is Update || kind is Delete || kind is UpdateMany
            ==> returned_fields(kind, selection) == (match selected_from(
            selection.fields@,
            0,
            "returning"@,
        ) {
            Some(returning) => Some(returning.fields@),
            None => None,
        }),
{
}

/// Rows are read again where there are some and they are still there.
pub proof fn law_deleted_rows_are_not_read_again(
    kind: MutationType,
    answers_rows: bool,
    written: nat,
)
    ensures
        may_reread(kind, answers_rows, written) == (answers_rows && written > 0 && (kind is Insert
            || kind is InsertOne || kind is Update || kind is UpdateByPk || kind is UpdateMany)),
{
}

/// Which rows a mutation reaches: those of its key or of its filter, and of
/// those the ones that the caller's rule for the operation lets through.
pub proof fn law_a_mutation_reaches_what_it_may(
    ws: WriteSources<'_>,
    verb: Verb,
    schema: Seq<char>,
    table: Seq<char>,
    pk_columns: Seq<(String, String)>,
    args: JsonV,
    granted: Option<JsonV>,
)
    requires
        filter_of(ws.caller.ruled(schema, table, verb)) == Ok::<Option<JsonV>, ErrorV>(granted),
    ensures
        reached_rows(ws, verb, false, schema, table, pk_columns, args) == Ok::<
            Option<JsonV>,
            ErrorV,
        >(both(args.get("where"@), granted)),
        match key_predicate(pk_columns, args, *ws.src.names, schema, table) {
            Err(e) => reached_rows(ws, verb, true, schema, table, pk_columns, args) == Err::<
                Option<JsonV>,
                ErrorV,
            >(e),
            Ok(key) => reached_rows(ws, verb, true, schema, table, pk_columns, args) == Ok::<
                Option<JsonV>,
                ErrorV,
            >(both(Some(key), granted)),
        },
{
}

/// Each kind of mutation is its own statement: an insert of the rows it is
/// given, an update or a delete of those it reaches, held to the rule for that
/// operation, and a list of updates one after another.
pub proof fn law_each_mutation_is_its_own_statement(
    ws: WriteSources<'_>,
    schema: Seq<char>,
    table: Seq<char>,
    pk_columns: Seq<(String, String)>,
    args: JsonV,
    selection: Selected,
    max_rows: Option<i64>,
    kind: MutationType,
)
    ensures
        ({
            let r = mutation_of(
                ws,
                kind,
                schema,
                table,
                pk_columns,
                args,
                selection,
                max_rows,
            );
            let typename = typename_of(ws.type_names@, schema, table);
            let types = match ws.src.cache.table(schema, table) {
                Some(found) => own_types(found),
                None => Seq::empty(),
            };
            &&& kind is UpdateMany ==> (match args.get("updates"@) {
                Some(JsonV::Array(entries)) => r == Ok::<MutationV, ErrorV>(
                    MutationV::UpdateEach(entries),
                ),
                _ => r == Err::<MutationV, ErrorV>(
                    ErrorV {
                        message: "\"updates\" takes a list of {where, _set, …} objects"@,
                        code: None,
                        path: None,
                    },
                ),
            })
            &&& (kind is Insert || kind is InsertOne) ==> (match rows_of(inserted_objects(args)) {
                Err(e) => r == Err::<MutationV, ErrorV>(e),
                Ok(rows) => r is Ok && r->Ok_0 is Insert && (r->Ok_0)->rows == rows
                    && (r->Ok_0)->single == (kind is InsertOne),
            })
            &&& (kind is Update || kind is UpdateByPk) ==> (match reached_rows(
                ws,
                Verb::Update,
                kind is UpdateByPk,
                schema,
                table,
                pk_columns,
                args,
            ) {
                Err(e) => r == Err::<MutationV, ErrorV>(e),
                Ok(filter) => match update_of(
                    ws,
                    schema,
                    table,
                    typename,
                    operators_in(args),
                    types,
                    filter,
                ) {
                    Err(e) => r == Err::<MutationV, ErrorV>(e),
                    Ok(statement) => r == Ok::<MutationV, ErrorV>(MutationV::Update(statement)),
                },
            })
            &&& (kind is Delete || kind is DeleteByPk) ==> (match reached_rows(
                ws,
                Verb::Delete,
                kind is DeleteByPk,
                schema,
                table,
                pk_columns,
                args,
            ) {
                Err(e) => r == Err::<MutationV, ErrorV>(e),
                Ok(filter) => match delete_query_of(
                    ws,
                    schema,
                    table,
                    typename,
                    filter,
                    returned_fields(kind, selection),
                    max_rows,
                ) {
                    Err(e) => r == Err::<MutationV, ErrorV>(e),
                    Ok(query) => r == Ok::<MutationV, ErrorV>(MutationV::Delete(query)),
                },
            })
        }),
{
}

/// Each update of a list is held to the rule for updates and reaches the rows of
/// its own filter.
pub proof fn law_each_update_reaches_its_own_rows(
    ws: WriteSources<'_>,
    schema: Seq<char>,
    table: Seq<char>,
    entry: JsonV,
    granted: Option<JsonV>,
)
    requires
        filter_of(ws.caller.ruled(schema, table, Verb::Update)) == Ok::<Option<JsonV>, ErrorV>(
            granted,
        ),
    ensures
        entry is Object ==> entry_update_of(ws, schema, table, entry) == update_of(
            ws,
            schema,
            table,
            typename_of(ws.type_names@, schema, table),
            operators_in(entry),
            known_types(ws, schema, table),
            both(entry.get("where"@), granted),
        ),
        !(entry is Object) ==> entry_update_of(ws, schema, table, entry) == Err::<
            Option<StatementV>,
            ErrorV,
        >(
            ErrorV {
                message: "each update is an object of {where, _set, …}"@,
                code: None,
                path: None,
            },
        ),
{
}

// ---------------------------------------------------------------------------
// Places
// ---------------------------------------------------------------------------

/// Where the rows of an insert stand in the request: under the argument they
/// were given by, of the field as it is answered, and each at its own number
/// where there may be several.
pub proof fn law_rows_stand_where_they_were_given(
    kind: MutationType,
    args: JsonV,
    selection: Selected,
    index: nat,
)
    ensures
        ({
            let here = "$.selectionSet."@ + (match selection.alias {
                Some(alias) => alias@,
                None => selection.name@,
            }) + ".args."@ + (if kind is InsertOne {
                "object"@
            } else {
                "objects"@
            });
            let place = insert_place_of(kind, args, selection);
            &&& place.objects == here
            &&& place.conflict == "$.selectionSet."@ + (match selection.alias {
                Some(alias) => alias@,
                None => selection.name@,
            }) + ".args.on_conflict"@
            &&& place.on_conflict == args.present("on_conflict"@)
            &&& top_place(place, true, index).row == here
            &&& top_place(place, false, index).row == here + "["@ + decimal(index) + "]"@
            &&& top_place(place, false, index).on_conflict == place.on_conflict
            &&& top_place(place, false, index).conflict == place.conflict
        }),
{
    let name = match selection.alias {
        Some(alias) => alias@,
        None => selection.name@,
    };
    assert(crate::embed::answered_as(selection) == name);
    let last = if kind is InsertOne {
        "object"@
    } else {
        "objects"@
    };
    let place = insert_place_of(kind, args, selection);
    assert(place.objects =~= "$.selectionSet."@ + name + ".args."@ + last);
    assert(place.conflict =~= "$.selectionSet."@ + name + ".args.on_conflict"@);
}

/// Where a nested row stands: under its relationship, in the row that it was
/// given in, and at its own number where there are several.
pub proof fn law_nested_rows_stand_in_their_parents(
    row: Seq<char>,
    relationship: Seq<char>,
    index: nat,
    conflict: Option<JsonV>,
)
    ensures
        place_under(row, relationship, None, conflict) == (PlaceV {
            on_conflict: conflict,
            row: row + "."@ + relationship + ".data"@,
            objects: row + "."@ + relationship + ".data"@,
            conflict: row + "."@ + relationship + ".on_conflict"@,
        }),
        place_under(row, relationship, Some(index), conflict) == (PlaceV {
            on_conflict: conflict,
            row: row + "."@ + relationship + (".data["@ + decimal(index) + "]"@),
            objects: row + "."@ + relationship + ".data"@,
            conflict: row + "."@ + relationship + ".on_conflict"@,
        }),
{
}

/// A row that is pointed at is begun in the table the relationship leads to, with
/// what is given for it; one whose keys the row already holds is refused, and so
/// is what is no object.
pub proof fn law_rows_pointed_at_are_begun(ws: WriteSources<'_>, top: FrameV, plan: EmbedPlan)
    requires
        top.next_one < top.to_one.len(),
        top.to_one[top.next_one as int].relationship.relationship.plan == Ok::<EmbedPlan, String>(
            plan,
        ),
    ensures
        ({
            let nested = top.to_one[top.next_one as int];
            let name = nested.relationship.name@;
            match nested.data {
                JsonV::Object(child) => match determined_from(plan, 0, top.columns) {
                    None => pointed_at(ws, top) == begun(
                        ws,
                        plan.foreign_schema@,
                        plan.foreign_table@,
                        child,
                        PlaceV {
                            on_conflict: nested.conflict,
                            row: top.place.row + "."@ + name + ".data"@,
                            objects: top.place.row + "."@ + name + ".data"@,
                            conflict: top.place.row + "."@ + name + ".on_conflict"@,
                        },
                    ),
                    Some(column) => pointed_at(ws, top) == Err::<FrameV, ErrorV>(
                        ErrorV {
                            message: "cannot insert object relationship \""@ + name + "\" as \""@
                                + column + "\" column values are already determined"@,
                            code: Some("validation-failed"@),
                            path: Some(top.place.row + "."@ + name),
                        },
                    ),
                },
                _ => pointed_at(ws, top) == Err::<FrameV, ErrorV>(
                    ErrorV {
                        message: "\""@ + name + "\" takes an object to insert"@,
                        code: None,
                        path: None,
                    },
                ),
            }
        }),
{
}

proof fn lemma_determined(plan: EmbedPlan, i: nat, columns: Seq<(Seq<char>, JsonV)>)
    ensures
        match determined_from(plan, i, columns) {
            None => forall|k: int|
                i <= k < plan.columns@.len() ==> JsonV::Object(columns).present(
                    (#[trigger] plan.columns@[k]).0@,
                ) is None,
            Some(column) => JsonV::Object(columns).present(column) is Some && exists|k: int|
                i <= k < plan.columns@.len() && (#[trigger] plan.columns@[k]).0@ == column,
        },
    decreases plan.columns@.len() - i,
{
    if i < plan.columns@.len() {
        if JsonV::Object(columns).present(plan.columns@[i as int].0@) is None {
            lemma_determined(plan, i + 1, columns);
        }
    }
}

/// A key is already held where a value other than null is written to one of its
/// columns.
pub proof fn law_held_keys_are_noticed(plan: EmbedPlan, columns: Seq<(Seq<char>, JsonV)>)
    ensures
        (determined_from(plan, 0, columns) is None) == (forall|k: int|
            0 <= k < plan.columns@.len() ==> JsonV::Object(columns).present(
                (#[trigger] plan.columns@[k]).0@,
            ) is None),
{
    lemma_determined(plan, 0, columns);
}

/// A row to insert begins alone with nothing written, and has to be an object.
pub proof fn law_a_row_begins_alone(
    ws: WriteSources<'_>,
    schema: Seq<char>,
    table: Seq<char>,
    row: JsonV,
    place: PlaceV,
)
    ensures
        row is Object ==> row_begun(ws, schema, table, row, place) == (match begun(
            ws,
            schema,
            table,
            row->Object_0,
            place,
        ) {
            Ok(frame) => Ok(InsertionV { frames: seq![frame], written: 0 }),
            Err(e) => Err(e),
        }),
        !(row is Object) ==> row_begun(ws, schema, table, row, place) == Err::<
            InsertionV,
            ErrorV,
        >(
            ErrorV {
                message: "each object to insert is an object"@,
                code: None,
                path: None,
            },
        ),
{
}

/// A shape that is not one is refused where it stands, by the name its column is
/// shown by; values of other columns are not looked at.
pub proof fn law_bad_shapes_are_refused_in_place(
    column: Seq<char>,
    value: JsonV,
    t: Seq<char>,
    names: NameOverrides,
    schema: Seq<char>,
    table: Seq<char>,
    row: Seq<char>,
)
    ensures
        shapes_refused(
            seq![(column, value)],
            0,
            seq![(column, t)],
            names,
            schema,
            table,
            row,
        ) == (if (t == "geometry"@ || t == "geography"@) && crate::geojson::shape_fault(
            value,
        ) is Some {
            Some(
                ErrorV {
                    message: crate::geojson::shape_fault(value)->0,
                    code: Some("parse-failed"@),
                    path: Some(row + "."@ + field_for(names, schema, table, column)),
                },
            )
        } else {
            None
        }),
{
    let columns = seq![(column, value)];
    let types = seq![(column, t)];
    assert(columns[0] == (column, value));
    assert(types[0] == (column, t));
    assert(second_of(types, column) == Some(t));
    assert(shapes_refused(columns, 1, types, names, schema, table, row) is None);
}

} // verus!

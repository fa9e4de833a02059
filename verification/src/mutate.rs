//! What a mutation field does: the statements it needs, decided from its
//! arguments before anything is written.

use crate::catalog::{exposed_name, field_for, NameOverrides};
use crate::embed::{answered_as, Selected};
use crate::error::{plain_refusal, Error, ErrorV};
use crate::insert::{rows_of, rows_to_insert, Place, PlaceV};
use crate::json::{entries_view, jsons, lemma_array_view, lemma_object_view, Json, JsonV};
use crate::projection::{column_types_of, own_types, pairs};
use crate::read::{delete_query, delete_query_of, find_selected, selected_from, Query, QueryV};
use crate::role::{and_predicates, both, filter_of, permission_filter, Verb};
use crate::statement::{
    find_typename, put, put_entry, typename_of, update_of, update_statement, Statement, StatementV,
    WriteSources,
};
use crate::text::{cat2, cat3, owned};
use vstd::prelude::*;

verus! {

/// What kind of write a mutation field is.
#[derive(Clone, Copy, PartialEq, Eq, Structural)]
pub enum MutationType {
    Insert,
    InsertOne,
    Update,
    UpdateByPk,
    UpdateMany,
    Delete,
    DeleteByPk,
}

/// Whether a mutation answers with one row rather than with a response.
pub open spec fn answers_row(kind: MutationType) -> bool {
    kind is InsertOne || kind is UpdateByPk || kind is DeleteByPk
}

/// Whether a mutation answers with one row rather than with a response.
pub fn is_by_key(kind: MutationType) -> (r: bool)
    ensures
        r == answers_row(kind),
{
    matches!(kind, MutationType::InsertOne | MutationType::UpdateByPk | MutationType::DeleteByPk)
}

/// The fields a mutation's rows are asked for: of a by-key one its own, of
/// any other those under `returning`.
pub open spec fn returned_fields(kind: MutationType, selection: Selected) -> Option<Seq<Selected>> {
    if answers_row(kind) {
        Some(selection.fields@)
    } else {
        match selected_from(selection.fields@, 0, "returning"@) {
            Some(returning) => Some(returning.fields@),
            None => None,
        }
    }
}

/// The fields a mutation's rows are asked for.
pub fn returning_of<'s>(kind: MutationType, selection: &'s Selected) -> (r: Option<
    &'s Vec<Selected>,
>)
    ensures
        (match r {
            Some(fields) => Some(fields@),
            None => None,
        }) == returned_fields(kind, *selection),
{
    if is_by_key(kind) {
        Some(&selection.fields)
    } else {
        match find_selected(&selection.fields, "returning") {
            Some(returning) => Some(&returning.fields),
            None => None,
        }
    }
}

// ---------------------------------------------------------------------------
// Update operators
// ---------------------------------------------------------------------------

/// Everything an update may be told to do, in the order the schema declares
/// them.
pub open spec fn operator_names() -> Seq<Seq<char>> {
    seq![
        "_set"@,
        "_inc"@,
        "_append"@,
        "_prepend"@,
        "_delete_key"@,
        "_delete_elem"@,
        "_delete_at_path"@,
    ]
}

/// The operators from the `i`th on that are given and not null, after those
/// in `found`.
pub open spec fn operators_given(given: JsonV, i: nat, found: Seq<(Seq<char>, JsonV)>) -> Seq<
    (Seq<char>, JsonV),
>
    decreases operator_names().len() - i,
{
    if i >= operator_names().len() {
        found
    } else {
        operators_given(
            given,
            i + 1,
            match given.present(operator_names()[i as int]) {
                Some(value) => found.push((operator_names()[i as int], value)),
                None => found,
            },
        )
    }
}

/// What an update is told to do, in the order the schema declares it.
pub open spec fn operators_in(given: JsonV) -> Seq<(Seq<char>, JsonV)> {
    operators_given(given, 0, Seq::empty())
}

fn take_operator(given: &Json, name: &str, found: &mut Vec<(String, Json)>)
    ensures
        entries_view(final(found)@) == (match given@.present(name@) {
            Some(value) => entries_view(old(found)@).push((name@, value)),
            None => entries_view(old(found)@),
        }),
{
    if let Some(value) = given.present(name) {
        let copied = value.copy();
        let ghost before = found@;
        let ghost held = copied@;
        found.push((owned(name), copied));
        assert(entries_view(found@) =~= entries_view(before).push((name@, held)));
    }
}

/// What an update is told to do.
pub fn update_operators(given: &Json) -> (r: Vec<(String, Json)>)
    ensures
        entries_view(r@) == operators_in(given@),
{
    let mut found: Vec<(String, Json)> = Vec::new();
    assert(entries_view(found@) =~= Seq::<(Seq<char>, JsonV)>::empty());
    proof {
        reveal_with_fuel(operators_given, 8);
    }
    take_operator(given, "_set", &mut found);
    take_operator(given, "_inc", &mut found);
    take_operator(given, "_append", &mut found);
    take_operator(given, "_prepend", &mut found);
    take_operator(given, "_delete_key", &mut found);
    take_operator(given, "_delete_elem", &mut found);
    take_operator(given, "_delete_at_path", &mut found);
    found
}

// ---------------------------------------------------------------------------
// By key
// ---------------------------------------------------------------------------

/// The conditions that name a row by its key columns from the `i`th on, after
/// those in `found`. The key is one object, or an argument for each column.
pub open spec fn key_conditions(
    pk_columns: Seq<(String, String)>,
    i: nat,
    args: JsonV,
    names: NameOverrides,
    schema: Seq<char>,
    table: Seq<char>,
    found: Seq<(Seq<char>, JsonV)>,
) -> Result<Seq<(Seq<char>, JsonV)>, ErrorV>
    decreases pk_columns.len() - i,
{
    if i >= pk_columns.len() {
        Ok(found)
    } else {
        let field = field_for(names, schema, table, pk_columns[i as int].0@);
        let value = match args.get("pk_columns"@) {
            Some(JsonV::Object(entries)) => match JsonV::Object(entries).get(field) {
                Some(value) => Ok(value),
                None => Err(
                    plain_refusal("pk_columns is missing the key column \""@ + field + "\""@),
                ),
            },
            _ => match args.get(field) {
                Some(value) => Ok(value),
                None => Err(
                    plain_refusal("missing required primary key argument \""@ + field + "\""@),
                ),
            },
        };
        match value {
            Err(e) => Err(e),
            Ok(value) => key_conditions(
                pk_columns,
                i + 1,
                args,
                names,
                schema,
                table,
                put(found, field, JsonV::Object(seq![("_eq"@, value)])),
            ),
        }
    }
}

/// The predicate that addresses one row by its primary key.
pub open spec fn key_predicate(
    pk_columns: Seq<(String, String)>,
    args: JsonV,
    names: NameOverrides,
    schema: Seq<char>,
    table: Seq<char>,
) -> Result<JsonV, ErrorV> {
    if pk_columns.len() == 0 {
        Err(
            plain_refusal(
                "\""@ + table + "\" has no primary key, so it cannot be mutated by key"@,
            ),
        )
    } else {
        match key_conditions(pk_columns, 0, args, names, schema, table, Seq::empty()) {
            Ok(found) => Ok(JsonV::Object(found)),
            Err(e) => Err(e),
        }
    }
}

/// What a function that yields a document reports.
pub open spec fn document_outcome(r: Result<Json, Error>) -> Result<JsonV, ErrorV> {
    match r {
        Ok(document) => Ok(document@),
        Err(e) => Err(e@),
    }
}

fn equals(value: &Json) -> (r: Json)
    ensures
        r@ == JsonV::Object(seq![("_eq"@, value@)]),
{
    let entries: Vec<(String, Json)> = vec![(owned("_eq"), value.copy())];
    proof {
        lemma_object_view(entries);
        assert(entries_view(entries@) =~= seq![("_eq"@, value@)]);
    }
    Json::Object(entries)
}

/// Build a `where` document that addresses exactly one row by primary key.
///
/// The key is written as one `pk_columns` object or as an argument for each
/// key column, and both spellings are read. Columns go by the names they are
/// exposed under.
pub fn pk_where_from_args(
    args: &Json,
    schema_name: &str,
    table_name: &str,
    pk_columns: &Vec<(String, String)>,
    names: &NameOverrides,
) -> (r: Result<Json, Error>)
    ensures
        document_outcome(r) == key_predicate(
            pk_columns@,
            args@,
            *names,
            schema_name@,
            table_name@,
        ),
{
    if pk_columns.len() == 0 {
        return Err(
            Error::new(
                cat3("\"", table_name, "\" has no primary key, so it cannot be mutated by key"),
            ),
        );
    }
    let from_object: Option<&Json> = match args.get("pk_columns") {
        Some(object) => if matches!(object, Json::Object(_)) {
            Some(object)
        } else {
            None
        },
        None => None,
    };
    let mut found: Vec<(String, Json)> = Vec::new();
    assert(entries_view(found@) =~= Seq::<(Seq<char>, JsonV)>::empty());
    let mut i: usize = 0;
    while i < pk_columns.len()
        invariant
            i <= pk_columns.len(),
            (match from_object {
                Some(object) => args@.get("pk_columns"@) == Some(object@) && object@ is Object,
                None => !(args@.get("pk_columns"@) is Some && args@.get("pk_columns"@)->0 is Object),
            }),
            key_predicate(pk_columns@, args@, *names, schema_name@, table_name@) == (
            match key_conditions(
                pk_columns@,
                i as nat,
                args@,
                *names,
                schema_name@,
                table_name@,
                entries_view(found@),
            ) {
                Ok(found) => Ok(JsonV::Object(found)),
                Err(e) => Err(e),
            }),
        decreases pk_columns.len() - i,
    {
        let field = exposed_name(names, schema_name, table_name, &pk_columns[i].0);
        let value = match from_object {
            Some(object) => match object.get(field) {
                Some(value) => value,
                None => {
                    return Err(
                        Error::new(cat3("pk_columns is missing the key column \"", field, "\"")),
                    );
                },
            },
            None => match args.get(field) {
                Some(value) => value,
                None => {
                    return Err(
                        Error::new(cat3("missing required primary key argument \"", field, "\"")),
                    );
                },
            },
        };
        put_entry(&mut found, owned(field), equals(value));
        i += 1;
    }
    proof {
        lemma_object_view(found);
    }
    Ok(Json::Object(found))
}

// ---------------------------------------------------------------------------
// What is written
// ---------------------------------------------------------------------------

/// The rows an insert is given: a list, or one spelled without the list.
pub open spec fn inserted_objects(args: JsonV) -> JsonV {
    match args.get("objects"@) {
        Some(objects) => objects,
        None => match args.get("object"@) {
            Some(object) => JsonV::Array(seq![object]),
            None => JsonV::Array(Seq::empty()),
        },
    }
}

/// The rows an insert is given.
pub fn insert_objects(args: &Json) -> (r: Json)
    ensures
        r@ == inserted_objects(args@),
{
    match args.get("objects") {
        Some(objects) => objects.copy(),
        None => match args.get("object") {
            Some(object) => {
                let items: Vec<Json> = vec![object.copy()];
                proof {
                    lemma_array_view(items);
                    assert(jsons(items@) =~= seq![object@]);
                }
                Json::Array(items)
            },
            None => {
                let items: Vec<Json> = Vec::new();
                proof {
                    lemma_array_view(items);
                    assert(jsons(items@) =~= Seq::<JsonV>::empty());
                }
                Json::Array(items)
            },
        },
    }
}

/// Where an insert is in the request: the arguments of the field as it was
/// written.
pub open spec fn insert_place_of(kind: MutationType, args: JsonV, selection: Selected) -> PlaceV {
    let here = "$.selectionSet."@ + answered_as(selection);
    PlaceV {
        on_conflict: args.present("on_conflict"@),
        row: Seq::empty(),
        objects: here + ".args."@ + (if kind is InsertOne {
            "object"@
        } else {
            "objects"@
        }),
        conflict: here + ".args.on_conflict"@,
    }
}

/// Where an insert is in the request.
pub fn insert_place(kind: MutationType, args: &Json, selection: &Selected) -> (r: Place)
    ensures
        r@ == insert_place_of(kind, args@, *selection),
{
    let name: &str = match &selection.alias {
        Some(alias) => alias.as_str(),
        None => selection.name.as_str(),
    };
    let here = cat2("$.selectionSet.", name);
    let argument: &str = if matches!(kind, MutationType::InsertOne) {
        "object"
    } else {
        "objects"
    };
    let on_conflict = match args.present("on_conflict") {
        Some(conflict) => Some(conflict.copy()),
        None => None,
    };
    Place {
        on_conflict,
        row: String::new(),
        objects: cat3(&here, ".args.", argument),
        conflict: cat2(&here, ".args.on_conflict"),
    }
}

/// The rows an update or a delete reaches: those that were asked for and that
/// the role may reach. A by-key one is narrowed too.
pub open spec fn reached_rows(
    ws: WriteSources<'_>,
    verb: Verb,
    by_key: bool,
    schema: Seq<char>,
    table: Seq<char>,
    pk_columns: Seq<(String, String)>,
    args: JsonV,
) -> Result<Option<JsonV>, ErrorV> {
    let asked = if by_key {
        match key_predicate(pk_columns, args, *ws.src.names, schema, table) {
            Ok(predicate) => Ok(Some(predicate)),
            Err(e) => Err(e),
        }
    } else {
        Ok(args.get("where"@))
    };
    match asked {
        Err(e) => Err(e),
        Ok(asked) => match filter_of(ws.caller.ruled(schema, table, verb)) {
            Err(e) => Err(e),
            Ok(granted) => Ok(both(asked, granted)),
        },
    }
}

/// The rows an update or a delete reaches.
pub fn mutation_filter(
    ws: WriteSources<'_>,
    verb: Verb,
    by_key: bool,
    schema_name: &str,
    table_name: &str,
    pk_columns: &Vec<(String, String)>,
    args: &Json,
) -> (r: Result<Option<Json>, Error>)
    ensures
        crate::role::predicate_outcome(r) == reached_rows(
            ws,
            verb,
            by_key,
            schema_name@,
            table_name@,
            pk_columns@,
            args@,
        ),
{
    let asked = if by_key {
        match pk_where_from_args(args, schema_name, table_name, pk_columns, ws.src.names) {
            Ok(predicate) => Some(predicate),
            Err(e) => return Err(e),
        }
    } else {
        match args.get("where") {
            Some(filter) => Some(filter.copy()),
            None => None,
        }
    };
    match permission_filter(ws.caller, schema_name, table_name, verb) {
        Err(e) => Err(e),
        Ok(granted) => Ok(and_predicates(asked, granted)),
    }
}

/// The column types of a table that may not be known.
pub open spec fn known_types(ws: WriteSources<'_>, schema: Seq<char>, table: Seq<char>) -> Seq<
    (Seq<char>, Seq<char>),
> {
    match ws.src.cache.table(schema, table) {
        Some(found) => own_types(found),
        None => Seq::empty(),
    }
}

fn types_known(ws: WriteSources<'_>, schema: &str, table: &str) -> (r: Vec<(String, String)>)
    ensures
        pairs(r@) == known_types(ws, schema@, table@),
{
    match ws.src.cache.get_table(schema, table) {
        Some(found) => column_types_of(found),
        None => {
            let none: Vec<(String, String)> = Vec::new();
            assert(pairs(none@) =~= Seq::<(Seq<char>, Seq<char>)>::empty());
            none
        },
    }
}

/// What a mutation does.
pub enum Mutation<'a> {
    /// Insert these rows, one after another. `single` where the client wrote
    /// one row rather than a list.
    Insert { rows: Vec<Json>, place: Place, single: bool },
    /// Update, if anything is set.
    Update(Option<Statement>),
    /// Several updates, each planned when its turn comes.
    UpdateEach(Vec<Json>),
    /// Delete, and answer.
    Delete(Query<'a>),
}

/// What a [`Mutation`] holds.
#[verifier::ext_equal]
pub enum MutationV {
    Insert { rows: Seq<JsonV>, place: PlaceV, single: bool },
    Update(Option<StatementV>),
    UpdateEach(Seq<JsonV>),
    Delete(QueryV),
}

impl<'a> View for Mutation<'a> {
    type V = MutationV;

    open spec fn view(&self) -> MutationV {
        match *self {
            Mutation::Insert { rows, place, single } => MutationV::Insert {
                rows: jsons(rows@),
                place: place@,
                single,
            },
            Mutation::Update(statement) => MutationV::Update(
                match statement {
                    Some(statement) => Some(statement@),
                    None => None,
                },
            ),
            Mutation::UpdateEach(entries) => MutationV::UpdateEach(jsons(entries@)),
            Mutation::Delete(query) => MutationV::Delete(query@),
        }
    }
}

/// What a mutation does, decided from its arguments.
pub open spec fn mutation_of(
    ws: WriteSources<'_>,
    kind: MutationType,
    schema: Seq<char>,
    table: Seq<char>,
    pk_columns: Seq<(String, String)>,
    args: JsonV,
    selection: Selected,
    max_rows: Option<i64>,
) -> Result<MutationV, ErrorV> {
    let typename = typename_of(ws.type_names@, schema, table);
    match kind {
        MutationType::UpdateMany => match args.get("updates"@) {
            Some(JsonV::Array(entries)) => Ok(MutationV::UpdateEach(entries)),
            _ => Err(
                plain_refusal("\"updates\" takes a list of {where, _set, …} objects"@),
            ),
        },
        MutationType::Insert | MutationType::InsertOne => match rows_of(inserted_objects(args)) {
            Err(e) => Err(e),
            Ok(rows) => Ok(
                MutationV::Insert {
                    rows,
                    place: insert_place_of(kind, args, selection),
                    single: kind is InsertOne,
                },
            ),
        },
        MutationType::Update | MutationType::UpdateByPk => match reached_rows(
            ws,
            Verb::Update,
            kind is UpdateByPk,
            schema,
            table,
            pk_columns,
            args,
        ) {
            Err(e) => Err(e),
            Ok(filter) => match update_of(
                ws,
                schema,
                table,
                typename,
                operators_in(args),
                known_types(ws, schema, table),
                filter,
            ) {
                Err(e) => Err(e),
                Ok(statement) => Ok(MutationV::Update(statement)),
            },
        },
        MutationType::Delete | MutationType::DeleteByPk => match reached_rows(
            ws,
            Verb::Delete,
            kind is DeleteByPk,
            schema,
            table,
            pk_columns,
            args,
        ) {
            Err(e) => Err(e),
            Ok(filter) => match delete_query_of(
                ws,
                schema,
                table,
                typename,
                filter,
                returned_fields(kind, selection),
                max_rows,
            ) {
                Err(e) => Err(e),
                Ok(query) => Ok(MutationV::Delete(query)),
            },
        },
    }
}

/// What a mutation does, decided from its arguments.
pub fn plan_mutation<'a>(
    ws: WriteSources<'a>,
    kind: MutationType,
    schema_name: &str,
    table_name: &str,
    pk_columns: &Vec<(String, String)>,
    args: &Json,
    selection: &Selected,
    max_rows: Option<i64>,
) -> (r: Result<Mutation<'a>, Error>)
    ensures
        (match r {
            Ok(mutation) => Ok(mutation@),
            Err(e) => Err(e@),
        }) == mutation_of(
            ws,
            kind,
            schema_name@,
            table_name@,
            pk_columns@,
            args@,
            *selection,
            max_rows,
        ),
{
    let typename = find_typename(ws.type_names, schema_name, table_name);
    match kind {
        MutationType::UpdateMany => match args.get("updates") {
            Some(Json::Array(entries)) => {
                proof {
                    lemma_array_view(*entries);
                }
                Ok(Mutation::UpdateEach(crate::read::copy_jsons(entries)))
            },
            _ => Err(
                Error::new(owned("\"updates\" takes a list of {where, _set, …} objects")),
            ),
        },
        MutationType::Insert | MutationType::InsertOne => match rows_to_insert(
            insert_objects(args),
        ) {
            Err(e) => Err(e),
            Ok(rows) => Ok(
                Mutation::Insert {
                    rows,
                    place: insert_place(kind, args, selection),
                    single: matches!(kind, MutationType::InsertOne),
                },
            ),
        },
        MutationType::Update | MutationType::UpdateByPk => {
            let by_key = matches!(kind, MutationType::UpdateByPk);
            let filter = match mutation_filter(
                ws,
                Verb::Update,
                by_key,
                schema_name,
                table_name,
                pk_columns,
                args,
            ) {
                Ok(filter) => filter,
                Err(e) => return Err(e),
            };
            let wanted: Option<&Json> = match &filter {
                Some(filter) => Some(filter),
                None => None,
            };
            let operators = update_operators(args);
            let types = types_known(ws, schema_name, table_name);
            match update_statement(
                ws,
                schema_name,
                table_name,
                typename,
                &operators,
                &types,
                wanted,
            ) {
                Ok(statement) => Ok(Mutation::Update(statement)),
                Err(e) => Err(e),
            }
        },
        MutationType::Delete | MutationType::DeleteByPk => {
            let by_key = matches!(kind, MutationType::DeleteByPk);
            let filter = match mutation_filter(
                ws,
                Verb::Delete,
                by_key,
                schema_name,
                table_name,
                pk_columns,
                args,
            ) {
                Ok(filter) => filter,
                Err(e) => return Err(e),
            };
            let wanted: Option<&Json> = match &filter {
                Some(filter) => Some(filter),
                None => None,
            };
            match delete_query(
                ws,
                schema_name,
                table_name,
                typename,
                wanted,
                returning_of(kind, selection),
                max_rows,
            ) {
                Ok(query) => Ok(Mutation::Delete(query)),
                Err(e) => Err(e),
            }
        },
    }
}

/// One of several updates: its own operators on the rows it names itself and
/// the role may reach, as though it were sent alone.
pub open spec fn entry_update_of(
    ws: WriteSources<'_>,
    schema: Seq<char>,
    table: Seq<char>,
    entry: JsonV,
) -> Result<Option<StatementV>, ErrorV> {
    match entry {
        JsonV::Object(_) => match filter_of(ws.caller.ruled(schema, table, Verb::Update)) {
            Err(e) => Err(e),
            Ok(granted) => update_of(
                ws,
                schema,
                table,
                typename_of(ws.type_names@, schema, table),
                operators_in(entry),
                known_types(ws, schema, table),
                both(entry.get("where"@), granted),
            ),
        },
        _ => Err(plain_refusal("each update is an object of {where, _set, …}"@)),
    }
}

/// One of several updates.
pub fn plan_entry(ws: WriteSources<'_>, schema_name: &str, table_name: &str, entry: &Json) -> (r:
    Result<Option<Statement>, Error>)
    ensures
        (match r {
            Ok(Some(statement)) => Ok(Some(statement@)),
            Ok(None) => Ok(None),
            Err(e) => Err(e@),
        }) == entry_update_of(ws, schema_name@, table_name@, entry@),
{
    if !matches!(entry, Json::Object(_)) {
        return Err(Error::new(owned("each update is an object of {where, _set, …}")));
    }
    let granted = match permission_filter(ws.caller, schema_name, table_name, Verb::Update) {
        Ok(granted) => granted,
        Err(e) => return Err(e),
    };
    let asked = match entry.get("where") {
        Some(filter) => Some(filter.copy()),
        None => None,
    };
    let predicate = and_predicates(asked, granted);
    let typename = find_typename(ws.type_names, schema_name, table_name);
    let operators = update_operators(entry);
    let types = types_known(ws, schema_name, table_name);
    update_statement(
        ws,
        schema_name,
        table_name,
        typename,
        &operators,
        &types,
        predicate.as_ref(),
    )
}

/// Whether what a mutation wrote may have to be read again: where it answers
/// with rows, and they are still there.
pub open spec fn may_reread(kind: MutationType, answers_rows: bool, written: nat) -> bool {
    answers_rows && written > 0 && !(kind is Delete) && !(kind is DeleteByPk)
}

/// Whether what a mutation wrote may have to be read again.
pub fn reads_again(kind: MutationType, answers_rows: bool, written: usize) -> (r: bool)
    ensures
        r == may_reread(kind, answers_rows, written as nat),
{
    let gone = match kind {
        MutationType::Delete => true,
        MutationType::DeleteByPk => true,
        _ => false,
    };
    answers_rows && written > 0 && !gone
}

/// The rows a mutation answers with: those read again, or those that were
/// written where none was.
pub fn rows_read_again(written: Vec<Json>, again: Vec<Json>) -> (r: Vec<Json>)
    ensures
        jsons(r@) == (if again@.len() == 0 {
            jsons(written@)
        } else {
            jsons(again@)
        }),
{
    if again.len() == 0 {
        written
    } else {
        again
    }
}

} // verus!

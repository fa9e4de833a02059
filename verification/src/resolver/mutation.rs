//! The arguments of a table's mutations, and the plans they give.

use crate::catalog::{QualifiedIdentifier, Table};
use crate::input::mutation::InputValue;
use crate::json::{
    entries_view, json_text, jsons, lemma_array_view, lemma_object_view, well_keyed, Json, JsonV,
    Number, NumberV,
};
use crate::plan::{fields_view, typed_trees_view, MutatePlan, PreferResolution};
use crate::resolver::query::{
    build_named_columns, build_where_clauses, clauses_of, named_columns, TableFilter,
};
use crate::text::{copy_texts, texts};
use vstd::prelude::*;
use vstd::string::*;
use vstd::utf8::*;

verus! {

// ---------------------------------------------------------------------------
// Values
// ---------------------------------------------------------------------------

/// A value as JSON. A number that is not finite is null.
pub open spec fn json_of(value: InputValue) -> JsonV
    decreases value,
{
    match value {
        InputValue::Null => JsonV::Null,
        InputValue::Bool(b) => JsonV::Bool(b),
        InputValue::Int(n) => JsonV::Number(NumberV::Int(n as int)),
        InputValue::Float(Some(text)) => JsonV::Number(NumberV::Other(text@)),
        InputValue::Float(None) => JsonV::Null,
        InputValue::String(s) => JsonV::String(s@),
        InputValue::Object(entries) => JsonV::Object(
            Seq::new(
                entries@.len(),
                |i: int|
                    if 0 <= i < entries@.len() {
                        (entries@[i].0@, json_of(entries@[i].1))
                    } else {
                        (Seq::empty(), JsonV::Null)
                    },
            ),
        ),
        InputValue::Array(items) => JsonV::Array(
            Seq::new(
                items@.len(),
                |i: int|
                    if 0 <= i < items@.len() {
                        json_of(items@[i])
                    } else {
                        JsonV::Null
                    },
            ),
        ),
    }
}

/// A value as JSON.
pub fn input_value_to_json(value: &InputValue) -> (r: Json)
    ensures
        r@ == json_of(*value),
    decreases value,
{
    match value {
        InputValue::Null => Json::Null,
        InputValue::Bool(b) => Json::Bool(*b),
        InputValue::Int(n) => Json::Number(
            if *n >= 0 {
                Number::PosInt(*n as u64)
            } else {
                Number::NegInt(*n)
            },
        ),
        InputValue::Float(Some(text)) => Json::Number(Number::Other(text.clone())),
        InputValue::Float(None) => Json::Null,
        InputValue::String(s) => Json::String(s.clone()),
        InputValue::Object(entries) => {
            let mut list: Vec<(String, Json)> = Vec::new();
            let mut i: usize = 0;
            while i < entries.len()
                invariant
                    i <= entries.len(),
                    value is Object,
                    *entries == value->Object_0,
                    list@.len() == i,
                    forall|k: int|
                        0 <= k < i ==> (#[trigger] list@[k]).0@ == entries@[k].0@ && list@[k].1@
                            == json_of(entries@[k].1),
                decreases entries.len() - i,
            {
                assert(decreases_to!(*entries => entries@[i as int]));
                list.push((entries[i].0.clone(), input_value_to_json(&entries[i].1)));
                i += 1;
            }
            proof {
                lemma_object_view(list);
                assert(entries_view(list@) =~= json_of(*value)->Object_0);
            }
            Json::Object(list)
        },
        InputValue::Array(items) => {
            let mut list: Vec<Json> = Vec::new();
            let mut i: usize = 0;
            while i < items.len()
                invariant
                    i <= items.len(),
                    value is Array,
                    *items == value->Array_0,
                    list@.len() == i,
                    forall|k: int| 0 <= k < i ==> (#[trigger] list@[k])@ == json_of(items@[k]),
                decreases items.len() - i,
            {
                assert(decreases_to!(*items => items@[i as int]));
                list.push(input_value_to_json(&items[i]));
                i += 1;
            }
            proof {
                lemma_array_view(list);
                assert(jsons(list@) =~= json_of(*value)->Array_0);
            }
            Json::Array(list)
        },
    }
}

/// The entries of a row as JSON.
pub open spec fn row_entries(row: Seq<(String, InputValue)>) -> Seq<(Seq<char>, JsonV)> {
    row.map_values(|e: (String, InputValue)| (e.0@, json_of(e.1)))
}

/// A row as a JSON object.
pub open spec fn row_document(row: Seq<(String, InputValue)>) -> JsonV {
    JsonV::Object(row_entries(row))
}

fn row_to_json(row: &Vec<(String, InputValue)>) -> (r: Json)
    ensures
        r@ == row_document(row@),
{
    let mut list: Vec<(String, Json)> = Vec::new();
    let mut i: usize = 0;
    while i < row.len()
        invariant
            i <= row.len(),
            list@.len() == i,
            forall|k: int|
                0 <= k < i ==> (#[trigger] list@[k]).0@ == row@[k].0@ && list@[k].1@ == json_of(
                    row@[k].1,
                ),
        decreases row.len() - i,
    {
        list.push((row[i].0.clone(), input_value_to_json(&row[i].1)));
        i += 1;
    }
    proof {
        lemma_object_view(list);
        assert(entries_view(list@) =~= row_entries(row@));
    }
    Json::Object(list)
}

/// The names of a row's entries.
pub open spec fn row_columns(row: Seq<(String, InputValue)>) -> Seq<String> {
    row.map_values(|e: (String, InputValue)| e.0)
}

fn columns_of_row(row: &Vec<(String, InputValue)>) -> (r: Vec<String>)
    ensures
        r@ == row_columns(row@),
{
    let mut names: Vec<String> = Vec::new();
    let mut i: usize = 0;
    while i < row.len()
        invariant
            i <= row.len(),
            names@.len() == i,
            forall|k: int| 0 <= k < i ==> #[trigger] names@[k] == row@[k].0,
        decreases row.len() - i,
    {
        names.push(row[i].0.clone());
        i += 1;
    }
    assert(names@ =~= row_columns(row@));
    names
}

/// The bytes of a document's text.
fn document_bytes(document: &Json) -> (r: Vec<u8>)
    ensures
        r@ == encode_utf8(json_text(document@)),
{
    let text = document.text();
    vstd::slice::slice_to_vec(text.as_str().as_bytes())
}

/// The bytes of an optional list.
pub open spec fn bytes_opt(o: Option<Vec<u8>>) -> Option<Seq<u8>> {
    match o {
        Some(v) => Some(v@),
        None => None,
    }
}

/// The texts of an optional list after a resolution.
pub open spec fn conflict_opt(o: Option<(PreferResolution, Vec<String>)>) -> Option<
    (PreferResolution, Seq<Seq<char>>),
> {
    match o {
        Some((resolution, columns)) => Some((resolution, texts(columns@))),
        None => None,
    }
}

/// The columns a write answers: those asked for, or the key.
pub open spec fn returned(asked: Seq<String>, table: Table) -> Seq<Seq<char>> {
    if asked.len() == 0 {
        texts(table.pk_cols@)
    } else {
        texts(asked)
    }
}

fn returning_or_key(asked: &Vec<String>, table: &Table) -> (r: Vec<String>)
    ensures
        texts(r@) == returned(asked@, *table),
{
    if asked.len() == 0 {
        copy_texts(&table.pk_cols)
    } else {
        copy_texts(asked)
    }
}

// ---------------------------------------------------------------------------
// Insert
// ---------------------------------------------------------------------------

/// What becomes of a row that conflicts with one that is there.
#[derive(Debug)]
pub struct OnConflictArgs {
    /// The columns of the constraint.
    pub constraint: Vec<String>,
    pub update_columns: Vec<String>,
    pub where_filter: Option<TableFilter>,
}

impl Default for OnConflictArgs {
    fn default() -> (r: OnConflictArgs)
        ensures
            r.constraint@.len() == 0,
            r.update_columns@.len() == 0,
            r.where_filter is None,
    {
        OnConflictArgs { constraint: Vec::new(), update_columns: Vec::new(), where_filter: None }
    }
}

impl OnConflictArgs {
    pub fn new(constraint: Vec<String>) -> (r: OnConflictArgs)
        ensures
            r.constraint == constraint,
            r.update_columns@.len() == 0,
            r.where_filter is None,
    {
        OnConflictArgs { constraint, update_columns: Vec::new(), where_filter: None }
    }

    /// With the columns to update.
    pub fn with_update_columns(self, columns: Vec<String>) -> (r: OnConflictArgs)
        ensures
            r == (OnConflictArgs { update_columns: columns, ..self }),
    {
        let mut this = self;
        this.update_columns = columns;
        this
    }

    /// With a condition on the rows to update.
    pub fn with_where(self, filter: TableFilter) -> (r: OnConflictArgs)
        ensures
            r == (OnConflictArgs { where_filter: Some(filter), ..self }),
    {
        let mut this = self;
        this.where_filter = Some(filter);
        this
    }
}

/// The arguments of an insert.
#[derive(Debug)]
pub struct InsertArgs {
    /// The rows to insert.
    pub objects: Vec<Vec<(String, InputValue)>>,
    pub on_conflict: Option<OnConflictArgs>,
    /// The columns to answer; the key where none is named.
    pub returning: Vec<String>,
}

impl Default for InsertArgs {
    fn default() -> (r: InsertArgs)
        ensures
            r.objects@.len() == 0,
            r.on_conflict is None,
            r.returning@.len() == 0,
    {
        InsertArgs { objects: Vec::new(), on_conflict: None, returning: Vec::new() }
    }
}

/// The documents of rows.
pub open spec fn row_documents(rows: Seq<Vec<(String, InputValue)>>) -> Seq<JsonV> {
    rows.map_values(|row: Vec<(String, InputValue)>| row_document(row@))
}

/// The body of an insert: a single row as an object, several as an array.
pub open spec fn insert_body(rows: Seq<Vec<(String, InputValue)>>) -> Option<Seq<u8>> {
    if rows.len() == 0 {
        None
    } else if rows.len() == 1 {
        Some(encode_utf8(json_text(row_document(rows[0]@))))
    } else {
        Some(encode_utf8(json_text(JsonV::Array(row_documents(rows)))))
    }
}

/// The columns of an insert: those of its first row.
pub open spec fn insert_columns(rows: Seq<Vec<(String, InputValue)>>) -> Seq<String> {
    if rows.len() == 0 {
        Seq::empty()
    } else {
        row_columns(rows[0]@)
    }
}

/// Whether each row is a map, and every object in it.
pub open spec fn rows_are_maps(rows: Seq<Vec<(String, InputValue)>>) -> bool {
    forall|i: int| 0 <= i < rows.len() ==> well_keyed(row_document((#[trigger] rows[i])@))
}

impl InsertArgs {
    /// A row gives a column one value.
    pub open spec fn wf(self) -> bool {
        rows_are_maps(self.objects@)
    }

    pub fn new() -> (r: InsertArgs)
        ensures
            r.objects@.len() == 0,
            r.on_conflict is None,
            r.returning@.len() == 0,
            r.wf(),
    {
        InsertArgs::default()
    }

    /// With one more row.
    pub fn with_object(self, object: Vec<(String, InputValue)>) -> (r: InsertArgs)
        ensures
            r.objects@ == self.objects@.push(object),
            r.on_conflict == self.on_conflict,
            r.returning == self.returning,
            self.wf() && well_keyed(row_document(object@)) ==> r.wf(),
    {
        let mut this = self;
        this.objects.push(object);
        this
    }

    /// With these rows after those it has.
    pub fn with_objects(self, objects: Vec<Vec<(String, InputValue)>>) -> (r: InsertArgs)
        ensures
            r.objects@ == self.objects@ + objects@,
            r.on_conflict == self.on_conflict,
            r.returning == self.returning,
            self.wf() && rows_are_maps(objects@) ==> r.wf(),
    {
        let mut this = self;
        let mut more = objects;
        this.objects.append(&mut more);
        this
    }

    /// With what becomes of a row that conflicts.
    pub fn with_on_conflict(self, on_conflict: OnConflictArgs) -> (r: InsertArgs)
        ensures
            r == (InsertArgs { on_conflict: Some(on_conflict), ..self }),
            self.wf() ==> r.wf(),
    {
        let mut this = self;
        this.on_conflict = Some(on_conflict);
        this
    }

    /// With the columns to answer.
    pub fn with_returning(self, returning: Vec<String>) -> (r: InsertArgs)
        ensures
            r == (InsertArgs { returning, ..self }),
            self.wf() ==> r.wf(),
    {
        let mut this = self;
        this.returning = returning;
        this
    }

    pub fn has_objects(&self) -> (r: bool)
        ensures
            r == (self.objects@.len() > 0),
    {
        self.objects.len() > 0
    }

    pub fn object_count(&self) -> (r: usize)
        ensures
            r == self.objects@.len(),
    {
        self.objects.len()
    }

    /// The rows as the bytes of a JSON document: none where there is no row, a
    /// single row as an object, several as an array.
    pub fn to_json_bytes(&self) -> (r: Option<Vec<u8>>)
        ensures
            bytes_opt(r) == insert_body(self.objects@),
    {
        if self.objects.len() == 0 {
            return None;
        }
        if self.objects.len() == 1 {
            return Some(document_bytes(&row_to_json(&self.objects[0])));
        }
        let mut rows: Vec<Json> = Vec::new();
        let mut i: usize = 0;
        while i < self.objects.len()
            invariant
                i <= self.objects.len(),
                rows@.len() == i,
                forall|k: int|
                    0 <= k < i ==> (#[trigger] rows@[k])@ == row_document(self.objects@[k]@),
            decreases self.objects.len() - i,
        {
            rows.push(row_to_json(&self.objects[i]));
            i += 1;
        }
        proof {
            lemma_array_view(rows);
            assert(jsons(rows@) =~= row_documents(self.objects@));
        }
        Some(document_bytes(&Json::Array(rows)))
    }

    /// The columns of the first row.
    pub fn column_names(&self) -> (r: Vec<String>)
        ensures
            r@ == insert_columns(self.objects@),
    {
        if self.objects.len() == 0 {
            Vec::new()
        } else {
            columns_of_row(&self.objects[0])
        }
    }
}

/// The plan of an insert into a table.
pub fn build_insert_plan(args: &InsertArgs, table: &Table) -> (r: MutatePlan)
    ensures
        r is Insert,
        r->Insert_target@ == (table.schema@, table.name@),
        fields_view(r->Insert_columns@) == named_columns(
            insert_columns(args.objects@),
            *table,
            0,
            Seq::empty(),
        ),
        bytes_opt(r->Insert_body) == insert_body(args.objects@),
        conflict_opt(r->on_conflict) == (match args.on_conflict {
            Some(oc) => Some((PreferResolution::MergeDuplicates, texts(oc.constraint@))),
            None => None,
        }),
        r->Insert_where_clauses@.len() == 0,
        texts(r->Insert_returning@) == returned(args.returning@, *table),
        texts(r->pk_cols@) == texts(table.pk_cols@),
        r->Insert_apply_defaults,
{
    let on_conflict = match &args.on_conflict {
        Some(oc) => Some((PreferResolution::MergeDuplicates, copy_texts(&oc.constraint))),
        None => None,
    };
    MutatePlan::Insert {
        target: QualifiedIdentifier::new(&table.schema, &table.name),
        columns: build_named_columns(&args.column_names(), table),
        body: args.to_json_bytes(),
        on_conflict,
        where_clauses: Vec::new(),
        returning: returning_or_key(&args.returning, table),
        pk_cols: copy_texts(&table.pk_cols),
        apply_defaults: true,
    }
}

// ---------------------------------------------------------------------------
// Update
// ---------------------------------------------------------------------------

/// The arguments of an update.
#[derive(Debug)]
pub struct UpdateArgs {
    /// The rows to update.
    pub filter: Option<TableFilter>,
    /// The values to write.
    pub set: Vec<(String, InputValue)>,
    /// The columns to answer; the key where none is named.
    pub returning: Vec<String>,
}

impl Default for UpdateArgs {
    fn default() -> (r: UpdateArgs)
        ensures
            r.filter is None,
            r.set@.len() == 0,
            r.returning@.len() == 0,
    {
        UpdateArgs { filter: None, set: Vec::new(), returning: Vec::new() }
    }
}

/// The body of an update: its values as an object, where it has any.
pub open spec fn update_body(set: Seq<(String, InputValue)>) -> Option<Seq<u8>> {
    if set.len() == 0 {
        None
    } else {
        Some(encode_utf8(json_text(row_document(set))))
    }
}

impl UpdateArgs {
    /// A column is given one value, and the filter filters a column once.
    pub open spec fn wf(self) -> bool {
        well_keyed(row_document(self.set@)) && (self.filter is Some ==> self.filter->0.wf())
    }

    pub fn new() -> (r: UpdateArgs)
        ensures
            r.filter is None,
            r.set@.len() == 0,
            r.returning@.len() == 0,
            r.wf(),
    {
        UpdateArgs::default()
    }

    /// With a filter on the rows.
    pub fn with_filter(self, filter: TableFilter) -> (r: UpdateArgs)
        ensures
            r == (UpdateArgs { filter: Some(filter), ..self }),
            self.wf() && filter.wf() ==> r.wf(),
    {
        let mut this = self;
        this.filter = Some(filter);
        this
    }

    /// With the values to write.
    pub fn with_set(self, set: Vec<(String, InputValue)>) -> (r: UpdateArgs)
        ensures
            r == (UpdateArgs { set, ..self }),
            self.wf() && well_keyed(row_document(set@)) ==> r.wf(),
    {
        let mut this = self;
        this.set = set;
        this
    }

    /// With the columns to answer.
    pub fn with_returning(self, returning: Vec<String>) -> (r: UpdateArgs)
        ensures
            r == (UpdateArgs { returning, ..self }),
            self.wf() ==> r.wf(),
    {
        let mut this = self;
        this.returning = returning;
        this
    }

    pub fn has_filter(&self) -> (r: bool)
        ensures
            r == self.filter is Some,
    {
        self.filter.is_some()
    }

    pub fn has_set(&self) -> (r: bool)
        ensures
            r == (self.set@.len() > 0),
    {
        self.set.len() > 0
    }

    /// The values as the bytes of a JSON object, where there are any.
    pub fn to_json_bytes(&self) -> (r: Option<Vec<u8>>)
        ensures
            bytes_opt(r) == update_body(self.set@),
    {
        if self.set.len() == 0 {
            return None;
        }
        Some(document_bytes(&row_to_json(&self.set)))
    }

    /// The columns that are written.
    pub fn column_names(&self) -> (r: Vec<String>)
        ensures
            r@ == row_columns(self.set@),
    {
        columns_of_row(&self.set)
    }
}

/// The plan of an update of a table.
pub fn build_update_plan(args: &UpdateArgs, table: &Table) -> (r: MutatePlan)
    ensures
        r is Update,
        r->Update_target@ == (table.schema@, table.name@),
        fields_view(r->Update_columns@) == named_columns(
            row_columns(args.set@),
            *table,
            0,
            Seq::empty(),
        ),
        bytes_opt(r->Update_body) == update_body(args.set@),
        typed_trees_view(r->Update_where_clauses@) == clauses_of(args.filter, *table),
        texts(r->Update_returning@) == returned(args.returning@, *table),
        !r->Update_apply_defaults,
{
    MutatePlan::Update {
        target: QualifiedIdentifier::new(&table.schema, &table.name),
        columns: build_named_columns(&args.column_names(), table),
        body: args.to_json_bytes(),
        where_clauses: build_where_clauses(&args.filter, table),
        returning: returning_or_key(&args.returning, table),
        apply_defaults: false,
    }
}

// ---------------------------------------------------------------------------
// Delete
// ---------------------------------------------------------------------------

/// The arguments of a delete.
#[derive(Debug)]
pub struct DeleteArgs {
    /// The rows to delete.
    pub filter: Option<TableFilter>,
    /// The columns to answer; the key where none is named.
    pub returning: Vec<String>,
}

impl Default for DeleteArgs {
    fn default() -> (r: DeleteArgs)
        ensures
            r.filter is None,
            r.returning@.len() == 0,
    {
        DeleteArgs { filter: None, returning: Vec::new() }
    }
}

impl DeleteArgs {
    pub fn new() -> (r: DeleteArgs)
        ensures
            r.filter is None,
            r.returning@.len() == 0,
    {
        DeleteArgs::default()
    }

    /// With a filter on the rows.
    pub fn with_filter(self, filter: TableFilter) -> (r: DeleteArgs)
        ensures
            r == (DeleteArgs { filter: Some(filter), ..self }),
    {
        let mut this = self;
        this.filter = Some(filter);
        this
    }

    /// With the columns to answer.
    pub fn with_returning(self, returning: Vec<String>) -> (r: DeleteArgs)
        ensures
            r == (DeleteArgs { returning, ..self }),
    {
        let mut this = self;
        this.returning = returning;
        this
    }

    pub fn has_filter(&self) -> (r: bool)
        ensures
            r == self.filter is Some,
    {
        self.filter.is_some()
    }
}

/// The plan of a delete from a table.
pub fn build_delete_plan(args: &DeleteArgs, table: &Table) -> (r: MutatePlan)
    ensures
        r is Delete,
        r->Delete_target@ == (table.schema@, table.name@),
        typed_trees_view(r->Delete_where_clauses@) == clauses_of(args.filter, *table),
        texts(r->Delete_returning@) == returned(args.returning@, *table),
{
    MutatePlan::Delete {
        target: QualifiedIdentifier::new(&table.schema, &table.name),
        where_clauses: build_where_clauses(&args.filter, table),
        returning: returning_or_key(&args.returning, table),
    }
}

} // verus!

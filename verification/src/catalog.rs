//! The database as the library sees it: tables, columns, routines and the
//! relationships between tables, with the names they are exposed under.

use crate::lookup::{
    deref_opt, find_key, find_named, find_pair, find_qualified, keyed_by, named, paired, qualified,
    Named, Qualified,
};
use crate::text::{same, str_opt, text_opt};
use vstd::prelude::*;

verus! {

/// A schema and a name within it.
#[derive(Debug)]
pub struct QualifiedIdentifier {
    pub schema: String,
    pub name: String,
}

impl View for QualifiedIdentifier {
    type V = (Seq<char>, Seq<char>);

    open spec fn view(&self) -> (Seq<char>, Seq<char>) {
        (self.schema@, self.name@)
    }
}

impl QualifiedIdentifier {
    pub fn new(schema: &str, name: &str) -> (r: QualifiedIdentifier)
        ensures
            r@ == (schema@, name@),
    {
        QualifiedIdentifier { schema: schema.to_owned(), name: name.to_owned() }
    }

    pub fn copy(&self) -> (r: QualifiedIdentifier)
        ensures
            r@ == self@,
            r == *self,
    {
        QualifiedIdentifier { schema: self.schema.clone(), name: self.name.clone() }
    }
}

/// A column of a table.
pub struct Column {
    pub name: String,
    pub description: Option<String>,
    pub nullable: bool,
    pub data_type: String,
    pub nominal_type: String,
    pub max_len: Option<i32>,
    pub default: Option<String>,
    pub enum_values: Vec<String>,
    pub is_pk: bool,
    pub position: i32,
    pub always_generated: bool,
    pub domain_type: Option<String>,
}

impl Named for Column {
    open spec fn called(&self) -> Seq<char> {
        self.name@
    }

    fn is_called(&self, name: &str) -> (r: bool) {
        same(&self.name, name)
    }
}

/// An argument of a function that its caller writes.
pub struct FunctionArgument {
    pub name: String,
    pub pg_type: String,
    pub required: bool,
}

/// A function of a table's row, read as though it were a column.
pub struct ComputedColumn {
    pub name: String,
    /// The function that is called.
    pub function: QualifiedIdentifier,
    /// The parameter that takes the session, where there is one.
    pub session_argument: Option<String>,
    /// The parameter that takes the row, where it has a name.
    pub row_argument: Option<String>,
    /// The parameters left to the caller.
    pub arguments: Vec<FunctionArgument>,
}

impl Named for ComputedColumn {
    open spec fn called(&self) -> Seq<char> {
        self.name@
    }

    fn is_called(&self, name: &str) -> (r: bool) {
        same(&self.name, name)
    }
}

/// A unique constraint, which an upsert can name.
pub struct UniqueConstraint {
    pub name: String,
    pub columns: Vec<String>,
}

/// A table or view.
pub struct Table {
    pub schema: String,
    pub name: String,
    pub description: Option<String>,
    pub is_view: bool,
    pub insertable: bool,
    pub updatable: bool,
    pub deletable: bool,
    pub pk_cols: Vec<String>,
    pub unique_constraints: Vec<UniqueConstraint>,
    pub columns: Vec<Column>,
    pub computed_columns: Vec<ComputedColumn>,
    pub is_partitioned: bool,
}

impl Qualified for Table {
    open spec fn placed(&self) -> (Seq<char>, Seq<char>) {
        (self.schema@, self.name@)
    }

    fn is_at(&self, schema: &str, name: &str) -> (r: bool) {
        same(&self.schema, schema) && same(&self.name, name)
    }
}

impl Table {
    /// The column of that name.
    pub open spec fn column(self, name: Seq<char>) -> Option<Column> {
        named(self.columns@, name)
    }

    /// The computed column of that name.
    pub open spec fn computed(self, name: Seq<char>) -> Option<ComputedColumn> {
        named(self.computed_columns@, name)
    }

    /// The column of that name.
    pub fn get_column(&self, name: &str) -> (r: Option<&Column>)
        ensures
            deref_opt(r) == self.column(name@),
    {
        find_named(&self.columns, name)
    }

    /// The computed column of that name.
    pub fn get_computed_column(&self, name: &str) -> (r: Option<&ComputedColumn>)
        ensures
            deref_opt(r) == self.computed(name@),
    {
        find_named(&self.computed_columns, name)
    }
}

/// A parameter of a routine.
pub struct Parameter {
    pub name: String,
    pub param_type: String,
}

/// A function of the database.
pub struct Routine {
    pub schema: String,
    pub name: String,
    pub params: Vec<Parameter>,
}

impl Qualified for Routine {
    open spec fn placed(&self) -> (Seq<char>, Seq<char>) {
        (self.schema@, self.name@)
    }

    fn is_at(&self, schema: &str, name: &str) -> (r: bool) {
        same(&self.schema, schema) && same(&self.name, name)
    }
}

/// Which side of a foreign key holds how many rows. Each pair of columns is a
/// column of this table and the column it is joined to.
pub enum Cardinality {
    OneToMany { columns: Vec<(String, String)> },
    ManyToOne { columns: Vec<(String, String)> },
    OneToOne { columns: Vec<(String, String)>, is_parent: bool },
    ManyToMany { columns: Vec<(String, String)> },
}

/// What a relationship rests on.
pub enum RelationshipKind {
    ForeignKey(Cardinality),
    /// A function of the parent row.
    Computed,
}

/// How the rows at the other end of a relationship are reached.
pub struct EmbedPlan {
    pub foreign_schema: String,
    pub foreign_table: String,
    /// The columns it joins on: this table's, and the other's.
    pub columns: Vec<(String, String)>,
    /// The column of this table whose values select the other rows.
    pub local_column: String,
    /// Whether a third table stands between.
    pub junction: bool,
    /// The function that yields the rows, for a computed relationship.
    pub function: Option<QualifiedIdentifier>,
    /// The function's parameter for the parent row, where it has a name.
    pub row_argument: Option<String>,
}

/// A relationship of the catalogue.
pub struct Relationship {
    pub kind: RelationshipKind,
    /// The plan that reaches its rows, or why there is none.
    pub plan: Result<EmbedPlan, String>,
}

/// A relationship as a field of a type.
pub struct RelationshipField {
    pub name: String,
    /// The type at the other end.
    pub target_type: String,
    /// That type's name without a prefix.
    pub target_local_name: String,
    pub description: Option<String>,
    pub is_list: bool,
    /// The arguments a computed relationship leaves to its caller.
    pub arguments: Vec<FunctionArgument>,
    pub relationship: Relationship,
}

impl Named for RelationshipField {
    open spec fn called(&self) -> Seq<char> {
        self.name@
    }

    fn is_called(&self, name: &str) -> (r: bool) {
        same(&self.name, name)
    }
}

/// The relationships of one type.
pub struct TypeRelationships {
    pub typename: String,
    pub fields: Vec<RelationshipField>,
}

impl Named for TypeRelationships {
    open spec fn called(&self) -> Seq<char> {
        self.typename@
    }

    fn is_called(&self, name: &str) -> (r: bool) {
        same(&self.typename, name)
    }
}

/// The relationships of a type, where it has an entry.
pub open spec fn fields_of(all: Seq<TypeRelationships>, typename: Seq<char>) -> Option<
    Vec<RelationshipField>,
> {
    match named(all, typename) {
        Some(entry) => Some(entry.fields),
        None => None,
    }
}

/// The relationships of a type, where it has an entry.
pub fn relationships_of<'a>(all: &'a Vec<TypeRelationships>, typename: &str) -> (r: Option<
    &'a Vec<RelationshipField>,
>)
    ensures
        deref_opt(r) == fields_of(all@, typename@),
{
    match find_named(all, typename) {
        Some(entry) => Some(&entry.fields),
        None => None,
    }
}

/// A relationship that the catalogue gives a table: the keys that identify
/// it, and the field it is under each name.
pub struct CatalogueRelationship {
    /// The keys it can be named by.
    pub keys: Vec<String>,
    /// The field it becomes, under the name that its foreign key suggests.
    pub field: RelationshipField,
}

/// The relationships the catalogue gives one table.
pub struct TableRelationships {
    pub schema: String,
    pub name: String,
    pub found: Vec<CatalogueRelationship>,
}

impl Qualified for TableRelationships {
    open spec fn placed(&self) -> (Seq<char>, Seq<char>) {
        (self.schema@, self.name@)
    }

    fn is_at(&self, schema: &str, name: &str) -> (r: bool) {
        same(&self.schema, schema) && same(&self.name, name)
    }
}

/// Everything that was read of the database's own catalogue.
pub struct SchemaCache {
    pub tables: Vec<Table>,
    pub relationships: Vec<TableRelationships>,
    pub routines: Vec<Routine>,
}

impl SchemaCache {
    /// The table at that place.
    pub open spec fn table(self, schema: Seq<char>, name: Seq<char>) -> Option<Table> {
        qualified(self.tables@, schema, name)
    }

    /// The table at that place.
    pub fn get_table(&self, schema: &str, name: &str) -> (r: Option<&Table>)
        ensures
            deref_opt(r) == self.table(schema@, name@),
    {
        find_qualified(&self.tables, schema, name)
    }
}

/// A relationship that the metadata declares on a table.
pub struct DeclaredRelationship {
    pub name: String,
    /// The field it becomes, where it is reached by a mapping of columns.
    pub mapped: Option<RelationshipField>,
    /// The key it is reached by, where it names one.
    pub using: Option<String>,
}

impl Named for DeclaredRelationship {
    open spec fn called(&self) -> Seq<char> {
        self.name@
    }

    fn is_called(&self, name: &str) -> (r: bool) {
        same(&self.name, name)
    }
}

/// The names that one table and what belongs to it are exposed under.
pub struct TableNames {
    pub schema: String,
    pub table: String,
    /// The name the table is exposed under.
    pub base_name: Option<String>,
    /// Columns and the fields they are exposed as.
    pub columns: Vec<(String, String)>,
    /// Functions and the computed fields they are exposed as.
    pub computed: Vec<(String, String)>,
    /// Relationship keys and the names given to what they reach.
    pub relationships: Vec<(String, String)>,
    /// Columns and the GraphQL types they are exposed as.
    pub column_types: Vec<(String, String)>,
    /// The relationships the metadata declares, where it declares any.
    pub declared: Option<Vec<DeclaredRelationship>>,
}

impl Qualified for TableNames {
    open spec fn placed(&self) -> (Seq<char>, Seq<char>) {
        (self.schema@, self.table@)
    }

    fn is_at(&self, schema: &str, name: &str) -> (r: bool) {
        same(&self.schema, schema) && same(&self.table, name)
    }
}

/// The names things are exposed under, where those are not their own.
pub struct NameOverrides {
    pub tables: Vec<TableNames>,
}

impl NameOverrides {
    /// What is said of one table.
    pub open spec fn of(self, schema: Seq<char>, table: Seq<char>) -> Option<TableNames> {
        qualified(self.tables@, schema, table)
    }

    /// The field a column is exposed as, where that is not its own name.
    pub open spec fn exposed(self, schema: Seq<char>, table: Seq<char>, column: Seq<char>) -> Option<
        Seq<char>,
    > {
        match self.of(schema, table) {
            Some(t) => paired(t.columns@, column),
            None => None,
        }
    }

    /// The column behind a field, where the field is not the column's name.
    pub open spec fn source(self, schema: Seq<char>, table: Seq<char>, field: Seq<char>) -> Option<
        Seq<char>,
    > {
        match self.of(schema, table) {
            Some(t) => keyed_by(t.columns@, field),
            None => None,
        }
    }

    /// The function behind a computed field, where the field has another name.
    pub open spec fn computed_by(self, schema: Seq<char>, table: Seq<char>, field: Seq<char>) -> Option<
        Seq<char>,
    > {
        match self.of(schema, table) {
            Some(t) => keyed_by(t.computed@, field),
            None => None,
        }
    }

    /// The name given to what a relationship key reaches.
    pub open spec fn relationship_name(self, schema: Seq<char>, table: Seq<char>, key: Seq<char>) -> Option<
        Seq<char>,
    > {
        match self.of(schema, table) {
            Some(t) => paired(t.relationships@, key),
            None => None,
        }
    }

    /// The GraphQL type a column is exposed as, where one was chosen for it.
    pub open spec fn chosen_type(self, schema: Seq<char>, table: Seq<char>, column: Seq<char>) -> Option<
        Seq<char>,
    > {
        match self.of(schema, table) {
            Some(t) => paired(t.column_types@, column),
            None => None,
        }
    }

    /// The name a table is exposed under.
    pub open spec fn base(self, schema: Seq<char>, table: Seq<char>) -> Option<Seq<char>> {
        match self.of(schema, table) {
            Some(t) => text_opt(t.base_name),
            None => None,
        }
    }

    /// Whether any column of the table is exposed under another name.
    pub open spec fn renames(self, schema: Seq<char>, table: Seq<char>) -> bool {
        match self.of(schema, table) {
            Some(t) => t.columns@.len() > 0,
            None => false,
        }
    }

    /// The relationships the metadata declares on a table.
    pub open spec fn declared_on(self, schema: Seq<char>, table: Seq<char>) -> Option<
        Vec<DeclaredRelationship>,
    > {
        match self.of(schema, table) {
            Some(t) => t.declared,
            None => None,
        }
    }

    fn table_names(&self, schema: &str, table: &str) -> (r: Option<&TableNames>)
        ensures
            deref_opt(r) == self.of(schema@, table@),
    {
        find_qualified(&self.tables, schema, table)
    }

    /// The field a column is exposed as, where that is not its own name.
    pub fn column(&self, schema: &str, table: &str, column: &str) -> (r: Option<&str>)
        ensures
            str_opt(r) == self.exposed(schema@, table@, column@),
    {
        match self.table_names(schema, table) {
            Some(t) => find_pair(&t.columns, column),
            None => None,
        }
    }

    /// The column behind a field, where the field is not the column's name.
    pub fn column_source(&self, schema: &str, table: &str, field: &str) -> (r: Option<&str>)
        ensures
            str_opt(r) == self.source(schema@, table@, field@),
    {
        match self.table_names(schema, table) {
            Some(t) => find_key(&t.columns, field),
            None => None,
        }
    }

    /// The function behind a computed field, where the field has another name.
    pub fn computed_source(&self, schema: &str, table: &str, field: &str) -> (r: Option<&str>)
        ensures
            str_opt(r) == self.computed_by(schema@, table@, field@),
    {
        match self.table_names(schema, table) {
            Some(t) => find_key(&t.computed, field),
            None => None,
        }
    }

    /// The name given to what a relationship key reaches.
    pub fn relationship(&self, schema: &str, table: &str, key: &str) -> (r: Option<&str>)
        ensures
            str_opt(r) == self.relationship_name(schema@, table@, key@),
    {
        match self.table_names(schema, table) {
            Some(t) => find_pair(&t.relationships, key),
            None => None,
        }
    }

    /// The GraphQL type a column is exposed as, where one was chosen for it.
    pub fn column_type(&self, schema: &str, table: &str, column: &str) -> (r: Option<&str>)
        ensures
            str_opt(r) == self.chosen_type(schema@, table@, column@),
    {
        match self.table_names(schema, table) {
            Some(t) => find_pair(&t.column_types, column),
            None => None,
        }
    }

    /// The name a table is exposed under.
    pub fn base_name(&self, schema: &str, table: &str) -> (r: Option<&str>)
        ensures
            str_opt(r) == self.base(schema@, table@),
    {
        match self.table_names(schema, table) {
            Some(t) => match &t.base_name {
                Some(name) => Some(name.as_str()),
                None => None,
            },
            None => None,
        }
    }

    /// Whether any column of the table is exposed under another name.
    pub fn renames_columns(&self, schema: &str, table: &str) -> (r: bool)
        ensures
            r == self.renames(schema@, table@),
    {
        match self.table_names(schema, table) {
            Some(t) => t.columns.len() > 0,
            None => false,
        }
    }

    /// The relationships the metadata declares on a table.
    pub fn declared_relationships(&self, schema: &str, table: &str) -> (r: Option<
        &Vec<DeclaredRelationship>,
    >)
        ensures
            deref_opt(r) == self.declared_on(schema@, table@),
    {
        match self.table_names(schema, table) {
            Some(t) => match &t.declared {
                Some(list) => Some(list),
                None => None,
            },
            None => None,
        }
    }
}

/// The column a field name refers to: the name itself, unless the table
/// exposes that column under another one.
pub open spec fn column_behind(
    names: NameOverrides,
    schema: Seq<char>,
    table: Seq<char>,
    field: Seq<char>,
) -> Seq<char> {
    match names.source(schema, table, field) {
        Some(column) => column,
        None => field,
    }
}

/// The column a field name refers to.
pub fn column_for<'a>(
    names: &'a NameOverrides,
    schema: &str,
    table: &str,
    field: &'a str,
) -> (r: &'a str)
    ensures
        r@ == column_behind(*names, schema@, table@, field@),
{
    match names.column_source(schema, table, field) {
        Some(column) => column,
        None => field,
    }
}

/// The same, given the table itself.
pub fn table_column_for<'a>(names: &'a NameOverrides, table: &Table, field: &'a str) -> (r: &'a str)
    ensures
        r@ == column_behind(*names, table.schema@, table.name@, field@),
{
    column_for(names, &table.schema, &table.name, field)
}

/// The field a column is exposed as: its own name, unless another was given.
pub open spec fn field_for(
    names: NameOverrides,
    schema: Seq<char>,
    table: Seq<char>,
    column: Seq<char>,
) -> Seq<char> {
    match names.exposed(schema, table, column) {
        Some(field) => field,
        None => column,
    }
}

/// The field a column is exposed as.
pub fn exposed_name<'a>(
    names: &'a NameOverrides,
    schema: &str,
    table: &str,
    column: &'a str,
) -> (r: &'a str)
    ensures
        r@ == field_for(*names, schema@, table@, column@),
{
    match names.column(schema, table, column) {
        Some(field) => field,
        None => column,
    }
}

/// The computed column a field of a table is, if it is one: looked up by the
/// function behind the field's name, or by the name itself.
pub open spec fn computed_behind(names: NameOverrides, table: Table, field: Seq<char>) -> Option<
    ComputedColumn,
> {
    match names.computed_by(table.schema@, table.name@, field) {
        Some(function) => table.computed(function),
        None => table.computed(field),
    }
}

/// The computed column a field of a table is, if it is one.
pub fn computed_for<'a>(names: &NameOverrides, table: &'a Table, field: &str) -> (r: Option<
    &'a ComputedColumn,
>)
    ensures
        deref_opt(r) == computed_behind(*names, *table, field@),
{
    match names.computed_source(&table.schema, &table.name, field) {
        Some(function) => table.get_computed_column(function),
        None => table.get_computed_column(field),
    }
}

/// Whether the row at the other end of a relationship carries the key.
pub open spec fn keyed_by_child(kind: RelationshipKind) -> bool {
    match kind {
        RelationshipKind::ForeignKey(cardinality) => match cardinality {
            Cardinality::ManyToOne { .. } => false,
            Cardinality::OneToOne { is_parent, .. } => is_parent,
            _ => true,
        },
        RelationshipKind::Computed => true,
    }
}

/// Whether the row at the other end of a relationship carries the key.
///
/// If it does, this row is written first and its key is pushed down; if this
/// row's own column carries it, the other row is written first. Cardinality
/// alone does not answer it: a one-to-one is one row in either direction.
pub fn child_holds_the_key(relationship: &Relationship) -> (r: bool)
    ensures
        r == keyed_by_child(relationship.kind),
{
    match &relationship.kind {
        RelationshipKind::ForeignKey(cardinality) => match cardinality {
            Cardinality::ManyToOne { .. } => false,
            Cardinality::OneToOne { is_parent, .. } => *is_parent,
            _ => true,
        },
        RelationshipKind::Computed => true,
    }
}

/// Whether every key column of a table that a relationship joins on is there
/// and cannot be null.
pub open spec fn keys_required(columns: Seq<(String, String)>, table: Table) -> bool {
    columns.len() > 0 && forall|i: int|
        0 <= i < columns.len() ==> (match table.column((#[trigger] columns[i]).0@) {
            Some(column) => !column.nullable,
            None => false,
        })
}

/// Whether a relationship to one row always has that row: its key is this
/// table's own and cannot be null.
pub open spec fn present_always(kind: RelationshipKind, table: Table) -> bool {
    match kind {
        RelationshipKind::ForeignKey(cardinality) => match cardinality {
            Cardinality::ManyToOne { columns } => keys_required(columns@, table),
            Cardinality::OneToOne { columns, is_parent } => !is_parent && keys_required(
                columns@,
                table,
            ),
            _ => false,
        },
        RelationshipKind::Computed => false,
    }
}

fn all_required(columns: &Vec<(String, String)>, table: &Table) -> (r: bool)
    ensures
        r == keys_required(columns@, *table),
{
    if columns.len() == 0 {
        return false;
    }
    let mut i: usize = 0;
    while i < columns.len()
        invariant
            i <= columns.len(),
            forall|j: int|
                0 <= j < i ==> (match table.column((#[trigger] columns@[j]).0@) {
                    Some(column) => !column.nullable,
                    None => false,
                }),
        decreases columns.len() - i,
    {
        let required = match table.get_column(&columns[i].0) {
            Some(column) => !column.nullable,
            None => false,
        };
        if !required {
            assert(!(match table.column(columns@[i as int].0@) {
                Some(column) => !column.nullable,
                None => false,
            }));
            return false;
        }
        i += 1;
    }
    true
}

/// Whether a to-one relationship always has a row at the other end.
///
/// It does when this row's own key columns cannot be null, since a foreign
/// key guarantees a matching row for every value. A computed relationship is
/// a function call, and a one-to-one reached through the child's key is a row
/// that may not exist.
pub fn always_present(rel: &RelationshipField, table: &Table) -> (r: bool)
    ensures
        r == present_always(rel.relationship.kind, *table),
{
    match &rel.relationship.kind {
        RelationshipKind::ForeignKey(cardinality) => match cardinality {
            Cardinality::ManyToOne { columns } => all_required(columns, table),
            Cardinality::OneToOne { columns, is_parent } => !*is_parent && all_required(
                columns,
                table,
            ),
            _ => false,
        },
        RelationshipKind::Computed => false,
    }
}

} // verus!

//! What a schema is built from: the tables, fields and functions that one
//! role may see, with the names they go by.

use crate::catalog::{
    column_behind, exposed_name, field_for, table_column_for, FunctionArgument, NameOverrides,
    Table, TypeRelationships,
};
use crate::lookup::{find_named, named, Named};
use crate::mutate::MutationType;
use crate::schema_def::{
    arguments, loose_list, optional, plain_argument, push_argument, required, Argument, ArgumentV,
    TypeRef, TypeRefV,
};
use crate::statement::TypeName;
use crate::text::{
    cat2, cat3, cat4, contains_text, has_prefix, has_text, owned, same, starts_with, texts,
};
use vstd::prelude::*;

verus! {

/// The GraphQL type of a value.
pub enum GraphQLType {
    Int,
    Float,
    String,
    Boolean,
    Id,
    Json,
    /// A type under its own PostgreSQL name.
    Custom(std::string::String),
    List(Box<GraphQLType>),
}

/// A type as it is written.
pub open spec fn type_text(t: GraphQLType) -> Seq<char>
    decreases t,
{
    match t {
        GraphQLType::Int => "Int"@,
        GraphQLType::Float => "Float"@,
        GraphQLType::String => "String"@,
        GraphQLType::Boolean => "Boolean"@,
        GraphQLType::Id => "ID"@,
        GraphQLType::Json => "jsonb"@,
        GraphQLType::Custom(name) => name@,
        GraphQLType::List(inner) => "["@ + type_text(*inner) + "]"@,
    }
}

/// The scalar at the bottom of a type, past any list.
pub open spec fn leaf_text(t: GraphQLType) -> Seq<char>
    decreases t,
{
    match t {
        GraphQLType::List(inner) => leaf_text(*inner),
        other => type_text(other),
    }
}

impl GraphQLType {
    /// The type as it is written.
    pub fn text(&self) -> (r: std::string::String)
        ensures
            r@ == type_text(*self),
        decreases self,
    {
        match self {
            GraphQLType::Int => owned("Int"),
            GraphQLType::Float => owned("Float"),
            GraphQLType::String => owned("String"),
            GraphQLType::Boolean => owned("Boolean"),
            GraphQLType::Id => owned("ID"),
            GraphQLType::Json => owned("jsonb"),
            GraphQLType::Custom(name) => name.clone(),
            GraphQLType::List(inner) => cat3("[", &inner.text(), "]"),
        }
    }
}

/// The scalar at the bottom of a type, past any list wrapping.
pub fn leaf_scalar_name(graphql_type: &GraphQLType) -> (r: std::string::String)
    ensures
        r@ == leaf_text(*graphql_type),
    decreases graphql_type,
{
    match graphql_type {
        GraphQLType::List(inner) => leaf_scalar_name(inner),
        _ => graphql_type.text(),
    }
}

/// The type a value is written as, which keeps the list an array column is.
pub open spec fn written_type(t: GraphQLType) -> TypeRefV {
    match t {
        GraphQLType::List(inner) => loose_list(leaf_text(*inner)),
        other => optional(leaf_text(other)),
    }
}

/// The type a value is written as. Every write is optional, so nothing here is
/// required.
pub fn write_type_ref(graphql_type: &GraphQLType) -> (r: TypeRef)
    ensures
        r@ == written_type(*graphql_type),
{
    match graphql_type {
        GraphQLType::List(inner) => TypeRef::named_list(&leaf_scalar_name(inner)),
        _ => TypeRef::named(&leaf_scalar_name(graphql_type)),
    }
}

/// A PostgreSQL type and the GraphQL type it is.
pub struct PgType {
    pub name: std::string::String,
    pub graphql: GraphQLType,
}

impl Named for PgType {
    open spec fn called(&self) -> Seq<char> {
        self.name@
    }

    fn is_called(&self, name: &str) -> (r: bool) {
        same(&self.name, name)
    }
}

/// A PostgreSQL type as GraphQL writes it. One that is not known keeps its
/// own name.
pub open spec fn pg_text(types: Seq<PgType>, pg_type: Seq<char>) -> Seq<char> {
    match named(types, pg_type) {
        Some(found) => type_text(found.graphql),
        None => pg_type,
    }
}

/// The scalar at the bottom of a PostgreSQL type.
pub open spec fn pg_leaf(types: Seq<PgType>, pg_type: Seq<char>) -> Seq<char> {
    match named(types, pg_type) {
        Some(found) => leaf_text(found.graphql),
        None => pg_type,
    }
}

/// A PostgreSQL type as GraphQL writes it.
pub fn pg_type_text(types: &Vec<PgType>, pg_type: &str) -> (r: std::string::String)
    ensures
        r@ == pg_text(types@, pg_type@),
{
    match find_named(types, pg_type) {
        Some(found) => found.graphql.text(),
        None => owned(pg_type),
    }
}

/// The scalar at the bottom of a PostgreSQL type.
pub fn pg_leaf_text(types: &Vec<PgType>, pg_type: &str) -> (r: std::string::String)
    ensures
        r@ == pg_leaf(types@, pg_type@),
{
    match find_named(types, pg_type) {
        Some(found) => leaf_scalar_name(&found.graphql),
        None => owned(pg_type),
    }
}

/// The type of a key argument: that of its column, where a single argument
/// can be of it.
pub open spec fn key_type(types: Seq<PgType>, pg_type: Seq<char>) -> Seq<char> {
    let rendered = pg_text(types, pg_type);
    if has_prefix(rendered, "["@) {
        "String"@
    } else {
        rendered
    }
}

/// GraphQL scalar name to use for a primary key argument of the given
/// PostgreSQL type. A list cannot be one argument, and is a `String`.
pub fn pk_argument_type(types: &Vec<PgType>, pg_type: &str) -> (r: std::string::String)
    ensures
        r@ == key_type(types@, pg_type@),
{
    let rendered = pg_type_text(types, pg_type);
    if starts_with(&rendered, "[") {
        owned("String")
    } else {
        rendered
    }
}

/// The type a key argument is exposed as.
pub open spec fn exposed_key_type(
    names: NameOverrides,
    types: Seq<PgType>,
    schema: Seq<char>,
    table: Seq<char>,
    column: Seq<char>,
    pg_type: Seq<char>,
) -> Seq<char> {
    match names.chosen_type(schema, table, column) {
        Some(given) => given,
        None => key_type(types, pg_type),
    }
}

/// The public GraphQL type of a primary-key argument.
pub fn exposed_pk_argument_type(
    names: &NameOverrides,
    types: &Vec<PgType>,
    schema: &str,
    table: &str,
    column: &str,
    pg_type: &str,
) -> (r: std::string::String)
    ensures
        r@ == exposed_key_type(*names, types@, schema@, table@, column@, pg_type@),
{
    match names.column_type(schema, table, column) {
        Some(given) => owned(given),
        None => pk_argument_type(types, pg_type),
    }
}

/// The arguments of the key columns from the `i`th on, after those in
/// `found`.
pub open spec fn key_arguments_from(
    names: NameOverrides,
    types: Seq<PgType>,
    schema: Seq<char>,
    table: Seq<char>,
    pk_columns: Seq<(std::string::String, std::string::String)>,
    i: nat,
    found: Seq<ArgumentV>,
) -> Seq<ArgumentV>
    decreases pk_columns.len() - i,
{
    if i >= pk_columns.len() {
        found
    } else {
        let (column, pg_type) = (pk_columns[i as int].0@, pk_columns[i as int].1@);
        key_arguments_from(
            names,
            types,
            schema,
            table,
            pk_columns,
            i + 1,
            found.push(
                plain_argument(
                    field_for(names, schema, table, column),
                    required(exposed_key_type(names, types, schema, table, column, pg_type)),
                ),
            ),
        )
    }
}

/// One argument for each primary key column, named and typed after the column
/// itself.
pub fn key_arguments(
    names: &NameOverrides,
    types: &Vec<PgType>,
    schema: &str,
    table: &str,
    pk_columns: &Vec<(std::string::String, std::string::String)>,
) -> (r: Vec<Argument>)
    ensures
        arguments(r@) == key_arguments_from(
            *names,
            types@,
            schema@,
            table@,
            pk_columns@,
            0,
            Seq::empty(),
        ),
{
    let mut found = crate::schema_def::no_arguments();
    let mut i: usize = 0;
    while i < pk_columns.len()
        invariant
            i <= pk_columns.len(),
            key_arguments_from(
                *names,
                types@,
                schema@,
                table@,
                pk_columns@,
                0,
                Seq::empty(),
            ) == key_arguments_from(
                *names,
                types@,
                schema@,
                table@,
                pk_columns@,
                i as nat,
                arguments(found@),
            ),
        decreases pk_columns.len() - i,
    {
        let column = &pk_columns[i].0;
        let exposed = exposed_name(names, schema, table, column);
        let ty = exposed_pk_argument_type(names, types, schema, table, column, &pk_columns[i].1);
        push_argument(&mut found, Argument::new(exposed, TypeRef::named_nn(&ty)));
        i += 1;
    }
    found
}

// ---------------------------------------------------------------------------
// Types and fields
// ---------------------------------------------------------------------------

/// A field of a table's type.
pub struct GraphQLField {
    pub name: std::string::String,
    pub graphql_type: GraphQLType,
    /// The field's type as it is written, with what may not be null.
    pub type_string: std::string::String,
    pub description: Option<std::string::String>,
    pub is_pk: bool,
    /// Whether it is a number that can be added to.
    pub incrementable: bool,
    /// What a computed field leaves to its caller.
    pub arguments: Vec<FunctionArgument>,
}

impl Named for GraphQLField {
    open spec fn called(&self) -> Seq<char> {
        self.name@
    }

    fn is_called(&self, name: &str) -> (r: bool) {
        same(&self.name, name)
    }
}

/// An aggregate of a table: the columns it applies to, and the type it gives
/// of each.
pub struct AggregateFunction {
    pub name: std::string::String,
    pub columns: Vec<(std::string::String, std::string::String)>,
}

/// A table as a type.
pub struct TableObjectType {
    pub name: std::string::String,
    /// The name without a prefix, which the types that go with it are named
    /// after.
    pub local_name: std::string::String,
    /// What metadata or the table's comment says of it. An empty one was given
    /// and is empty.
    pub description: Option<std::string::String>,
    pub table: Table,
    /// What may be read.
    pub fields: Vec<GraphQLField>,
    /// What may be written, by whoever may write it.
    pub writable_fields: Vec<GraphQLField>,
    /// The columns an insert may name, where a permission narrows them.
    pub insert_columns: Option<Vec<std::string::String>>,
    /// The columns an update may name, where a permission narrows them.
    pub update_columns: Option<Vec<std::string::String>>,
    /// Whether rows can be inserted, and updated.
    pub insertable: bool,
    pub updatable: bool,
    pub aggregates: Vec<AggregateFunction>,
}

impl Named for TableObjectType {
    open spec fn called(&self) -> Seq<char> {
        self.name@
    }

    fn is_called(&self, name: &str) -> (r: bool) {
        same(&self.name, name)
    }
}

/// A root field that reads a table.
pub struct QueryField {
    pub name: std::string::String,
    pub schema_name: std::string::String,
    pub table_name: std::string::String,
    /// The type of its rows, and that name without a prefix.
    pub typename: std::string::String,
    pub local_typename: std::string::String,
    pub is_by_pk: bool,
    pub pk_columns: Vec<(std::string::String, std::string::String)>,
    pub return_type: std::string::String,
    pub description: Option<std::string::String>,
    /// Whether the rows themselves may be read.
    pub rows: bool,
    /// Whether numbers about them may be.
    pub aggregates: bool,
    pub aggregate_name: Option<std::string::String>,
    pub aggregate_description: Option<std::string::String>,
}

/// A root field that writes a table.
pub struct MutationField {
    pub name: std::string::String,
    pub schema_name: std::string::String,
    pub table_name: std::string::String,
    pub typename: std::string::String,
    pub local_typename: std::string::String,
    pub mutation_type: MutationType,
    pub pk_columns: Vec<(std::string::String, std::string::String)>,
    pub return_type: std::string::String,
    pub description: Option<std::string::String>,
}

/// A root field that calls a function which answers with rows of a table.
pub struct FunctionField {
    pub name: std::string::String,
    pub schema_name: std::string::String,
    pub function_name: std::string::String,
    pub arguments: Vec<FunctionArgument>,
    pub session_argument: Option<std::string::String>,
    /// The table whose rows it answers with, and their type.
    pub returns_schema: std::string::String,
    pub returns_table: std::string::String,
    pub returns: std::string::String,
    pub local_returns: std::string::String,
    pub description: Option<std::string::String>,
    /// Whether it has effects, and so is a mutation.
    pub volatile: bool,
}

/// An enum made of a table's rows: each member and what is said of it.
pub struct EnumType {
    pub name: std::string::String,
    pub members: Vec<(std::string::String, Option<std::string::String>)>,
}

impl Named for EnumType {
    open spec fn called(&self) -> Seq<char> {
        self.name@
    }

    fn is_called(&self, name: &str) -> (r: bool) {
        same(&self.name, name)
    }
}

/// A type that other services know too.
pub struct FederationEntity {
    pub typename: std::string::String,
    /// The fields it is found by.
    pub key_fields: Vec<std::string::String>,
    /// Whether other services answer its fields too.
    pub shared: bool,
}

impl Named for FederationEntity {
    open spec fn called(&self) -> Seq<char> {
        self.typename@
    }

    fn is_called(&self, name: &str) -> (r: bool) {
        same(&self.typename, name)
    }
}

/// Everything that one schema is built from.
pub struct GeneratedSchema {
    pub object_types: Vec<TableObjectType>,
    pub relationship_fields: Vec<TypeRelationships>,
    pub query_fields: Vec<QueryField>,
    pub mutation_fields: Vec<MutationField>,
    pub function_fields: Vec<FunctionField>,
    pub enum_types: Vec<EnumType>,
    pub federation_entities: Vec<FederationEntity>,
    pub enable_federation: bool,
    pub pg_types: Vec<PgType>,
    /// The scalars that the boolean expressions name.
    pub filter_scalars: Vec<std::string::String>,
}

// ---------------------------------------------------------------------------
// What may be written
// ---------------------------------------------------------------------------

/// Whether a set of columns allows one: any, where there is no set.
pub open spec fn allows(set: Option<Seq<Seq<char>>>, column: Seq<char>) -> bool {
    match set {
        Some(columns) => has_text(columns, column),
        None => true,
    }
}

/// Whether a write may name a field: a real column that PostgreSQL does not
/// always generate, and that the permission allows.
pub open spec fn may_write(
    field: GraphQLField,
    object: TableObjectType,
    names: NameOverrides,
    allowed: Option<Seq<Seq<char>>>,
) -> bool {
    let column = column_behind(names, object.table.schema@, object.table.name@, field.name@);
    match object.table.column(column) {
        Some(found) => !found.always_generated && allows(allowed, column),
        None => false,
    }
}

/// The columns of an optional set.
pub open spec fn set_of(set: Option<Vec<std::string::String>>) -> Option<Seq<Seq<char>>> {
    match set {
        Some(columns) => Some(texts(columns@)),
        None => None,
    }
}

/// The fields a write may name, from the `i`th on, after those in `found`.
pub open spec fn writable_from(
    object: TableObjectType,
    i: nat,
    names: NameOverrides,
    allowed: Option<Seq<Seq<char>>>,
    found: Seq<GraphQLField>,
) -> Seq<GraphQLField>
    decreases object.writable_fields@.len() - i,
{
    if i >= object.writable_fields@.len() {
        found
    } else {
        let field = object.writable_fields@[i as int];
        writable_from(
            object,
            i + 1,
            names,
            allowed,
            if may_write(field, object, names, allowed) {
                found.push(field)
            } else {
                found
            },
        )
    }
}

/// The fields an insert may name.
pub open spec fn insert_fields_of(object: TableObjectType, names: NameOverrides) -> Seq<
    GraphQLField,
> {
    writable_from(object, 0, names, set_of(object.insert_columns), Seq::empty())
}

/// The fields an update may name.
pub open spec fn update_fields_of(object: TableObjectType, names: NameOverrides) -> Seq<
    GraphQLField,
> {
    writable_from(object, 0, names, set_of(object.update_columns), Seq::empty())
}

/// What several references refer to.
pub open spec fn derefs<T>(v: Seq<&T>) -> Seq<T> {
    v.map_values(|t: &T| *t)
}

fn may_be_written(
    field: &GraphQLField,
    object: &TableObjectType,
    names: &NameOverrides,
    allowed: Option<&Vec<std::string::String>>,
) -> (r: bool)
    ensures
        r == may_write(
            *field,
            *object,
            *names,
            match allowed {
                Some(columns) => Some(texts(columns@)),
                None => None,
            },
        ),
{
    let column = table_column_for(names, &object.table, &field.name);
    match object.table.get_column(column) {
        Some(found) => !found.always_generated && (match allowed {
            Some(columns) => contains_text(columns, column),
            None => true,
        }),
        None => false,
    }
}

/// Which columns a write may name.
///
/// One definition for the inputs and for the arguments that name them: an
/// argument naming a type that is not there is a schema that cannot be built.
pub fn write_fields<'a>(
    object: &'a TableObjectType,
    names: &NameOverrides,
    allowed: Option<&Vec<std::string::String>>,
) -> (r: Vec<&'a GraphQLField>)
    ensures
        derefs(r@) == writable_from(
            *object,
            0,
            *names,
            match allowed {
                Some(columns) => Some(texts(columns@)),
                None => None,
            },
            Seq::empty(),
        ),
{
    let ghost set = match allowed {
        Some(columns) => Some(texts(columns@)),
        None => None,
    };
    let mut found: Vec<&'a GraphQLField> = Vec::new();
    assert(derefs(found@) =~= Seq::<GraphQLField>::empty());
    let mut i: usize = 0;
    while i < object.writable_fields.len()
        invariant
            i <= object.writable_fields.len(),
            set == (match allowed {
                Some(columns) => Some(texts(columns@)),
                None => None,
            }),
            writable_from(*object, 0, *names, set, Seq::empty()) == writable_from(
                *object,
                i as nat,
                *names,
                set,
                derefs(found@),
            ),
        decreases object.writable_fields.len() - i,
    {
        let field = &object.writable_fields[i];
        if may_be_written(field, object, names, allowed) {
            proof {
                assert(derefs(found@.push(field)) =~= derefs(found@).push(*field));
            }
            found.push(field);
        }
        i += 1;
    }
    found
}

/// The fields an insert may name.
pub fn insert_fields<'a>(object: &'a TableObjectType, names: &NameOverrides) -> (r: Vec<
    &'a GraphQLField,
>)
    ensures
        derefs(r@) == insert_fields_of(*object, *names),
{
    match &object.insert_columns {
        Some(columns) => write_fields(object, names, Some(columns)),
        None => write_fields(object, names, None),
    }
}

/// The fields an update may name.
pub fn update_fields<'a>(object: &'a TableObjectType, names: &NameOverrides) -> (r: Vec<
    &'a GraphQLField,
>)
    ensures
        derefs(r@) == update_fields_of(*object, *names),
{
    match &object.update_columns {
        Some(columns) => write_fields(object, names, Some(columns)),
        None => write_fields(object, names, None),
    }
}

/// Whether some field can be added to.
pub open spec fn any_number(fields: Seq<GraphQLField>) -> bool {
    exists|i: int| 0 <= i < fields.len() && (#[trigger] fields[i]).incrementable
}

/// Whether some field is a document.
pub open spec fn any_document(fields: Seq<GraphQLField>) -> bool {
    exists|i: int| 0 <= i < fields.len() && (#[trigger] fields[i]).graphql_type is Json
}

/// Whether an update of a type can add to a column, and whether it can work on
/// a document.
pub fn update_inputs(object: &TableObjectType, names: &NameOverrides) -> (r: (bool, bool))
    ensures
        r == (
            any_number(update_fields_of(*object, *names)),
            any_document(update_fields_of(*object, *names)),
        ),
{
    let fields = update_fields(object, names);
    let ghost all = derefs(fields@);
    let mut number = false;
    let mut document = false;
    let mut i: usize = 0;
    while i < fields.len()
        invariant
            i <= fields.len(),
            all == derefs(fields@),
            number == (exists|j: int| 0 <= j < i && (#[trigger] all[j]).incrementable),
            document == (exists|j: int| 0 <= j < i && (#[trigger] all[j]).graphql_type is Json),
        decreases fields.len() - i,
    {
        assert(all[i as int] == *fields@[i as int]);
        if fields[i].incrementable {
            number = true;
        }
        if matches!(&fields[i].graphql_type, GraphQLType::Json) {
            document = true;
        }
        i += 1;
    }
    (number, document)
}

// ---------------------------------------------------------------------------
// Names
// ---------------------------------------------------------------------------

/// The name of a table's boolean expression.
pub open spec fn bool_exp(base: Seq<char>) -> Seq<char> {
    base + "_bool_exp"@
}

/// The name of a table's ordering.
pub open spec fn order_by(base: Seq<char>) -> Seq<char> {
    base + "_order_by"@
}

/// The name of the enum of a table's columns.
pub open spec fn select_column(base: Seq<char>) -> Seq<char> {
    base + "_select_column"@
}

/// The name of a table's aggregate.
pub open spec fn aggregate_type(base: Seq<char>) -> Seq<char> {
    base + "_aggregate"@
}

/// The name of the object of a table's aggregate functions.
pub open spec fn aggregate_fields_type(base: Seq<char>) -> Seq<char> {
    base + "_aggregate_fields"@
}

/// The name of the object of one function's columns.
pub open spec fn function_fields_type(base: Seq<char>, function: Seq<char>) -> Seq<char> {
    base + "_"@ + function + "_fields"@
}

/// The name of the input of one document operator's columns.
pub open spec fn operator_input(base: Seq<char>, operator: Seq<char>) -> Seq<char> {
    base + operator + "_input"@
}

/// The name of the input of a computed field's own arguments.
pub open spec fn args_type(base: Seq<char>, field: Seq<char>) -> Seq<char> {
    base + "_"@ + field + "_args"@
}

/// The name of a table's mutation response.
pub open spec fn response_type(base: Seq<char>) -> Seq<char> {
    base + "_mutation_response"@
}

pub fn bool_exp_type_name(base: &str) -> (r: std::string::String)
    ensures
        r@ == bool_exp(base@),
{
    cat2(base, "_bool_exp")
}

pub fn order_by_type_name(base: &str) -> (r: std::string::String)
    ensures
        r@ == order_by(base@),
{
    cat2(base, "_order_by")
}

pub fn select_column_type_name(base: &str) -> (r: std::string::String)
    ensures
        r@ == select_column(base@),
{
    cat2(base, "_select_column")
}

pub fn aggregate_type_name(base: &str) -> (r: std::string::String)
    ensures
        r@ == aggregate_type(base@),
{
    cat2(base, "_aggregate")
}

pub fn aggregate_fields_type_name(base: &str) -> (r: std::string::String)
    ensures
        r@ == aggregate_fields_type(base@),
{
    cat2(base, "_aggregate_fields")
}

pub fn function_fields_type_name(base: &str, function: &str) -> (r: std::string::String)
    ensures
        r@ == function_fields_type(base@, function@),
{
    cat4(base, "_", function, "_fields")
}

/// The name of the input holding one document operator's columns.
pub fn jsonb_operator_input(base: &str, operator: &str) -> (r: std::string::String)
    ensures
        r@ == operator_input(base@, operator@),
{
    cat3(base, operator, "_input")
}

/// The name of the input holding a computed relationship's own arguments.
pub fn computed_args_type_name(base: &str, field: &str) -> (r: std::string::String)
    ensures
        r@ == args_type(base@, field@),
{
    cat4(base, "_", field, "_args")
}

/// The name of a table's mutation response type.
pub fn mutation_response_type_name(base_name: &str) -> (r: std::string::String)
    ensures
        r@ == response_type(base_name@),
{
    cat2(base_name, "_mutation_response")
}

/// A written type without its brackets and marks: the trim is of every such
/// character at either end.
pub open spec fn bare_type(text: Seq<char>) -> Seq<char> {
    bare_end(bare_start(text))
}

pub open spec fn is_mark(c: char) -> bool {
    c == '[' || c == ']' || c == '!'
}

pub open spec fn bare_start(s: Seq<char>) -> Seq<char>
    decreases s.len(),
{
    if s.len() > 0 && is_mark(s[0]) {
        bare_start(s.drop_first())
    } else {
        s
    }
}

pub open spec fn bare_end(s: Seq<char>) -> Seq<char>
    decreases s.len(),
{
    if s.len() > 0 && is_mark(s.last()) {
        bare_end(s.drop_last())
    } else {
        s
    }
}

fn marks(c: char) -> (r: bool)
    ensures
        r == is_mark(c),
{
    c == '[' || c == ']' || c == '!'
}

/// A written type without its brackets and marks.
pub fn bare_type_text(text: &str) -> (r: std::string::String)
    ensures
        r@ == bare_type(text@),
{
    let cs = crate::text::chars_of(text);
    let mut from: usize = 0;
    assert(text@.skip(0) =~= text@);
    while from < cs.len() && marks(cs[from])
        invariant
            from <= cs@.len(),
            cs@ == text@,
            bare_start(text@) == bare_start(text@.skip(from as int)),
        decreases cs.len() - from,
    {
        assert(text@.skip(from as int)[0] == text@[from as int]);
        assert(text@.skip(from as int).drop_first() =~= text@.skip(from + 1));
        from += 1;
    }
    proof {
        if from < text@.len() {
            assert(text@.skip(from as int)[0] == text@[from as int]);
        }
        assert(bare_start(text@) =~= text@.subrange(from as int, text@.len() as int));
    }
    let mut to: usize = cs.len();
    while to > from && marks(cs[to - 1])
        invariant
            from <= to <= cs@.len(),
            cs@ == text@,
            bare_type(text@) == bare_end(text@.subrange(from as int, to as int)),
        decreases to,
    {
        let ghost part = text@.subrange(from as int, to as int);
        assert(part.last() == text@[to - 1]);
        assert(part.drop_last() =~= text@.subrange(from as int, to - 1));
        to -= 1;
    }
    proof {
        if to > from {
            assert(text@.subrange(from as int, to as int).last() == text@[to - 1]);
        }
    }
    crate::text::text_of(&cs, from, to)
}

// ---------------------------------------------------------------------------
// The types of tables
// ---------------------------------------------------------------------------

/// What is said of the types of tables: each table's place, and its type.
pub open spec fn type_places(v: Seq<TypeName>) -> Seq<(Seq<char>, Seq<char>, Seq<char>)> {
    v.map_values(|t: TypeName| (t.schema@, t.table@, t.typename@))
}

/// The place of each type's table.
pub open spec fn object_places(v: Seq<TableObjectType>) -> Seq<(Seq<char>, Seq<char>, Seq<char>)> {
    v.map_values(|o: TableObjectType| (o.table.schema@, o.table.name@, o.name@))
}

/// The type of each table. A relationship leads to a table, and what is known
/// of the table is found by its type, which is not always its name.
pub fn type_names_of(generated: &GeneratedSchema) -> (r: Vec<TypeName>)
    ensures
        type_places(r@) == object_places(generated.object_types@),
{
    let mut found: Vec<TypeName> = Vec::new();
    let ghost all = object_places(generated.object_types@);
    let mut i: usize = 0;
    while i < generated.object_types.len()
        invariant
            i <= generated.object_types.len(),
            all == object_places(generated.object_types@),
            type_places(found@) =~= all.take(i as int),
        decreases generated.object_types.len() - i,
    {
        let object = &generated.object_types[i];
        let name = TypeName {
            schema: object.table.schema.clone(),
            table: object.table.name.clone(),
            typename: object.name.clone(),
        };
        assert(all[i as int] == (name.schema@, name.table@, name.typename@));
        assert(type_places(found@.push(name)) =~= type_places(found@).push(all[i as int]));
        found.push(name);
        i += 1;
    }
    assert(type_places(found@) =~= all);
    found
}

} // verus!

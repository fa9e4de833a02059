//! The object types of a table: its rows, the numbers about them, and what a
//! write of them answers.

use crate::catalog::{always_present, present_always, RelationshipField, Table};
use crate::generated::{
    aggregate_fields_type, aggregate_fields_type_name, aggregate_type, aggregate_type_name,
    args_type, bool_exp, bool_exp_type_name, computed_args_type_name, function_fields_type,
    function_fields_type_name, mutation_response_type_name, order_by, order_by_type_name,
    response_type, select_column, select_column_type_name, AggregateFunction, FederationEntity,
    GraphQLField, GraphQLType, TableObjectType,
};
use crate::schema_def::{
    arguments, field_defs, graphql_type_ref, no_arguments, no_field_defs, no_object_defs,
    object_defs, optional, optional_list, place_field, placed_field, plain_argument, push_argument,
    push_field_def, push_object_def, read_type, required, required_list, Argument, ArgumentV,
    FieldDef, FieldDefV, ObjectDef, ObjectDefV, Source, TypeRef, TypeRefV,
};
use crate::text::{
    cat2, cat3, cat5, contains_text, has_text, join, joined, no_texts, owned, push_text, same,
    text_opt, texts,
};
use vstd::prelude::*;

verus! {

/// A copy of an optional text.
pub fn copy_text(o: &Option<String>) -> (r: Option<String>)
    ensures
        text_opt(r) == text_opt(*o),
{
    match o {
        Some(s) => Some(s.clone()),
        None => None,
    }
}

// ---------------------------------------------------------------------------
// Arguments
// ---------------------------------------------------------------------------

/// The arguments an embedded list takes, and an aggregate of it.
pub open spec fn list_arguments_of(base: Seq<char>) -> Seq<ArgumentV> {
    seq![
        plain_argument("distinct_on"@, optional_list(select_column(base))),
        plain_argument("where"@, optional(bool_exp(base))),
        plain_argument("order_by"@, optional_list(order_by(base))),
        plain_argument("limit"@, optional("Int"@)),
        plain_argument("offset"@, optional("Int"@)),
    ]
}

/// Adds the arguments an embedded list takes.
pub fn add_list_arguments(list: &mut Vec<Argument>, base: &str)
    ensures
        arguments(final(list)@) == arguments(old(list)@) + list_arguments_of(base@),
{
    let ghost before = arguments(list@);
    push_argument(
        list,
        Argument::new("distinct_on", TypeRef::named_nn_list(&select_column_type_name(base))),
    );
    push_argument(list, Argument::new("where", TypeRef::named(&bool_exp_type_name(base))));
    push_argument(
        list,
        Argument::new("order_by", TypeRef::named_nn_list(&order_by_type_name(base))),
    );
    push_argument(list, Argument::new("limit", TypeRef::named("Int")));
    push_argument(list, Argument::new("offset", TypeRef::named("Int")));
    assert(arguments(list@) =~= before + list_arguments_of(base@));
}

/// The arguments that narrow the rows of a root field. A table whose columns
/// may not be named has no column to order by or to be distinct on.
pub open spec fn row_arguments_of(base: Seq<char>, columns: bool) -> Seq<ArgumentV> {
    if columns {
        seq![
            plain_argument("distinct_on"@, optional_list(select_column(base))),
            plain_argument("limit"@, optional("Int"@)),
            plain_argument("offset"@, optional("Int"@)),
            plain_argument("order_by"@, optional_list(order_by(base))),
            plain_argument("where"@, optional(bool_exp(base))),
        ]
    } else {
        seq![
            plain_argument("limit"@, optional("Int"@)),
            plain_argument("offset"@, optional("Int"@)),
            plain_argument("where"@, optional(bool_exp(base))),
        ]
    }
}

/// The arguments that narrow a set of rows, where `columns` says whether the
/// table has any to name.
pub fn with_row_arguments_named(list: &mut Vec<Argument>, base: &str, columns: bool)
    ensures
        arguments(final(list)@) == arguments(old(list)@) + row_arguments_of(base@, columns),
{
    let ghost before = arguments(list@);
    if columns {
        push_argument(
            list,
            Argument::new("distinct_on", TypeRef::named_nn_list(&select_column_type_name(base))),
        );
    }
    push_argument(list, Argument::new("limit", TypeRef::named("Int")));
    push_argument(list, Argument::new("offset", TypeRef::named("Int")));
    if columns {
        push_argument(
            list,
            Argument::new("order_by", TypeRef::named_nn_list(&order_by_type_name(base))),
        );
    }
    push_argument(list, Argument::new("where", TypeRef::named(&bool_exp_type_name(base))));
    assert(arguments(list@) =~= before + row_arguments_of(base@, columns));
}

/// The arguments that narrow a set of rows.
pub fn with_row_arguments(list: &mut Vec<Argument>, base: &str)
    ensures
        arguments(final(list)@) == arguments(old(list)@) + row_arguments_of(base@, true),
{
    with_row_arguments_named(list, base, true)
}

// ---------------------------------------------------------------------------
// A table's rows
// ---------------------------------------------------------------------------

/// Whether a part of a field's value can be asked for: a document's can.
pub open spec fn is_document(t: GraphQLType) -> bool {
    match t {
        GraphQLType::Json => true,
        GraphQLType::Custom(name) => name@ == "json"@,
        _ => false,
    }
}

fn holds_document(t: &GraphQLType) -> (r: bool)
    ensures
        r == is_document(*t),
{
    match t {
        GraphQLType::Json => true,
        GraphQLType::Custom(name) => same(name, "json"),
        _ => false,
    }
}

/// The argument that asks for a part of a document.
pub open spec fn path_argument() -> ArgumentV {
    ArgumentV {
        description: Some("JSON select path"@),
        ..plain_argument("path"@, optional("String"@))
    }
}

/// The argument that passes a function what its caller gives it, where it
/// takes anything.
pub open spec fn with_args(list: Seq<ArgumentV>, taken: bool, input: Seq<char>) -> Seq<ArgumentV> {
    if taken {
        list.push(plain_argument("args"@, required(input)))
    } else {
        list
    }
}

/// A column or computed field of a type.
pub open spec fn column_field(object: TableObjectType, field: GraphQLField, shared: bool) -> FieldDefV {
    let path = is_document(field.graphql_type);
    FieldDefV {
        name: field.name@,
        ty: read_type(field.type_string@),
        arguments: with_args(
            if path {
                seq![path_argument()]
            } else {
                Seq::empty()
            },
            field.arguments@.len() > 0,
            args_type(object.local_name@, field.name@),
        ),
        description: text_opt(field.description),
        shareable: shared && !field.is_pk,
        source: Source::Column { path },
    }
}

fn build_column_field(object: &TableObjectType, field: &GraphQLField, shared: bool) -> (r: FieldDef)
    ensures
        r@ == column_field(*object, *field, shared),
{
    let path = holds_document(&field.graphql_type);
    let mut list = no_arguments();
    if path {
        let argument = Argument {
            name: owned("path"),
            ty: TypeRef::named("String"),
            description: Some(owned("JSON select path")),
            empty_default: false,
        };
        push_argument(&mut list, argument);
        assert(arguments(list@) =~= seq![path_argument()]);
    }
    if field.arguments.len() > 0 {
        let input = computed_args_type_name(&object.local_name, &field.name);
        push_argument(&mut list, Argument::new("args", TypeRef::named_nn(&input)));
    }
    FieldDef {
        name: field.name.clone(),
        ty: graphql_type_ref(&field.type_string),
        arguments: list,
        description: copy_text(&field.description),
        shareable: shared && !field.is_pk,
        source: Source::Column { path },
    }
}

/// The type of a relationship's field: a list, or one row that may be absent
/// unless its key cannot be null.
pub open spec fn related_type(rel: RelationshipField, table: Table) -> TypeRefV {
    if rel.is_list {
        required_list(rel.target_type@)
    } else if present_always(rel.relationship.kind, table) {
        required(rel.target_type@)
    } else {
        optional(rel.target_type@)
    }
}

/// A relationship of a type.
pub open spec fn related_field(object: TableObjectType, rel: RelationshipField, shared: bool) -> FieldDefV {
    let args = with_args(
        Seq::empty(),
        rel.arguments@.len() > 0,
        args_type(object.local_name@, rel.name@),
    );
    FieldDefV {
        name: rel.name@,
        ty: related_type(rel, object.table),
        arguments: if rel.is_list {
            args + list_arguments_of(rel.target_local_name@)
        } else {
            args
        },
        description: text_opt(rel.description),
        shareable: shared,
        source: Source::Related { list: rel.is_list },
    }
}

fn build_related_field(object: &TableObjectType, rel: &RelationshipField, shared: bool) -> (r:
    FieldDef)
    ensures
        r@ == related_field(*object, *rel, shared),
{
    let ty = if rel.is_list {
        TypeRef::named_nn_list_nn(&rel.target_type)
    } else if always_present(rel, &object.table) {
        TypeRef::named_nn(&rel.target_type)
    } else {
        TypeRef::named(&rel.target_type)
    };
    let mut list = no_arguments();
    if rel.arguments.len() > 0 {
        let input = computed_args_type_name(&object.local_name, &rel.name);
        push_argument(&mut list, Argument::new("args", TypeRef::named_nn(&input)));
    }
    if rel.is_list {
        add_list_arguments(&mut list, &rel.target_local_name);
    }
    FieldDef {
        name: rel.name.clone(),
        ty,
        arguments: list,
        description: copy_text(&rel.description),
        shareable: shared,
        source: Source::Related { list: rel.is_list },
    }
}

/// The numbers about the rows of a relationship to many.
pub open spec fn related_numbers(object: TableObjectType, rel: RelationshipField, shared: bool) -> FieldDefV {
    FieldDefV {
        name: rel.name@ + "_aggregate"@,
        ty: required(aggregate_type(rel.target_local_name@)),
        arguments: with_args(
            list_arguments_of(rel.target_local_name@),
            rel.arguments@.len() > 0,
            args_type(object.local_name@, rel.name@),
        ),
        description: Some("Aggregates over "@ + rel.name@ + "."@),
        shareable: shared,
        source: Source::RelatedNumbers,
    }
}

fn build_related_numbers(object: &TableObjectType, rel: &RelationshipField, shared: bool) -> (r:
    FieldDef)
    ensures
        r@ == related_numbers(*object, *rel, shared),
{
    let mut list = no_arguments();
    add_list_arguments(&mut list, &rel.target_local_name);
    assert(arguments(list@) =~= list_arguments_of(rel.target_local_name@));
    if rel.arguments.len() > 0 {
        let input = computed_args_type_name(&object.local_name, &rel.name);
        push_argument(&mut list, Argument::new("args", TypeRef::named_nn(&input)));
    }
    FieldDef {
        name: cat2(&rel.name, "_aggregate"),
        ty: TypeRef::named_nn(&aggregate_type_name(&rel.target_local_name)),
        arguments: list,
        description: Some(cat3("Aggregates over ", &rel.name, ".")),
        shareable: shared,
        source: Source::RelatedNumbers,
    }
}

/// The fields of a type with its columns from the `i`th on, in name order.
pub open spec fn with_columns(
    object: TableObjectType,
    i: nat,
    shared: bool,
    fields: Seq<FieldDefV>,
) -> Seq<FieldDefV>
    decreases object.fields@.len() - i,
{
    if i >= object.fields@.len() {
        fields
    } else {
        with_columns(
            object,
            i + 1,
            shared,
            placed_field(fields, column_field(object, object.fields@[i as int], shared)),
        )
    }
}

/// The fields of a type with its relationships from the `i`th on, in name
/// order. One whose name is taken, by a column or by another, is left out, and
/// so is an aggregate whose name is.
pub open spec fn with_relationships(
    object: TableObjectType,
    relationships: Seq<RelationshipField>,
    i: nat,
    shared: bool,
    taken: Seq<Seq<char>>,
    fields: Seq<FieldDefV>,
) -> Seq<FieldDefV>
    decreases relationships.len() - i,
{
    if i >= relationships.len() {
        fields
    } else {
        let rel = relationships[i as int];
        if has_text(taken, rel.name@) {
            with_relationships(object, relationships, i + 1, shared, taken, fields)
        } else {
            let held = taken.push(rel.name@);
            let related = placed_field(fields, related_field(object, rel, shared));
            let numbers = rel.name@ + "_aggregate"@;
            if rel.is_list && !has_text(held, numbers) {
                with_relationships(
                    object,
                    relationships,
                    i + 1,
                    shared,
                    held.push(numbers),
                    placed_field(related, related_numbers(object, rel, shared)),
                )
            } else {
                with_relationships(object, relationships, i + 1, shared, held, related)
            }
        }
    }
}

/// The names of fields.
pub open spec fn field_names(fields: Seq<GraphQLField>) -> Seq<Seq<char>> {
    fields.map_values(|f: GraphQLField| f.name@)
}

/// What a type is described as: what was said of it, nothing where that is
/// empty, and what it is of where nothing was said.
pub open spec fn described(description: Option<Seq<char>>, otherwise: Seq<char>) -> Option<
    Seq<char>,
> {
    match description {
        Some(text) => if text.len() == 0 {
            None
        } else {
            Some(text)
        },
        None => Some(otherwise),
    }
}

/// What a type or field is described as.
pub fn description_or(description: &Option<String>, otherwise: String) -> (r: Option<String>)
    ensures
        text_opt(r) == described(text_opt(*description), otherwise@),
{
    match description {
        Some(text) => if text.as_str().is_empty() {
            None
        } else {
            Some(text.clone())
        },
        None => Some(otherwise),
    }
}

/// A table's row type: its columns and computed fields, and its relationships.
pub open spec fn row_type(
    object: TableObjectType,
    relationships: Seq<RelationshipField>,
    entity: Option<FederationEntity>,
) -> ObjectDefV {
    let shared = entity is Some && entity->0.shared;
    ObjectDefV {
        name: object.name@,
        description: described(
            text_opt(object.description),
            "columns and relationships of \""@ + object.table.name@ + "\""@,
        ),
        key: match entity {
            Some(e) => Some(joined(texts(e.key_fields@), " "@)),
            None => None,
        },
        fields: with_relationships(
            object,
            relationships,
            0,
            shared,
            field_names(object.fields@),
            with_columns(object, 0, shared, Seq::empty()),
        ),
    }
}

/// Create an object type from a table.
///
/// A type may not have two fields of one name. A relationship's name is
/// derived and a column's is the table's own, so the column wins and the
/// relationship is left out.
pub fn create_object_type(
    object: &TableObjectType,
    relationships: &Vec<RelationshipField>,
    entity: Option<&FederationEntity>,
) -> (r: ObjectDef)
    ensures
        r@ == row_type(*object, relationships@, crate::lookup::deref_opt(entity)),
{
    let shared = match entity {
        Some(e) => e.shared,
        None => false,
    };
    let key = match entity {
        Some(e) => Some(join(&e.key_fields, " ")),
        None => None,
    };
    let mut taken = no_texts();
    let mut fields = no_field_defs();
    let mut i: usize = 0;
    while i < object.fields.len()
        invariant
            i <= object.fields.len(),
            texts(taken@) =~= field_names(object.fields@).take(i as int),
            with_columns(*object, 0, shared, Seq::empty()) == with_columns(
                *object,
                i as nat,
                shared,
                field_defs(fields@),
            ),
        decreases object.fields.len() - i,
    {
        push_text(&mut taken, object.fields[i].name.clone());
        place_field(&mut fields, build_column_field(object, &object.fields[i], shared));
        i += 1;
    }
    assert(texts(taken@) =~= field_names(object.fields@));
    let ghost columns = field_defs(fields@);
    let mut k: usize = 0;
    while k < relationships.len()
        invariant
            k <= relationships.len(),
            with_relationships(
                *object,
                relationships@,
                0,
                shared,
                field_names(object.fields@),
                columns,
            ) == with_relationships(
                *object,
                relationships@,
                k as nat,
                shared,
                texts(taken@),
                field_defs(fields@),
            ),
        decreases relationships.len() - k,
    {
        let rel = &relationships[k];
        if !contains_text(&taken, &rel.name) {
            push_text(&mut taken, rel.name.clone());
            place_field(&mut fields, build_related_field(object, rel, shared));
            if rel.is_list {
                let numbers = cat2(&rel.name, "_aggregate");
                if !contains_text(&taken, &numbers) {
                    push_text(&mut taken, numbers);
                    place_field(&mut fields, build_related_numbers(object, rel, shared));
                }
            }
        }
        k += 1;
    }
    let otherwise = cat3("columns and relationships of \"", &object.table.name, "\"");
    ObjectDef {
        name: object.name.clone(),
        description: description_or(&object.description, otherwise),
        key,
        fields,
    }
}

// ---------------------------------------------------------------------------
// What a write answers
// ---------------------------------------------------------------------------

/// A field with no arguments.
pub open spec fn plain_field(name: Seq<char>, ty: TypeRefV, source: Source) -> FieldDefV {
    FieldDefV {
        name,
        ty,
        arguments: Seq::empty(),
        description: None,
        shareable: false,
        source,
    }
}

/// A field with no arguments.
pub fn simple_field(name: &str, ty: TypeRef, source: Source) -> (r: FieldDef)
    ensures
        r@ == plain_field(name@, ty@, source),
{
    FieldDef {
        name: owned(name),
        ty,
        arguments: no_arguments(),
        description: None,
        shareable: false,
        source,
    }
}

/// What a bulk write of a table answers: how many rows it changed, and the
/// rows where they may be read.
pub open spec fn response_of(base: Seq<char>, row: Seq<char>, returning: bool) -> ObjectDefV {
    let affected = plain_field("affected_rows"@, required("Int"@), Source::AffectedRows);
    ObjectDefV {
        name: response_type(base),
        description: Some("The rows "@ + base + " changed, and how many."@),
        key: None,
        fields: if returning {
            seq![affected, plain_field("returning"@, required_list(row), Source::Returning)]
        } else {
            seq![affected]
        },
    }
}

/// Build the `<table>_mutation_response` object.
///
/// A table that may be written and not read has no row type, so there is
/// nothing for `returning` to be a list of.
pub fn create_mutation_response_type(base_name: &str, row: &str, returning: bool) -> (r: ObjectDef)
    ensures
        r@ == response_of(base_name@, row@, returning),
{
    let mut fields = no_field_defs();
    push_field_def(
        &mut fields,
        simple_field("affected_rows", TypeRef::named_nn("Int"), Source::AffectedRows),
    );
    if returning {
        push_field_def(
            &mut fields,
            simple_field("returning", TypeRef::named_nn_list_nn(row), Source::Returning),
        );
    }
    assert(field_defs(fields@) =~= response_of(base_name@, row@, returning).fields);
    ObjectDef {
        name: mutation_response_type_name(base_name),
        description: Some(cat3("The rows ", base_name, " changed, and how many.")),
        key: None,
        fields,
    }
}

// ---------------------------------------------------------------------------
// Numbers about rows
// ---------------------------------------------------------------------------

/// The object of one aggregate's columns.
pub open spec fn function_type(base: Seq<char>, function: AggregateFunction) -> ObjectDefV {
    ObjectDefV {
        name: function_fields_type(base, function.name@),
        description: Some(
            "`"@ + function.name@ + "` of each "@ + base + " column it applies to."@,
        ),
        key: None,
        fields: Seq::new(
            function.columns@.len(),
            |i: int|
                plain_field(
                    function.columns@[i].0@,
                    optional(function.columns@[i].1@),
                    Source::ColumnNumber,
                ),
        ),
    }
}

fn build_function_type(base: &str, function: &AggregateFunction) -> (r: ObjectDef)
    ensures
        r@ == function_type(base@, *function),
{
    let mut fields = no_field_defs();
    let mut i: usize = 0;
    while i < function.columns.len()
        invariant
            i <= function.columns.len(),
            field_defs(fields@) =~= function_type(base@, *function).fields.take(i as int),
        decreases function.columns.len() - i,
    {
        push_field_def(
            &mut fields,
            simple_field(
                &function.columns[i].0,
                TypeRef::named(&function.columns[i].1),
                Source::ColumnNumber,
            ),
        );
        i += 1;
    }
    assert(field_defs(fields@) =~= function_type(base@, *function).fields);
    ObjectDef {
        name: function_fields_type_name(base, &function.name),
        description: Some(
            cat5("`", &function.name, "` of each ", base, " column it applies to."),
        ),
        key: None,
        fields,
    }
}

/// The count of an aggregate, which may be told what to count where columns
/// may be named.
pub open spec fn count_field(base: Seq<char>, has_rows: bool) -> FieldDefV {
    FieldDefV {
        arguments: if has_rows {
            seq![
                plain_argument("columns"@, optional_list(select_column(base))),
                plain_argument("distinct"@, optional("Boolean"@)),
            ]
        } else {
            Seq::empty()
        },
        ..plain_field("count"@, required("Int"@), Source::Count)
    }
}

/// The object that holds an aggregate's numbers and, where they may be read,
/// its rows.
pub open spec fn over_type(base: Seq<char>, object: TableObjectType) -> ObjectDefV {
    let has_rows = object.fields@.len() > 0;
    let numbers = plain_field(
        "aggregate"@,
        optional(aggregate_fields_type(base)),
        Source::Numbers,
    );
    ObjectDefV {
        name: aggregate_type(base),
        description: Some(
            if has_rows {
                "Aggregates over "@ + base + ", with the rows themselves."@
            } else {
                "Aggregates over "@ + base + "."@
            },
        ),
        key: None,
        fields: if has_rows {
            seq![numbers, plain_field("nodes"@, required_list(object.name@), Source::Nodes)]
        } else {
            seq![numbers]
        },
    }
}

fn build_over_type(base: &str, object: &TableObjectType) -> (r: ObjectDef)
    ensures
        r@ == over_type(base@, *object),
{
    let has_rows = object.fields.len() > 0;
    let mut fields = no_field_defs();
    push_field_def(
        &mut fields,
        simple_field(
            "aggregate",
            TypeRef::named(&aggregate_fields_type_name(base)),
            Source::Numbers,
        ),
    );
    if has_rows {
        push_field_def(
            &mut fields,
            simple_field("nodes", TypeRef::named_nn_list_nn(&object.name), Source::Nodes),
        );
    }
    assert(field_defs(fields@) =~= over_type(base@, *object).fields);
    let description = if has_rows {
        cat3("Aggregates over ", base, ", with the rows themselves.")
    } else {
        cat3("Aggregates over ", base, ".")
    };
    ObjectDef {
        name: aggregate_type_name(base),
        description: Some(description),
        key: None,
        fields,
    }
}

/// The object of an aggregate's functions: the count, and each function of
/// its columns.
pub open spec fn functions_type(base: Seq<char>, object: TableObjectType) -> ObjectDefV {
    ObjectDefV {
        name: aggregate_fields_type(base),
        description: Some("Aggregate functions over "@ + base + "."@),
        key: None,
        fields: seq![count_field(base, object.fields@.len() > 0)] + Seq::new(
            object.aggregates@.len(),
            |i: int|
                plain_field(
                    object.aggregates@[i].name@,
                    optional(function_fields_type(base, object.aggregates@[i].name@)),
                    Source::FunctionNumbers,
                ),
        ),
    }
}

fn build_functions_type(base: &str, object: &TableObjectType) -> (r: ObjectDef)
    ensures
        r@ == functions_type(base@, *object),
{
    let mut list = no_arguments();
    if object.fields.len() > 0 {
        push_argument(
            &mut list,
            Argument::new("columns", TypeRef::named_nn_list(&select_column_type_name(base))),
        );
        push_argument(&mut list, Argument::new("distinct", TypeRef::named("Boolean")));
    }
    assert(arguments(list@) =~= count_field(base@, object.fields@.len() > 0).arguments);
    let count = FieldDef {
        name: owned("count"),
        ty: TypeRef::named_nn("Int"),
        arguments: list,
        description: None,
        shareable: false,
        source: Source::Count,
    };
    let mut fields = no_field_defs();
    push_field_def(&mut fields, count);
    let ghost all = functions_type(base@, *object).fields;
    assert(field_defs(fields@) =~= all.take(1));
    let mut i: usize = 0;
    while i < object.aggregates.len()
        invariant
            i <= object.aggregates.len(),
            all == functions_type(base@, *object).fields,
            field_defs(fields@) =~= all.take(i + 1),
        decreases object.aggregates.len() - i,
    {
        let name = &object.aggregates[i].name;
        push_field_def(
            &mut fields,
            simple_field(
                name,
                TypeRef::named(&function_fields_type_name(base, name)),
                Source::FunctionNumbers,
            ),
        );
        i += 1;
    }
    assert(field_defs(fields@) =~= all);
    ObjectDef {
        name: aggregate_fields_type_name(base),
        description: Some(cat3("Aggregate functions over ", base, ".")),
        key: None,
        fields,
    }
}

/// Every aggregate type of a table: the one that holds numbers and rows, one
/// for each function, and the one that holds the functions.
pub open spec fn aggregate_types_of(base: Seq<char>, object: TableObjectType) -> Seq<ObjectDefV> {
    (seq![over_type(base, object)] + Seq::new(
        object.aggregates@.len(),
        |i: int| function_type(base, object.aggregates@[i]),
    )).push(functions_type(base, object))
}

/// Build every aggregate type for one table.
pub fn create_aggregate_types(base_name: &str, object: &TableObjectType) -> (r: Vec<ObjectDef>)
    ensures
        object_defs(r@) == aggregate_types_of(base_name@, *object),
{
    let mut types = no_object_defs();
    push_object_def(&mut types, build_over_type(base_name, object));
    let ghost all = aggregate_types_of(base_name@, *object);
    assert(object_defs(types@) =~= all.take(1));
    let mut i: usize = 0;
    while i < object.aggregates.len()
        invariant
            i <= object.aggregates.len(),
            all == aggregate_types_of(base_name@, *object),
            object_defs(types@) =~= all.take(i + 1),
        decreases object.aggregates.len() - i,
    {
        push_object_def(&mut types, build_function_type(base_name, &object.aggregates[i]));
        i += 1;
    }
    push_object_def(&mut types, build_functions_type(base_name, object));
    assert(object_defs(types@) =~= all);
    types
}

} // verus!

//! The root types: what can be read, written and watched.

use crate::catalog::NameOverrides;
use crate::generated::{
    aggregate_type, aggregate_type_name, any_document, any_number, bool_exp, bool_exp_type_name,
    jsonb_operator_input, key_arguments, key_arguments_from, operator_input, order_by,
    order_by_type_name, select_column, select_column_type_name, update_fields_of, update_inputs,
    FunctionField, GeneratedSchema, MutationField, QueryField,
};
use crate::mutate::MutationType;
use crate::object_types::{
    copy_text, described, description_or, plain_field, row_arguments_of, simple_field,
    with_row_arguments, with_row_arguments_named,
};
use crate::schema_def::{
    arguments, field_defs, graphql_type_ref, no_arguments, no_field_defs, optional, optional_list,
    place_field, placed_field, plain_argument, push_argument, push_field_def, read_type, required,
    required_list, Argument, ArgumentV, FieldDef, FieldDefV, ObjectDef, ObjectDefV, Source, TypeRef,
    TypeRefV,
};
use crate::text::{cat2, cat3, owned, same, text_opt};
use vstd::prelude::*;

verus! {

// ---------------------------------------------------------------------------
// Reading and watching
// ---------------------------------------------------------------------------

/// The root field that answers with a table's rows.
pub open spec fn rows_field(
    generated: GeneratedSchema,
    names: NameOverrides,
    field: QueryField,
    index: usize,
) -> FieldDefV {
    FieldDefV {
        name: field.name@,
        ty: read_type(field.return_type@),
        arguments: if field.is_by_pk {
            key_arguments_from(
                names,
                generated.pg_types@,
                field.schema_name@,
                field.table_name@,
                field.pk_columns@,
                0,
                Seq::empty(),
            )
        } else {
            row_arguments_of(field.local_typename@, true)
        },
        description: text_opt(field.description),
        shareable: false,
        source: Source::RootRows(index),
    }
}

/// The root field that answers with numbers about a table's rows.
pub open spec fn numbers_field(field: QueryField, index: usize) -> FieldDefV {
    FieldDefV {
        name: match field.aggregate_name {
            Some(name) => name@,
            None => aggregate_type(field.local_typename@),
        },
        ty: required(aggregate_type(field.local_typename@)),
        arguments: row_arguments_of(field.local_typename@, field.rows),
        description: described(
            text_opt(field.aggregate_description),
            "fetch aggregated fields from the table: \""@ + field.table_name@ + "\""@,
        ),
        shareable: false,
        source: Source::RootNumbers(index),
    }
}

/// The fields that read tables from the `i`th on, in name order. A table whose
/// rows may not be read has no field that answers with them, and one whose
/// numbers may not be asked for has none for those.
pub open spec fn reading_fields(
    generated: GeneratedSchema,
    names: NameOverrides,
    i: nat,
    fields: Seq<FieldDefV>,
) -> Seq<FieldDefV>
    decreases generated.query_fields@.len() - i,
{
    if i >= generated.query_fields@.len() {
        fields
    } else {
        let field = generated.query_fields@[i as int];
        let rows = if field.rows {
            placed_field(fields, rows_field(generated, names, field, i as usize))
        } else {
            fields
        };
        reading_fields(
            generated,
            names,
            i + 1,
            if !field.is_by_pk && field.aggregates {
                placed_field(rows, numbers_field(field, i as usize))
            } else {
                rows
            },
        )
    }
}

fn build_rows_field(
    generated: &GeneratedSchema,
    names: &NameOverrides,
    field: &QueryField,
    index: usize,
) -> (r: FieldDef)
    ensures
        r@ == rows_field(*generated, *names, *field, index),
{
    let list = if field.is_by_pk {
        key_arguments(
            names,
            &generated.pg_types,
            &field.schema_name,
            &field.table_name,
            &field.pk_columns,
        )
    } else {
        let mut list = no_arguments();
        with_row_arguments(&mut list, &field.local_typename);
        assert(arguments(list@) =~= row_arguments_of(field.local_typename@, true));
        list
    };
    FieldDef {
        name: field.name.clone(),
        ty: graphql_type_ref(&field.return_type),
        arguments: list,
        description: copy_text(&field.description),
        shareable: false,
        source: Source::RootRows(index),
    }
}

fn build_numbers_field(field: &QueryField, index: usize) -> (r: FieldDef)
    ensures
        r@ == numbers_field(*field, index),
{
    let mut list = no_arguments();
    with_row_arguments_named(&mut list, &field.local_typename, field.rows);
    assert(arguments(list@) =~= row_arguments_of(field.local_typename@, field.rows));
    let name = match &field.aggregate_name {
        Some(name) => name.clone(),
        None => aggregate_type_name(&field.local_typename),
    };
    let otherwise = cat3("fetch aggregated fields from the table: \"", &field.table_name, "\"");
    FieldDef {
        name,
        ty: TypeRef::named_nn(&aggregate_type_name(&field.local_typename)),
        arguments: list,
        description: description_or(&field.aggregate_description, otherwise),
        shareable: false,
        source: Source::RootNumbers(index),
    }
}

fn build_reading_fields(generated: &GeneratedSchema, names: &NameOverrides) -> (r: Vec<FieldDef>)
    ensures
        field_defs(r@) == reading_fields(*generated, *names, 0, Seq::empty()),
{
    let mut fields = no_field_defs();
    let mut i: usize = 0;
    while i < generated.query_fields.len()
        invariant
            i <= generated.query_fields.len(),
            reading_fields(*generated, *names, 0, Seq::empty()) == reading_fields(
                *generated,
                *names,
                i as nat,
                field_defs(fields@),
            ),
        decreases generated.query_fields.len() - i,
    {
        let field = &generated.query_fields[i];
        if field.rows {
            place_field(&mut fields, build_rows_field(generated, names, field, i));
        }
        if !field.is_by_pk && field.aggregates {
            place_field(&mut fields, build_numbers_field(field, i));
        }
        i += 1;
    }
    fields
}

/// A root type that reads tables. A type may not have no fields, so where
/// nothing may be read one stands for that.
pub open spec fn reading_root(
    generated: GeneratedSchema,
    names: NameOverrides,
    root: Seq<char>,
    empty: FieldDefV,
) -> ObjectDefV {
    let fields = reading_fields(generated, names, 0, Seq::empty());
    ObjectDefV {
        name: root,
        description: None,
        key: None,
        fields: if fields.len() == 0 {
            seq![empty]
        } else {
            fields
        },
    }
}

/// The field that stands for there being nothing to read.
pub open spec fn no_queries() -> FieldDefV {
    FieldDefV {
        description: Some("There are no queries available to the current role."@),
        ..plain_field("no_queries_available"@, optional("String"@), Source::Nothing)
    }
}

/// The field that stands for there being nothing to watch.
pub open spec fn no_subscriptions() -> FieldDefV {
    plain_field("no_subscriptions_available"@, optional("String"@), Source::Nothing)
}

/// Create the query root with a field for each table that may be read, and
/// one for the numbers about it.
pub fn create_query_type(generated: &GeneratedSchema, root_name: &str, names: &NameOverrides) -> (r:
    ObjectDef)
    ensures
        r@ == reading_root(*generated, *names, root_name@, no_queries()),
{
    let mut fields = build_reading_fields(generated, names);
    if fields.len() == 0 {
        let mut field = simple_field(
            "no_queries_available",
            TypeRef::named("String"),
            Source::Nothing,
        );
        field.description = Some(owned("There are no queries available to the current role."));
        push_field_def(&mut fields, field);
        assert(field_defs(fields@) =~= seq![no_queries()]);
    }
    ObjectDef { name: owned(root_name), description: None, key: None, fields }
}

/// Create the subscription root: the query root, answered again on change.
pub fn create_subscription_type(
    generated: &GeneratedSchema,
    root_name: &str,
    names: &NameOverrides,
) -> (r: ObjectDef)
    ensures
        r@ == reading_root(*generated, *names, root_name@, no_subscriptions()),
{
    let mut fields = build_reading_fields(generated, names);
    if fields.len() == 0 {
        push_field_def(
            &mut fields,
            simple_field(
                "no_subscriptions_available",
                TypeRef::named("String"),
                Source::Nothing,
            ),
        );
        assert(field_defs(fields@) =~= seq![no_subscriptions()]);
    }
    ObjectDef { name: owned(root_name), description: None, key: None, fields }
}

// ---------------------------------------------------------------------------
// Functions
// ---------------------------------------------------------------------------

/// The arguments a function's root field begins with.
pub open spec fn function_arguments(function: FunctionField) -> Seq<ArgumentV> {
    if function.arguments@.len() > 0 {
        seq![plain_argument("args"@, required(function.name@ + "_args"@))]
    } else {
        Seq::empty()
    }
}

/// The root field that answers with the rows of a function.
pub open spec fn function_rows_field(function: FunctionField, index: usize) -> FieldDefV {
    let base = function.local_returns@;
    FieldDefV {
        name: function.name@,
        ty: required_list(function.returns@),
        arguments: function_arguments(function) + seq![
            plain_argument("where"@, optional(bool_exp(base))),
            plain_argument("order_by"@, optional_list(order_by(base))),
            plain_argument("distinct_on"@, optional_list(select_column(base))),
            plain_argument("limit"@, optional("Int"@)),
            plain_argument("offset"@, optional("Int"@)),
        ],
        description: text_opt(function.description),
        shareable: false,
        source: Source::FunctionRows(index),
    }
}

/// The root field that answers with numbers about the rows of a function.
pub open spec fn function_numbers_field(function: FunctionField, index: usize) -> FieldDefV {
    FieldDefV {
        name: function.name@ + "_aggregate"@,
        ty: required(aggregate_type(function.local_returns@)),
        arguments: function_arguments(function) + row_arguments_of(function.local_returns@, true),
        description: Some(
            "fetch aggregated fields from the table: \""@ + function.returns_table@ + "\""@,
        ),
        shareable: false,
        source: Source::FunctionAggregate(index),
    }
}

/// Whether a root already has a field of that name from the tables.
pub open spec fn root_taken(generated: GeneratedSchema, volatile: bool, name: Seq<char>) -> bool {
    if volatile {
        exists|i: int|
            0 <= i < generated.mutation_fields@.len()
                && (#[trigger] generated.mutation_fields@[i]).name@ == name
    } else {
        exists|i: int|
            0 <= i < generated.query_fields@.len() && (#[trigger] generated.query_fields@[i]).name@
                == name
    }
}

/// The fields of a root with those of its functions from the `i`th on. A
/// function named after a table's root field is left out.
pub open spec fn with_functions(
    generated: GeneratedSchema,
    volatile: bool,
    i: nat,
    fields: Seq<FieldDefV>,
) -> Seq<FieldDefV>
    decreases generated.function_fields@.len() - i,
{
    if i >= generated.function_fields@.len() {
        fields
    } else {
        let function = generated.function_fields@[i as int];
        with_functions(
            generated,
            volatile,
            i + 1,
            if function.volatile != volatile || root_taken(generated, volatile, function.name@) {
                fields
            } else {
                fields.push(function_rows_field(function, i as usize)).push(
                    function_numbers_field(function, i as usize),
                )
            },
        )
    }
}

fn is_root_taken(generated: &GeneratedSchema, volatile: bool, name: &str) -> (r: bool)
    ensures
        r == root_taken(*generated, volatile, name@),
{
    let mut i: usize = 0;
    if volatile {
        while i < generated.mutation_fields.len()
            invariant
                i <= generated.mutation_fields.len(),
                volatile,
                forall|j: int|
                    0 <= j < i ==> (#[trigger] generated.mutation_fields@[j]).name@ != name@,
            decreases generated.mutation_fields.len() - i,
        {
            if same(&generated.mutation_fields[i].name, name) {
                return true;
            }
            i += 1;
        }
    } else {
        while i < generated.query_fields.len()
            invariant
                i <= generated.query_fields.len(),
                !volatile,
                forall|j: int|
                    0 <= j < i ==> (#[trigger] generated.query_fields@[j]).name@ != name@,
            decreases generated.query_fields.len() - i,
        {
            if same(&generated.query_fields[i].name, name) {
                return true;
            }
            i += 1;
        }
    }
    false
}

fn start_arguments(function: &FunctionField) -> (r: Vec<Argument>)
    ensures
        arguments(r@) == function_arguments(*function),
{
    let mut list = no_arguments();
    if function.arguments.len() > 0 {
        push_argument(
            &mut list,
            Argument::new("args", TypeRef::named_nn(&cat2(&function.name, "_args"))),
        );
    }
    assert(arguments(list@) =~= function_arguments(*function));
    list
}

fn build_function_rows(function: &FunctionField, index: usize) -> (r: FieldDef)
    ensures
        r@ == function_rows_field(*function, index),
{
    let base = &function.local_returns;
    let mut list = start_arguments(function);
    push_argument(&mut list, Argument::new("where", TypeRef::named(&bool_exp_type_name(base))));
    push_argument(
        &mut list,
        Argument::new("order_by", TypeRef::named_nn_list(&order_by_type_name(base))),
    );
    push_argument(
        &mut list,
        Argument::new("distinct_on", TypeRef::named_nn_list(&select_column_type_name(base))),
    );
    push_argument(&mut list, Argument::new("limit", TypeRef::named("Int")));
    push_argument(&mut list, Argument::new("offset", TypeRef::named("Int")));
    assert(arguments(list@) =~= function_rows_field(*function, index).arguments);
    FieldDef {
        name: function.name.clone(),
        ty: TypeRef::named_nn_list_nn(&function.returns),
        arguments: list,
        description: copy_text(&function.description),
        shareable: false,
        source: Source::FunctionRows(index),
    }
}

fn build_function_numbers(function: &FunctionField, index: usize) -> (r: FieldDef)
    ensures
        r@ == function_numbers_field(*function, index),
{
    let mut list = start_arguments(function);
    with_row_arguments(&mut list, &function.local_returns);
    FieldDef {
        name: cat2(&function.name, "_aggregate"),
        ty: TypeRef::named_nn(&aggregate_type_name(&function.local_returns)),
        arguments: list,
        description: Some(
            cat3("fetch aggregated fields from the table: \"", &function.returns_table, "\""),
        ),
        shareable: false,
        source: Source::FunctionAggregate(index),
    }
}

/// Add the root fields for functions that answer with rows of a table.
///
/// They take the arguments a table's own root field takes, and `args`, which
/// is where the function's own go so that one called `limit` cannot shadow the
/// one that pages the result.
pub fn add_function_fields(root: &mut ObjectDef, generated: &GeneratedSchema, volatile: bool)
    ensures
        final(root)@ == (ObjectDefV {
            fields: with_functions(*generated, volatile, 0, old(root)@.fields),
            ..old(root)@
        }),
{
    let mut i: usize = 0;
    while i < generated.function_fields.len()
        invariant
            i <= generated.function_fields.len(),
            root@ == (ObjectDefV { fields: root@.fields, ..old(root)@ }),
            with_functions(*generated, volatile, 0, old(root)@.fields) == with_functions(
                *generated,
                volatile,
                i as nat,
                root@.fields,
            ),
        decreases generated.function_fields.len() - i,
    {
        let function = &generated.function_fields[i];
        if function.volatile == volatile && !is_root_taken(generated, volatile, &function.name) {
            push_field_def(&mut root.fields, build_function_rows(function, i));
            push_field_def(&mut root.fields, build_function_numbers(function, i));
        }
        i += 1;
    }
}

// ---------------------------------------------------------------------------
// Writing
// ---------------------------------------------------------------------------

/// What a document column may be told to do, and the type each is told with.
pub open spec fn document_operators() -> Seq<(Seq<char>, TypeRefV)> {
    seq![
        ("_append"@, optional("jsonb"@)),
        ("_delete_at_path"@, optional_list("String"@)),
        ("_delete_elem"@, optional("Int"@)),
        ("_delete_key"@, optional("String"@)),
        ("_prepend"@, optional("jsonb"@)),
    ]
}

/// The arguments that name the inputs of the document operators.
pub open spec fn operator_arguments(base: Seq<char>) -> Seq<ArgumentV> {
    Seq::new(
        document_operators().len(),
        |i: int|
            plain_argument(
                document_operators()[i].0,
                optional(operator_input(base, document_operators()[i].0)),
            ),
    )
}

/// Adds the arguments that name the inputs of the document operators.
pub fn add_operator_arguments(list: &mut Vec<Argument>, base: &str)
    ensures
        arguments(final(list)@) == arguments(old(list)@) + operator_arguments(base@),
{
    let ghost before = arguments(list@);
    push_operator_argument(list, base, "_append");
    push_operator_argument(list, base, "_delete_at_path");
    push_operator_argument(list, base, "_delete_elem");
    push_operator_argument(list, base, "_delete_key");
    push_operator_argument(list, base, "_prepend");
    assert(arguments(list@) =~= before + operator_arguments(base@));
}

fn push_operator_argument(list: &mut Vec<Argument>, base: &str, operator: &str)
    ensures
        arguments(final(list)@) == arguments(old(list)@).push(
            plain_argument(operator@, optional(operator_input(base@, operator@))),
        ),
{
    push_argument(
        list,
        Argument::new(operator, TypeRef::named(&jsonb_operator_input(base, operator))),
    );
}

/// The operators an update may be written with. A table with no document is
/// not offered the document operators, and one with no number none to add.
pub open spec fn update_arguments(base: Seq<char>, number: bool, document: bool) -> Seq<ArgumentV> {
    let documents = if document {
        operator_arguments(base)
    } else {
        Seq::empty()
    };
    let numbers = if number {
        documents.push(plain_argument("_inc"@, optional(base + "_inc_input"@)))
    } else {
        documents
    };
    numbers.push(plain_argument("_set"@, optional(base + "_set_input"@)))
}

/// Adds the operators an update may be written with. All are optional and at
/// least one is needed, which a schema cannot say.
pub fn with_update_operators(list: &mut Vec<Argument>, base: &str, number: bool, document: bool)
    ensures
        arguments(final(list)@) == arguments(old(list)@) + update_arguments(
            base@,
            number,
            document,
        ),
{
    let ghost before = arguments(list@);
    if document {
        add_operator_arguments(list, base);
    }
    if number {
        push_argument(list, Argument::new("_inc", TypeRef::named(&cat2(base, "_inc_input"))));
    }
    push_argument(list, Argument::new("_set", TypeRef::named(&cat2(base, "_set_input"))));
    assert(arguments(list@) =~= before + update_arguments(base@, number, document));
}

/// Whether a type of that local name can be added to.
pub open spec fn has_number(generated: GeneratedSchema, names: NameOverrides, base: Seq<char>) -> bool {
    exists|i: int|
        0 <= i < generated.object_types@.len() && (
        #[trigger] generated.object_types@[i]).local_name@ == base && any_number(
            update_fields_of(generated.object_types@[i], names),
        )
}

/// Whether a type of that local name has a document.
pub open spec fn has_document(generated: GeneratedSchema, names: NameOverrides, base: Seq<char>) -> bool {
    exists|i: int|
        0 <= i < generated.object_types@.len() && (
        #[trigger] generated.object_types@[i]).local_name@ == base && any_document(
            update_fields_of(generated.object_types@[i], names),
        )
}

/// Whether an insert into a type of that local name can conflict.
pub open spec fn has_conflict(generated: GeneratedSchema, base: Seq<char>) -> bool {
    exists|i: int|
        0 <= i < generated.object_types@.len() && (
        #[trigger] generated.object_types@[i]).local_name@ == base
            && generated.object_types@[i].table.unique_constraints@.len() > 0
}

fn updates_with(generated: &GeneratedSchema, names: &NameOverrides, base: &str) -> (r: (bool, bool))
    ensures
        r == (has_number(*generated, *names, base@), has_document(*generated, *names, base@)),
{
    let mut number = false;
    let mut document = false;
    let mut i: usize = 0;
    while i < generated.object_types.len()
        invariant
            i <= generated.object_types.len(),
            number == (exists|j: int|
                0 <= j < i && (#[trigger] generated.object_types@[j]).local_name@ == base@
                    && any_number(update_fields_of(generated.object_types@[j], *names))),
            document == (exists|j: int|
                0 <= j < i && (#[trigger] generated.object_types@[j]).local_name@ == base@
                    && any_document(update_fields_of(generated.object_types@[j], *names))),
        decreases generated.object_types.len() - i,
    {
        if same(&generated.object_types[i].local_name, base) {
            let (has_number, has_document) = update_inputs(&generated.object_types[i], names);
            if has_number {
                number = true;
            }
            if has_document {
                document = true;
            }
        }
        i += 1;
    }
    (number, document)
}

fn can_conflict(generated: &GeneratedSchema, base: &str) -> (r: bool)
    ensures
        r == has_conflict(*generated, base@),
{
    let mut i: usize = 0;
    while i < generated.object_types.len()
        invariant
            i <= generated.object_types.len(),
            forall|j: int|
                0 <= j < i ==> !((#[trigger] generated.object_types@[j]).local_name@ == base@
                    && generated.object_types@[j].table.unique_constraints@.len() > 0),
        decreases generated.object_types.len() - i,
    {
        if same(&generated.object_types[i].local_name, base)
            && generated.object_types[i].table.unique_constraints.len() > 0 {
            assert(generated.object_types@[i as int].local_name@ == base@);
            return true;
        }
        i += 1;
    }
    false
}

/// The arguments of a mutation field. A by-key one takes the key rather than
/// a predicate; any other that changes rows requires the predicate.
pub open spec fn mutation_arguments(
    generated: GeneratedSchema,
    names: NameOverrides,
    field: MutationField,
) -> Seq<ArgumentV> {
    let base = field.local_typename@;
    let operators = update_arguments(
        base,
        has_number(generated, names, base),
        has_document(generated, names, base),
    );
    let predicate = plain_argument("where"@, required(bool_exp(base)));
    match field.mutation_type {
        MutationType::Insert | MutationType::InsertOne => {
            let rows = if field.mutation_type is Insert {
                seq![plain_argument("objects"@, required_list(base + "_insert_input"@))]
            } else {
                seq![plain_argument("object"@, required(base + "_insert_input"@))]
            };
            if has_conflict(generated, base) {
                rows.push(plain_argument("on_conflict"@, optional(base + "_on_conflict"@)))
            } else {
                rows
            }
        },
        MutationType::UpdateByPk => seq![
            plain_argument("pk_columns"@, required(base + "_pk_columns_input"@)),
        ] + operators,
        MutationType::Update => seq![predicate] + operators,
        MutationType::UpdateMany => seq![
            plain_argument("updates"@, required_list(base + "_updates"@)),
        ],
        MutationType::DeleteByPk => key_arguments_from(
            names,
            generated.pg_types@,
            field.schema_name@,
            field.table_name@,
            field.pk_columns@,
            0,
            Seq::empty(),
        ),
        MutationType::Delete => seq![predicate],
    }
}

fn build_mutation_arguments(
    generated: &GeneratedSchema,
    names: &NameOverrides,
    field: &MutationField,
) -> (r: Vec<Argument>)
    ensures
        arguments(r@) == mutation_arguments(*generated, *names, *field),
{
    let base = &field.local_typename;
    let mut list = no_arguments();
    match field.mutation_type {
        MutationType::Insert | MutationType::InsertOne => {
            let input = cat2(base, "_insert_input");
            if matches!(field.mutation_type, MutationType::Insert) {
                push_argument(
                    &mut list,
                    Argument::new("objects", TypeRef::named_nn_list_nn(&input)),
                );
            } else {
                push_argument(&mut list, Argument::new("object", TypeRef::named_nn(&input)));
            }
            if can_conflict(generated, base) {
                push_argument(
                    &mut list,
                    Argument::new("on_conflict", TypeRef::named(&cat2(base, "_on_conflict"))),
                );
            }
        },
        MutationType::UpdateByPk => {
            push_argument(
                &mut list,
                Argument::new("pk_columns", TypeRef::named_nn(&cat2(base, "_pk_columns_input"))),
            );
            let (number, document) = updates_with(generated, names, base);
            with_update_operators(&mut list, base, number, document);
        },
        MutationType::Update => {
            push_argument(
                &mut list,
                Argument::new("where", TypeRef::named_nn(&bool_exp_type_name(base))),
            );
            let (number, document) = updates_with(generated, names, base);
            with_update_operators(&mut list, base, number, document);
        },
        MutationType::UpdateMany => {
            push_argument(
                &mut list,
                Argument::new("updates", TypeRef::named_nn_list_nn(&cat2(base, "_updates"))),
            );
        },
        MutationType::DeleteByPk => {
            return key_arguments(
                names,
                &generated.pg_types,
                &field.schema_name,
                &field.table_name,
                &field.pk_columns,
            );
        },
        MutationType::Delete => {
            push_argument(
                &mut list,
                Argument::new("where", TypeRef::named_nn(&bool_exp_type_name(base))),
            );
        },
    }
    assert(arguments(list@) =~= mutation_arguments(*generated, *names, *field));
    list
}

/// The root field of the `i`th mutation.
pub open spec fn writing_field(generated: GeneratedSchema, names: NameOverrides, i: nat) -> FieldDefV {
    let field = generated.mutation_fields@[i as int];
    FieldDefV {
        name: field.name@,
        ty: read_type(field.return_type@),
        arguments: mutation_arguments(generated, names, field),
        description: text_opt(field.description),
        shareable: false,
        source: Source::RootMutation(i as usize),
    }
}

/// The fields that write tables from the `i`th on, in name order.
pub open spec fn writing_fields(
    generated: GeneratedSchema,
    names: NameOverrides,
    i: nat,
    fields: Seq<FieldDefV>,
) -> Seq<FieldDefV>
    decreases generated.mutation_fields@.len() - i,
{
    if i >= generated.mutation_fields@.len() {
        fields
    } else {
        writing_fields(
            generated,
            names,
            i + 1,
            placed_field(fields, writing_field(generated, names, i)),
        )
    }
}

/// The mutation root.
pub open spec fn writing_root(
    generated: GeneratedSchema,
    names: NameOverrides,
    root: Seq<char>,
) -> ObjectDefV {
    ObjectDefV {
        name: root,
        description: None,
        key: None,
        fields: writing_fields(generated, names, 0, Seq::empty()),
    }
}

/// Create the mutation root with all mutation fields, in name order.
pub fn create_mutation_type(generated: &GeneratedSchema, root_name: &str, names: &NameOverrides) -> (r:
    ObjectDef)
    ensures
        r@ == writing_root(*generated, *names, root_name@),
{
    let mut fields = no_field_defs();
    let mut i: usize = 0;
    while i < generated.mutation_fields.len()
        invariant
            i <= generated.mutation_fields.len(),
            writing_fields(*generated, *names, 0, Seq::empty()) == writing_fields(
                *generated,
                *names,
                i as nat,
                field_defs(fields@),
            ),
        decreases generated.mutation_fields.len() - i,
    {
        let field = &generated.mutation_fields[i];
        let built = FieldDef {
            name: field.name.clone(),
            ty: graphql_type_ref(&field.return_type),
            arguments: build_mutation_arguments(generated, names, field),
            description: copy_text(&field.description),
            shareable: false,
            source: Source::RootMutation(i),
        };
        place_field(&mut fields, built);
        i += 1;
    }
    ObjectDef { name: owned(root_name), description: None, key: None, fields }
}

} // verus!

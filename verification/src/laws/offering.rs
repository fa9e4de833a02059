//! What may be asked for, and with what.

use crate::catalog::{field_for, FunctionArgument, NameOverrides, RelationshipField};
use crate::generated::{
    key_arguments_from, leaf_text, update_fields_of, written_type, EnumType, FunctionField,
    GeneratedSchema, GraphQLField, MutationField, PgType, QueryField, TableObjectType,
};
use crate::inputs::{
    document_columns, document_input, inc_input, insert_input, key_input, nested_input,
    number_columns, set_input, updates_input, with_nested, written_columns,
};
use crate::laws::shaping::{always, many, maybe, maybe_many, takes};
use crate::object_types::row_arguments_of;
use crate::roots::{
    document_operators, function_numbers_field, function_rows_field, has_conflict, has_document,
    has_number, mutation_arguments, no_queries, no_subscriptions, numbers_field, operator_arguments,
    rows_field, update_arguments, writing_field,
};
use crate::schema::{
    argument_fields, constraint_enum, function_input, is_builtin, on_conflict_input, predicate_enum,
    predicate_input, predicate_inputs, row_function_input, set_predicate, table_enum,
    update_column_enum,
};
use crate::schema_def::{read_type, ArgumentV, EnumItemV, InputDefV, Source, TypeRefV};
use crate::text::{joined, text_opt, texts};
use vstd::prelude::*;

verus! {

// ---------------------------------------------------------------------------
// Reading
// ---------------------------------------------------------------------------

/// Rows are read by a field of its own name and type, which takes the key where
/// it reads one row and what a list takes otherwise.
pub proof fn law_rows_are_read_by_a_field(
    generated: GeneratedSchema,
    names: NameOverrides,
    field: QueryField,
    index: usize,
)
    ensures
        ({
            let r = rows_field(generated, names, field, index);
            &&& r.name == field.name@
            &&& r.ty == read_type(field.return_type@)
            &&& r.description == text_opt(field.description)
            &&& r.source == Source::RootRows(index)
            &&& !r.shareable
            &&& !field.is_by_pk ==> r.arguments == row_arguments_of(field.local_typename@, true)
            &&& field.is_by_pk ==> r.arguments == key_arguments_from(
                names,
                generated.pg_types@,
                field.schema_name@,
                field.table_name@,
                field.pk_columns@,
                0,
                Seq::empty(),
            )
        }),
{
}

/// The type of an argument for a key column: the one that was chosen for it, or
/// the one it is shown by.
pub open spec fn key_argument(
    names: NameOverrides,
    types: Seq<PgType>,
    schema: Seq<char>,
    table: Seq<char>,
    column: (String, String),
) -> ArgumentV {
    takes(
        field_for(names, schema, table, column.0@),
        always(
            match names.chosen_type(schema, table, column.0@) {
                Some(given) => given,
                None => crate::generated::key_type(types, column.1@),
            },
        ),
    )
}

proof fn lemma_key_arguments(
    names: NameOverrides,
    types: Seq<PgType>,
    schema: Seq<char>,
    table: Seq<char>,
    columns: Seq<(String, String)>,
    i: nat,
    found: Seq<ArgumentV>,
)
    requires
        i <= columns.len(),
        found == Seq::new(i, |k: int| key_argument(names, types, schema, table, columns[k])),
    ensures
        key_arguments_from(names, types, schema, table, columns, i, found) == Seq::new(
            columns.len(),
            |k: int| key_argument(names, types, schema, table, columns[k]),
        ),
    decreases columns.len() - i,
{
    if i < columns.len() {
        let more = found.push(key_argument(names, types, schema, table, columns[i as int]));
        assert(more =~= Seq::new(
            i + 1,
            |k: int| key_argument(names, types, schema, table, columns[k]),
        ));
        lemma_key_arguments(names, types, schema, table, columns, i + 1, more);
    }
}

/// A key is given whole: an argument for each of its columns, by the name it is
/// shown by, none of which may be missing.
pub proof fn law_keys_are_given_whole(
    names: NameOverrides,
    types: Seq<PgType>,
    schema: Seq<char>,
    table: Seq<char>,
    columns: Seq<(String, String)>,
)
    ensures
        key_arguments_from(names, types, schema, table, columns, 0, Seq::empty()) == Seq::new(
            columns.len(),
            |k: int| key_argument(names, types, schema, table, columns[k]),
        ),
{
    let none = Seq::<ArgumentV>::empty();
    assert(none =~= Seq::new(0, |k: int| key_argument(names, types, schema, table, columns[k])));
    lemma_key_arguments(names, types, schema, table, columns, 0, none);
}

/// Numbers are read by a field named after the rows, or as was asked.
pub proof fn law_numbers_are_read_by_a_field(field: QueryField, index: usize)
    ensures
        ({
            let r = numbers_field(field, index);
            &&& r.name == (match field.aggregate_name {
                Some(name) => name@,
                None => field.local_typename@ + "_aggregate"@,
            })
            &&& r.ty == always(field.local_typename@ + "_aggregate"@)
            &&& r.arguments == row_arguments_of(field.local_typename@, field.rows)
            &&& r.source == Source::RootNumbers(index)
            &&& field.aggregate_description is None ==> r.description == Some(
                "fetch aggregated fields from the table: \""@ + field.table_name@ + "\""@,
            )
            &&& field.aggregate_description is Some && field.aggregate_description->0@.len() > 0
                ==> r.description == Some(field.aggregate_description->0@)
        }),
{
}

/// Where nothing may be read there is one field that says so.
pub proof fn law_nothing_to_read_is_said()
    ensures
        no_queries().name == "no_queries_available"@,
        no_queries().ty == maybe("String"@),
        no_queries().description == Some("There are no queries available to the current role."@),
        no_queries().source is Nothing,
        no_queries().arguments.len() == 0,
        no_subscriptions().name == "no_subscriptions_available"@,
        no_subscriptions().ty == maybe("String"@),
        no_subscriptions().source is Nothing,
        no_subscriptions().arguments.len() == 0,
{
}

/// A function that answers with rows is read by two fields: its rows, and the
/// numbers of them. Both take its arguments where it has any.
pub proof fn law_functions_are_read_by_fields(function: FunctionField, index: usize)
    ensures
        ({
            let base = function.local_returns@;
            let args = if function.arguments@.len() > 0 {
                seq![takes("args"@, always(function.name@ + "_args"@))]
            } else {
                Seq::empty()
            };
            let rows = function_rows_field(function, index);
            let numbers = function_numbers_field(function, index);
            &&& rows.name == function.name@
            &&& rows.ty == many(function.returns@)
            &&& rows.source == Source::FunctionRows(index)
            &&& rows.description == text_opt(function.description)
            &&& rows.arguments == args + seq![
                takes("where"@, maybe(base + "_bool_exp"@)),
                takes("order_by"@, maybe_many(base + "_order_by"@)),
                takes("distinct_on"@, maybe_many(base + "_select_column"@)),
                takes("limit"@, maybe("Int"@)),
                takes("offset"@, maybe("Int"@)),
            ]
            &&& numbers.name == function.name@ + "_aggregate"@
            &&& numbers.ty == always(base + "_aggregate"@)
            &&& numbers.source == Source::FunctionAggregate(index)
            &&& numbers.description == Some(
                "fetch aggregated fields from the table: \""@ + function.returns_table@ + "\""@,
            )
            &&& numbers.arguments == args + row_arguments_of(base, true)
        }),
{
}

// ---------------------------------------------------------------------------
// Writing
// ---------------------------------------------------------------------------

/// The operators on documents, and what each takes for a column.
pub proof fn law_documents_have_operators()
    ensures
        document_operators() == seq![
            ("_append"@, maybe("jsonb"@)),
            ("_delete_at_path"@, maybe_many("String"@)),
            ("_delete_elem"@, maybe("Int"@)),
            ("_delete_key"@, maybe("String"@)),
            ("_prepend"@, maybe("jsonb"@)),
        ],
{
}

/// Each operator is an argument of its own name that takes its own input.
pub proof fn law_operators_are_arguments(base: Seq<char>)
    ensures
        operator_arguments(base) == seq![
            takes("_append"@, maybe(base + "_append"@ + "_input"@)),
            takes("_delete_at_path"@, maybe(base + "_delete_at_path"@ + "_input"@)),
            takes("_delete_elem"@, maybe(base + "_delete_elem"@ + "_input"@)),
            takes("_delete_key"@, maybe(base + "_delete_key"@ + "_input"@)),
            takes("_prepend"@, maybe(base + "_prepend"@ + "_input"@)),
        ],
{
    assert(operator_arguments(base) =~= seq![
        takes("_append"@, maybe(base + "_append"@ + "_input"@)),
        takes("_delete_at_path"@, maybe(base + "_delete_at_path"@ + "_input"@)),
        takes("_delete_elem"@, maybe(base + "_delete_elem"@ + "_input"@)),
        takes("_delete_key"@, maybe(base + "_delete_key"@ + "_input"@)),
        takes("_prepend"@, maybe(base + "_prepend"@ + "_input"@)),
    ]);
}

/// An update takes the operators that apply to the table's columns.
pub proof fn law_updates_take_operators(base: Seq<char>, number: bool, document: bool)
    ensures
        update_arguments(base, number, document) == (if document {
            operator_arguments(base)
        } else {
            Seq::empty()
        }) + (if number {
            seq![takes("_inc"@, maybe(base + "_inc_input"@))]
        } else {
            Seq::empty()
        }) + seq![takes("_set"@, maybe(base + "_set_input"@))],
{
    let documents = if document {
        operator_arguments(base)
    } else {
        Seq::empty()
    };
    let inc = takes("_inc"@, maybe(base + "_inc_input"@));
    let set = takes("_set"@, maybe(base + "_set_input"@));
    let numbers = documents + (if number {
        seq![inc]
    } else {
        Seq::empty()
    });
    if number {
        assert(documents.push(inc) =~= numbers);
    } else {
        assert(documents =~= numbers);
    }
    assert(numbers.push(set) =~= numbers + seq![set]);
}

/// What each kind of mutation takes: the rows to insert and what to do about
/// conflicts, which rows to change and how, or which to delete.
pub proof fn law_mutations_take_arguments(
    generated: GeneratedSchema,
    names: NameOverrides,
    field: MutationField,
)
    ensures
        ({
            let base = field.local_typename@;
            let r = mutation_arguments(generated, names, field);
            let operators = update_arguments(
                base,
                has_number(generated, names, base),
                has_document(generated, names, base),
            );
            let conflict = if has_conflict(generated, base) {
                seq![takes("on_conflict"@, maybe(base + "_on_conflict"@))]
            } else {
                Seq::empty()
            };
            &&& field.mutation_type is Insert ==> r == seq![
                takes("objects"@, many(base + "_insert_input"@)),
            ] + conflict
            &&& field.mutation_type is InsertOne ==> r == seq![
                takes("object"@, always(base + "_insert_input"@)),
            ] + conflict
            &&& field.mutation_type is Update ==> r == seq![
                takes("where"@, always(base + "_bool_exp"@)),
            ] + operators
            &&& field.mutation_type is UpdateByPk ==> r == seq![
                takes("pk_columns"@, always(base + "_pk_columns_input"@)),
            ] + operators
            &&& field.mutation_type is UpdateMany ==> r == seq![
                takes("updates"@, many(base + "_updates"@)),
            ]
            &&& field.mutation_type is Delete ==> r == seq![
                takes("where"@, always(base + "_bool_exp"@)),
            ]
            &&& field.mutation_type is DeleteByPk ==> r == key_arguments_from(
                names,
                generated.pg_types@,
                field.schema_name@,
                field.table_name@,
                field.pk_columns@,
                0,
                Seq::empty(),
            )
        }),
{
    let base = field.local_typename@;
    let r = mutation_arguments(generated, names, field);
    let conflict = takes("on_conflict"@, maybe(base + "_on_conflict"@));
    if field.mutation_type is Insert {
        let rows = seq![takes("objects"@, many(base + "_insert_input"@))];
        assert(rows.push(conflict) =~= rows + seq![conflict]);
        assert(rows + Seq::<ArgumentV>::empty() =~= rows);
    }
    if field.mutation_type is InsertOne {
        let rows = seq![takes("object"@, always(base + "_insert_input"@))];
        assert(rows.push(conflict) =~= rows + seq![conflict]);
        assert(rows + Seq::<ArgumentV>::empty() =~= rows);
    }
}

/// A mutation is a field of its own name and type.
pub proof fn law_mutations_are_fields(generated: GeneratedSchema, names: NameOverrides, i: nat)
    requires
        i < generated.mutation_fields@.len(),
    ensures
        ({
            let r = writing_field(generated, names, i);
            let field = generated.mutation_fields@[i as int];
            &&& r.name == field.name@
            &&& r.ty == read_type(field.return_type@)
            &&& r.arguments == mutation_arguments(generated, names, field)
            &&& r.description == text_opt(field.description)
            &&& r.source == Source::RootMutation(i as usize)
        }),
{
}

// ---------------------------------------------------------------------------
// Inputs
// ---------------------------------------------------------------------------

/// Each column that may be written is offered by its own name, in its own type,
/// and may be left out.
pub proof fn law_columns_are_offered(fields: Seq<GraphQLField>, i: int)
    requires
        0 <= i < fields.len(),
    ensures
        written_columns(fields).len() == fields.len(),
        written_columns(fields)[i] == takes(fields[i].name@, written_type(fields[i].graphql_type)),
{
}

/// The inputs for a table's rows, each by its own name: a new row, the columns to
/// replace, those to add to, a list of updates, and a key.
pub proof fn law_inputs_have_names(
    generated: GeneratedSchema,
    names: NameOverrides,
    object: TableObjectType,
    relationships: Seq<RelationshipField>,
    fields: Seq<GraphQLField>,
    operator: Seq<char>,
    ty: TypeRefV,
    field: MutationField,
)
    ensures
        ({
            let base = object.local_name@;
            &&& insert_input(generated, names, object, relationships).name == base
                + "_insert_input"@
            &&& insert_input(generated, names, object, relationships).description
                == "The columns of a new "@ + base + " row."@
            &&& set_input(object, fields).name == base + "_set_input"@
            &&& set_input(object, fields).description == "Columns of "@ + base + " to replace."@
            &&& set_input(object, fields).fields == written_columns(fields)
            &&& inc_input(object, fields).name == base + "_inc_input"@
            &&& inc_input(object, fields).description == "Columns of "@ + base + " to add to."@
            &&& document_input(object, fields, operator, ty).name == base + operator + "_input"@
            &&& document_input(object, fields, operator, ty).description == "Columns of "@ + base
                + " to apply `"@ + operator + "` to."@
            &&& key_input(generated, names, field).name == field.local_typename@
                + "_pk_columns_input"@
            &&& key_input(generated, names, field).description == "The primary key of one "@
                + field.local_typename@ + " row."@
            &&& key_input(generated, names, field).fields == key_arguments_from(
                names,
                generated.pg_types@,
                field.schema_name@,
                field.table_name@,
                field.pk_columns@,
                0,
                Seq::empty(),
            )
        }),
{
}

/// Rows beside their parent are given as data, one or many of them, with what to
/// do about conflicts where there may be any.
pub proof fn law_nested_rows_are_data(object: TableObjectType)
    ensures
        ({
            let base = object.local_name@;
            let conflict = if object.table.unique_constraints@.len() > 0 {
                seq![takes("on_conflict"@, maybe(base + "_on_conflict"@))]
            } else {
                Seq::empty()
            };
            &&& nested_input(object, true) == (InputDefV {
                name: base + "_arr_rel_insert_input"@,
                description: base + " rows written beside their parent."@,
                fields: seq![takes("data"@, many(base + "_insert_input"@))] + conflict,
            })
            &&& nested_input(object, false) == (InputDefV {
                name: base + "_obj_rel_insert_input"@,
                description: "One "@ + base + " row written beside its parent."@,
                fields: seq![takes("data"@, always(base + "_insert_input"@))] + conflict,
            })
        }),
{
    let base = object.local_name@;
    let conflict = takes("on_conflict"@, maybe(base + "_on_conflict"@));
    let rows = seq![takes("data"@, many(base + "_insert_input"@))];
    let row = seq![takes("data"@, always(base + "_insert_input"@))];
    assert(rows.push(conflict) =~= rows + seq![conflict]);
    assert(row.push(conflict) =~= row + seq![conflict]);
    assert(rows + Seq::<ArgumentV>::empty() =~= rows);
    assert(row + Seq::<ArgumentV>::empty() =~= row);
}

/// A relationship whose rows may be inserted is offered beside the columns, many
/// of them as a list; one whose name a column has is not.
pub proof fn law_related_rows_are_offered(
    generated: GeneratedSchema,
    rel: RelationshipField,
    taken: Seq<Seq<char>>,
    list: Seq<ArgumentV>,
)
    ensures
        ({
            let offered = crate::inputs::type_insertable(generated, rel.target_type@)
                && !crate::text::has_text(taken, rel.name@);
            with_nested(generated, seq![rel], 0, taken, list) == (if offered {
                list.push(
                    takes(
                        rel.name@,
                        maybe(
                            rel.target_local_name@ + "_"@ + (if rel.is_list {
                                "arr_rel_insert_input"@
                            } else {
                                "obj_rel_insert_input"@
                            }),
                        ),
                    ),
                )
            } else {
                list
            })
        }),
{
    let one = seq![rel];
    assert(one[0] == rel);
    assert(with_nested(generated, one, 1, taken, list) == list);
    let more = list.push(
        takes(
            rel.name@,
            maybe(
                rel.target_local_name@ + "_"@ + (if rel.is_list {
                    "arr_rel_insert_input"@
                } else {
                    "obj_rel_insert_input"@
                }),
            ),
        ),
    );
    assert(with_nested(generated, one, 1, taken.push(rel.name@), more) == more);
}

/// A column is added to where it holds numbers, in its own type, and a document
/// is changed where it holds one.
pub proof fn law_operators_apply_to_their_columns(
    field: GraphQLField,
    ty: TypeRefV,
    list: Seq<ArgumentV>,
)
    ensures
        number_columns(seq![field], 0, list) == (if field.incrementable {
            list.push(takes(field.name@, maybe(leaf_text(field.graphql_type))))
        } else {
            list
        }),
        document_columns(seq![field], 0, ty, list) == (if field.graphql_type is Json {
            list.push(takes(field.name@, ty))
        } else {
            list
        }),
{
    let one = seq![field];
    assert(one[0] == field);
    let number = list.push(takes(field.name@, maybe(leaf_text(field.graphql_type))));
    let document = list.push(takes(field.name@, ty));
    assert(number_columns(one, 1, list) == list);
    assert(number_columns(one, 1, number) == number);
    assert(document_columns(one, 1, ty, list) == list);
    assert(document_columns(one, 1, ty, document) == document);
}

/// One of a list of updates says which rows it is of and what it writes.
pub proof fn law_an_update_says_which_and_what(
    object: TableObjectType,
    number: bool,
    document: bool,
)
    ensures
        ({
            let base = object.local_name@;
            updates_input(object, number, document) == (InputDefV {
                name: base + "_updates"@,
                description: "One update to "@ + base + ": which rows, and what to write."@,
                fields: seq![
                    takes("where"@, always(base + "_bool_exp"@)),
                    takes("_set"@, maybe(base + "_set_input"@)),
                ] + (if number {
                    seq![takes("_inc"@, maybe(base + "_inc_input"@))]
                } else {
                    Seq::empty()
                }) + (if document {
                    operator_arguments(base)
                } else {
                    Seq::empty()
                }),
            })
        }),
{
    let base = object.local_name@;
    let first = seq![
        takes("where"@, always(base + "_bool_exp"@)),
        takes("_set"@, maybe(base + "_set_input"@)),
    ];
    let inc = takes("_inc"@, maybe(base + "_inc_input"@));
    let none = Seq::<ArgumentV>::empty();
    let numbers = if number {
        first + seq![inc]
    } else {
        first + none
    };
    assert(first.push(inc) =~= first + seq![inc]);
    assert(first + none =~= first);
    assert(numbers + none =~= numbers);
}

/// A function's arguments are offered by their own names, in their own types.
pub proof fn law_arguments_are_offered(
    function: FunctionField,
    base: Seq<char>,
    field: Seq<char>,
    list: Seq<FunctionArgument>,
    types: Seq<PgType>,
    i: int,
)
    requires
        0 <= i < list.len(),
    ensures
        function_input(function, types).name == function.name@ + "_args"@,
        function_input(function, types).description == "Arguments to "@ + function.name@ + "."@,
        function_input(function, types).fields == argument_fields(function.arguments@, types),
        row_function_input(base, field, list, types).name == base + "_"@ + field + "_args"@,
        row_function_input(base, field, list, types).description == "Arguments to "@ + field
            + ", beside the row it is asked of."@,
        row_function_input(base, field, list, types).fields == argument_fields(list, types),
        argument_fields(list, types).len() == list.len(),
        argument_fields(list, types)[i] == takes(
            list[i].name@,
            maybe(
                match crate::lookup::named(types, list[i].pg_type@) {
                    Some(found) => crate::generated::type_text(found.graphql),
                    None => list[i].pg_type@,
                },
            ),
        ),
{
}

// ---------------------------------------------------------------------------
// Questions about related rows
// ---------------------------------------------------------------------------

/// What may be asked about related rows taken together: how many there are, and
/// where some columns are truths whether all or any of them are true.
pub proof fn law_related_rows_may_be_asked_about(target: Seq<char>)
    ensures
        set_predicate(target, false) == (InputDefV {
            name: target + "_aggregate_bool_exp"@,
            description: "A question about the whole set of related "@ + target + " rows."@,
            fields: seq![takes("count"@, maybe(target + "_aggregate_bool_exp_"@ + "count"@))],
        }),
        set_predicate(target, true) == (InputDefV {
            name: target + "_aggregate_bool_exp"@,
            description: "A question about the whole set of related "@ + target + " rows."@,
            fields: seq![
                takes("bool_and"@, maybe(target + "_aggregate_bool_exp_"@ + "bool_and"@)),
                takes("bool_or"@, maybe(target + "_aggregate_bool_exp_"@ + "bool_or"@)),
                takes("count"@, maybe(target + "_aggregate_bool_exp_"@ + "count"@)),
            ],
        }),
{
}

/// What such a question takes: which columns it is about, whether each value
/// counts once, which rows it is about, and what the answer has to be.
pub proof fn law_questions_take_their_parts(target: Seq<char>, function: Seq<char>)
    ensures
        predicate_input(target, function, true) == (InputDefV {
            name: target + "_aggregate_bool_exp_"@ + function,
            description: "How many related "@ + target + " rows there have to be."@,
            fields: seq![
                takes("arguments"@, maybe_many(target + "_select_column"@)),
                takes("distinct"@, maybe("Boolean"@)),
                takes("filter"@, maybe(target + "_bool_exp"@)),
                takes("predicate"@, always("Int_comparison_exp"@)),
            ],
        }),
        predicate_input(target, function, false) == (InputDefV {
            name: target + "_aggregate_bool_exp_"@ + function,
            description: "`"@ + function + "` over the related "@ + target
                + " rows, and what it has to be."@,
            fields: seq![
                takes(
                    "arguments"@,
                    always(
                        target + "_select_column_"@ + target + "_aggregate_bool_exp_"@ + function
                            + "_arguments_columns"@,
                    ),
                ),
                takes("distinct"@, maybe("Boolean"@)),
                takes("filter"@, maybe(target + "_bool_exp"@)),
                takes("predicate"@, always("Boolean_comparison_exp"@)),
            ],
        }),
        predicate_inputs(target, true) == seq![
            predicate_input(target, "bool_and"@, false),
            predicate_input(target, "bool_or"@, false),
            predicate_input(target, "count"@, true),
            set_predicate(target, true),
        ],
        predicate_inputs(target, false) == seq![
            predicate_input(target, "count"@, true),
            set_predicate(target, false),
        ],
{
}

/// The columns of truths that may be folded are offered by name.
pub proof fn law_columns_of_truths_are_offered(
    target: Seq<char>,
    function: Seq<char>,
    columns: Seq<Seq<char>>,
    i: int,
)
    requires
        0 <= i < columns.len(),
    ensures
        predicate_enum(target, function, columns).name == target + "_select_column_"@ + target
            + "_aggregate_bool_exp_"@ + function + "_arguments_columns"@,
        predicate_enum(target, function, columns).description == "A boolean column of "@ + target
            + "."@,
        predicate_enum(target, function, columns).items.len() == columns.len(),
        predicate_enum(target, function, columns).items[i] == (EnumItemV {
            name: columns[i],
            description: None,
        }),
{
}

// ---------------------------------------------------------------------------
// Conflicts and scalars
// ---------------------------------------------------------------------------

/// What a conflict is resolved by: the constraint, the columns to update, of
/// which there are none unless some are given, and which rows.
pub proof fn law_conflicts_take_their_parts(object: TableObjectType)
    ensures
        on_conflict_input(object) == (InputDefV {
            name: object.local_name@ + "_on_conflict"@,
            description: "What to do when an insert into "@ + object.local_name@ + " conflicts."@,
            fields: seq![
                takes("constraint"@, always(object.local_name@ + "_constraint"@)),
                ArgumentV {
                    name: "update_columns"@,
                    ty: many(object.local_name@ + "_update_column"@),
                    description: None,
                    empty_default: true,
                },
                takes("where"@, maybe(object.local_name@ + "_bool_exp"@)),
            ],
        }),
{
}

/// Each uniqueness of a table is offered by its name and says which columns it is
/// of.
pub proof fn law_constraints_are_offered(object: TableObjectType, i: int)
    requires
        0 <= i < object.table.unique_constraints@.len(),
    ensures
        constraint_enum(object).name == object.local_name@ + "_constraint"@,
        constraint_enum(object).description == "A uniqueness of "@ + object.local_name@
            + " that an insert may conflict with."@,
        constraint_enum(object).items.len() == object.table.unique_constraints@.len(),
        constraint_enum(object).items[i] == (EnumItemV {
            name: object.table.unique_constraints@[i].name@,
            description: Some(
                "unique ("@ + joined(
                    texts(object.table.unique_constraints@[i].columns@),
                    ", "@,
                ) + ")"@,
            ),
        }),
{
}

/// The columns that an upsert may write are offered by name; where there are none
/// there is one word that says so.
pub proof fn law_updatable_columns_are_offered(object: TableObjectType, names: NameOverrides)
    ensures
        ({
            let fields = update_fields_of(object, names);
            let r = update_column_enum(object, names);
            &&& r.name == object.local_name@ + "_update_column"@
            &&& r.description == "A column of "@ + object.local_name@ + " an upsert may write."@
            &&& fields.len() == 0 ==> r.items == seq![
                EnumItemV {
                    name: "_PLACEHOLDER"@,
                    description: Some("No column may be written by this upsert."@),
                },
            ]
            &&& fields.len() > 0 ==> r.items.len() == fields.len() && forall|i: int|
                0 <= i < fields.len() ==> #[trigger] r.items[i] == (EnumItemV {
                    name: fields[i].name@,
                    description: None,
                })
        }),
{
}

/// A table of words offers each of them with what is said of it.
pub proof fn law_words_are_offered(t: EnumType, i: int)
    requires
        0 <= i < t.members@.len(),
    ensures
        table_enum(t).name == t.name@,
        table_enum(t).description == "The values "@ + t.name@ + " allows."@,
        table_enum(t).items.len() == t.members@.len(),
        table_enum(t).items[i] == (EnumItemV {
            name: t.members@[i].0@,
            description: text_opt(t.members@[i].1),
        }),
{
}

/// The scalars that need no declaration are those of the language.
pub proof fn law_some_scalars_are_built_in(name: Seq<char>)
    ensures
        is_builtin(name) == (name == "Int"@ || name == "Float"@ || name == "String"@ || name
            == "Boolean"@ || name == "ID"@),
{
}

} // verus!

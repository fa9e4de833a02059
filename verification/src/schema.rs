//! A whole schema, from what one role may see.

use crate::catalog::{FunctionArgument, NameOverrides, RelationshipField, UniqueConstraint};
use crate::generated::{
    args_type, bare_type, bare_type_text, bool_exp, bool_exp_type_name, computed_args_type_name,
    derefs, leaf_scalar_name, leaf_text, pg_leaf, pg_leaf_text, pg_text, pg_type_text,
    select_column, select_column_type_name, update_fields, update_fields_of, EnumType,
    FunctionField, GeneratedSchema, GraphQLField, GraphQLType, PgType, TableObjectType,
};
use crate::inputs::{
    add_key_inputs, add_write_inputs, relationships_in, with_key_inputs, with_write_inputs,
};
use crate::lookup::{find_named, named};
use crate::object_types::{
    aggregate_types_of, copy_text, create_aggregate_types, create_mutation_response_type,
    create_object_type, response_of, row_type,
};
use crate::projection::{place_name, placed_in};
use crate::roots::{
    add_function_fields, create_mutation_type, create_query_type, create_subscription_type,
    no_queries, no_subscriptions, reading_root, with_functions, writing_root,
};
use crate::schema_def::{
    arguments, enum_defs, enum_items, input_defs, no_arguments, no_enum_defs, no_enum_items,
    no_input_defs, no_object_defs, object_defs, optional, optional_list, plain_argument,
    push_argument, push_enum_def, push_enum_item, push_input_def, push_object_def, required,
    required_list, Argument, ArgumentV, EnumDef, EnumDefV, EnumItem, EnumItemV, InputDef, InputDefV,
    ObjectDef, ObjectDefV, TypeRef,
};
use crate::statement::PLACEHOLDER_COLUMN;
use crate::text::{
    cat2, cat3, cat5, cat6, contains_text, has_text, join, joined, no_texts, owned, push_text, same,
    strip_suffix, stripped_suffix, text_opt, texts,
};
use vstd::prelude::*;

verus! {

// ---------------------------------------------------------------------------
// Arguments of functions
// ---------------------------------------------------------------------------

/// A function's arguments as fields. All may be null: every argument of a
/// function accepts one, and whether one may be left out is settled where the
/// call is written.
pub open spec fn argument_fields(list: Seq<FunctionArgument>, types: Seq<PgType>) -> Seq<ArgumentV> {
    list.map_values(
        |a: FunctionArgument| plain_argument(a.name@, optional(pg_text(types, a.pg_type@))),
    )
}

fn build_argument_fields(list: &Vec<FunctionArgument>, types: &Vec<PgType>) -> (r: Vec<Argument>)
    ensures
        arguments(r@) == argument_fields(list@, types@),
{
    let mut fields = no_arguments();
    let mut i: usize = 0;
    while i < list.len()
        invariant
            i <= list.len(),
            arguments(fields@) =~= argument_fields(list@, types@).take(i as int),
        decreases list.len() - i,
    {
        push_argument(
            &mut fields,
            Argument::new(&list[i].name, TypeRef::named(&pg_type_text(types, &list[i].pg_type))),
        );
        i += 1;
    }
    assert(arguments(fields@) =~= argument_fields(list@, types@));
    fields
}

/// The arguments of a root field's function.
pub open spec fn function_input(function: FunctionField, types: Seq<PgType>) -> InputDefV {
    InputDefV {
        name: function.name@ + "_args"@,
        description: "Arguments to "@ + function.name@ + "."@,
        fields: argument_fields(function.arguments@, types),
    }
}

/// The inputs with those of the functions from the `i`th on.
pub open spec fn with_function_inputs(generated: GeneratedSchema, i: nat, inputs: Seq<InputDefV>) -> Seq<
    InputDefV,
>
    decreases generated.function_fields@.len() - i,
{
    if i >= generated.function_fields@.len() {
        inputs
    } else {
        let function = generated.function_fields@[i as int];
        with_function_inputs(
            generated,
            i + 1,
            if function.arguments@.len() > 0 {
                inputs.push(function_input(function, generated.pg_types@))
            } else {
                inputs
            },
        )
    }
}

fn add_function_inputs(generated: &GeneratedSchema, inputs: &mut Vec<InputDef>)
    ensures
        input_defs(final(inputs)@) == with_function_inputs(
            *generated,
            0,
            input_defs(old(inputs)@),
        ),
{
    let mut i: usize = 0;
    while i < generated.function_fields.len()
        invariant
            i <= generated.function_fields.len(),
            with_function_inputs(*generated, 0, input_defs(old(inputs)@)) == with_function_inputs(
                *generated,
                i as nat,
                input_defs(inputs@),
            ),
        decreases generated.function_fields.len() - i,
    {
        let function = &generated.function_fields[i];
        if function.arguments.len() > 0 {
            let input = InputDef {
                name: cat2(&function.name, "_args"),
                description: cat3("Arguments to ", &function.name, "."),
                fields: build_argument_fields(&function.arguments, &generated.pg_types),
            };
            push_input_def(inputs, input);
        }
        i += 1;
    }
}

/// The arguments of the function behind a field of a type.
pub open spec fn row_function_input(
    base: Seq<char>,
    field: Seq<char>,
    list: Seq<FunctionArgument>,
    types: Seq<PgType>,
) -> InputDefV {
    InputDefV {
        name: args_type(base, field),
        description: "Arguments to "@ + field + ", beside the row it is asked of."@,
        fields: argument_fields(list, types),
    }
}

fn build_row_function_input(
    base: &str,
    field: &str,
    list: &Vec<FunctionArgument>,
    types: &Vec<PgType>,
) -> (r: InputDef)
    ensures
        r@ == row_function_input(base@, field@, list@, types@),
{
    InputDef {
        name: computed_args_type_name(base, field),
        description: cat3("Arguments to ", field, ", beside the row it is asked of."),
        fields: build_argument_fields(list, types),
    }
}

/// The inputs with those of one type's computed relationships from the `i`th
/// on.
pub open spec fn with_related_inputs(
    base: Seq<char>,
    fields: Seq<RelationshipField>,
    i: nat,
    types: Seq<PgType>,
    inputs: Seq<InputDefV>,
) -> Seq<InputDefV>
    decreases fields.len() - i,
{
    if i >= fields.len() {
        inputs
    } else {
        let rel = fields[i as int];
        with_related_inputs(
            base,
            fields,
            i + 1,
            types,
            if rel.arguments@.len() > 0 {
                inputs.push(row_function_input(base, rel.name@, rel.arguments@, types))
            } else {
                inputs
            },
        )
    }
}

/// The name of a type without a prefix, where the type is known.
pub open spec fn local_name_of(generated: GeneratedSchema, typename: Seq<char>) -> Seq<char> {
    match named(generated.object_types@, typename) {
        Some(object) => object.local_name@,
        None => typename,
    }
}

/// The inputs with those of the computed relationships of the types from the
/// `i`th on.
pub open spec fn with_relationship_inputs(
    generated: GeneratedSchema,
    i: nat,
    inputs: Seq<InputDefV>,
) -> Seq<InputDefV>
    decreases generated.relationship_fields@.len() - i,
{
    if i >= generated.relationship_fields@.len() {
        inputs
    } else {
        let entry = generated.relationship_fields@[i as int];
        with_relationship_inputs(
            generated,
            i + 1,
            with_related_inputs(
                local_name_of(generated, entry.typename@),
                entry.fields@,
                0,
                generated.pg_types@,
                inputs,
            ),
        )
    }
}

fn add_related_inputs(
    base: &str,
    fields: &Vec<RelationshipField>,
    types: &Vec<PgType>,
    inputs: &mut Vec<InputDef>,
)
    ensures
        input_defs(final(inputs)@) == with_related_inputs(
            base@,
            fields@,
            0,
            types@,
            input_defs(old(inputs)@),
        ),
{
    let mut i: usize = 0;
    while i < fields.len()
        invariant
            i <= fields.len(),
            with_related_inputs(base@, fields@, 0, types@, input_defs(old(inputs)@))
                == with_related_inputs(base@, fields@, i as nat, types@, input_defs(inputs@)),
        decreases fields.len() - i,
    {
        let rel = &fields[i];
        if rel.arguments.len() > 0 {
            push_input_def(
                inputs,
                build_row_function_input(base, &rel.name, &rel.arguments, types),
            );
        }
        i += 1;
    }
}

fn add_relationship_inputs(generated: &GeneratedSchema, inputs: &mut Vec<InputDef>)
    ensures
        input_defs(final(inputs)@) == with_relationship_inputs(
            *generated,
            0,
            input_defs(old(inputs)@),
        ),
{
    let mut i: usize = 0;
    while i < generated.relationship_fields.len()
        invariant
            i <= generated.relationship_fields.len(),
            with_relationship_inputs(*generated, 0, input_defs(old(inputs)@))
                == with_relationship_inputs(*generated, i as nat, input_defs(inputs@)),
        decreases generated.relationship_fields.len() - i,
    {
        let entry = &generated.relationship_fields[i];
        let base: &str = match find_named(&generated.object_types, &entry.typename) {
            Some(object) => object.local_name.as_str(),
            None => entry.typename.as_str(),
        };
        add_related_inputs(base, &entry.fields, &generated.pg_types, inputs);
        i += 1;
    }
}

/// The inputs with those of one type's computed fields from the `i`th on.
pub open spec fn with_computed_inputs(
    base: Seq<char>,
    fields: Seq<GraphQLField>,
    i: nat,
    types: Seq<PgType>,
    inputs: Seq<InputDefV>,
) -> Seq<InputDefV>
    decreases fields.len() - i,
{
    if i >= fields.len() {
        inputs
    } else {
        let field = fields[i as int];
        with_computed_inputs(
            base,
            fields,
            i + 1,
            types,
            if field.arguments@.len() > 0 {
                inputs.push(row_function_input(base, field.name@, field.arguments@, types))
            } else {
                inputs
            },
        )
    }
}

/// The inputs with those of the computed fields of the types from the `i`th
/// on.
pub open spec fn with_field_inputs(generated: GeneratedSchema, i: nat, inputs: Seq<InputDefV>) -> Seq<
    InputDefV,
>
    decreases generated.object_types@.len() - i,
{
    if i >= generated.object_types@.len() {
        inputs
    } else {
        let object = generated.object_types@[i as int];
        with_field_inputs(
            generated,
            i + 1,
            with_computed_inputs(
                object.local_name@,
                object.fields@,
                0,
                generated.pg_types@,
                inputs,
            ),
        )
    }
}

fn add_computed_inputs(
    base: &str,
    fields: &Vec<GraphQLField>,
    types: &Vec<PgType>,
    inputs: &mut Vec<InputDef>,
)
    ensures
        input_defs(final(inputs)@) == with_computed_inputs(
            base@,
            fields@,
            0,
            types@,
            input_defs(old(inputs)@),
        ),
{
    let mut i: usize = 0;
    while i < fields.len()
        invariant
            i <= fields.len(),
            with_computed_inputs(base@, fields@, 0, types@, input_defs(old(inputs)@))
                == with_computed_inputs(base@, fields@, i as nat, types@, input_defs(inputs@)),
        decreases fields.len() - i,
    {
        let field = &fields[i];
        if field.arguments.len() > 0 {
            push_input_def(
                inputs,
                build_row_function_input(base, &field.name, &field.arguments, types),
            );
        }
        i += 1;
    }
}

fn add_field_inputs(generated: &GeneratedSchema, inputs: &mut Vec<InputDef>)
    ensures
        input_defs(final(inputs)@) == with_field_inputs(*generated, 0, input_defs(old(inputs)@)),
{
    let mut i: usize = 0;
    while i < generated.object_types.len()
        invariant
            i <= generated.object_types.len(),
            with_field_inputs(*generated, 0, input_defs(old(inputs)@)) == with_field_inputs(
                *generated,
                i as nat,
                input_defs(inputs@),
            ),
        decreases generated.object_types.len() - i,
    {
        let object = &generated.object_types[i];
        add_computed_inputs(&object.local_name, &object.fields, &generated.pg_types, inputs);
        i += 1;
    }
}

// ---------------------------------------------------------------------------
// Predicates over related sets
// ---------------------------------------------------------------------------

/// The names of the tables that something points at with a relationship to
/// many, from the `i`th relationship of a type on, with those in `found`.
pub open spec fn targets_of(fields: Seq<RelationshipField>, i: nat, found: Seq<Seq<char>>) -> Seq<
    Seq<char>,
>
    decreases fields.len() - i,
{
    if i >= fields.len() {
        found
    } else {
        let rel = fields[i as int];
        targets_of(
            fields,
            i + 1,
            if rel.is_list && !has_text(found, rel.target_local_name@) {
                placed_in(found, rel.target_local_name@)
            } else {
                found
            },
        )
    }
}

/// The names of all such tables, in order, from the `i`th type on.
pub open spec fn targets_from(generated: GeneratedSchema, i: nat, found: Seq<Seq<char>>) -> Seq<
    Seq<char>,
>
    decreases generated.relationship_fields@.len() - i,
{
    if i >= generated.relationship_fields@.len() {
        found
    } else {
        targets_from(
            generated,
            i + 1,
            targets_of(generated.relationship_fields@[i as int].fields@, 0, found),
        )
    }
}

/// The type that the last relationship to many of a name leads to, from the
/// `i`th of a type on.
pub open spec fn target_type_in(
    fields: Seq<RelationshipField>,
    i: nat,
    target: Seq<char>,
    found: Seq<char>,
) -> Seq<char>
    decreases fields.len() - i,
{
    if i >= fields.len() {
        found
    } else {
        let rel = fields[i as int];
        target_type_in(
            fields,
            i + 1,
            target,
            if rel.is_list && rel.target_local_name@ == target {
                rel.target_type@
            } else {
                found
            },
        )
    }
}

/// The type that the last relationship to many of a name leads to, from the
/// `i`th type on.
pub open spec fn target_type_from(
    generated: GeneratedSchema,
    i: nat,
    target: Seq<char>,
    found: Seq<char>,
) -> Seq<char>
    decreases generated.relationship_fields@.len() - i,
{
    if i >= generated.relationship_fields@.len() {
        found
    } else {
        target_type_from(
            generated,
            i + 1,
            target,
            target_type_in(
                generated.relationship_fields@[i as int].fields@,
                0,
                target,
                found,
            ),
        )
    }
}

fn collect_targets(generated: &GeneratedSchema) -> (r: Vec<String>)
    ensures
        texts(r@) == targets_from(*generated, 0, Seq::empty()),
{
    let mut found = no_texts();
    let mut i: usize = 0;
    while i < generated.relationship_fields.len()
        invariant
            i <= generated.relationship_fields.len(),
            targets_from(*generated, 0, Seq::empty()) == targets_from(
                *generated,
                i as nat,
                texts(found@),
            ),
        decreases generated.relationship_fields.len() - i,
    {
        let fields = &generated.relationship_fields[i].fields;
        let ghost before = texts(found@);
        let mut k: usize = 0;
        while k < fields.len()
            invariant
                k <= fields.len(),
                targets_of(fields@, 0, before) == targets_of(fields@, k as nat, texts(found@)),
            decreases fields.len() - k,
        {
            if fields[k].is_list && !contains_text(&found, &fields[k].target_local_name) {
                place_name(&mut found, fields[k].target_local_name.clone());
            }
            k += 1;
        }
        i += 1;
    }
    found
}

fn find_target_type(generated: &GeneratedSchema, target: &str) -> (r: String)
    ensures
        r@ == target_type_from(*generated, 0, target@, Seq::empty()),
{
    let mut found = String::new();
    let mut i: usize = 0;
    while i < generated.relationship_fields.len()
        invariant
            i <= generated.relationship_fields.len(),
            target_type_from(*generated, 0, target@, Seq::empty()) == target_type_from(
                *generated,
                i as nat,
                target@,
                found@,
            ),
        decreases generated.relationship_fields.len() - i,
    {
        let fields = &generated.relationship_fields[i].fields;
        let ghost before = found@;
        let mut k: usize = 0;
        while k < fields.len()
            invariant
                k <= fields.len(),
                target_type_in(fields@, 0, target@, before) == target_type_in(
                    fields@,
                    k as nat,
                    target@,
                    found@,
                ),
            decreases fields.len() - k,
        {
            if fields[k].is_list && same(&fields[k].target_local_name, target) {
                found = fields[k].target_type.clone();
            }
            k += 1;
        }
        i += 1;
    }
    found
}

/// The boolean columns of a type, from the `i`th field on, after those in
/// `found`.
pub open spec fn boolean_columns(object: TableObjectType, i: nat, found: Seq<Seq<char>>) -> Seq<
    Seq<char>,
>
    decreases object.fields@.len() - i,
{
    if i >= object.fields@.len() {
        found
    } else {
        let field = object.fields@[i as int];
        boolean_columns(
            object,
            i + 1,
            if object.table.column(field.name@) is Some && field.graphql_type is Boolean {
                found.push(field.name@)
            } else {
                found
            },
        )
    }
}

fn collect_booleans(object: &TableObjectType) -> (r: Vec<String>)
    ensures
        texts(r@) == boolean_columns(*object, 0, Seq::empty()),
{
    let mut found = no_texts();
    let mut i: usize = 0;
    while i < object.fields.len()
        invariant
            i <= object.fields.len(),
            boolean_columns(*object, 0, Seq::empty()) == boolean_columns(
                *object,
                i as nat,
                texts(found@),
            ),
        decreases object.fields.len() - i,
    {
        let field = &object.fields[i];
        if object.table.get_column(&field.name).is_some() && matches!(
            &field.graphql_type,
            GraphQLType::Boolean,
        ) {
            push_text(&mut found, field.name.clone());
        }
        i += 1;
    }
    found
}

/// The name of the input of one aggregate over a related set.
pub open spec fn predicate_type(target: Seq<char>, function: Seq<char>) -> Seq<char> {
    target + "_aggregate_bool_exp_"@ + function
}

/// The name of the enum of the columns one such aggregate folds.
pub open spec fn predicate_columns(target: Seq<char>, function: Seq<char>) -> Seq<char> {
    target + "_select_column_"@ + target + "_aggregate_bool_exp_"@ + function
        + "_arguments_columns"@
}

/// One aggregate over a related set, and what it has to be.
pub open spec fn predicate_input(target: Seq<char>, function: Seq<char>, count: bool) -> InputDefV {
    InputDefV {
        name: predicate_type(target, function),
        description: if count {
            "How many related "@ + target + " rows there have to be."@
        } else {
            "`"@ + function + "` over the related "@ + target + " rows, and what it has to be."@
        },
        fields: seq![
            plain_argument(
                "arguments"@,
                if count {
                    optional_list(select_column(target))
                } else {
                    required(predicate_columns(target, function))
                },
            ),
            plain_argument("distinct"@, optional("Boolean"@)),
            plain_argument("filter"@, optional(bool_exp(target))),
            plain_argument(
                "predicate"@,
                required(
                    if count {
                        "Int_comparison_exp"@
                    } else {
                        "Boolean_comparison_exp"@
                    },
                ),
            ),
        ],
    }
}

fn build_predicate_input(target: &str, function: &str, count: bool) -> (r: InputDef)
    ensures
        r@ == predicate_input(target@, function@, count),
{
    let mut list = no_arguments();
    let columns = if count {
        TypeRef::named_nn_list(&select_column_type_name(target))
    } else {
        TypeRef::named_nn(&predicate_columns_name(target, function))
    };
    push_argument(&mut list, Argument::new("arguments", columns));
    push_argument(&mut list, Argument::new("distinct", TypeRef::named("Boolean")));
    push_argument(&mut list, Argument::new("filter", TypeRef::named(&bool_exp_type_name(target))));
    let compared: &str = if count {
        "Int_comparison_exp"
    } else {
        "Boolean_comparison_exp"
    };
    push_argument(&mut list, Argument::new("predicate", TypeRef::named_nn(compared)));
    assert(arguments(list@) =~= predicate_input(target@, function@, count).fields);
    let description = if count {
        cat3("How many related ", target, " rows there have to be.")
    } else {
        cat5("`", function, "` over the related ", target, " rows, and what it has to be.")
    };
    InputDef {
        name: cat3(target, "_aggregate_bool_exp_", function),
        description,
        fields: list,
    }
}

fn predicate_columns_name(target: &str, function: &str) -> (r: String)
    ensures
        r@ == predicate_columns(target@, function@),
{
    cat6(
        target,
        "_select_column_",
        target,
        "_aggregate_bool_exp_",
        function,
        "_arguments_columns",
    )
}

/// A question about a whole related set: one field for each aggregate it may
/// be about. A set with no boolean column can only be counted.
pub open spec fn set_predicate(target: Seq<char>, booleans: bool) -> InputDefV {
    let count = plain_argument("count"@, optional(predicate_type(target, "count"@)));
    InputDefV {
        name: target + "_aggregate_bool_exp"@,
        description: "A question about the whole set of related "@ + target + " rows."@,
        fields: if booleans {
            seq![
                plain_argument("bool_and"@, optional(predicate_type(target, "bool_and"@))),
                plain_argument("bool_or"@, optional(predicate_type(target, "bool_or"@))),
                count,
            ]
        } else {
            seq![count]
        },
    }
}

fn build_set_predicate(target: &str, booleans: bool) -> (r: InputDef)
    ensures
        r@ == set_predicate(target@, booleans),
{
    let mut list = no_arguments();
    if booleans {
        push_argument(
            &mut list,
            Argument::new(
                "bool_and",
                TypeRef::named(&cat3(target, "_aggregate_bool_exp_", "bool_and")),
            ),
        );
        push_argument(
            &mut list,
            Argument::new(
                "bool_or",
                TypeRef::named(&cat3(target, "_aggregate_bool_exp_", "bool_or")),
            ),
        );
    }
    push_argument(
        &mut list,
        Argument::new("count", TypeRef::named(&cat3(target, "_aggregate_bool_exp_", "count"))),
    );
    assert(arguments(list@) =~= set_predicate(target@, booleans).fields);
    InputDef {
        name: cat2(target, "_aggregate_bool_exp"),
        description: cat3("A question about the whole set of related ", target, " rows."),
        fields: list,
    }
}

/// The inputs of the predicates over one related set.
pub open spec fn predicate_inputs(target: Seq<char>, booleans: bool) -> Seq<InputDefV> {
    if booleans {
        seq![
            predicate_input(target, "bool_and"@, false),
            predicate_input(target, "bool_or"@, false),
            predicate_input(target, "count"@, true),
            set_predicate(target, true),
        ]
    } else {
        seq![predicate_input(target, "count"@, true), set_predicate(target, false)]
    }
}

/// An enum of columns.
pub open spec fn column_items(columns: Seq<Seq<char>>) -> Seq<EnumItemV> {
    columns.map_values(|name: Seq<char>| EnumItemV { name, description: None })
}

/// The boolean columns that an aggregate over a related set may fold.
pub open spec fn predicate_enum(
    target: Seq<char>,
    function: Seq<char>,
    columns: Seq<Seq<char>>,
) -> EnumDefV {
    EnumDefV {
        name: predicate_columns(target, function),
        description: "A boolean column of "@ + target + "."@,
        items: column_items(columns),
    }
}

fn build_column_items(columns: &Vec<String>) -> (r: Vec<EnumItem>)
    ensures
        enum_items(r@) == column_items(texts(columns@)),
{
    let mut items = no_enum_items();
    let mut i: usize = 0;
    while i < columns.len()
        invariant
            i <= columns.len(),
            enum_items(items@) =~= column_items(texts(columns@)).take(i as int),
        decreases columns.len() - i,
    {
        assert(texts(columns@)[i as int] == columns@[i as int]@);
        push_enum_item(&mut items, EnumItem { name: columns[i].clone(), description: None });
        i += 1;
    }
    assert(enum_items(items@) =~= column_items(texts(columns@)));
    items
}

/// The inputs with those of the predicates over the related sets from the
/// `i`th on.
pub open spec fn with_predicates(
    generated: GeneratedSchema,
    targets: Seq<Seq<char>>,
    i: nat,
    inputs: Seq<InputDefV>,
) -> Seq<InputDefV>
    decreases targets.len() - i,
{
    if i >= targets.len() {
        inputs
    } else {
        let target = targets[i as int];
        let typename = target_type_from(generated, 0, target, Seq::empty());
        with_predicates(
            generated,
            targets,
            i + 1,
            match named(generated.object_types@, typename) {
                Some(object) => inputs + predicate_inputs(
                    target,
                    boolean_columns(object, 0, Seq::empty()).len() > 0,
                ),
                None => inputs,
            },
        )
    }
}

/// The enums with those of the predicates over the related sets from the
/// `i`th on.
pub open spec fn with_predicate_enums(
    generated: GeneratedSchema,
    targets: Seq<Seq<char>>,
    i: nat,
    enums: Seq<EnumDefV>,
) -> Seq<EnumDefV>
    decreases targets.len() - i,
{
    if i >= targets.len() {
        enums
    } else {
        let target = targets[i as int];
        let typename = target_type_from(generated, 0, target, Seq::empty());
        with_predicate_enums(
            generated,
            targets,
            i + 1,
            match named(generated.object_types@, typename) {
                Some(object) => {
                    let columns = boolean_columns(object, 0, Seq::empty());
                    if columns.len() > 0 {
                        enums.push(predicate_enum(target, "bool_and"@, columns)).push(
                            predicate_enum(target, "bool_or"@, columns),
                        )
                    } else {
                        enums
                    }
                },
                None => enums,
            },
        )
    }
}

fn build_predicate_enum(target: &str, function: &str, columns: &Vec<String>) -> (r: EnumDef)
    ensures
        r@ == predicate_enum(target@, function@, texts(columns@)),
{
    EnumDef {
        name: predicate_columns_name(target, function),
        description: cat3("A boolean column of ", target, "."),
        items: build_column_items(columns),
    }
}

fn add_predicates(
    generated: &GeneratedSchema,
    inputs: &mut Vec<InputDef>,
    enums: &mut Vec<EnumDef>,
)
    ensures
        input_defs(final(inputs)@) == with_predicates(
            *generated,
            targets_from(*generated, 0, Seq::empty()),
            0,
            input_defs(old(inputs)@),
        ),
        enum_defs(final(enums)@) == with_predicate_enums(
            *generated,
            targets_from(*generated, 0, Seq::empty()),
            0,
            enum_defs(old(enums)@),
        ),
{
    let targets = collect_targets(generated);
    let ghost all = texts(targets@);
    let mut i: usize = 0;
    while i < targets.len()
        invariant
            i <= targets.len(),
            all == texts(targets@),
            with_predicates(*generated, all, 0, input_defs(old(inputs)@)) == with_predicates(
                *generated,
                all,
                i as nat,
                input_defs(inputs@),
            ),
            with_predicate_enums(*generated, all, 0, enum_defs(old(enums)@))
                == with_predicate_enums(*generated, all, i as nat, enum_defs(enums@)),
        decreases targets.len() - i,
    {
        assert(all[i as int] == targets@[i as int]@);
        let target = &targets[i];
        let typename = find_target_type(generated, target);
        if let Some(object) = find_named(&generated.object_types, &typename) {
            let columns = collect_booleans(object);
            let ghost before = input_defs(inputs@);
            if columns.len() > 0 {
                push_input_def(inputs, build_predicate_input(target, "bool_and", false));
                push_input_def(inputs, build_predicate_input(target, "bool_or", false));
                push_enum_def(enums, build_predicate_enum(target, "bool_and", &columns));
                push_enum_def(enums, build_predicate_enum(target, "bool_or", &columns));
            }
            push_input_def(inputs, build_predicate_input(target, "count", true));
            push_input_def(inputs, build_set_predicate(target, columns.len() > 0));
            assert(input_defs(inputs@) =~= before + predicate_inputs(
                target@,
                columns@.len() > 0,
            ));
        }
        i += 1;
    }
}

// ---------------------------------------------------------------------------
// Upserts
// ---------------------------------------------------------------------------

/// The uniquenesses of a table.
pub open spec fn constraint_enum(object: TableObjectType) -> EnumDefV {
    EnumDefV {
        name: object.local_name@ + "_constraint"@,
        description: "A uniqueness of "@ + object.local_name@
            + " that an insert may conflict with."@,
        items: object.table.unique_constraints@.map_values(
            |c: UniqueConstraint|
                EnumItemV {
                    name: c.name@,
                    description: Some("unique ("@ + joined(texts(c.columns@), ", "@) + ")"@),
                },
        ),
    }
}

/// The columns an upsert may write. A member that names no column stands for
/// there being none: an enum may not be empty.
pub open spec fn update_column_enum(object: TableObjectType, names: NameOverrides) -> EnumDefV {
    let fields = update_fields_of(object, names);
    EnumDefV {
        name: object.local_name@ + "_update_column"@,
        description: "A column of "@ + object.local_name@ + " an upsert may write."@,
        items: if fields.len() == 0 {
            seq![
                EnumItemV {
                    name: PLACEHOLDER_COLUMN@,
                    description: Some("No column may be written by this upsert."@),
                },
            ]
        } else {
            fields.map_values(|f: GraphQLField| EnumItemV { name: f.name@, description: None })
        },
    }
}

/// What to do when an insert conflicts.
pub open spec fn on_conflict_input(object: TableObjectType) -> InputDefV {
    let base = object.local_name@;
    InputDefV {
        name: base + "_on_conflict"@,
        description: "What to do when an insert into "@ + base + " conflicts."@,
        fields: seq![
            plain_argument("constraint"@, required(base + "_constraint"@)),
            ArgumentV {
                empty_default: true,
                ..plain_argument("update_columns"@, required_list(base + "_update_column"@))
            },
            plain_argument("where"@, optional(bool_exp(base))),
        ],
    }
}

fn build_constraint_enum(object: &TableObjectType) -> (r: EnumDef)
    ensures
        r@ == constraint_enum(*object),
{
    let list = &object.table.unique_constraints;
    let mut items = no_enum_items();
    let mut i: usize = 0;
    while i < list.len()
        invariant
            i <= list.len(),
            *list == object.table.unique_constraints,
            enum_items(items@) =~= constraint_enum(*object).items.take(i as int),
        decreases list.len() - i,
    {
        let described = cat3("unique (", &join(&list[i].columns, ", "), ")");
        push_enum_item(
            &mut items,
            EnumItem { name: list[i].name.clone(), description: Some(described) },
        );
        i += 1;
    }
    assert(enum_items(items@) =~= constraint_enum(*object).items);
    EnumDef {
        name: cat2(&object.local_name, "_constraint"),
        description: cat3(
            "A uniqueness of ",
            &object.local_name,
            " that an insert may conflict with.",
        ),
        items,
    }
}

fn build_update_column_enum(object: &TableObjectType, names: &NameOverrides) -> (r: EnumDef)
    ensures
        r@ == update_column_enum(*object, *names),
{
    let fields = update_fields(object, names);
    let ghost known = update_fields_of(*object, *names);
    let ghost wanted = known.map_values(
        |f: GraphQLField| EnumItemV { name: f.name@, description: None },
    );
    let mut items = no_enum_items();
    let mut i: usize = 0;
    while i < fields.len()
        invariant
            i <= fields.len(),
            known == derefs(fields@),
            wanted == known.map_values(
                |f: GraphQLField| EnumItemV { name: f.name@, description: None },
            ),
            enum_items(items@) =~= wanted.take(i as int),
        decreases fields.len() - i,
    {
        assert(derefs(fields@)[i as int] == *fields@[i as int]);
        push_enum_item(&mut items, EnumItem { name: fields[i].name.clone(), description: None });
        i += 1;
    }
    if fields.len() == 0 {
        push_enum_item(
            &mut items,
            EnumItem {
                name: owned(PLACEHOLDER_COLUMN),
                description: Some(owned("No column may be written by this upsert.")),
            },
        );
    }
    assert(enum_items(items@) =~= update_column_enum(*object, *names).items);
    EnumDef {
        name: cat2(&object.local_name, "_update_column"),
        description: cat3("A column of ", &object.local_name, " an upsert may write."),
        items,
    }
}

fn build_on_conflict_input(object: &TableObjectType) -> (r: InputDef)
    ensures
        r@ == on_conflict_input(*object),
{
    let base = &object.local_name;
    let mut list = no_arguments();
    push_argument(
        &mut list,
        Argument::new("constraint", TypeRef::named_nn(&cat2(base, "_constraint"))),
    );
    let columns = Argument {
        name: owned("update_columns"),
        ty: TypeRef::named_nn_list_nn(&cat2(base, "_update_column")),
        description: None,
        empty_default: true,
    };
    push_argument(&mut list, columns);
    push_argument(&mut list, Argument::new("where", TypeRef::named(&bool_exp_type_name(base))));
    assert(arguments(list@) =~= on_conflict_input(*object).fields);
    InputDef {
        name: cat2(base, "_on_conflict"),
        description: cat3("What to do when an insert into ", base, " conflicts."),
        fields: list,
    }
}

/// The inputs with those of the upserts of the types from the `i`th on. A
/// table with no uniqueness has no conflict to resolve.
pub open spec fn with_upsert_inputs(generated: GeneratedSchema, i: nat, inputs: Seq<InputDefV>) -> Seq<
    InputDefV,
>
    decreases generated.object_types@.len() - i,
{
    if i >= generated.object_types@.len() {
        inputs
    } else {
        let object = generated.object_types@[i as int];
        with_upsert_inputs(
            generated,
            i + 1,
            if object.table.unique_constraints@.len() > 0 {
                inputs.push(on_conflict_input(object))
            } else {
                inputs
            },
        )
    }
}

/// The enums with those of the upserts of the types from the `i`th on.
pub open spec fn with_upsert_enums(
    generated: GeneratedSchema,
    names: NameOverrides,
    i: nat,
    enums: Seq<EnumDefV>,
) -> Seq<EnumDefV>
    decreases generated.object_types@.len() - i,
{
    if i >= generated.object_types@.len() {
        enums
    } else {
        let object = generated.object_types@[i as int];
        with_upsert_enums(
            generated,
            names,
            i + 1,
            if object.table.unique_constraints@.len() > 0 {
                enums.push(constraint_enum(object)).push(update_column_enum(object, names))
            } else {
                enums
            },
        )
    }
}

fn add_upserts(
    generated: &GeneratedSchema,
    names: &NameOverrides,
    inputs: &mut Vec<InputDef>,
    enums: &mut Vec<EnumDef>,
)
    ensures
        input_defs(final(inputs)@) == with_upsert_inputs(*generated, 0, input_defs(old(inputs)@)),
        enum_defs(final(enums)@) == with_upsert_enums(
            *generated,
            *names,
            0,
            enum_defs(old(enums)@),
        ),
{
    let mut i: usize = 0;
    while i < generated.object_types.len()
        invariant
            i <= generated.object_types.len(),
            with_upsert_inputs(*generated, 0, input_defs(old(inputs)@)) == with_upsert_inputs(
                *generated,
                i as nat,
                input_defs(inputs@),
            ),
            with_upsert_enums(*generated, *names, 0, enum_defs(old(enums)@)) == with_upsert_enums(
                *generated,
                *names,
                i as nat,
                enum_defs(enums@),
            ),
        decreases generated.object_types.len() - i,
    {
        let object = &generated.object_types[i];
        if object.table.unique_constraints.len() > 0 {
            push_enum_def(enums, build_constraint_enum(object));
            push_enum_def(enums, build_update_column_enum(object, names));
            push_input_def(inputs, build_on_conflict_input(object));
        }
        i += 1;
    }
}

// ---------------------------------------------------------------------------
// Enums of tables
// ---------------------------------------------------------------------------

/// An enum made of a table's rows.
pub open spec fn table_enum(t: EnumType) -> EnumDefV {
    EnumDefV {
        name: t.name@,
        description: "The values "@ + t.name@ + " allows."@,
        items: t.members@.map_values(
            |m: (String, Option<String>)|
                EnumItemV { name: m.0@, description: text_opt(m.1) },
        ),
    }
}

/// Enums made of tables' rows, from the `i`th on, after those there are.
pub open spec fn with_table_enums(types: Seq<EnumType>, i: nat, enums: Seq<EnumDefV>) -> Seq<
    EnumDefV,
>
    decreases types.len() - i,
{
    if i >= types.len() {
        enums
    } else {
        with_table_enums(types, i + 1, enums.push(table_enum(types[i as int])))
    }
}

fn build_table_enum(t: &EnumType) -> (r: EnumDef)
    ensures
        r@ == table_enum(*t),
{
    let mut items = no_enum_items();
    let mut i: usize = 0;
    while i < t.members.len()
        invariant
            i <= t.members.len(),
            enum_items(items@) =~= table_enum(*t).items.take(i as int),
        decreases t.members.len() - i,
    {
        push_enum_item(
            &mut items,
            EnumItem { name: t.members[i].0.clone(), description: copy_text(&t.members[i].1) },
        );
        i += 1;
    }
    assert(enum_items(items@) =~= table_enum(*t).items);
    EnumDef {
        name: t.name.clone(),
        description: cat3("The values ", &t.name, " allows."),
        items,
    }
}

fn add_table_enums(types: &Vec<EnumType>, enums: &mut Vec<EnumDef>)
    ensures
        enum_defs(final(enums)@) == with_table_enums(types@, 0, enum_defs(old(enums)@)),
{
    let mut i: usize = 0;
    while i < types.len()
        invariant
            i <= types.len(),
            with_table_enums(types@, 0, enum_defs(old(enums)@)) == with_table_enums(
                types@,
                i as nat,
                enum_defs(enums@),
            ),
        decreases types.len() - i,
    {
        push_enum_def(enums, build_table_enum(&types[i]));
        i += 1;
    }
}

// ---------------------------------------------------------------------------
// Scalars
// ---------------------------------------------------------------------------

/// Names in order, with one more where it is not among them.
pub open spec fn with_name(found: Seq<Seq<char>>, name: Seq<char>) -> Seq<Seq<char>> {
    if has_text(found, name) {
        found
    } else {
        placed_in(found, name)
    }
}

fn add_name(found: &mut Vec<String>, name: String)
    ensures
        texts(final(found)@) == with_name(texts(old(found)@), name@),
{
    if !contains_text(found, &name) {
        place_name(found, name);
    }
}

/// The scalars of fields from the `i`th on.
pub open spec fn field_scalars(fields: Seq<GraphQLField>, i: nat, found: Seq<Seq<char>>) -> Seq<
    Seq<char>,
>
    decreases fields.len() - i,
{
    if i >= fields.len() {
        found
    } else {
        field_scalars(
            fields,
            i + 1,
            with_name(found, leaf_text(fields[i as int].graphql_type)),
        )
    }
}

/// The scalars of a function's arguments from the `i`th on.
pub open spec fn argument_scalars(
    list: Seq<FunctionArgument>,
    i: nat,
    types: Seq<PgType>,
    found: Seq<Seq<char>>,
) -> Seq<Seq<char>>
    decreases list.len() - i,
{
    if i >= list.len() {
        found
    } else {
        argument_scalars(list, i + 1, types, with_name(found, pg_leaf(types, list[i as int].pg_type@)))
    }
}

/// The scalars of the types from the `i`th on: of what may be read and of what
/// may be written.
pub open spec fn object_scalars(generated: GeneratedSchema, i: nat, found: Seq<Seq<char>>) -> Seq<
    Seq<char>,
>
    decreases generated.object_types@.len() - i,
{
    if i >= generated.object_types@.len() {
        found
    } else {
        let object = generated.object_types@[i as int];
        object_scalars(
            generated,
            i + 1,
            field_scalars(
                object.writable_fields@,
                0,
                field_scalars(object.fields@, 0, found),
            ),
        )
    }
}

/// The scalars of the root functions' arguments from the `i`th on.
pub open spec fn function_scalars(generated: GeneratedSchema, i: nat, found: Seq<Seq<char>>) -> Seq<
    Seq<char>,
>
    decreases generated.function_fields@.len() - i,
{
    if i >= generated.function_fields@.len() {
        found
    } else {
        function_scalars(
            generated,
            i + 1,
            argument_scalars(
                generated.function_fields@[i as int].arguments@,
                0,
                generated.pg_types@,
                found,
            ),
        )
    }
}

/// The scalars of computed fields' arguments from the `i`th on.
pub open spec fn computed_scalars(
    fields: Seq<GraphQLField>,
    i: nat,
    types: Seq<PgType>,
    found: Seq<Seq<char>>,
) -> Seq<Seq<char>>
    decreases fields.len() - i,
{
    if i >= fields.len() {
        found
    } else {
        computed_scalars(
            fields,
            i + 1,
            types,
            argument_scalars(fields[i as int].arguments@, 0, types, found),
        )
    }
}

/// The scalars of the types' computed fields' arguments from the `i`th type
/// on.
pub open spec fn row_function_scalars(generated: GeneratedSchema, i: nat, found: Seq<Seq<char>>) -> Seq<
    Seq<char>,
>
    decreases generated.object_types@.len() - i,
{
    if i >= generated.object_types@.len() {
        found
    } else {
        row_function_scalars(
            generated,
            i + 1,
            computed_scalars(
                generated.object_types@[i as int].fields@,
                0,
                generated.pg_types@,
                found,
            ),
        )
    }
}

/// The scalars of relationships' arguments from the `i`th on.
pub open spec fn related_scalars(
    fields: Seq<RelationshipField>,
    i: nat,
    types: Seq<PgType>,
    found: Seq<Seq<char>>,
) -> Seq<Seq<char>>
    decreases fields.len() - i,
{
    if i >= fields.len() {
        found
    } else {
        related_scalars(
            fields,
            i + 1,
            types,
            argument_scalars(fields[i as int].arguments@, 0, types, found),
        )
    }
}

/// The scalars of the types' relationships' arguments from the `i`th type on.
pub open spec fn relationship_scalars(generated: GeneratedSchema, i: nat, found: Seq<Seq<char>>) -> Seq<
    Seq<char>,
>
    decreases generated.relationship_fields@.len() - i,
{
    if i >= generated.relationship_fields@.len() {
        found
    } else {
        relationship_scalars(
            generated,
            i + 1,
            related_scalars(
                generated.relationship_fields@[i as int].fields@,
                0,
                generated.pg_types@,
                found,
            ),
        )
    }
}

/// Names with others from the `i`th on.
pub open spec fn with_names(found: Seq<Seq<char>>, more: Seq<Seq<char>>, i: nat) -> Seq<Seq<char>>
    decreases more.len() - i,
{
    if i >= more.len() {
        found
    } else {
        with_names(with_name(found, more[i as int]), more, i + 1)
    }
}

/// Whether GraphQL has a scalar of its own of that name.
pub open spec fn is_builtin(name: Seq<char>) -> bool {
    name == "Int"@ || name == "Float"@ || name == "String"@ || name == "Boolean"@ || name == "ID"@
}

/// The scalars to be declared: those among the names from the `i`th on that
/// GraphQL does not have and that are no enums, after those in `found`.
pub open spec fn declared_scalars(
    names: Seq<Seq<char>>,
    i: nat,
    enums: Seq<EnumType>,
    found: Seq<Seq<char>>,
) -> Seq<Seq<char>>
    decreases names.len() - i,
{
    if i >= names.len() {
        found
    } else if is_builtin(names[i as int]) || named(enums, names[i as int]) is Some {
        declared_scalars(names, i + 1, enums, found)
    } else {
        declared_scalars(names, i + 1, enums, found.push(names[i as int]))
    }
}

/// Every scalar that the schema names, in order.
pub open spec fn scalar_names(generated: GeneratedSchema) -> Seq<Seq<char>> {
    let objects = with_name(object_scalars(generated, 0, Seq::empty()), "JSON"@);
    let functions = function_scalars(generated, 0, objects);
    let fields = row_function_scalars(generated, 0, functions);
    let relationships = relationship_scalars(generated, 0, fields);
    with_names(relationships, texts(generated.filter_scalars@), 0)
}

/// The scalars that the schema declares.
pub open spec fn scalars_of(generated: GeneratedSchema) -> Seq<Seq<char>> {
    declared_scalars(scalar_names(generated), 0, generated.enum_types@, Seq::empty())
}

/// What a scalar is described as.
pub fn scalar_description(name: &str) -> (r: String)
    ensures
        r@ == "The PostgreSQL `"@ + name@ + "` type."@,
{
    cat3("The PostgreSQL `", name, "` type.")
}

fn add_field_scalars(fields: &Vec<GraphQLField>, found: &mut Vec<String>)
    ensures
        texts(final(found)@) == field_scalars(fields@, 0, texts(old(found)@)),
{
    let mut i: usize = 0;
    while i < fields.len()
        invariant
            i <= fields.len(),
            field_scalars(fields@, 0, texts(old(found)@)) == field_scalars(
                fields@,
                i as nat,
                texts(found@),
            ),
        decreases fields.len() - i,
    {
        add_name(found, leaf_scalar_name(&fields[i].graphql_type));
        i += 1;
    }
}

fn add_argument_scalars(list: &Vec<FunctionArgument>, types: &Vec<PgType>, found: &mut Vec<String>)
    ensures
        texts(final(found)@) == argument_scalars(list@, 0, types@, texts(old(found)@)),
{
    let mut i: usize = 0;
    while i < list.len()
        invariant
            i <= list.len(),
            argument_scalars(list@, 0, types@, texts(old(found)@)) == argument_scalars(
                list@,
                i as nat,
                types@,
                texts(found@),
            ),
        decreases list.len() - i,
    {
        add_name(found, pg_leaf_text(types, &list[i].pg_type));
        i += 1;
    }
}

fn add_object_scalars(generated: &GeneratedSchema, found: &mut Vec<String>)
    ensures
        texts(final(found)@) == object_scalars(*generated, 0, texts(old(found)@)),
{
    let mut i: usize = 0;
    while i < generated.object_types.len()
        invariant
            i <= generated.object_types.len(),
            object_scalars(*generated, 0, texts(old(found)@)) == object_scalars(
                *generated,
                i as nat,
                texts(found@),
            ),
        decreases generated.object_types.len() - i,
    {
        add_field_scalars(&generated.object_types[i].fields, found);
        add_field_scalars(&generated.object_types[i].writable_fields, found);
        i += 1;
    }
}

fn add_function_scalars(generated: &GeneratedSchema, found: &mut Vec<String>)
    ensures
        texts(final(found)@) == function_scalars(*generated, 0, texts(old(found)@)),
{
    let mut i: usize = 0;
    while i < generated.function_fields.len()
        invariant
            i <= generated.function_fields.len(),
            function_scalars(*generated, 0, texts(old(found)@)) == function_scalars(
                *generated,
                i as nat,
                texts(found@),
            ),
        decreases generated.function_fields.len() - i,
    {
        add_argument_scalars(
            &generated.function_fields[i].arguments,
            &generated.pg_types,
            found,
        );
        i += 1;
    }
}

fn add_computed_scalars(fields: &Vec<GraphQLField>, types: &Vec<PgType>, found: &mut Vec<String>)
    ensures
        texts(final(found)@) == computed_scalars(fields@, 0, types@, texts(old(found)@)),
{
    let mut i: usize = 0;
    while i < fields.len()
        invariant
            i <= fields.len(),
            computed_scalars(fields@, 0, types@, texts(old(found)@)) == computed_scalars(
                fields@,
                i as nat,
                types@,
                texts(found@),
            ),
        decreases fields.len() - i,
    {
        add_argument_scalars(&fields[i].arguments, types, found);
        i += 1;
    }
}

fn add_row_function_scalars(generated: &GeneratedSchema, found: &mut Vec<String>)
    ensures
        texts(final(found)@) == row_function_scalars(*generated, 0, texts(old(found)@)),
{
    let mut i: usize = 0;
    while i < generated.object_types.len()
        invariant
            i <= generated.object_types.len(),
            row_function_scalars(*generated, 0, texts(old(found)@)) == row_function_scalars(
                *generated,
                i as nat,
                texts(found@),
            ),
        decreases generated.object_types.len() - i,
    {
        add_computed_scalars(&generated.object_types[i].fields, &generated.pg_types, found);
        i += 1;
    }
}

fn add_related_scalars(fields: &Vec<RelationshipField>, types: &Vec<PgType>, found: &mut Vec<String>)
    ensures
        texts(final(found)@) == related_scalars(fields@, 0, types@, texts(old(found)@)),
{
    let mut i: usize = 0;
    while i < fields.len()
        invariant
            i <= fields.len(),
            related_scalars(fields@, 0, types@, texts(old(found)@)) == related_scalars(
                fields@,
                i as nat,
                types@,
                texts(found@),
            ),
        decreases fields.len() - i,
    {
        add_argument_scalars(&fields[i].arguments, types, found);
        i += 1;
    }
}

fn add_relationship_scalars(generated: &GeneratedSchema, found: &mut Vec<String>)
    ensures
        texts(final(found)@) == relationship_scalars(*generated, 0, texts(old(found)@)),
{
    let mut i: usize = 0;
    while i < generated.relationship_fields.len()
        invariant
            i <= generated.relationship_fields.len(),
            relationship_scalars(*generated, 0, texts(old(found)@)) == relationship_scalars(
                *generated,
                i as nat,
                texts(found@),
            ),
        decreases generated.relationship_fields.len() - i,
    {
        add_related_scalars(
            &generated.relationship_fields[i].fields,
            &generated.pg_types,
            found,
        );
        i += 1;
    }
}

fn add_names(more: &Vec<String>, found: &mut Vec<String>)
    ensures
        texts(final(found)@) == with_names(texts(old(found)@), texts(more@), 0),
{
    let mut i: usize = 0;
    while i < more.len()
        invariant
            i <= more.len(),
            with_names(texts(old(found)@), texts(more@), 0) == with_names(
                texts(found@),
                texts(more@),
                i as nat,
            ),
        decreases more.len() - i,
    {
        assert(texts(more@)[i as int] == more@[i as int]@);
        add_name(found, more[i].clone());
        i += 1;
    }
}

fn builtin(name: &str) -> (r: bool)
    ensures
        r == is_builtin(name@),
{
    same(name, "Int") || same(name, "Float") || same(name, "String") || same(name, "Boolean")
        || same(name, "ID")
}

/// Every scalar the schema has to declare: the ones its types, inputs and
/// expressions name. One that is named and not declared makes a schema that
/// cannot be built.
pub fn schema_scalars(generated: &GeneratedSchema) -> (r: Vec<String>)
    ensures
        texts(r@) == scalars_of(*generated),
{
    let mut found = no_texts();
    add_object_scalars(generated, &mut found);
    add_name(&mut found, owned("JSON"));
    add_function_scalars(generated, &mut found);
    add_row_function_scalars(generated, &mut found);
    add_relationship_scalars(generated, &mut found);
    add_names(&generated.filter_scalars, &mut found);
    let mut declared = no_texts();
    let mut i: usize = 0;
    while i < found.len()
        invariant
            i <= found.len(),
            scalars_of(*generated) == declared_scalars(
                texts(found@),
                i as nat,
                generated.enum_types@,
                texts(declared@),
            ),
        decreases found.len() - i,
    {
        assert(texts(found@)[i as int] == found@[i as int]@);
        if !builtin(&found[i]) && find_named(&generated.enum_types, &found[i]).is_none() {
            push_text(&mut declared, found[i].clone());
        }
        i += 1;
    }
    declared
}

// ---------------------------------------------------------------------------
// Objects
// ---------------------------------------------------------------------------

/// Where an object of a name stands, or past the end.
pub open spec fn object_place(s: Seq<ObjectDefV>, name: Seq<char>, i: nat) -> nat
    decreases s.len() - i,
{
    if i >= s.len() {
        i
    } else if s[i as int].name == name {
        i
    } else {
        object_place(s, name, i + 1)
    }
}

/// Objects with one more: in place of the one of its name, or else last.
pub open spec fn put_object_of(s: Seq<ObjectDefV>, object: ObjectDefV) -> Seq<ObjectDefV> {
    let k = object_place(s, object.name, 0);
    if k < s.len() {
        s.update(k as int, object)
    } else {
        s.push(object)
    }
}

fn put_object(objects: &mut Vec<ObjectDef>, object: ObjectDef)
    ensures
        object_defs(final(objects)@) == put_object_of(object_defs(old(objects)@), object@),
{
    let ghost all = object_defs(objects@);
    let ghost added = object@;
    let mut i: usize = 0;
    while i < objects.len()
        invariant
            i <= objects.len(),
            all == object_defs(objects@),
            all == object_defs(old(objects)@),
            added == object@,
            object_place(all, added.name, 0) == object_place(all, added.name, i as nat),
        decreases objects.len() - i,
    {
        assert(all[i as int].name == objects@[i as int].name@);
        if same(&objects[i].name, &object.name) {
            objects.set(i, object);
            assert(object_defs(objects@) =~= all.update(i as int, added));
            return;
        }
        i += 1;
    }
    push_object_def(objects, object);
}

/// Objects with others put among them, from the `i`th on.
pub open spec fn put_all_of(s: Seq<ObjectDefV>, more: Seq<ObjectDefV>, i: nat) -> Seq<ObjectDefV>
    decreases more.len() - i,
{
    if i >= more.len() {
        s
    } else {
        put_all_of(put_object_of(s, more[i as int]), more, i + 1)
    }
}

fn put_objects(objects: &mut Vec<ObjectDef>, more: Vec<ObjectDef>)
    ensures
        object_defs(final(objects)@) == put_all_of(
            object_defs(old(objects)@),
            object_defs(more@),
            0,
        ),
{
    let ghost all = object_defs(more@);
    let ghost before = object_defs(objects@);
    let ghost mut i: nat = 0;
    let mut rest = more;
    assert(all.skip(0) =~= all);
    while rest.len() > 0
        invariant
            i + rest@.len() == all.len(),
            object_defs(rest@) == all.skip(i as int),
            put_all_of(before, all, 0) == put_all_of(object_defs(objects@), all, i),
        decreases rest.len(),
    {
        let ghost remaining = rest@;
        let object = rest.remove(0);
        proof {
            assert(all[i as int] == all.skip(i as int)[0]);
            assert(object@ == object_defs(remaining)[0]);
            assert forall|j: int| 0 <= j < rest@.len() implies object_defs(rest@)[j] == all.skip(
                (i + 1) as int,
            )[j] by {
                assert(rest@[j] == remaining[j + 1]);
                assert(object_defs(remaining)[j + 1] == all.skip(i as int)[j + 1]);
            }
            assert(object_defs(rest@) =~= all.skip((i + 1) as int));
            i = i + 1;
        }
        put_object(objects, object);
    }
}

/// The row types of the tables from the `i`th on. A table of which nothing may
/// be read has none: a type may not have no fields.
pub open spec fn row_types(generated: GeneratedSchema, i: nat, objects: Seq<ObjectDefV>) -> Seq<
    ObjectDefV,
>
    decreases generated.object_types@.len() - i,
{
    if i >= generated.object_types@.len() {
        objects
    } else {
        let object = generated.object_types@[i as int];
        row_types(
            generated,
            i + 1,
            if object.fields@.len() == 0 {
                objects
            } else {
                put_object_of(
                    objects,
                    row_type(
                        object,
                        relationships_in(generated, object.name@),
                        named(generated.federation_entities@, object.name@),
                    ),
                )
            },
        )
    }
}

/// Whether some root field counts the rows of a type.
pub open spec fn is_counted(generated: GeneratedSchema, typename: Seq<char>) -> bool {
    exists|i: int|
        0 <= i < generated.query_fields@.len() && (#[trigger] generated.query_fields@[i]).aggregates
            && !generated.query_fields@[i].is_by_pk && generated.query_fields@[i].typename@
            == typename
}

/// The objects with the aggregate types of the tables from the `i`th on that
/// may be read or counted.
pub open spec fn with_aggregates(generated: GeneratedSchema, i: nat, objects: Seq<ObjectDefV>) -> Seq<
    ObjectDefV,
>
    decreases generated.object_types@.len() - i,
{
    if i >= generated.object_types@.len() {
        objects
    } else {
        let object = generated.object_types@[i as int];
        with_aggregates(
            generated,
            i + 1,
            if object.fields@.len() == 0 && !is_counted(generated, object.name@) {
                objects
            } else {
                put_all_of(objects, aggregate_types_of(object.local_name@, object), 0)
            },
        )
    }
}

/// Pairs with a key given a value: where it stands already, or else last.
pub open spec fn put_pair_of(
    s: Seq<(Seq<char>, Seq<char>)>,
    key: Seq<char>,
    value: Seq<char>,
    i: nat,
) -> Seq<(Seq<char>, Seq<char>)>
    decreases s.len() - i,
{
    if i >= s.len() {
        s.push((key, value))
    } else if s[i as int].0 == key {
        s.update(i as int, (key, value))
    } else {
        put_pair_of(s, key, value, i + 1)
    }
}

/// The tables that bulk writes answer for, from the `i`th mutation on, and
/// their row types. A bulk write answers with its table's response.
pub open spec fn answered_tables(
    generated: GeneratedSchema,
    i: nat,
    found: Seq<(Seq<char>, Seq<char>)>,
) -> Seq<(Seq<char>, Seq<char>)>
    decreases generated.mutation_fields@.len() - i,
{
    if i >= generated.mutation_fields@.len() {
        found
    } else {
        let field = generated.mutation_fields@[i as int];
        answered_tables(
            generated,
            i + 1,
            match stripped_suffix(bare_type(field.return_type@), "_mutation_response"@) {
                Some(base) => put_pair_of(found, base, field.typename@, 0),
                None => found,
            },
        )
    }
}

/// Whether the rows of a type may be read.
pub open spec fn has_rows(generated: GeneratedSchema, typename: Seq<char>) -> bool {
    match named(generated.object_types@, typename) {
        Some(object) => object.fields@.len() > 0,
        None => false,
    }
}

/// The objects with the responses of the tables from the `i`th on.
pub open spec fn with_responses(
    generated: GeneratedSchema,
    tables: Seq<(Seq<char>, Seq<char>)>,
    i: nat,
    objects: Seq<ObjectDefV>,
) -> Seq<ObjectDefV>
    decreases tables.len() - i,
{
    if i >= tables.len() {
        objects
    } else {
        let (base, row) = tables[i as int];
        with_responses(
            generated,
            tables,
            i + 1,
            put_object_of(objects, response_of(base, row, has_rows(generated, row))),
        )
    }
}

/// Every object type beside the roots.
pub open spec fn objects_of(generated: GeneratedSchema) -> Seq<ObjectDefV> {
    with_responses(
        generated,
        answered_tables(generated, 0, Seq::empty()),
        0,
        with_aggregates(generated, 0, row_types(generated, 0, Seq::empty())),
    )
}

fn counted(generated: &GeneratedSchema, typename: &str) -> (r: bool)
    ensures
        r == is_counted(*generated, typename@),
{
    let mut i: usize = 0;
    while i < generated.query_fields.len()
        invariant
            i <= generated.query_fields.len(),
            forall|j: int|
                0 <= j < i ==> !((#[trigger] generated.query_fields@[j]).aggregates
                    && !generated.query_fields@[j].is_by_pk && generated.query_fields@[j].typename@
                    == typename@),
        decreases generated.query_fields.len() - i,
    {
        let field = &generated.query_fields[i];
        if field.aggregates && !field.is_by_pk && same(&field.typename, typename) {
            assert(generated.query_fields@[i as int].aggregates);
            return true;
        }
        i += 1;
    }
    false
}

fn put_pair(found: &mut Vec<(String, String)>, key: String, value: String)
    ensures
        crate::projection::pairs(final(found)@) == put_pair_of(
            crate::projection::pairs(old(found)@),
            key@,
            value@,
            0,
        ),
{
    let ghost all = crate::projection::pairs(found@);
    let ghost k = key@;
    let ghost v = value@;
    let mut i: usize = 0;
    while i < found.len()
        invariant
            i <= found.len(),
            all == crate::projection::pairs(found@),
            all == crate::projection::pairs(old(found)@),
            k == key@,
            v == value@,
            put_pair_of(all, k, v, 0) == put_pair_of(all, k, v, i as nat),
        decreases found.len() - i,
    {
        assert(all[i as int].0 == found@[i as int].0@);
        if same(&found[i].0, &key) {
            found.set(i, (key, value));
            assert(crate::projection::pairs(found@) =~= all.update(i as int, (k, v)));
            return;
        }
        i += 1;
    }
    crate::projection::push_pair(found, key, value);
}

fn collect_answered(generated: &GeneratedSchema) -> (r: Vec<(String, String)>)
    ensures
        crate::projection::pairs(r@) == answered_tables(*generated, 0, Seq::empty()),
{
    let mut found: Vec<(String, String)> = Vec::new();
    assert(crate::projection::pairs(found@) =~= Seq::<(Seq<char>, Seq<char>)>::empty());
    let mut i: usize = 0;
    while i < generated.mutation_fields.len()
        invariant
            i <= generated.mutation_fields.len(),
            answered_tables(*generated, 0, Seq::empty()) == answered_tables(
                *generated,
                i as nat,
                crate::projection::pairs(found@),
            ),
        decreases generated.mutation_fields.len() - i,
    {
        let field = &generated.mutation_fields[i];
        let bare = bare_type_text(&field.return_type);
        if let Some(base) = strip_suffix(&bare, "_mutation_response") {
            put_pair(&mut found, owned(base), field.typename.clone());
        }
        i += 1;
    }
    found
}

/// Every object type beside the roots: rows, numbers about them, and what
/// bulk writes answer.
pub fn schema_objects(generated: &GeneratedSchema) -> (r: Vec<ObjectDef>)
    ensures
        object_defs(r@) == objects_of(*generated),
{
    let mut objects = no_object_defs();
    let mut i: usize = 0;
    while i < generated.object_types.len()
        invariant
            i <= generated.object_types.len(),
            row_types(*generated, 0, Seq::empty()) == row_types(
                *generated,
                i as nat,
                object_defs(objects@),
            ),
        decreases generated.object_types.len() - i,
    {
        let object = &generated.object_types[i];
        if object.fields.len() > 0 {
            let none: Vec<RelationshipField> = Vec::new();
            let relationships: &Vec<RelationshipField> = match crate::catalog::relationships_of(
                &generated.relationship_fields,
                &object.name,
            ) {
                Some(fields) => fields,
                None => &none,
            };
            assert(relationships@ =~= relationships_in(*generated, object.name@));
            let entity = find_named(&generated.federation_entities, &object.name);
            put_object(&mut objects, create_object_type(object, relationships, entity));
        }
        i += 1;
    }
    let ghost rows = object_defs(objects@);
    let mut k: usize = 0;
    while k < generated.object_types.len()
        invariant
            k <= generated.object_types.len(),
            with_aggregates(*generated, 0, rows) == with_aggregates(
                *generated,
                k as nat,
                object_defs(objects@),
            ),
        decreases generated.object_types.len() - k,
    {
        let object = &generated.object_types[k];
        if object.fields.len() > 0 || counted(generated, &object.name) {
            put_objects(&mut objects, create_aggregate_types(&object.local_name, object));
        }
        k += 1;
    }
    let ghost numbers = object_defs(objects@);
    let tables = collect_answered(generated);
    let ghost all = crate::projection::pairs(tables@);
    let mut n: usize = 0;
    while n < tables.len()
        invariant
            n <= tables.len(),
            all == crate::projection::pairs(tables@),
            with_responses(*generated, all, 0, numbers) == with_responses(
                *generated,
                all,
                n as nat,
                object_defs(objects@),
            ),
        decreases tables.len() - n,
    {
        assert(all[n as int] == (tables@[n as int].0@, tables@[n as int].1@));
        let returning = match find_named(&generated.object_types, &tables[n].1) {
            Some(object) => object.fields.len() > 0,
            None => false,
        };
        put_object(
            &mut objects,
            create_mutation_response_type(&tables[n].0, &tables[n].1, returning),
        );
        n += 1;
    }
    objects
}

// ---------------------------------------------------------------------------
// The schema
// ---------------------------------------------------------------------------

/// A whole schema.
pub struct SchemaDef {
    pub query: ObjectDef,
    pub mutation: Option<ObjectDef>,
    pub subscription: Option<ObjectDef>,
    pub objects: Vec<ObjectDef>,
    pub inputs: Vec<InputDef>,
    pub enums: Vec<EnumDef>,
    pub scalars: Vec<String>,
    /// Whether other services resolve its types.
    pub federated: bool,
}

/// What a [`SchemaDef`] holds.
#[verifier::ext_equal]
pub struct SchemaDefV {
    pub query: ObjectDefV,
    pub mutation: Option<ObjectDefV>,
    pub subscription: Option<ObjectDefV>,
    pub objects: Seq<ObjectDefV>,
    pub inputs: Seq<InputDefV>,
    pub enums: Seq<EnumDefV>,
    pub scalars: Seq<Seq<char>>,
    pub federated: bool,
}

/// What an optional object holds.
pub open spec fn object_opt(o: Option<ObjectDef>) -> Option<ObjectDefV> {
    match o {
        Some(object) => Some(object@),
        None => None,
    }
}

impl View for SchemaDef {
    type V = SchemaDefV;

    open spec fn view(&self) -> SchemaDefV {
        SchemaDefV {
            query: self.query@,
            mutation: object_opt(self.mutation),
            subscription: object_opt(self.subscription),
            objects: object_defs(self.objects@),
            inputs: input_defs(self.inputs@),
            enums: enum_defs(self.enums@),
            scalars: texts(self.scalars@),
            federated: self.federated,
        }
    }
}

/// Whether anything can be written: a table, or through a function with
/// effects.
pub open spec fn has_mutations(generated: GeneratedSchema) -> bool {
    generated.mutation_fields@.len() > 0 || exists|i: int|
        0 <= i < generated.function_fields@.len()
            && (#[trigger] generated.function_fields@[i]).volatile
}

fn any_mutation(generated: &GeneratedSchema) -> (r: bool)
    ensures
        r == has_mutations(*generated),
{
    if generated.mutation_fields.len() > 0 {
        return true;
    }
    let mut i: usize = 0;
    while i < generated.function_fields.len()
        invariant
            i <= generated.function_fields.len(),
            forall|j: int|
                0 <= j < i ==> !(#[trigger] generated.function_fields@[j]).volatile,
        decreases generated.function_fields.len() - i,
    {
        if generated.function_fields[i].volatile {
            return true;
        }
        i += 1;
    }
    false
}

/// The root types' names: the conventional ones where other services compose
/// the schema, since they know no others.
pub open spec fn root_name(federated: bool, conventional: Seq<char>, own: Seq<char>) -> Seq<char> {
    if federated {
        conventional
    } else {
        own
    }
}

/// A root with its functions.
pub open spec fn with_root_functions(root: ObjectDefV, generated: GeneratedSchema, volatile: bool) -> ObjectDefV {
    ObjectDefV { fields: with_functions(generated, volatile, 0, root.fields), ..root }
}

/// The input types of a schema, beside those of its filters and orderings.
pub open spec fn inputs_of(generated: GeneratedSchema, names: NameOverrides) -> Seq<InputDefV> {
    let keys = with_key_inputs(generated, names, 0, Seq::empty());
    let writes = with_write_inputs(generated, names, 0, keys);
    let functions = with_function_inputs(generated, 0, writes);
    let relationships = with_relationship_inputs(generated, 0, functions);
    let fields = with_field_inputs(generated, 0, relationships);
    let predicates = with_predicates(
        generated,
        targets_from(generated, 0, Seq::empty()),
        0,
        fields,
    );
    with_upsert_inputs(generated, 0, predicates)
}

/// The enums of a schema, beside those of its orderings.
pub open spec fn enums_of(generated: GeneratedSchema, names: NameOverrides) -> Seq<EnumDefV> {
    let predicates = with_predicate_enums(
        generated,
        targets_from(generated, 0, Seq::empty()),
        0,
        Seq::empty(),
    );
    let upserts = with_upsert_enums(generated, names, 0, predicates);
    with_table_enums(generated.enum_types@, 0, upserts)
}

/// A whole schema, from what one role may see. There is a mutation root only
/// where there is something to write, and a subscription root only where it
/// is asked for.
pub open spec fn schema_of(
    generated: GeneratedSchema,
    names: NameOverrides,
    subscriptions: bool,
) -> SchemaDefV {
    let federated = generated.enable_federation;
    SchemaDefV {
        query: with_root_functions(
            reading_root(
                generated,
                names,
                root_name(federated, "Query"@, "query_root"@),
                no_queries(),
            ),
            generated,
            false,
        ),
        mutation: if has_mutations(generated) {
            Some(
                with_root_functions(
                    writing_root(
                        generated,
                        names,
                        root_name(federated, "Mutation"@, "mutation_root"@),
                    ),
                    generated,
                    true,
                ),
            )
        } else {
            None
        },
        subscription: if subscriptions {
            Some(
                reading_root(
                    generated,
                    names,
                    root_name(federated, "Subscription"@, "subscription_root"@),
                    no_subscriptions(),
                ),
            )
        } else {
            None
        },
        objects: objects_of(generated),
        inputs: inputs_of(generated, names),
        enums: enums_of(generated, names),
        scalars: scalars_of(generated),
        federated,
    }
}

/// Build the whole schema from what one role may see.
pub fn build_dynamic_schema(
    generated: &GeneratedSchema,
    names: &NameOverrides,
    subscriptions: bool,
) -> (r: SchemaDef)
    ensures
        r@ == schema_of(*generated, *names, subscriptions),
{
    let federated = generated.enable_federation;
    let mut query = create_query_type(
        generated,
        if federated { "Query" } else { "query_root" },
        names,
    );
    add_function_fields(&mut query, generated, false);
    let mutation = if any_mutation(generated) {
        let mut root = create_mutation_type(
            generated,
            if federated { "Mutation" } else { "mutation_root" },
            names,
        );
        add_function_fields(&mut root, generated, true);
        Some(root)
    } else {
        None
    };
    let subscription = if subscriptions {
        Some(
            create_subscription_type(
                generated,
                if federated { "Subscription" } else { "subscription_root" },
                names,
            ),
        )
    } else {
        None
    };
    let mut inputs = no_input_defs();
    let mut enums = no_enum_defs();
    add_key_inputs(generated, names, &mut inputs);
    add_write_inputs(generated, names, &mut inputs);
    add_function_inputs(generated, &mut inputs);
    add_relationship_inputs(generated, &mut inputs);
    add_field_inputs(generated, &mut inputs);
    add_predicates(generated, &mut inputs, &mut enums);
    add_upserts(generated, names, &mut inputs, &mut enums);
    add_table_enums(&generated.enum_types, &mut enums);
    SchemaDef {
        query,
        mutation,
        subscription,
        objects: schema_objects(generated),
        inputs,
        enums,
        scalars: schema_scalars(generated),
        federated,
    }
}

} // verus!

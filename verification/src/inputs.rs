//! The input types and enums of a schema: what a write may say.

use crate::catalog::{column_behind, table_column_for, NameOverrides, RelationshipField};
use crate::generated::{
    any_document, any_number, bool_exp, bool_exp_type_name, derefs, insert_fields, insert_fields_of,
    jsonb_operator_input, key_arguments, key_arguments_from, leaf_scalar_name, leaf_text,
    operator_input, update_fields, update_fields_of, update_inputs, write_type_ref, written_type,
    GeneratedSchema, GraphQLField, GraphQLType, MutationField, TableObjectType,
};
use crate::lookup::named;
use crate::mutate::MutationType;
use crate::roots::{add_operator_arguments, document_operators, operator_arguments};
use crate::schema_def::{
    arguments, input_defs, no_arguments, optional, optional_list, plain_argument, push_argument,
    push_input_def, required, required_list, Argument, ArgumentV, InputDef, InputDefV, TypeRef,
    TypeRefV,
};
use crate::text::{cat2, cat3, cat5, contains_text, has_text, no_texts, push_text, same, texts};
use vstd::prelude::*;

verus! {

// ---------------------------------------------------------------------------
// Inputs by name
// ---------------------------------------------------------------------------

/// Where an input of a name stands, or past the end.
pub open spec fn input_place(s: Seq<InputDefV>, name: Seq<char>, i: nat) -> nat
    decreases s.len() - i,
{
    if i >= s.len() {
        i
    } else if s[i as int].name == name {
        i
    } else {
        input_place(s, name, i + 1)
    }
}

/// Inputs with one more: in place of the one of its name, or else last.
pub open spec fn put_input_of(s: Seq<InputDefV>, input: InputDefV) -> Seq<InputDefV> {
    let k = input_place(s, input.name, 0);
    if k < s.len() {
        s.update(k as int, input)
    } else {
        s.push(input)
    }
}

/// Adds an input, in place of the one of its name.
pub fn put_input(inputs: &mut Vec<InputDef>, input: InputDef)
    ensures
        input_defs(final(inputs)@) == put_input_of(input_defs(old(inputs)@), input@),
{
    let ghost all = input_defs(inputs@);
    let ghost added = input@;
    let mut i: usize = 0;
    while i < inputs.len()
        invariant
            i <= inputs.len(),
            all == input_defs(inputs@),
            all == input_defs(old(inputs)@),
            added == input@,
            input_place(all, added.name, 0) == input_place(all, added.name, i as nat),
        decreases inputs.len() - i,
    {
        assert(all[i as int].name == inputs@[i as int].name@);
        if same(&inputs[i].name, &input.name) {
            let ghost before = inputs@;
            inputs.set(i, input);
            assert(input_defs(inputs@) =~= all.update(i as int, added));
            return;
        }
        i += 1;
    }
    push_input_def(inputs, input);
}

// ---------------------------------------------------------------------------
// Keys
// ---------------------------------------------------------------------------

/// The key of one row as one object.
pub open spec fn key_input(generated: GeneratedSchema, names: NameOverrides, field: MutationField) -> InputDefV {
    InputDefV {
        name: field.local_typename@ + "_pk_columns_input"@,
        description: "The primary key of one "@ + field.local_typename@ + " row."@,
        fields: key_arguments_from(
            names,
            generated.pg_types@,
            field.schema_name@,
            field.table_name@,
            field.pk_columns@,
            0,
            Seq::empty(),
        ),
    }
}

/// The inputs with those of the keys of by-key updates from the `i`th on.
pub open spec fn with_key_inputs(
    generated: GeneratedSchema,
    names: NameOverrides,
    i: nat,
    inputs: Seq<InputDefV>,
) -> Seq<InputDefV>
    decreases generated.mutation_fields@.len() - i,
{
    if i >= generated.mutation_fields@.len() {
        inputs
    } else {
        let field = generated.mutation_fields@[i as int];
        with_key_inputs(
            generated,
            names,
            i + 1,
            if field.mutation_type is UpdateByPk && field.pk_columns@.len() > 0 {
                put_input_of(inputs, key_input(generated, names, field))
            } else {
                inputs
            },
        )
    }
}

/// Adds the inputs of the keys of by-key updates.
pub fn add_key_inputs(generated: &GeneratedSchema, names: &NameOverrides, inputs: &mut Vec<InputDef>)
    ensures
        input_defs(final(inputs)@) == with_key_inputs(
            *generated,
            *names,
            0,
            input_defs(old(inputs)@),
        ),
{
    let mut i: usize = 0;
    while i < generated.mutation_fields.len()
        invariant
            i <= generated.mutation_fields.len(),
            with_key_inputs(*generated, *names, 0, input_defs(old(inputs)@)) == with_key_inputs(
                *generated,
                *names,
                i as nat,
                input_defs(inputs@),
            ),
        decreases generated.mutation_fields.len() - i,
    {
        let field = &generated.mutation_fields[i];
        if matches!(field.mutation_type, MutationType::UpdateByPk) && field.pk_columns.len() > 0 {
            let input = InputDef {
                name: cat2(&field.local_typename, "_pk_columns_input"),
                description: cat3("The primary key of one ", &field.local_typename, " row."),
                fields: key_arguments(
                    names,
                    &generated.pg_types,
                    &field.schema_name,
                    &field.table_name,
                    &field.pk_columns,
                ),
            };
            put_input(inputs, input);
        }
        i += 1;
    }
}

// ---------------------------------------------------------------------------
// Inserts
// ---------------------------------------------------------------------------

/// Whether a type of that name can be inserted into.
pub open spec fn type_insertable(generated: GeneratedSchema, typename: Seq<char>) -> bool {
    exists|i: int|
        0 <= i < generated.object_types@.len() && (#[trigger] generated.object_types@[i]).name@
            == typename && generated.object_types@[i].insertable
}

fn is_type_insertable(generated: &GeneratedSchema, typename: &str) -> (r: bool)
    ensures
        r == type_insertable(*generated, typename@),
{
    let mut i: usize = 0;
    while i < generated.object_types.len()
        invariant
            i <= generated.object_types.len(),
            forall|j: int|
                0 <= j < i ==> !((#[trigger] generated.object_types@[j]).name@ == typename@
                    && generated.object_types@[j].insertable),
        decreases generated.object_types.len() - i,
    {
        if same(&generated.object_types[i].name, typename) && generated.object_types[i].insertable {
            assert(generated.object_types@[i as int].name@ == typename@);
            return true;
        }
        i += 1;
    }
    false
}

/// The columns of an input, as they are written.
pub open spec fn written_columns(fields: Seq<GraphQLField>) -> Seq<ArgumentV> {
    fields.map_values(
        |field: GraphQLField| plain_argument(field.name@, written_type(field.graphql_type)),
    )
}

fn add_written_columns(fields: &Vec<&GraphQLField>, list: &mut Vec<Argument>)
    requires
        old(list)@.len() == 0,
    ensures
        arguments(final(list)@) == written_columns(derefs(fields@)),
{
    let ghost wanted = written_columns(derefs(fields@));
    let mut i: usize = 0;
    while i < fields.len()
        invariant
            i <= fields.len(),
            wanted == written_columns(derefs(fields@)),
            arguments(list@) =~= wanted.take(i as int),
        decreases fields.len() - i,
    {
        assert(derefs(fields@)[i as int] == *fields@[i as int]);
        push_argument(
            list,
            Argument::new(&fields[i].name, write_type_ref(&fields[i].graphql_type)),
        );
        i += 1;
    }
    assert(arguments(list@) =~= wanted);
}

/// The fields of an insert with those of the rows written beside it, from the
/// `i`th relationship on. Only a relationship whose other end can be written,
/// and whose name is not taken, has one.
pub open spec fn with_nested(
    generated: GeneratedSchema,
    relationships: Seq<RelationshipField>,
    i: nat,
    taken: Seq<Seq<char>>,
    list: Seq<ArgumentV>,
) -> Seq<ArgumentV>
    decreases relationships.len() - i,
{
    if i >= relationships.len() {
        list
    } else {
        let rel = relationships[i as int];
        if !type_insertable(generated, rel.target_type@) || has_text(taken, rel.name@) {
            with_nested(generated, relationships, i + 1, taken, list)
        } else {
            with_nested(
                generated,
                relationships,
                i + 1,
                taken.push(rel.name@),
                list.push(
                    plain_argument(
                        rel.name@,
                        optional(
                            rel.target_local_name@ + "_"@ + (if rel.is_list {
                                "arr_rel_insert_input"@
                            } else {
                                "obj_rel_insert_input"@
                            }),
                        ),
                    ),
                ),
            )
        }
    }
}

/// The names of fields.
pub open spec fn names_of(fields: Seq<GraphQLField>) -> Seq<Seq<char>> {
    fields.map_values(|f: GraphQLField| f.name@)
}

/// The columns of a new row, and the rows written beside it.
pub open spec fn insert_input(
    generated: GeneratedSchema,
    names: NameOverrides,
    object: TableObjectType,
    relationships: Seq<RelationshipField>,
) -> InputDefV {
    let fields = insert_fields_of(object, names);
    InputDefV {
        name: object.local_name@ + "_insert_input"@,
        description: "The columns of a new "@ + object.local_name@ + " row."@,
        fields: with_nested(
            generated,
            relationships,
            0,
            names_of(fields),
            written_columns(fields),
        ),
    }
}

fn build_insert_input(
    generated: &GeneratedSchema,
    names: &NameOverrides,
    object: &TableObjectType,
    relationships: &Vec<RelationshipField>,
) -> (r: InputDef)
    ensures
        r@ == insert_input(*generated, *names, *object, relationships@),
{
    let fields = insert_fields(object, names);
    let ghost known = insert_fields_of(*object, *names);
    let mut list = no_arguments();
    add_written_columns(&fields, &mut list);
    let mut taken = no_texts();
    let mut k: usize = 0;
    while k < fields.len()
        invariant
            k <= fields.len(),
            known == derefs(fields@),
            texts(taken@) =~= names_of(known).take(k as int),
        decreases fields.len() - k,
    {
        assert(derefs(fields@)[k as int] == *fields@[k as int]);
        push_text(&mut taken, fields[k].name.clone());
        k += 1;
    }
    assert(texts(taken@) =~= names_of(known));
    let ghost start = arguments(list@);
    let mut i: usize = 0;
    while i < relationships.len()
        invariant
            i <= relationships.len(),
            with_nested(*generated, relationships@, 0, names_of(known), start) == with_nested(
                *generated,
                relationships@,
                i as nat,
                texts(taken@),
                arguments(list@),
            ),
        decreases relationships.len() - i,
    {
        let rel = &relationships[i];
        if is_type_insertable(generated, &rel.target_type) && !contains_text(&taken, &rel.name) {
            push_text(&mut taken, rel.name.clone());
            let suffix: &str = if rel.is_list {
                "arr_rel_insert_input"
            } else {
                "obj_rel_insert_input"
            };
            push_argument(
                &mut list,
                Argument::new(
                    &rel.name,
                    TypeRef::named(&cat3(&rel.target_local_name, "_", suffix)),
                ),
            );
        }
        i += 1;
    }
    InputDef {
        name: cat2(&object.local_name, "_insert_input"),
        description: cat3("The columns of a new ", &object.local_name, " row."),
        fields: list,
    }
}

/// How a table's rows are written beside another's: the rows, and what to do
/// about one that is already there.
pub open spec fn nested_input(object: TableObjectType, list: bool) -> InputDefV {
    let base = object.local_name@;
    let data = base + "_insert_input"@;
    let rows = seq![
        plain_argument(
            "data"@,
            if list {
                required_list(data)
            } else {
                required(data)
            },
        ),
    ];
    InputDefV {
        name: base + (if list {
            "_arr_rel_insert_input"@
        } else {
            "_obj_rel_insert_input"@
        }),
        description: if list {
            base + " rows written beside their parent."@
        } else {
            "One "@ + base + " row written beside its parent."@
        },
        fields: if object.table.unique_constraints@.len() > 0 {
            rows.push(plain_argument("on_conflict"@, optional(base + "_on_conflict"@)))
        } else {
            rows
        },
    }
}

fn build_nested_input(object: &TableObjectType, list: bool) -> (r: InputDef)
    ensures
        r@ == nested_input(*object, list),
{
    let base = &object.local_name;
    let data = cat2(base, "_insert_input");
    let mut fields = no_arguments();
    let ty = if list {
        TypeRef::named_nn_list_nn(&data)
    } else {
        TypeRef::named_nn(&data)
    };
    push_argument(&mut fields, Argument::new("data", ty));
    if object.table.unique_constraints.len() > 0 {
        push_argument(
            &mut fields,
            Argument::new("on_conflict", TypeRef::named(&cat2(base, "_on_conflict"))),
        );
    }
    assert(arguments(fields@) =~= nested_input(*object, list).fields);
    if list {
        InputDef {
            name: cat2(base, "_arr_rel_insert_input"),
            description: cat2(base, " rows written beside their parent."),
            fields,
        }
    } else {
        InputDef {
            name: cat2(base, "_obj_rel_insert_input"),
            description: cat3("One ", base, " row written beside its parent."),
            fields,
        }
    }
}

// ---------------------------------------------------------------------------
// Updates
// ---------------------------------------------------------------------------

/// The columns of a table to replace.
pub open spec fn set_input(object: TableObjectType, fields: Seq<GraphQLField>) -> InputDefV {
    InputDefV {
        name: object.local_name@ + "_set_input"@,
        description: "Columns of "@ + object.local_name@ + " to replace."@,
        fields: written_columns(fields),
    }
}

/// The fields that can be added to, from the `i`th on, after those in `list`.
pub open spec fn number_columns(fields: Seq<GraphQLField>, i: nat, list: Seq<ArgumentV>) -> Seq<
    ArgumentV,
>
    decreases fields.len() - i,
{
    if i >= fields.len() {
        list
    } else if fields[i as int].incrementable {
        number_columns(
            fields,
            i + 1,
            list.push(
                plain_argument(
                    fields[i as int].name@,
                    optional(leaf_text(fields[i as int].graphql_type)),
                ),
            ),
        )
    } else {
        number_columns(fields, i + 1, list)
    }
}

/// The columns of a table to add to.
pub open spec fn inc_input(object: TableObjectType, fields: Seq<GraphQLField>) -> InputDefV {
    InputDefV {
        name: object.local_name@ + "_inc_input"@,
        description: "Columns of "@ + object.local_name@ + " to add to."@,
        fields: number_columns(fields, 0, Seq::empty()),
    }
}

/// One of several updates: which rows, and what to write.
pub open spec fn updates_input(object: TableObjectType, number: bool, document: bool) -> InputDefV {
    let base = object.local_name@;
    let first = seq![
        plain_argument("where"@, required(bool_exp(base))),
        plain_argument("_set"@, optional(base + "_set_input"@)),
    ];
    let numbers = if number {
        first.push(plain_argument("_inc"@, optional(base + "_inc_input"@)))
    } else {
        first
    };
    InputDefV {
        name: base + "_updates"@,
        description: "One update to "@ + base + ": which rows, and what to write."@,
        fields: if document {
            numbers + operator_arguments(base)
        } else {
            numbers
        },
    }
}

/// The document columns, from the `i`th field on, each told with a type,
/// after those in `list`.
pub open spec fn document_columns(
    fields: Seq<GraphQLField>,
    i: nat,
    ty: TypeRefV,
    list: Seq<ArgumentV>,
) -> Seq<ArgumentV>
    decreases fields.len() - i,
{
    if i >= fields.len() {
        list
    } else if fields[i as int].graphql_type is Json {
        document_columns(fields, i + 1, ty, list.push(plain_argument(fields[i as int].name@, ty)))
    } else {
        document_columns(fields, i + 1, ty, list)
    }
}

/// The document columns of a table to apply an operator to.
pub open spec fn document_input(
    object: TableObjectType,
    fields: Seq<GraphQLField>,
    operator: Seq<char>,
    ty: TypeRefV,
) -> InputDefV {
    InputDefV {
        name: operator_input(object.local_name@, operator),
        description: "Columns of "@ + object.local_name@ + " to apply `"@ + operator + "` to."@,
        fields: document_columns(fields, 0, ty, Seq::empty()),
    }
}

/// The inputs of the document operators of a table.
pub open spec fn document_inputs(object: TableObjectType, fields: Seq<GraphQLField>) -> Seq<
    InputDefV,
> {
    Seq::new(
        document_operators().len(),
        |i: int|
            document_input(object, fields, document_operators()[i].0, document_operators()[i].1),
    )
}

/// The inputs of the updates of a table. A table with nothing to add to gets
/// no input for adding to it, and one with no document none for those.
pub open spec fn update_inputs_of(object: TableObjectType, names: NameOverrides) -> Seq<InputDefV> {
    let fields = update_fields_of(object, names);
    let number = any_number(fields);
    let document = any_document(fields);
    let first = seq![set_input(object, fields)];
    let numbers = if number {
        first.push(inc_input(object, fields))
    } else {
        first
    };
    let updates = numbers.push(updates_input(object, number, document));
    if document {
        updates + document_inputs(object, fields)
    } else {
        updates
    }
}

fn build_inc_input(object: &TableObjectType, fields: &Vec<&GraphQLField>) -> (r: InputDef)
    ensures
        r@ == inc_input(*object, derefs(fields@)),
{
    let mut list = no_arguments();
    let mut i: usize = 0;
    while i < fields.len()
        invariant
            i <= fields.len(),
            number_columns(derefs(fields@), 0, Seq::empty()) == number_columns(
                derefs(fields@),
                i as nat,
                arguments(list@),
            ),
        decreases fields.len() - i,
    {
        assert(derefs(fields@)[i as int] == *fields@[i as int]);
        if fields[i].incrementable {
            push_argument(
                &mut list,
                Argument::new(
                    &fields[i].name,
                    TypeRef::named(&leaf_scalar_name(&fields[i].graphql_type)),
                ),
            );
        }
        i += 1;
    }
    InputDef {
        name: cat2(&object.local_name, "_inc_input"),
        description: cat3("Columns of ", &object.local_name, " to add to."),
        fields: list,
    }
}

fn build_updates_input(object: &TableObjectType, number: bool, document: bool) -> (r: InputDef)
    ensures
        r@ == updates_input(*object, number, document),
{
    let base = &object.local_name;
    let mut list = no_arguments();
    push_argument(
        &mut list,
        Argument::new("where", TypeRef::named_nn(&bool_exp_type_name(base))),
    );
    push_argument(&mut list, Argument::new("_set", TypeRef::named(&cat2(base, "_set_input"))));
    if number {
        push_argument(
            &mut list,
            Argument::new("_inc", TypeRef::named(&cat2(base, "_inc_input"))),
        );
    }
    if document {
        add_operator_arguments(&mut list, base);
    }
    assert(arguments(list@) =~= updates_input(*object, number, document).fields);
    InputDef {
        name: cat2(base, "_updates"),
        description: cat3("One update to ", base, ": which rows, and what to write."),
        fields: list,
    }
}

fn add_document_input(
    object: &TableObjectType,
    fields: &Vec<&GraphQLField>,
    operator: &str,
    list_type: bool,
    scalar: &str,
    inputs: &mut Vec<InputDef>,
)
    ensures
        input_defs(final(inputs)@) == input_defs(old(inputs)@).push(
            document_input(
                *object,
                derefs(fields@),
                operator@,
                if list_type {
                    optional_list(scalar@)
                } else {
                    optional(scalar@)
                },
            ),
        ),
{
    let ghost ty = if list_type {
        optional_list(scalar@)
    } else {
        optional(scalar@)
    };
    let mut list = no_arguments();
    let mut i: usize = 0;
    while i < fields.len()
        invariant
            i <= fields.len(),
            ty == (if list_type {
                optional_list(scalar@)
            } else {
                optional(scalar@)
            }),
            document_columns(derefs(fields@), 0, ty, Seq::empty()) == document_columns(
                derefs(fields@),
                i as nat,
                ty,
                arguments(list@),
            ),
        decreases fields.len() - i,
    {
        assert(derefs(fields@)[i as int] == *fields@[i as int]);
        if matches!(&fields[i].graphql_type, GraphQLType::Json) {
            let told = if list_type {
                TypeRef::named_nn_list(scalar)
            } else {
                TypeRef::named(scalar)
            };
            push_argument(&mut list, Argument::new(&fields[i].name, told));
        }
        i += 1;
    }
    let input = InputDef {
        name: jsonb_operator_input(&object.local_name, operator),
        description: cat5("Columns of ", &object.local_name, " to apply `", operator, "` to."),
        fields: list,
    };
    push_input_def(inputs, input);
}

fn add_update_inputs(object: &TableObjectType, names: &NameOverrides, inputs: &mut Vec<InputDef>)
    ensures
        input_defs(final(inputs)@) == input_defs(old(inputs)@) + update_inputs_of(
            *object,
            *names,
        ),
{
    let ghost before = input_defs(inputs@);
    let fields = update_fields(object, names);
    let ghost known = update_fields_of(*object, *names);
    let (number, document) = update_inputs(object, names);
    let mut list = no_arguments();
    add_written_columns(&fields, &mut list);
    let set = InputDef {
        name: cat2(&object.local_name, "_set_input"),
        description: cat3("Columns of ", &object.local_name, " to replace."),
        fields: list,
    };
    push_input_def(inputs, set);
    if number {
        push_input_def(inputs, build_inc_input(object, &fields));
    }
    push_input_def(inputs, build_updates_input(object, number, document));
    if document {
        add_document_input(object, &fields, "_append", false, "jsonb", inputs);
        add_document_input(object, &fields, "_delete_at_path", true, "String", inputs);
        add_document_input(object, &fields, "_delete_elem", false, "Int", inputs);
        add_document_input(object, &fields, "_delete_key", false, "String", inputs);
        add_document_input(object, &fields, "_prepend", false, "jsonb", inputs);
    }
    assert(input_defs(inputs@) =~= before + update_inputs_of(*object, *names));
}

// ---------------------------------------------------------------------------
// Every table's writes
// ---------------------------------------------------------------------------

/// Whether a field is a real column of its table.
pub open spec fn is_column(object: TableObjectType, names: NameOverrides, field: GraphQLField) -> bool {
    object.table.column(
        column_behind(names, object.table.schema@, object.table.name@, field.name@),
    ) is Some
}

/// Whether anything of a type could be written by anyone.
pub open spec fn has_columns(object: TableObjectType, names: NameOverrides) -> bool {
    exists|i: int|
        0 <= i < object.writable_fields@.len() && is_column(
            object,
            names,
            #[trigger] object.writable_fields@[i],
        )
}

fn any_column(object: &TableObjectType, names: &NameOverrides) -> (r: bool)
    ensures
        r == has_columns(*object, *names),
{
    let mut i: usize = 0;
    while i < object.writable_fields.len()
        invariant
            i <= object.writable_fields.len(),
            forall|j: int|
                0 <= j < i ==> !is_column(*object, *names, #[trigger] object.writable_fields@[j]),
        decreases object.writable_fields.len() - i,
    {
        let column = table_column_for(names, &object.table, &object.writable_fields[i].name);
        if object.table.get_column(column).is_some() {
            assert(is_column(*object, *names, object.writable_fields@[i as int]));
            return true;
        }
        i += 1;
    }
    false
}

/// The relationships of a type, none where it has no entry.
pub open spec fn relationships_in(generated: GeneratedSchema, typename: Seq<char>) -> Seq<
    RelationshipField,
> {
    match crate::catalog::fields_of(generated.relationship_fields@, typename) {
        Some(fields) => fields@,
        None => Seq::empty(),
    }
}

/// The inputs that write one table.
pub open spec fn write_inputs_of(
    generated: GeneratedSchema,
    names: NameOverrides,
    object: TableObjectType,
) -> Seq<InputDefV> {
    if !has_columns(object, names) {
        Seq::empty()
    } else {
        let inserts = if object.insertable {
            seq![
                insert_input(
                    generated,
                    names,
                    object,
                    relationships_in(generated, object.name@),
                ),
                nested_input(object, false),
                nested_input(object, true),
            ]
        } else {
            Seq::empty()
        };
        if object.updatable {
            inserts + update_inputs_of(object, names)
        } else {
            inserts
        }
    }
}

fn add_table_inputs(
    generated: &GeneratedSchema,
    names: &NameOverrides,
    object: &TableObjectType,
    inputs: &mut Vec<InputDef>,
)
    ensures
        input_defs(final(inputs)@) == input_defs(old(inputs)@) + write_inputs_of(
            *generated,
            *names,
            *object,
        ),
{
    let ghost before = input_defs(inputs@);
    if any_column(object, names) {
        if object.insertable {
            let none: Vec<RelationshipField> = Vec::new();
            let relationships: &Vec<RelationshipField> = match crate::catalog::relationships_of(
                &generated.relationship_fields,
                &object.name,
            ) {
                Some(fields) => fields,
                None => &none,
            };
            assert(relationships@ =~= relationships_in(*generated, object.name@));
            push_input_def(inputs, build_insert_input(generated, names, object, relationships));
            push_input_def(inputs, build_nested_input(object, false));
            push_input_def(inputs, build_nested_input(object, true));
        }
        if object.updatable {
            add_update_inputs(object, names, inputs);
        }
    }
    assert(input_defs(inputs@) =~= before + write_inputs_of(*generated, *names, *object));
}

/// The inputs with those that write the tables from the `i`th on.
pub open spec fn with_write_inputs(
    generated: GeneratedSchema,
    names: NameOverrides,
    i: nat,
    inputs: Seq<InputDefV>,
) -> Seq<InputDefV>
    decreases generated.object_types@.len() - i,
{
    if i >= generated.object_types@.len() {
        inputs
    } else {
        with_write_inputs(
            generated,
            names,
            i + 1,
            inputs + write_inputs_of(generated, names, generated.object_types@[i as int]),
        )
    }
}

/// Adds the inputs that write every table.
pub fn add_write_inputs(generated: &GeneratedSchema, names: &NameOverrides, inputs: &mut Vec<InputDef>)
    ensures
        input_defs(final(inputs)@) == with_write_inputs(
            *generated,
            *names,
            0,
            input_defs(old(inputs)@),
        ),
{
    let mut i: usize = 0;
    while i < generated.object_types.len()
        invariant
            i <= generated.object_types.len(),
            with_write_inputs(*generated, *names, 0, input_defs(old(inputs)@))
                == with_write_inputs(*generated, *names, i as nat, input_defs(inputs@)),
        decreases generated.object_types.len() - i,
    {
        add_table_inputs(generated, names, &generated.object_types[i], inputs);
        i += 1;
    }
}

} // verus!

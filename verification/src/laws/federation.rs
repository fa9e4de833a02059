//! What other services are told of a schema, and what they are not.

use crate::catalog::{NameOverrides, RelationshipField};
use crate::entity::lookups_from;
use crate::generated::{
    bare_type, insert_fields_of, FederationEntity, GeneratedSchema, TableObjectType,
};
use crate::inputs::{
    key_input, names_of, put_input_of, relationships_in, type_insertable, with_key_inputs,
    with_nested, with_write_inputs, write_inputs_of, written_columns,
};
use crate::laws::schema::{field_place, law_placing_inserts};
use crate::lookup::named;
use crate::object_types::{
    aggregate_types_of, column_field, field_names, function_type, functions_type, over_type,
    related_field, related_numbers, response_of, row_type, with_columns, with_relationships,
};
use crate::roots::{
    function_numbers_field, function_rows_field, no_queries, numbers_field, reading_fields,
    reading_root, root_taken, rows_field, with_functions, writing_field, writing_fields,
    writing_root,
};
use crate::schema::{
    answered_tables, argument_scalars, boolean_columns, computed_scalars, constraint_enum, enums_of,
    field_scalars, function_input, function_scalars, has_rows, inputs_of, is_counted, local_name_of,
    object_place, object_scalars, objects_of, on_conflict_input, predicate_enum, predicate_inputs,
    put_all_of, put_object_of, put_pair_of, related_scalars, relationship_scalars,
    row_function_scalars, row_types, scalars_of, schema_of, target_type_from, target_type_in,
    targets_from, targets_of, update_column_enum, with_aggregates, with_computed_inputs,
    with_field_inputs, with_function_inputs, with_name, with_predicate_enums, with_predicates,
    with_related_inputs, with_relationship_inputs, with_responses, with_upsert_enums,
    with_upsert_inputs, SchemaDefV,
};
use crate::schema_def::{
    optional, placed_field, plain_argument, ArgumentV, EnumDefV, FieldDefV, InputDefV, ObjectDefV,
};
use crate::text::{has_text, stripped_suffix};
use vstd::prelude::*;

verus! {

// ---------------------------------------------------------------------------
// Schemas that no other service composes
// ---------------------------------------------------------------------------

/// Whether no other service may answer any of these fields.
pub open spec fn unshared(fields: Seq<FieldDefV>) -> bool {
    forall|i: int| 0 <= i < fields.len() ==> !(#[trigger] fields[i]).shareable
}

/// Whether a type says nothing to other services: it has no key to be found by,
/// and shares no field.
pub open spec fn unfederated(object: ObjectDefV) -> bool {
    object.key is None && unshared(object.fields)
}

/// The same of every type.
pub open spec fn all_unfederated(objects: Seq<ObjectDefV>) -> bool {
    forall|i: int| 0 <= i < objects.len() ==> unfederated(#[trigger] objects[i])
}

proof fn lemma_placed_unshared(s: Seq<FieldDefV>, f: FieldDefV)
    requires
        unshared(s),
        !f.shareable,
    ensures
        unshared(placed_field(s, f)),
{
    law_placing_inserts(s, f);
    let k = field_place(s, f);
    let after = s.insert(k, f);
    assert forall|i: int| 0 <= i < after.len() implies !(#[trigger] after[i]).shareable by {
        if i < k {
            assert(after[i] == s[i]);
        } else if i > k {
            assert(after[i] == s[i - 1]);
        }
    }
}

proof fn lemma_columns_unshared(object: TableObjectType, i: nat, fields: Seq<FieldDefV>)
    requires
        unshared(fields),
    ensures
        unshared(with_columns(object, i, false, fields)),
    decreases object.fields@.len() - i,
{
    if i < object.fields@.len() {
        let column = column_field(object, object.fields@[i as int], false);
        lemma_placed_unshared(fields, column);
        lemma_columns_unshared(object, i + 1, placed_field(fields, column));
    }
}

proof fn lemma_relationships_unshared(
    object: TableObjectType,
    relationships: Seq<RelationshipField>,
    i: nat,
    taken: Seq<Seq<char>>,
    fields: Seq<FieldDefV>,
)
    requires
        unshared(fields),
    ensures
        unshared(with_relationships(object, relationships, i, false, taken, fields)),
    decreases relationships.len() - i,
{
    if i < relationships.len() {
        let rel = relationships[i as int];
        if has_text(taken, rel.name@) {
            lemma_relationships_unshared(object, relationships, i + 1, taken, fields);
        } else {
            let held = taken.push(rel.name@);
            let row = related_field(object, rel, false);
            let related = placed_field(fields, row);
            let name = rel.name@ + "_aggregate"@;
            lemma_placed_unshared(fields, row);
            if rel.is_list && !has_text(held, name) {
                let numbers = related_numbers(object, rel, false);
                lemma_placed_unshared(related, numbers);
                lemma_relationships_unshared(
                    object,
                    relationships,
                    i + 1,
                    held.push(name),
                    placed_field(related, numbers),
                );
            } else {
                lemma_relationships_unshared(object, relationships, i + 1, held, related);
            }
        }
    }
}

/// A row type of a table that is no entity says nothing to other services.
pub proof fn law_no_entity_is_unfederated(
    object: TableObjectType,
    relationships: Seq<RelationshipField>,
)
    ensures
        unfederated(row_type(object, relationships, None)),
{
    lemma_columns_unshared(object, 0, Seq::empty());
    lemma_relationships_unshared(
        object,
        relationships,
        0,
        field_names(object.fields@),
        with_columns(object, 0, false, Seq::empty()),
    );
}

proof fn lemma_put_unfederated(s: Seq<ObjectDefV>, object: ObjectDefV)
    requires
        all_unfederated(s),
        unfederated(object),
    ensures
        all_unfederated(put_object_of(s, object)),
{
    let after = put_object_of(s, object);
    let k = object_place(s, object.name, 0) as int;
    assert forall|i: int| 0 <= i < after.len() implies unfederated(#[trigger] after[i]) by {
        if i != k && i < s.len() {
            assert(after[i] == s[i]);
        }
    }
}

proof fn lemma_put_all_unfederated(s: Seq<ObjectDefV>, more: Seq<ObjectDefV>, i: nat)
    requires
        all_unfederated(s),
        all_unfederated(more),
    ensures
        all_unfederated(put_all_of(s, more, i)),
    decreases more.len() - i,
{
    if i < more.len() {
        lemma_put_unfederated(s, more[i as int]);
        lemma_put_all_unfederated(put_object_of(s, more[i as int]), more, i + 1);
    }
}

proof fn lemma_row_types_unfederated(generated: GeneratedSchema, i: nat, objects: Seq<ObjectDefV>)
    requires
        generated.federation_entities@.len() == 0,
        all_unfederated(objects),
    ensures
        all_unfederated(row_types(generated, i, objects)),
    decreases generated.object_types@.len() - i,
{
    if i < generated.object_types@.len() {
        let object = generated.object_types@[i as int];
        assert(named(generated.federation_entities@, object.name@) is None);
        if object.fields@.len() == 0 {
            lemma_row_types_unfederated(generated, i + 1, objects);
        } else {
            let relationships = relationships_in(generated, object.name@);
            let row = row_type(object, relationships, None);
            law_no_entity_is_unfederated(object, relationships);
            lemma_put_unfederated(objects, row);
            lemma_row_types_unfederated(generated, i + 1, put_object_of(objects, row));
        }
    }
}

proof fn lemma_aggregate_types_unfederated(object: TableObjectType)
    ensures
        all_unfederated(aggregate_types_of(object.local_name@, object)),
{
    let base = object.local_name@;
    let types = aggregate_types_of(base, object);
    assert forall|k: int| 0 <= k < types.len() implies unfederated(#[trigger] types[k]) by {
        if 0 < k < types.len() - 1 {
            assert(types[k] == function_type(base, object.aggregates@[k - 1]));
        } else if k == types.len() - 1 {
            assert(types[k] == functions_type(base, object));
        } else {
            assert(types[k] == over_type(base, object));
        }
    }
}

proof fn lemma_aggregates_unfederated(generated: GeneratedSchema, i: nat, objects: Seq<ObjectDefV>)
    requires
        all_unfederated(objects),
    ensures
        all_unfederated(with_aggregates(generated, i, objects)),
    decreases generated.object_types@.len() - i,
{
    if i < generated.object_types@.len() {
        let object = generated.object_types@[i as int];
        if object.fields@.len() == 0 && !is_counted(generated, object.name@) {
            lemma_aggregates_unfederated(generated, i + 1, objects);
        } else {
            let more = aggregate_types_of(object.local_name@, object);
            lemma_aggregate_types_unfederated(object);
            lemma_put_all_unfederated(objects, more, 0);
            lemma_aggregates_unfederated(generated, i + 1, put_all_of(objects, more, 0));
        }
    }
}

proof fn lemma_responses_unfederated(
    generated: GeneratedSchema,
    tables: Seq<(Seq<char>, Seq<char>)>,
    i: nat,
    objects: Seq<ObjectDefV>,
)
    requires
        all_unfederated(objects),
    ensures
        all_unfederated(with_responses(generated, tables, i, objects)),
    decreases tables.len() - i,
{
    if i < tables.len() {
        let (base, row) = tables[i as int];
        let response = response_of(base, row, has_rows(generated, row));
        lemma_put_unfederated(objects, response);
        lemma_responses_unfederated(generated, tables, i + 1, put_object_of(objects, response));
    }
}

proof fn lemma_objects_unfederated(generated: GeneratedSchema)
    requires
        generated.federation_entities@.len() == 0,
    ensures
        all_unfederated(objects_of(generated)),
{
    let rows = row_types(generated, 0, Seq::empty());
    lemma_row_types_unfederated(generated, 0, Seq::empty());
    lemma_aggregates_unfederated(generated, 0, rows);
    lemma_responses_unfederated(
        generated,
        answered_tables(generated, 0, Seq::empty()),
        0,
        with_aggregates(generated, 0, rows),
    );
}

proof fn lemma_reading_unshared(
    generated: GeneratedSchema,
    names: NameOverrides,
    i: nat,
    fields: Seq<FieldDefV>,
)
    requires
        unshared(fields),
    ensures
        unshared(reading_fields(generated, names, i, fields)),
    decreases generated.query_fields@.len() - i,
{
    if i < generated.query_fields@.len() {
        let field = generated.query_fields@[i as int];
        let rows = if field.rows {
            placed_field(fields, rows_field(generated, names, field, i as usize))
        } else {
            fields
        };
        if field.rows {
            lemma_placed_unshared(fields, rows_field(generated, names, field, i as usize));
        }
        if !field.is_by_pk && field.aggregates {
            let numbers = numbers_field(field, i as usize);
            lemma_placed_unshared(rows, numbers);
            lemma_reading_unshared(generated, names, i + 1, placed_field(rows, numbers));
        } else {
            lemma_reading_unshared(generated, names, i + 1, rows);
        }
    }
}

proof fn lemma_writing_unshared(
    generated: GeneratedSchema,
    names: NameOverrides,
    i: nat,
    fields: Seq<FieldDefV>,
)
    requires
        unshared(fields),
    ensures
        unshared(writing_fields(generated, names, i, fields)),
    decreases generated.mutation_fields@.len() - i,
{
    if i < generated.mutation_fields@.len() {
        let field = writing_field(generated, names, i);
        lemma_placed_unshared(fields, field);
        lemma_writing_unshared(generated, names, i + 1, placed_field(fields, field));
    }
}

proof fn lemma_functions_unshared(
    generated: GeneratedSchema,
    volatile: bool,
    i: nat,
    fields: Seq<FieldDefV>,
)
    requires
        unshared(fields),
    ensures
        unshared(with_functions(generated, volatile, i, fields)),
    decreases generated.function_fields@.len() - i,
{
    if i < generated.function_fields@.len() {
        let function = generated.function_fields@[i as int];
        if function.volatile != volatile || root_taken(generated, volatile, function.name@) {
            lemma_functions_unshared(generated, volatile, i + 1, fields);
        } else {
            lemma_functions_unshared(
                generated,
                volatile,
                i + 1,
                fields.push(function_rows_field(function, i as usize)).push(
                    function_numbers_field(function, i as usize),
                ),
            );
        }
    }
}

/// Without federation nothing of it is in the schema, whatever the names say:
/// no type has a key to be found by, no field is shared, no entity is looked
/// up, and the roots have their own names.
pub proof fn law_without_federation_nothing_is_federated(
    generated: GeneratedSchema,
    names: NameOverrides,
    subscriptions: bool,
)
    requires
        !generated.enable_federation,
        generated.federation_entities@.len() == 0,
    ensures
        ({
            let schema = schema_of(generated, names, subscriptions);
            &&& !schema.federated
            &&& all_unfederated(schema.objects)
            &&& unfederated(schema.query)
            &&& schema.query.name == "query_root"@
            &&& schema.mutation is Some ==> unfederated(schema.mutation->0)
                && schema.mutation->0.name == "mutation_root"@
            &&& schema.subscription is Some ==> unfederated(schema.subscription->0)
                && schema.subscription->0.name == "subscription_root"@
            &&& lookups_from(generated, names, 0, Seq::empty()).len() == 0
        }),
{
    lemma_objects_unfederated(generated);
    lemma_reading_unshared(generated, names, 0, Seq::empty());
    lemma_functions_unshared(
        generated,
        false,
        0,
        reading_root(generated, names, "query_root"@, no_queries()).fields,
    );
    lemma_writing_unshared(generated, names, 0, Seq::empty());
    lemma_functions_unshared(
        generated,
        true,
        0,
        writing_fields(generated, names, 0, Seq::empty()),
    );
}

// ---------------------------------------------------------------------------
// What entities change
// ---------------------------------------------------------------------------

/// Whether two schemas are built from the same but for their entities.
pub open spec fn but_for_entities(a: GeneratedSchema, b: GeneratedSchema) -> bool {
    a == (GeneratedSchema { federation_entities: a.federation_entities, ..b })
}

/// A field without its mark for other services.
pub open spec fn unmarked_field(f: FieldDefV) -> FieldDefV {
    FieldDefV { shareable: false, ..f }
}

/// Fields without their marks for other services.
pub open spec fn unmarked_fields(fields: Seq<FieldDefV>) -> Seq<FieldDefV> {
    fields.map_values(|f: FieldDefV| unmarked_field(f))
}

/// A type without its key and marks for other services.
pub open spec fn unmarked(object: ObjectDefV) -> ObjectDefV {
    ObjectDefV { key: None, fields: unmarked_fields(object.fields), ..object }
}

/// Types without their keys and marks for other services.
pub open spec fn all_unmarked(objects: Seq<ObjectDefV>) -> Seq<ObjectDefV> {
    objects.map_values(|o: ObjectDefV| unmarked(o))
}

proof fn lemma_placed_unmarked(s: Seq<FieldDefV>, f: FieldDefV)
    ensures
        unmarked_fields(placed_field(s, f)) == placed_field(unmarked_fields(s), unmarked_field(f)),
    decreases s.len(),
{
    let t = unmarked_fields(s);
    let g = unmarked_field(f);
    if s.len() == 0 {
        assert(unmarked_fields(seq![f]) =~= seq![g]);
    } else {
        assert(t.last() == unmarked_field(s.last()));
        assert(t.drop_last() =~= unmarked_fields(s.drop_last()));
        lemma_placed_unmarked(s.drop_last(), f);
        assert(unmarked_fields(s.push(f)) =~= t.push(g));
        let front = placed_field(s.drop_last(), f);
        assert(unmarked_fields(front.push(s.last())) =~= unmarked_fields(front).push(t.last()));
    }
}

proof fn lemma_columns_unmarked(
    object: TableObjectType,
    i: nat,
    shared: bool,
    fields: Seq<FieldDefV>,
)
    ensures
        unmarked_fields(with_columns(object, i, shared, fields)) == with_columns(
            object,
            i,
            false,
            unmarked_fields(fields),
        ),
    decreases object.fields@.len() - i,
{
    if i < object.fields@.len() {
        let column = column_field(object, object.fields@[i as int], shared);
        lemma_placed_unmarked(fields, column);
        lemma_columns_unmarked(object, i + 1, shared, placed_field(fields, column));
    }
}

proof fn lemma_relationships_unmarked(
    object: TableObjectType,
    relationships: Seq<RelationshipField>,
    i: nat,
    shared: bool,
    taken: Seq<Seq<char>>,
    fields: Seq<FieldDefV>,
)
    ensures
        unmarked_fields(with_relationships(object, relationships, i, shared, taken, fields))
            == with_relationships(
            object,
            relationships,
            i,
            false,
            taken,
            unmarked_fields(fields),
        ),
    decreases relationships.len() - i,
{
    if i < relationships.len() {
        let rel = relationships[i as int];
        if has_text(taken, rel.name@) {
            lemma_relationships_unmarked(object, relationships, i + 1, shared, taken, fields);
        } else {
            let held = taken.push(rel.name@);
            let row = related_field(object, rel, shared);
            let related = placed_field(fields, row);
            let name = rel.name@ + "_aggregate"@;
            lemma_placed_unmarked(fields, row);
            if rel.is_list && !has_text(held, name) {
                let numbers = related_numbers(object, rel, shared);
                lemma_placed_unmarked(related, numbers);
                lemma_relationships_unmarked(
                    object,
                    relationships,
                    i + 1,
                    shared,
                    held.push(name),
                    placed_field(related, numbers),
                );
            } else {
                lemma_relationships_unmarked(
                    object,
                    relationships,
                    i + 1,
                    shared,
                    held,
                    related,
                );
            }
        }
    }
}

/// Being an entity changes nothing of a row type but its key and marks.
pub proof fn law_entities_are_marked_row_types(
    object: TableObjectType,
    relationships: Seq<RelationshipField>,
    entity: Option<FederationEntity>,
)
    ensures
        unmarked(row_type(object, relationships, entity)) == row_type(object, relationships, None),
{
    let shared = entity is Some && entity->0.shared;
    let none = Seq::<FieldDefV>::empty();
    assert(unmarked_fields(none) =~= none);
    lemma_columns_unmarked(object, 0, shared, none);
    lemma_relationships_unmarked(
        object,
        relationships,
        0,
        shared,
        field_names(object.fields@),
        with_columns(object, 0, shared, none),
    );
}

proof fn lemma_place_unmarked(s: Seq<ObjectDefV>, name: Seq<char>, i: nat)
    ensures
        object_place(all_unmarked(s), name, i) == object_place(s, name, i),
    decreases s.len() - i,
{
    if i < s.len() {
        lemma_place_unmarked(s, name, i + 1);
    }
}

proof fn lemma_put_unmarked(s: Seq<ObjectDefV>, object: ObjectDefV)
    ensures
        all_unmarked(put_object_of(s, object)) == put_object_of(all_unmarked(s), unmarked(object)),
{
    lemma_place_unmarked(s, object.name, 0);
    assert(all_unmarked(put_object_of(s, object)) =~= put_object_of(
        all_unmarked(s),
        unmarked(object),
    ));
}

proof fn lemma_put_all_unmarked(s: Seq<ObjectDefV>, more: Seq<ObjectDefV>, i: nat)
    ensures
        all_unmarked(put_all_of(s, more, i)) == put_all_of(all_unmarked(s), all_unmarked(more), i),
    decreases more.len() - i,
{
    if i < more.len() {
        lemma_put_unmarked(s, more[i as int]);
        lemma_put_all_unmarked(put_object_of(s, more[i as int]), more, i + 1);
    }
}

proof fn lemma_unfederated_unmarked(object: ObjectDefV)
    requires
        unfederated(object),
    ensures
        unmarked(object) == object,
{
    assert forall|i: int| 0 <= i < object.fields.len() implies unmarked_fields(object.fields)[i]
        == object.fields[i] by {
        assert(!object.fields[i].shareable);
    }
    assert(unmarked_fields(object.fields) =~= object.fields);
}

proof fn lemma_all_unfederated_unmarked(objects: Seq<ObjectDefV>)
    requires
        all_unfederated(objects),
    ensures
        all_unmarked(objects) == objects,
{
    assert forall|i: int| 0 <= i < objects.len() implies all_unmarked(objects)[i]
        == objects[i] by {
        lemma_unfederated_unmarked(objects[i]);
    }
    assert(all_unmarked(objects) =~= objects);
}

proof fn lemma_row_types_unmarked(
    a: GeneratedSchema,
    b: GeneratedSchema,
    i: nat,
    xs: Seq<ObjectDefV>,
    ys: Seq<ObjectDefV>,
)
    requires
        but_for_entities(a, b),
        all_unmarked(xs) == all_unmarked(ys),
    ensures
        all_unmarked(row_types(a, i, xs)) == all_unmarked(row_types(b, i, ys)),
    decreases a.object_types@.len() - i,
{
    if i < a.object_types@.len() {
        let object = a.object_types@[i as int];
        if object.fields@.len() == 0 {
            lemma_row_types_unmarked(a, b, i + 1, xs, ys);
        } else {
            let relationships = relationships_in(a, object.name@);
            let e = named(a.federation_entities@, object.name@);
            let f = named(b.federation_entities@, object.name@);
            law_entities_are_marked_row_types(object, relationships, e);
            law_entities_are_marked_row_types(object, relationships, f);
            lemma_put_unmarked(xs, row_type(object, relationships, e));
            lemma_put_unmarked(ys, row_type(object, relationships, f));
            lemma_row_types_unmarked(
                a,
                b,
                i + 1,
                put_object_of(xs, row_type(object, relationships, e)),
                put_object_of(ys, row_type(object, relationships, f)),
            );
        }
    }
}

proof fn lemma_aggregates_unmarked(a: GeneratedSchema, i: nat, objects: Seq<ObjectDefV>)
    ensures
        all_unmarked(with_aggregates(a, i, objects)) == with_aggregates(
            a,
            i,
            all_unmarked(objects),
        ),
    decreases a.object_types@.len() - i,
{
    if i < a.object_types@.len() {
        let object = a.object_types@[i as int];
        if object.fields@.len() == 0 && !is_counted(a, object.name@) {
            lemma_aggregates_unmarked(a, i + 1, objects);
        } else {
            let more = aggregate_types_of(object.local_name@, object);
            lemma_aggregate_types_unfederated(object);
            lemma_all_unfederated_unmarked(more);
            lemma_put_all_unmarked(objects, more, 0);
            lemma_aggregates_unmarked(a, i + 1, put_all_of(objects, more, 0));
        }
    }
}

proof fn lemma_responses_unmarked(
    a: GeneratedSchema,
    tables: Seq<(Seq<char>, Seq<char>)>,
    i: nat,
    objects: Seq<ObjectDefV>,
)
    ensures
        all_unmarked(with_responses(a, tables, i, objects)) == with_responses(
            a,
            tables,
            i,
            all_unmarked(objects),
        ),
    decreases tables.len() - i,
{
    if i < tables.len() {
        let (base, row) = tables[i as int];
        let response = response_of(base, row, has_rows(a, row));
        lemma_unfederated_unmarked(response);
        lemma_put_unmarked(objects, response);
        lemma_responses_unmarked(a, tables, i + 1, put_object_of(objects, response));
    }
}

proof fn lemma_objects_unmarked(a: GeneratedSchema, b: GeneratedSchema)
    requires
        but_for_entities(a, b),
    ensures
        all_unmarked(objects_of(a)) == all_unmarked(objects_of(b)),
{
    let none = Seq::<ObjectDefV>::empty();
    let tables = answered_tables(a, 0, Seq::empty());
    lemma_same_answered_tables(a, b, 0, Seq::empty());
    lemma_row_types_unmarked(a, b, 0, none, none);
    let (xs, ys) = (row_types(a, 0, none), row_types(b, 0, none));
    lemma_aggregates_unmarked(a, 0, xs);
    lemma_aggregates_unmarked(b, 0, ys);
    lemma_same_with_aggregates(a, b, 0, all_unmarked(xs));
    lemma_responses_unmarked(a, tables, 0, with_aggregates(a, 0, xs));
    lemma_responses_unmarked(b, tables, 0, with_aggregates(b, 0, ys));
    let counted = with_aggregates(a, 0, all_unmarked(xs));
    lemma_same_with_responses(a, b, tables, 0, counted);
}

proof fn lemma_same_with_function_inputs(
    a: GeneratedSchema,
    b: GeneratedSchema,
    i: nat,
    inputs: Seq<InputDefV>,
)
    requires
        but_for_entities(a, b),
    ensures
        with_function_inputs(a, i, inputs) == with_function_inputs(b, i, inputs),
    decreases a.function_fields@.len() - i,
{
    if i < a.function_fields@.len() {
        let function = a.function_fields@[i as int];
        lemma_same_with_function_inputs(
            a,
            b,
            i + 1,
            if function.arguments@.len() > 0 {
                inputs.push(function_input(function, a.pg_types@))
            } else {
                inputs
            },
        );
    }
}

proof fn lemma_same_with_relationship_inputs(
    a: GeneratedSchema,
    b: GeneratedSchema,
    i: nat,
    inputs: Seq<InputDefV>,
)
    requires
        but_for_entities(a, b),
    ensures
        with_relationship_inputs(a, i, inputs) == with_relationship_inputs(b, i, inputs),
    decreases a.relationship_fields@.len() - i,
{
    if i < a.relationship_fields@.len() {
        let entry = a.relationship_fields@[i as int];
        lemma_same_with_relationship_inputs(
            a,
            b,
            i + 1,
            with_related_inputs(
                local_name_of(a, entry.typename@),
                entry.fields@,
                0,
                a.pg_types@,
                inputs,
            ),
        );
    }
}

proof fn lemma_same_with_field_inputs(
    a: GeneratedSchema,
    b: GeneratedSchema,
    i: nat,
    inputs: Seq<InputDefV>,
)
    requires
        but_for_entities(a, b),
    ensures
        with_field_inputs(a, i, inputs) == with_field_inputs(b, i, inputs),
    decreases a.object_types@.len() - i,
{
    if i < a.object_types@.len() {
        let object = a.object_types@[i as int];
        lemma_same_with_field_inputs(
            a,
            b,
            i + 1,
            with_computed_inputs(
                object.local_name@,
                object.fields@,
                0,
                a.pg_types@,
                inputs,
            ),
        );
    }
}

proof fn lemma_same_targets_from(
    a: GeneratedSchema,
    b: GeneratedSchema,
    i: nat,
    found: Seq<Seq<char>>,
)
    requires
        but_for_entities(a, b),
    ensures
        targets_from(a, i, found) == targets_from(b, i, found),
    decreases a.relationship_fields@.len() - i,
{
    if i < a.relationship_fields@.len() {
        lemma_same_targets_from(
            a,
            b,
            i + 1,
            targets_of(a.relationship_fields@[i as int].fields@, 0, found),
        );
    }
}

proof fn lemma_same_target_type_from(
    a: GeneratedSchema,
    b: GeneratedSchema,
    i: nat,
    target: Seq<char>,
    found: Seq<char>,
)
    requires
        but_for_entities(a, b),
    ensures
        target_type_from(a, i, target, found) == target_type_from(b, i, target, found),
    decreases a.relationship_fields@.len() - i,
{
    if i < a.relationship_fields@.len() {
        lemma_same_target_type_from(
            a,
            b,
            i + 1,
            target,
            target_type_in(
                a.relationship_fields@[i as int].fields@,
                0,
                target,
                found,
            ),
        );
    }
}

proof fn lemma_same_with_predicates(
    a: GeneratedSchema,
    b: GeneratedSchema,
    targets: Seq<Seq<char>>,
    i: nat,
    inputs: Seq<InputDefV>,
)
    requires
        but_for_entities(a, b),
    ensures
        with_predicates(a, targets, i, inputs) == with_predicates(b, targets, i, inputs),
    decreases targets.len() - i,
{
    if i < targets.len() {
        let target = targets[i as int];
        let typename = target_type_from(a, 0, target, Seq::empty());
        lemma_same_target_type_from(a, b, 0, target, Seq::empty());
        lemma_same_with_predicates(
            a,
            b,
            targets,
            i + 1,
            match named(a.object_types@, typename) {
                Some(object) => inputs + predicate_inputs(
                    target,
                    boolean_columns(object, 0, Seq::empty()).len() > 0,
                ),
                None => inputs,
            },
        );
    }
}

proof fn lemma_same_with_predicate_enums(
    a: GeneratedSchema,
    b: GeneratedSchema,
    targets: Seq<Seq<char>>,
    i: nat,
    enums: Seq<EnumDefV>,
)
    requires
        but_for_entities(a, b),
    ensures
        with_predicate_enums(a, targets, i, enums) == with_predicate_enums(b, targets, i, enums),
    decreases targets.len() - i,
{
    if i < targets.len() {
        let target = targets[i as int];
        let typename = target_type_from(a, 0, target, Seq::empty());
        lemma_same_target_type_from(a, b, 0, target, Seq::empty());
        lemma_same_with_predicate_enums(
            a,
            b,
            targets,
            i + 1,
            match named(a.object_types@, typename) {
                Some(object) => {
                    let columns = boolean_columns(object, 0, Seq::empty());
                    if columns.len() > 0 {
                        enums.push(predicate_enum(target, "bool_and"@, columns)).push(
                            predicate_enum(target, "bool_or"@, columns),
                        )
                    } else {
                        enums
                    }
                },
                None => enums,
            },
        );
    }
}

proof fn lemma_same_with_upsert_inputs(
    a: GeneratedSchema,
    b: GeneratedSchema,
    i: nat,
    inputs: Seq<InputDefV>,
)
    requires
        but_for_entities(a, b),
    ensures
        with_upsert_inputs(a, i, inputs) == with_upsert_inputs(b, i, inputs),
    decreases a.object_types@.len() - i,
{
    if i < a.object_types@.len() {
        let object = a.object_types@[i as int];
        lemma_same_with_upsert_inputs(
            a,
            b,
            i + 1,
            if object.table.unique_constraints@.len() > 0 {
                inputs.push(on_conflict_input(object))
            } else {
                inputs
            },
        );
    }
}

proof fn lemma_same_with_upsert_enums(
    a: GeneratedSchema,
    b: GeneratedSchema,
    names: NameOverrides,
    i: nat,
    enums: Seq<EnumDefV>,
)
    requires
        but_for_entities(a, b),
    ensures
        with_upsert_enums(a, names, i, enums) == with_upsert_enums(b, names, i, enums),
    decreases a.object_types@.len() - i,
{
    if i < a.object_types@.len() {
        let object = a.object_types@[i as int];
        lemma_same_with_upsert_enums(
            a,
            b,
            names,
            i + 1,
            if object.table.unique_constraints@.len() > 0 {
                enums.push(constraint_enum(object)).push(update_column_enum(object, names))
            } else {
                enums
            },
        );
    }
}

proof fn lemma_same_object_scalars(
    a: GeneratedSchema,
    b: GeneratedSchema,
    i: nat,
    found: Seq<Seq<char>>,
)
    requires
        but_for_entities(a, b),
    ensures
        object_scalars(a, i, found) == object_scalars(b, i, found),
    decreases a.object_types@.len() - i,
{
    if i < a.object_types@.len() {
        let object = a.object_types@[i as int];
        lemma_same_object_scalars(
            a,
            b,
            i + 1,
            field_scalars(
                object.writable_fields@,
                0,
                field_scalars(object.fields@, 0, found),
            ),
        );
    }
}

proof fn lemma_same_function_scalars(
    a: GeneratedSchema,
    b: GeneratedSchema,
    i: nat,
    found: Seq<Seq<char>>,
)
    requires
        but_for_entities(a, b),
    ensures
        function_scalars(a, i, found) == function_scalars(b, i, found),
    decreases a.function_fields@.len() - i,
{
    if i < a.function_fields@.len() {
        lemma_same_function_scalars(
            a,
            b,
            i + 1,
            argument_scalars(
                a.function_fields@[i as int].arguments@,
                0,
                a.pg_types@,
                found,
            ),
        );
    }
}

proof fn lemma_same_row_function_scalars(
    a: GeneratedSchema,
    b: GeneratedSchema,
    i: nat,
    found: Seq<Seq<char>>,
)
    requires
        but_for_entities(a, b),
    ensures
        row_function_scalars(a, i, found) == row_function_scalars(b, i, found),
    decreases a.object_types@.len() - i,
{
    if i < a.object_types@.len() {
        lemma_same_row_function_scalars(
            a,
            b,
            i + 1,
            computed_scalars(
                a.object_types@[i as int].fields@,
                0,
                a.pg_types@,
                found,
            ),
        );
    }
}

proof fn lemma_same_relationship_scalars(
    a: GeneratedSchema,
    b: GeneratedSchema,
    i: nat,
    found: Seq<Seq<char>>,
)
    requires
        but_for_entities(a, b),
    ensures
        relationship_scalars(a, i, found) == relationship_scalars(b, i, found),
    decreases a.relationship_fields@.len() - i,
{
    if i < a.relationship_fields@.len() {
        lemma_same_relationship_scalars(
            a,
            b,
            i + 1,
            related_scalars(
                a.relationship_fields@[i as int].fields@,
                0,
                a.pg_types@,
                found,
            ),
        );
    }
}

proof fn lemma_same_with_aggregates(
    a: GeneratedSchema,
    b: GeneratedSchema,
    i: nat,
    objects: Seq<ObjectDefV>,
)
    requires
        but_for_entities(a, b),
    ensures
        with_aggregates(a, i, objects) == with_aggregates(b, i, objects),
    decreases a.object_types@.len() - i,
{
    if i < a.object_types@.len() {
        let object = a.object_types@[i as int];
        lemma_same_with_aggregates(
            a,
            b,
            i + 1,
            if object.fields@.len() == 0 && !is_counted(a, object.name@) {
                objects
            } else {
                put_all_of(objects, aggregate_types_of(object.local_name@, object), 0)
            },
        );
    }
}

proof fn lemma_same_answered_tables(
    a: GeneratedSchema,
    b: GeneratedSchema,
    i: nat,
    found: Seq<(Seq<char>, Seq<char>)>,
)
    requires
        but_for_entities(a, b),
    ensures
        answered_tables(a, i, found) == answered_tables(b, i, found),
    decreases a.mutation_fields@.len() - i,
{
    if i < a.mutation_fields@.len() {
        let field = a.mutation_fields@[i as int];
        lemma_same_answered_tables(
            a,
            b,
            i + 1,
            match stripped_suffix(bare_type(field.return_type@), "_mutation_response"@) {
                Some(base) => put_pair_of(found, base, field.typename@, 0),
                None => found,
            },
        );
    }
}

proof fn lemma_same_with_responses(
    a: GeneratedSchema,
    b: GeneratedSchema,
    tables: Seq<(Seq<char>, Seq<char>)>,
    i: nat,
    objects: Seq<ObjectDefV>,
)
    requires
        but_for_entities(a, b),
    ensures
        with_responses(a, tables, i, objects) == with_responses(b, tables, i, objects),
    decreases tables.len() - i,
{
    if i < tables.len() {
        let (base, row) = tables[i as int];
        lemma_same_with_responses(
            a,
            b,
            tables,
            i + 1,
            put_object_of(objects, response_of(base, row, has_rows(a, row))),
        );
    }
}

proof fn lemma_same_reading_fields(
    a: GeneratedSchema,
    b: GeneratedSchema,
    names: NameOverrides,
    i: nat,
    fields: Seq<FieldDefV>,
)
    requires
        but_for_entities(a, b),
    ensures
        reading_fields(a, names, i, fields) == reading_fields(b, names, i, fields),
    decreases a.query_fields@.len() - i,
{
    if i < a.query_fields@.len() {
        let field = a.query_fields@[i as int];
        let rows = if field.rows {
            placed_field(fields, rows_field(a, names, field, i as usize))
        } else {
            fields
        };
        lemma_same_reading_fields(
            a,
            b,
            names,
            i + 1,
            if !field.is_by_pk && field.aggregates {
                placed_field(rows, numbers_field(field, i as usize))
            } else {
                rows
            },
        );
    }
}

proof fn lemma_same_with_functions(
    a: GeneratedSchema,
    b: GeneratedSchema,
    volatile: bool,
    i: nat,
    fields: Seq<FieldDefV>,
)
    requires
        but_for_entities(a, b),
    ensures
        with_functions(a, volatile, i, fields) == with_functions(b, volatile, i, fields),
    decreases a.function_fields@.len() - i,
{
    if i < a.function_fields@.len() {
        let function = a.function_fields@[i as int];
        lemma_same_with_functions(
            a,
            b,
            volatile,
            i + 1,
            if function.volatile != volatile || root_taken(a, volatile, function.name@) {
                fields
            } else {
                fields.push(function_rows_field(function, i as usize)).push(
                    function_numbers_field(function, i as usize),
                )
            },
        );
    }
}

proof fn lemma_same_writing_fields(
    a: GeneratedSchema,
    b: GeneratedSchema,
    names: NameOverrides,
    i: nat,
    fields: Seq<FieldDefV>,
)
    requires
        but_for_entities(a, b),
    ensures
        writing_fields(a, names, i, fields) == writing_fields(b, names, i, fields),
    decreases a.mutation_fields@.len() - i,
{
    if i < a.mutation_fields@.len() {
        lemma_same_writing_fields(
            a,
            b,
            names,
            i + 1,
            placed_field(fields, writing_field(a, names, i)),
        );
    }
}

proof fn lemma_same_with_key_inputs(
    a: GeneratedSchema,
    b: GeneratedSchema,
    names: NameOverrides,
    i: nat,
    inputs: Seq<InputDefV>,
)
    requires
        but_for_entities(a, b),
    ensures
        with_key_inputs(a, names, i, inputs) == with_key_inputs(b, names, i, inputs),
    decreases a.mutation_fields@.len() - i,
{
    if i < a.mutation_fields@.len() {
        let field = a.mutation_fields@[i as int];
        lemma_same_with_key_inputs(
            a,
            b,
            names,
            i + 1,
            if field.mutation_type is UpdateByPk && field.pk_columns@.len() > 0 {
                put_input_of(inputs, key_input(a, names, field))
            } else {
                inputs
            },
        );
    }
}

proof fn lemma_same_with_nested(
    a: GeneratedSchema,
    b: GeneratedSchema,
    relationships: Seq<RelationshipField>,
    i: nat,
    taken: Seq<Seq<char>>,
    list: Seq<ArgumentV>,
)
    requires
        but_for_entities(a, b),
    ensures
        with_nested(a, relationships, i, taken, list) == with_nested(
            b,
            relationships,
            i,
            taken,
            list,
        ),
    decreases relationships.len() - i,
{
    if i < relationships.len() {
        let rel = relationships[i as int];
        if !type_insertable(a, rel.target_type@) || has_text(taken, rel.name@) {
            lemma_same_with_nested(a, b, relationships, i + 1, taken, list);
        } else {
            lemma_same_with_nested(
                a,
                b,
                relationships,
                i + 1,
                taken.push(rel.name@),
                list.push(
                    plain_argument(
                        rel.name@,
                        optional(
                            rel.target_local_name@ + "_"@ + (if rel.is_list {
                                "arr_rel_insert_input"@
                            } else {
                                "obj_rel_insert_input"@
                            }),
                        ),
                    ),
                ),
            );
        }
    }
}

proof fn lemma_same_with_write_inputs(
    a: GeneratedSchema,
    b: GeneratedSchema,
    names: NameOverrides,
    i: nat,
    inputs: Seq<InputDefV>,
)
    requires
        but_for_entities(a, b),
    ensures
        with_write_inputs(a, names, i, inputs) == with_write_inputs(b, names, i, inputs),
    decreases a.object_types@.len() - i,
{
    if i < a.object_types@.len() {
        let object = a.object_types@[i as int];
        let fields = insert_fields_of(object, names);
        lemma_same_with_nested(
            a,
            b,
            relationships_in(a, object.name@),
            0,
            names_of(fields),
            written_columns(fields),
        );
        lemma_same_with_write_inputs(
            a,
            b,
            names,
            i + 1,
            inputs + write_inputs_of(a, names, object),
        );
    }
}

proof fn lemma_same_inputs(a: GeneratedSchema, b: GeneratedSchema, names: NameOverrides)
    requires
        but_for_entities(a, b),
    ensures
        inputs_of(a, names) == inputs_of(b, names),
{
    let none = Seq::<InputDefV>::empty();
    let keys = with_key_inputs(a, names, 0, none);
    let writes = with_write_inputs(a, names, 0, keys);
    let functions = with_function_inputs(a, 0, writes);
    let relationships = with_relationship_inputs(a, 0, functions);
    let fields = with_field_inputs(a, 0, relationships);
    let targets = targets_from(a, 0, Seq::empty());
    lemma_same_with_key_inputs(a, b, names, 0, none);
    lemma_same_with_write_inputs(a, b, names, 0, keys);
    lemma_same_with_function_inputs(a, b, 0, writes);
    lemma_same_with_relationship_inputs(a, b, 0, functions);
    lemma_same_with_field_inputs(a, b, 0, relationships);
    lemma_same_targets_from(a, b, 0, Seq::empty());
    lemma_same_with_predicates(a, b, targets, 0, fields);
    lemma_same_with_upsert_inputs(a, b, 0, with_predicates(a, targets, 0, fields));
}

proof fn lemma_same_enums(a: GeneratedSchema, b: GeneratedSchema, names: NameOverrides)
    requires
        but_for_entities(a, b),
    ensures
        enums_of(a, names) == enums_of(b, names),
{
    let none = Seq::<EnumDefV>::empty();
    let targets = targets_from(a, 0, Seq::empty());
    lemma_same_targets_from(a, b, 0, Seq::empty());
    lemma_same_with_predicate_enums(a, b, targets, 0, none);
    lemma_same_with_upsert_enums(a, b, names, 0, with_predicate_enums(a, targets, 0, none));
}

proof fn lemma_same_scalars(a: GeneratedSchema, b: GeneratedSchema)
    requires
        but_for_entities(a, b),
    ensures
        scalars_of(a) == scalars_of(b),
{
    let none = Seq::<Seq<char>>::empty();
    let objects = with_name(object_scalars(a, 0, none), "JSON"@);
    let functions = function_scalars(a, 0, objects);
    let fields = row_function_scalars(a, 0, functions);
    lemma_same_object_scalars(a, b, 0, none);
    lemma_same_function_scalars(a, b, 0, objects);
    lemma_same_row_function_scalars(a, b, 0, functions);
    lemma_same_relationship_scalars(a, b, 0, fields);
}

/// Entities change nothing of a schema but the keys and marks of row types: its
/// roots, inputs, enums and scalars are the same whatever entities there are,
/// and so are its types but for these.
pub proof fn law_entities_mark_row_types_alone(
    a: GeneratedSchema,
    b: GeneratedSchema,
    names: NameOverrides,
    subscriptions: bool,
)
    requires
        but_for_entities(a, b),
    ensures
        ({
            let x = schema_of(a, names, subscriptions);
            let y = schema_of(b, names, subscriptions);
            &&& x == (SchemaDefV { objects: x.objects, ..y })
            &&& all_unmarked(x.objects) == all_unmarked(y.objects)
        }),
{
    lemma_objects_unmarked(a, b);
    lemma_same_inputs(a, b, names);
    lemma_same_enums(a, b, names);
    lemma_same_scalars(a, b);
    lemma_same_reading_fields(a, b, names, 0, Seq::empty());
    lemma_same_writing_fields(a, b, names, 0, Seq::empty());
    let reads = reading_root(a, names, Seq::empty(), no_queries());
    let writes = writing_root(a, names, Seq::empty());
    lemma_same_with_functions(a, b, false, 0, reads.fields);
    lemma_same_with_functions(a, b, true, 0, writes.fields);
}

/// Two schemas without entities that are otherwise built from the same are the
/// same to the letter.
pub proof fn law_no_entities_change_nothing(
    a: GeneratedSchema,
    b: GeneratedSchema,
    names: NameOverrides,
    subscriptions: bool,
)
    requires
        but_for_entities(a, b),
        a.federation_entities@.len() == 0,
        b.federation_entities@.len() == 0,
    ensures
        schema_of(a, names, subscriptions) == schema_of(b, names, subscriptions),
{
    law_entities_mark_row_types_alone(a, b, names, subscriptions);
    lemma_objects_unfederated(a);
    lemma_objects_unfederated(b);
    lemma_all_unfederated_unmarked(objects_of(a));
    lemma_all_unfederated_unmarked(objects_of(b));
}

} // verus!

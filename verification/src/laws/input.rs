//! Every input that an argument names is there.

use crate::catalog::{NameOverrides, RelationshipField};
use crate::generated::{
    any_document, any_number, operator_input, set_of, update_fields_of, GeneratedSchema,
    GraphQLField, PgType, TableObjectType,
};
use crate::inputs::{
    document_inputs, has_columns, input_place, key_input, put_input_of, update_inputs_of,
    with_key_inputs, with_write_inputs, write_inputs_of,
};
use crate::laws::schema::lemma_writable_source;
use crate::lookup::named;
use crate::roots::{document_operators, has_conflict, has_document, has_number};
use crate::schema::{
    boolean_columns, inputs_of, on_conflict_input, predicate_inputs, row_function_input,
    target_type_from, targets_from, with_computed_inputs, with_field_inputs, with_function_inputs,
    with_predicates, with_related_inputs, with_relationship_inputs, with_upsert_inputs,
};
use crate::schema_def::InputDefV;
use vstd::prelude::*;

verus! {

/// Whether some input has a name.
pub open spec fn has_input(s: Seq<InputDefV>, name: Seq<char>) -> bool {
    exists|i: int| 0 <= i < s.len() && (#[trigger] s[i]).name == name
}

proof fn lemma_appended(s: Seq<InputDefV>, more: Seq<InputDefV>, name: Seq<char>)
    ensures
        has_input(s + more, name) == (has_input(s, name) || has_input(more, name)),
{
    let all = s + more;
    if has_input(s, name) {
        let i = choose|i: int| 0 <= i < s.len() && (#[trigger] s[i]).name == name;
        assert(all[i].name == name);
    }
    if has_input(more, name) {
        let i = choose|i: int| 0 <= i < more.len() && (#[trigger] more[i]).name == name;
        assert(all[s.len() + i].name == name);
    }
    if has_input(all, name) {
        let i = choose|i: int| 0 <= i < all.len() && (#[trigger] all[i]).name == name;
        if i < s.len() {
            assert(s[i].name == name);
        } else {
            assert(more[i - s.len()].name == name);
        }
    }
}

proof fn lemma_pushed(s: Seq<InputDefV>, input: InputDefV, name: Seq<char>)
    ensures
        has_input(s, name) ==> has_input(s.push(input), name),
        has_input(s.push(input), input.name),
{
    let all = s.push(input);
    assert(all[s.len() as int].name == input.name);
    if has_input(s, name) {
        let i = choose|i: int| 0 <= i < s.len() && (#[trigger] s[i]).name == name;
        assert(all[i].name == name);
    }
}

proof fn lemma_input_place(s: Seq<InputDefV>, name: Seq<char>, i: nat)
    ensures
        input_place(s, name, i) < s.len() ==> s[input_place(s, name, i) as int].name == name,
    decreases s.len() - i,
{
    if i < s.len() && s[i as int].name != name {
        lemma_input_place(s, name, i + 1);
    }
}

proof fn lemma_put(s: Seq<InputDefV>, input: InputDefV, name: Seq<char>)
    ensures
        has_input(s, name) ==> has_input(put_input_of(s, input), name),
        has_input(put_input_of(s, input), input.name),
{
    lemma_input_place(s, input.name, 0);
    let k = input_place(s, input.name, 0) as int;
    let all = put_input_of(s, input);
    if k < s.len() {
        assert(all[k].name == input.name);
        if has_input(s, name) {
            let i = choose|i: int| 0 <= i < s.len() && (#[trigger] s[i]).name == name;
            assert(all[i].name == name);
        }
    } else {
        lemma_pushed(s, input, name);
    }
}

proof fn lemma_keys(
    generated: GeneratedSchema,
    names: NameOverrides,
    i: nat,
    inputs: Seq<InputDefV>,
    name: Seq<char>,
)
    ensures
        has_input(inputs, name) ==> has_input(with_key_inputs(generated, names, i, inputs), name),
        (exists|k: int|
            i <= k < generated.mutation_fields@.len() && (
            #[trigger] generated.mutation_fields@[k]).mutation_type is UpdateByPk
                && generated.mutation_fields@[k].pk_columns@.len() > 0
                && generated.mutation_fields@[k].local_typename@ + "_pk_columns_input"@ == name)
            ==> has_input(with_key_inputs(generated, names, i, inputs), name),
    decreases generated.mutation_fields@.len() - i,
{
    if i < generated.mutation_fields@.len() {
        let field = generated.mutation_fields@[i as int];
        if field.mutation_type is UpdateByPk && field.pk_columns@.len() > 0 {
            let input = key_input(generated, names, field);
            lemma_put(inputs, input, name);
            lemma_keys(generated, names, i + 1, put_input_of(inputs, input), name);
        } else {
            lemma_keys(generated, names, i + 1, inputs, name);
        }
    }
}

proof fn lemma_writes(
    generated: GeneratedSchema,
    names: NameOverrides,
    i: nat,
    inputs: Seq<InputDefV>,
    name: Seq<char>,
)
    ensures
        has_input(inputs, name) ==> has_input(
            with_write_inputs(generated, names, i, inputs),
            name,
        ),
        (exists|k: int|
            i <= k < generated.object_types@.len() && has_input(
                write_inputs_of(generated, names, #[trigger] generated.object_types@[k]),
                name,
            )) ==> has_input(with_write_inputs(generated, names, i, inputs), name),
    decreases generated.object_types@.len() - i,
{
    if i < generated.object_types@.len() {
        let more = write_inputs_of(generated, names, generated.object_types@[i as int]);
        lemma_appended(inputs, more, name);
        lemma_writes(generated, names, i + 1, inputs + more, name);
    }
}

proof fn lemma_functions(
    generated: GeneratedSchema,
    i: nat,
    inputs: Seq<InputDefV>,
    name: Seq<char>,
)
    ensures
        has_input(inputs, name) ==> has_input(with_function_inputs(generated, i, inputs), name),
        (exists|k: int|
            i <= k < generated.function_fields@.len() && (
            #[trigger] generated.function_fields@[k]).arguments@.len() > 0
                && generated.function_fields@[k].name@ + "_args"@ == name) ==> has_input(
            with_function_inputs(generated, i, inputs),
            name,
        ),
    decreases generated.function_fields@.len() - i,
{
    if i < generated.function_fields@.len() {
        let function = generated.function_fields@[i as int];
        if function.arguments@.len() > 0 {
            let input = crate::schema::function_input(function, generated.pg_types@);
            lemma_pushed(inputs, input, name);
            lemma_functions(generated, i + 1, inputs.push(input), name);
        } else {
            lemma_functions(generated, i + 1, inputs, name);
        }
    }
}

proof fn lemma_related(
    base: Seq<char>,
    fields: Seq<RelationshipField>,
    i: nat,
    types: Seq<PgType>,
    inputs: Seq<InputDefV>,
    name: Seq<char>,
)
    ensures
        has_input(inputs, name) ==> has_input(
            with_related_inputs(base, fields, i, types, inputs),
            name,
        ),
    decreases fields.len() - i,
{
    if i < fields.len() {
        let rel = fields[i as int];
        if rel.arguments@.len() > 0 {
            let input = row_function_input(base, rel.name@, rel.arguments@, types);
            lemma_pushed(inputs, input, name);
            lemma_related(base, fields, i + 1, types, inputs.push(input), name);
        } else {
            lemma_related(base, fields, i + 1, types, inputs, name);
        }
    }
}

proof fn lemma_relationships(
    generated: GeneratedSchema,
    i: nat,
    inputs: Seq<InputDefV>,
    name: Seq<char>,
)
    ensures
        has_input(inputs, name) ==> has_input(
            with_relationship_inputs(generated, i, inputs),
            name,
        ),
    decreases generated.relationship_fields@.len() - i,
{
    if i < generated.relationship_fields@.len() {
        let entry = generated.relationship_fields@[i as int];
        let base = crate::schema::local_name_of(generated, entry.typename@);
        lemma_related(base, entry.fields@, 0, generated.pg_types@, inputs, name);
        lemma_relationships(
            generated,
            i + 1,
            with_related_inputs(base, entry.fields@, 0, generated.pg_types@, inputs),
            name,
        );
    }
}

proof fn lemma_computed(
    base: Seq<char>,
    fields: Seq<GraphQLField>,
    i: nat,
    types: Seq<PgType>,
    inputs: Seq<InputDefV>,
    name: Seq<char>,
)
    ensures
        has_input(inputs, name) ==> has_input(
            with_computed_inputs(base, fields, i, types, inputs),
            name,
        ),
    decreases fields.len() - i,
{
    if i < fields.len() {
        let field = fields[i as int];
        if field.arguments@.len() > 0 {
            let input = row_function_input(base, field.name@, field.arguments@, types);
            lemma_pushed(inputs, input, name);
            lemma_computed(base, fields, i + 1, types, inputs.push(input), name);
        } else {
            lemma_computed(base, fields, i + 1, types, inputs, name);
        }
    }
}

proof fn lemma_fields(
    generated: GeneratedSchema,
    i: nat,
    inputs: Seq<InputDefV>,
    name: Seq<char>,
)
    ensures
        has_input(inputs, name) ==> has_input(with_field_inputs(generated, i, inputs), name),
    decreases generated.object_types@.len() - i,
{
    if i < generated.object_types@.len() {
        let object = generated.object_types@[i as int];
        lemma_computed(
            object.local_name@,
            object.fields@,
            0,
            generated.pg_types@,
            inputs,
            name,
        );
        lemma_fields(
            generated,
            i + 1,
            with_computed_inputs(
                object.local_name@,
                object.fields@,
                0,
                generated.pg_types@,
                inputs,
            ),
            name,
        );
    }
}

proof fn lemma_predicates(
    generated: GeneratedSchema,
    targets: Seq<Seq<char>>,
    i: nat,
    inputs: Seq<InputDefV>,
    name: Seq<char>,
)
    ensures
        has_input(inputs, name) ==> has_input(
            with_predicates(generated, targets, i, inputs),
            name,
        ),
    decreases targets.len() - i,
{
    if i < targets.len() {
        let target = targets[i as int];
        let typename = target_type_from(generated, 0, target, Seq::empty());
        match named(generated.object_types@, typename) {
            Some(object) => {
                let more = predicate_inputs(
                    target,
                    boolean_columns(object, 0, Seq::empty()).len() > 0,
                );
                lemma_appended(inputs, more, name);
                lemma_predicates(generated, targets, i + 1, inputs + more, name);
            },
            None => {
                lemma_predicates(generated, targets, i + 1, inputs, name);
            },
        }
    }
}

proof fn lemma_upserts(
    generated: GeneratedSchema,
    i: nat,
    inputs: Seq<InputDefV>,
    name: Seq<char>,
)
    ensures
        has_input(inputs, name) ==> has_input(with_upsert_inputs(generated, i, inputs), name),
        (exists|k: int|
            i <= k < generated.object_types@.len() && (
            #[trigger] generated.object_types@[k]).table.unique_constraints@.len() > 0
                && generated.object_types@[k].local_name@ + "_on_conflict"@ == name) ==> has_input(
            with_upsert_inputs(generated, i, inputs),
            name,
        ),
    decreases generated.object_types@.len() - i,
{
    if i < generated.object_types@.len() {
        let object = generated.object_types@[i as int];
        if object.table.unique_constraints@.len() > 0 {
            lemma_pushed(inputs, on_conflict_input(object), name);
            lemma_upserts(generated, i + 1, inputs.push(on_conflict_input(object)), name);
        } else {
            lemma_upserts(generated, i + 1, inputs, name);
        }
    }
}

/// What the first steps add stays.
proof fn lemma_kept(generated: GeneratedSchema, names: NameOverrides, name: Seq<char>)
    ensures
        ({
            let keys = with_key_inputs(generated, names, 0, Seq::empty());
            let writes = with_write_inputs(generated, names, 0, keys);
            let functions = with_function_inputs(generated, 0, writes);
            &&& has_input(keys, name) ==> has_input(inputs_of(generated, names), name)
            &&& has_input(writes, name) ==> has_input(inputs_of(generated, names), name)
            &&& has_input(functions, name) ==> has_input(inputs_of(generated, names), name)
        }),
        (exists|k: int|
            0 <= k < generated.object_types@.len() && (
            #[trigger] generated.object_types@[k]).table.unique_constraints@.len() > 0
                && generated.object_types@[k].local_name@ + "_on_conflict"@ == name) ==> has_input(
            inputs_of(generated, names),
            name,
        ),
{
    let keys = with_key_inputs(generated, names, 0, Seq::empty());
    let writes = with_write_inputs(generated, names, 0, keys);
    let functions = with_function_inputs(generated, 0, writes);
    let relationships = with_relationship_inputs(generated, 0, functions);
    let fields = with_field_inputs(generated, 0, relationships);
    let targets = targets_from(generated, 0, Seq::empty());
    let predicates = with_predicates(generated, targets, 0, fields);
    lemma_writes(generated, names, 0, keys, name);
    lemma_functions(generated, 0, writes, name);
    lemma_relationships(generated, 0, functions, name);
    lemma_fields(generated, 0, relationships, name);
    lemma_predicates(generated, targets, 0, fields, name);
    lemma_upserts(generated, 0, predicates, name);
}

/// A table that may be inserted into has the inputs its rows are written with,
/// on their own and beside another's.
pub proof fn law_inserts_have_inputs(generated: GeneratedSchema, names: NameOverrides, k: int)
    requires
        0 <= k < generated.object_types@.len(),
        generated.object_types@[k].insertable,
        has_columns(generated.object_types@[k], names),
    ensures
        ({
            let base = generated.object_types@[k].local_name@;
            let inputs = inputs_of(generated, names);
            &&& has_input(inputs, base + "_insert_input"@)
            &&& has_input(inputs, base + "_obj_rel_insert_input"@)
            &&& has_input(inputs, base + "_arr_rel_insert_input"@)
        }),
{
    let object = generated.object_types@[k];
    let base = object.local_name@;
    let more = write_inputs_of(generated, names, object);
    assert(more[0].name == base + "_insert_input"@);
    assert(more[1].name == base + "_obj_rel_insert_input"@);
    assert(more[2].name == base + "_arr_rel_insert_input"@);
    lemma_present(generated, names, k, base + "_insert_input"@);
    lemma_present(generated, names, k, base + "_obj_rel_insert_input"@);
    lemma_present(generated, names, k, base + "_arr_rel_insert_input"@);
}

proof fn lemma_present(
    generated: GeneratedSchema,
    names: NameOverrides,
    k: int,
    name: Seq<char>,
)
    requires
        0 <= k < generated.object_types@.len(),
        has_input(write_inputs_of(generated, names, generated.object_types@[k]), name),
    ensures
        has_input(inputs_of(generated, names), name),
{
    let keys = with_key_inputs(generated, names, 0, Seq::empty());
    lemma_writes(generated, names, 0, keys, name);
    lemma_kept(generated, names, name);
}

proof fn lemma_updates_present(
    generated: GeneratedSchema,
    names: NameOverrides,
    k: int,
    name: Seq<char>,
)
    requires
        0 <= k < generated.object_types@.len(),
        generated.object_types@[k].updatable,
        has_columns(generated.object_types@[k], names),
        has_input(update_inputs_of(generated.object_types@[k], names), name),
    ensures
        has_input(inputs_of(generated, names), name),
{
    let object = generated.object_types@[k];
    let all = write_inputs_of(generated, names, object);
    let more = update_inputs_of(object, names);
    let before = all.take(all.len() - more.len());
    assert(all =~= before + more);
    lemma_appended(before, more, name);
    lemma_present(generated, names, k, name);
}

/// A table that may be updated has the inputs its updates are written with.
pub proof fn law_updates_have_inputs(generated: GeneratedSchema, names: NameOverrides, k: int)
    requires
        0 <= k < generated.object_types@.len(),
        generated.object_types@[k].updatable,
        has_columns(generated.object_types@[k], names),
    ensures
        ({
            let object = generated.object_types@[k];
            let base = object.local_name@;
            let inputs = inputs_of(generated, names);
            &&& has_input(inputs, base + "_set_input"@)
            &&& has_input(inputs, base + "_updates"@)
            &&& any_number(update_fields_of(object, names)) ==> has_input(
                inputs,
                base + "_inc_input"@,
            )
            &&& any_document(update_fields_of(object, names)) ==> forall|d: int|
                0 <= d < document_operators().len() ==> has_input(
                    inputs,
                    operator_input(base, (#[trigger] document_operators()[d]).0),
                )
        }),
{
    let object = generated.object_types@[k];
    let base = object.local_name@;
    let fields = update_fields_of(object, names);
    let more = update_inputs_of(object, names);
    assert(more[0].name == base + "_set_input"@);
    lemma_updates_present(generated, names, k, base + "_set_input"@);
    if any_number(fields) {
        assert(more[1].name == base + "_inc_input"@);
        lemma_updates_present(generated, names, k, base + "_inc_input"@);
        assert(more[2].name == base + "_updates"@);
    } else {
        assert(more[1].name == base + "_updates"@);
    }
    lemma_updates_present(generated, names, k, base + "_updates"@);
    if any_document(fields) {
        let documents = document_inputs(object, fields);
        let before = more.take(more.len() - documents.len());
        assert(more =~= before + documents);
        assert forall|d: int| 0 <= d < document_operators().len() implies has_input(
            inputs_of(generated, names),
            operator_input(base, (#[trigger] document_operators()[d]).0),
        ) by {
            let name = operator_input(base, document_operators()[d].0);
            assert(documents[d].name == name);
            lemma_appended(before, documents, name);
            lemma_updates_present(generated, names, k, name);
        }
    }
}

/// An update of a table that is offered an operator has the operator's input.
pub proof fn law_offered_operators_have_inputs(
    generated: GeneratedSchema,
    names: NameOverrides,
    base: Seq<char>,
)
    requires
        forall|k: int|
            0 <= k < generated.object_types@.len() && (
            #[trigger] generated.object_types@[k]).local_name@ == base
                ==> generated.object_types@[k].updatable,
    ensures
        has_number(generated, names, base) ==> has_input(
            inputs_of(generated, names),
            base + "_inc_input"@,
        ),
        has_document(generated, names, base) ==> forall|d: int|
            0 <= d < document_operators().len() ==> has_input(
                inputs_of(generated, names),
                operator_input(base, (#[trigger] document_operators()[d]).0),
            ),
{
    if has_number(generated, names, base) {
        let k = choose|k: int|
            0 <= k < generated.object_types@.len() && (
            #[trigger] generated.object_types@[k]).local_name@ == base && any_number(
                update_fields_of(generated.object_types@[k], names),
            );
        lemma_updated_columns(generated.object_types@[k], names);
        law_updates_have_inputs(generated, names, k);
    }
    if has_document(generated, names, base) {
        let k = choose|k: int|
            0 <= k < generated.object_types@.len() && (
            #[trigger] generated.object_types@[k]).local_name@ == base && any_document(
                update_fields_of(generated.object_types@[k], names),
            );
        lemma_updated_columns(generated.object_types@[k], names);
        law_updates_have_inputs(generated, names, k);
    }
}

/// What an update may name is a column.
proof fn lemma_updated_columns(object: TableObjectType, names: NameOverrides)
    requires
        update_fields_of(object, names).len() > 0,
    ensures
        has_columns(object, names),
{
    lemma_writable_source(object, 0, names, set_of(object.update_columns), Seq::empty(), 0);
}

/// An insert that is offered a way out of a conflict has the input for it.
pub proof fn law_offered_conflicts_have_inputs(
    generated: GeneratedSchema,
    names: NameOverrides,
    base: Seq<char>,
)
    requires
        has_conflict(generated, base),
    ensures
        has_input(inputs_of(generated, names), base + "_on_conflict"@),
{
    lemma_kept(generated, names, base + "_on_conflict"@);
}

/// An update by key has the input its key is written with.
pub proof fn law_updates_by_key_have_inputs(
    generated: GeneratedSchema,
    names: NameOverrides,
    k: int,
)
    requires
        0 <= k < generated.mutation_fields@.len(),
        generated.mutation_fields@[k].mutation_type is UpdateByPk,
        generated.mutation_fields@[k].pk_columns@.len() > 0,
    ensures
        has_input(
            inputs_of(generated, names),
            generated.mutation_fields@[k].local_typename@ + "_pk_columns_input"@,
        ),
{
    let name = generated.mutation_fields@[k].local_typename@ + "_pk_columns_input"@;
    lemma_keys(generated, names, 0, Seq::empty(), name);
    lemma_kept(generated, names, name);
}

/// A function that takes arguments has the input they are written in.
pub proof fn law_functions_have_inputs(generated: GeneratedSchema, names: NameOverrides, k: int)
    requires
        0 <= k < generated.function_fields@.len(),
        generated.function_fields@[k].arguments@.len() > 0,
    ensures
        has_input(inputs_of(generated, names), generated.function_fields@[k].name@ + "_args"@),
{
    let name = generated.function_fields@[k].name@ + "_args"@;
    let keys = with_key_inputs(generated, names, 0, Seq::empty());
    lemma_functions(generated, 0, with_write_inputs(generated, names, 0, keys), name);
    lemma_kept(generated, names, name);
}

} // verus!

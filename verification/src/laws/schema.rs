//! What holds of every schema.

use crate::catalog::{column_behind, FunctionArgument, NameOverrides, RelationshipField};
use crate::generated::{
    aggregate_type, allows, insert_fields_of, leaf_text, may_write, pg_leaf, response_type, set_of,
    update_fields_of, writable_from, EnumType, GeneratedSchema, GraphQLField, PgType,
    TableObjectType,
};
use crate::inputs::relationships_in;
use crate::lookup::named;
use crate::object_types::{
    aggregate_types_of, column_field, field_names, related_field, related_numbers, response_of,
    row_type, with_columns, with_relationships,
};
use crate::projection::{not_after, placed_in};
use crate::roots::{
    function_numbers_field, function_rows_field, no_queries, no_subscriptions, numbers_field,
    reading_fields, reading_root, rows_field, with_functions, writing_field, writing_fields,
};
use crate::schema::{
    answered_tables, argument_scalars, computed_scalars, declared_scalars, field_scalars,
    function_scalars, has_rows, is_builtin, is_counted, object_place, object_scalars, objects_of,
    put_all_of, put_object_of, put_pair_of, related_scalars, relationship_scalars,
    row_function_scalars, row_types, scalar_names, scalars_of, schema_of, with_aggregates,
    with_name, with_names, with_responses,
};
use crate::schema_def::{placed_field, FieldDefV, ObjectDefV};
use crate::text::{has_text, stripped_suffix, texts};
use vstd::prelude::*;

verus! {

// ---------------------------------------------------------------------------
// Fields in order
// ---------------------------------------------------------------------------

/// Where a field is placed among others.
pub open spec fn field_place(s: Seq<FieldDefV>, f: FieldDefV) -> int
    decreases s.len(),
{
    if s.len() == 0 {
        0
    } else if not_after(s.last().name, f.name, 0) {
        s.len() as int
    } else {
        field_place(s.drop_last(), f)
    }
}

/// Placing a field puts it among the others and leaves them as they were.
pub proof fn law_placing_inserts(s: Seq<FieldDefV>, f: FieldDefV)
    ensures
        0 <= field_place(s, f) <= s.len(),
        placed_field(s, f) == s.insert(field_place(s, f), f),
    decreases s.len(),
{
    if s.len() == 0 {
        assert(placed_field(s, f) =~= s.insert(0, f));
    } else if not_after(s.last().name, f.name, 0) {
        assert(placed_field(s, f) =~= s.insert(s.len() as int, f));
    } else {
        law_placing_inserts(s.drop_last(), f);
        let k = field_place(s.drop_last(), f);
        assert(s.drop_last().insert(k, f).push(s.last()) =~= s.insert(k, f));
    }
}

proof fn lemma_codes_differ(a: char, b: char)
    requires
        a != b,
    ensures
        a as u32 != b as u32,
{
}

/// Of two texts one comes first.
pub proof fn law_names_are_ordered(a: Seq<char>, b: Seq<char>, i: nat)
    ensures
        not_after(a, b, i) || not_after(b, a, i),
    decreases a.len() - i,
{
    if i < a.len() && i < b.len() {
        if a[i as int] == b[i as int] {
            law_names_are_ordered(a, b, i + 1);
        } else {
            lemma_codes_differ(a[i as int], b[i as int]);
        }
    }
}

/// Whether fields stand in the order of their names.
pub open spec fn in_order(s: Seq<FieldDefV>) -> bool {
    forall|i: int| 0 < i < s.len() ==> not_after((#[trigger] s[i - 1]).name, s[i].name, 0)
}

proof fn lemma_placed_in_order(s: Seq<FieldDefV>, f: FieldDefV)
    requires
        in_order(s),
    ensures
        in_order(placed_field(s, f)),
        placed_field(s, f).len() > 0,
        placed_field(s, f).last() == f || (s.len() > 0 && placed_field(s, f).last() == s.last()),
    decreases s.len(),
{
    if s.len() > 0 {
        if not_after(s.last().name, f.name, 0) {
            let after = s.push(f);
            assert forall|i: int| 0 < i < after.len() implies not_after(
                (#[trigger] after[i - 1]).name,
                after[i].name,
                0,
            ) by {
                if i < s.len() {
                    assert(not_after(s[i - 1].name, s[i].name, 0));
                }
            }
        } else {
            let front = s.drop_last();
            assert forall|i: int| 0 < i < front.len() implies not_after(
                (#[trigger] front[i - 1]).name,
                front[i].name,
                0,
            ) by {
                assert(not_after(s[i - 1].name, s[i].name, 0));
            }
            lemma_placed_in_order(front, f);
            law_names_are_ordered(s.last().name, f.name, 0);
            let placed = placed_field(front, f);
            let after = placed.push(s.last());
            assert forall|i: int| 0 < i < after.len() implies not_after(
                (#[trigger] after[i - 1]).name,
                after[i].name,
                0,
            ) by {
                if i < placed.len() {
                    assert(not_after(placed[i - 1].name, placed[i].name, 0));
                } else {
                    if placed.last() != f {
                        assert(not_after(s[s.len() - 2].name, s[s.len() - 1].name, 0));
                    }
                }
            }
        }
    }
}

/// A root's fields that read tables stand in the order of their names,
/// whatever order the tables came in.
pub proof fn law_reading_fields_in_order(
    generated: GeneratedSchema,
    names: NameOverrides,
    i: nat,
    fields: Seq<FieldDefV>,
)
    requires
        in_order(fields),
    ensures
        in_order(reading_fields(generated, names, i, fields)),
    decreases generated.query_fields@.len() - i,
{
    if i < generated.query_fields@.len() {
        let field = generated.query_fields@[i as int];
        let rows = if field.rows {
            placed_field(fields, rows_field(generated, names, field, i as usize))
        } else {
            fields
        };
        if field.rows {
            lemma_placed_in_order(fields, rows_field(generated, names, field, i as usize));
        }
        if !field.is_by_pk && field.aggregates {
            lemma_placed_in_order(rows, numbers_field(field, i as usize));
            law_reading_fields_in_order(
                generated,
                names,
                i + 1,
                placed_field(rows, numbers_field(field, i as usize)),
            );
        } else {
            law_reading_fields_in_order(generated, names, i + 1, rows);
        }
    }
}

proof fn lemma_columns_in_order(
    object: TableObjectType,
    i: nat,
    shared: bool,
    fields: Seq<FieldDefV>,
)
    requires
        in_order(fields),
    ensures
        in_order(with_columns(object, i, shared, fields)),
    decreases object.fields@.len() - i,
{
    if i < object.fields@.len() {
        let column = column_field(object, object.fields@[i as int], shared);
        lemma_placed_in_order(fields, column);
        lemma_columns_in_order(object, i + 1, shared, placed_field(fields, column));
    }
}

proof fn lemma_relationships_in_order(
    object: TableObjectType,
    relationships: Seq<RelationshipField>,
    i: nat,
    shared: bool,
    taken: Seq<Seq<char>>,
    fields: Seq<FieldDefV>,
)
    requires
        in_order(fields),
    ensures
        in_order(with_relationships(object, relationships, i, shared, taken, fields)),
    decreases relationships.len() - i,
{
    if i < relationships.len() {
        let rel = relationships[i as int];
        if has_text(taken, rel.name@) {
            lemma_relationships_in_order(object, relationships, i + 1, shared, taken, fields);
        } else {
            let held = taken.push(rel.name@);
            let row = related_field(object, rel, shared);
            let related = placed_field(fields, row);
            let name = rel.name@ + "_aggregate"@;
            lemma_placed_in_order(fields, row);
            if rel.is_list && !has_text(held, name) {
                let numbers = related_numbers(object, rel, shared);
                lemma_placed_in_order(related, numbers);
                lemma_relationships_in_order(
                    object,
                    relationships,
                    i + 1,
                    shared,
                    held.push(name),
                    placed_field(related, numbers),
                );
            } else {
                lemma_relationships_in_order(
                    object,
                    relationships,
                    i + 1,
                    shared,
                    held,
                    related,
                );
            }
        }
    }
}

/// The fields of a row type stand in the order of their names, columns and
/// relationships together, whatever order they came in.
pub proof fn law_row_fields_in_order(
    object: TableObjectType,
    relationships: Seq<RelationshipField>,
    entity: Option<crate::generated::FederationEntity>,
)
    ensures
        in_order(row_type(object, relationships, entity).fields),
{
    let shared = entity is Some && entity->0.shared;
    lemma_columns_in_order(object, 0, shared, Seq::empty());
    lemma_relationships_in_order(
        object,
        relationships,
        0,
        shared,
        field_names(object.fields@),
        with_columns(object, 0, shared, Seq::empty()),
    );
}

/// A root's fields that write tables stand in the order of their names,
/// whatever order they came in.
pub proof fn law_writing_fields_in_order(
    generated: GeneratedSchema,
    names: NameOverrides,
    i: nat,
    fields: Seq<FieldDefV>,
)
    requires
        in_order(fields),
    ensures
        in_order(writing_fields(generated, names, i, fields)),
    decreases generated.mutation_fields@.len() - i,
{
    if i < generated.mutation_fields@.len() {
        let field = writing_field(generated, names, i);
        lemma_placed_in_order(fields, field);
        law_writing_fields_in_order(generated, names, i + 1, placed_field(fields, field));
    }
}

// ---------------------------------------------------------------------------
// Roots
// ---------------------------------------------------------------------------

/// What can be watched is what can be read: where anything can be, the
/// subscription root has the fields of the query root, with the same arguments
/// and types.
pub proof fn law_watching_is_reading(
    generated: GeneratedSchema,
    names: NameOverrides,
    query: Seq<char>,
    subscription: Seq<char>,
)
    requires
        reading_fields(generated, names, 0, Seq::empty()).len() > 0,
    ensures
        reading_root(generated, names, query, no_queries()).fields == reading_root(
            generated,
            names,
            subscription,
            no_subscriptions(),
        ).fields,
{
}

proof fn lemma_functions_add(
    generated: GeneratedSchema,
    volatile: bool,
    i: nat,
    fields: Seq<FieldDefV>,
)
    ensures
        with_functions(generated, volatile, i, fields).len() >= fields.len(),
    decreases generated.function_fields@.len() - i,
{
    if i < generated.function_fields@.len() {
        let function = generated.function_fields@[i as int];
        lemma_functions_add(generated, volatile, i + 1, fields);
        lemma_functions_add(
            generated,
            volatile,
            i + 1,
            fields.push(crate::roots::function_rows_field(function, i as usize)).push(
                crate::roots::function_numbers_field(function, i as usize),
            ),
        );
    }
}

/// A root that reads is never without a field, whatever a role may see: a
/// schema with an empty type could not be built at all.
pub proof fn law_reading_roots_are_never_empty(
    generated: GeneratedSchema,
    names: NameOverrides,
    subscriptions: bool,
)
    ensures
        schema_of(generated, names, subscriptions).query.fields.len() > 0,
        subscriptions ==> (schema_of(generated, names, subscriptions).subscription
            matches Some(root) && root.fields.len() > 0),
        !subscriptions ==> schema_of(generated, names, subscriptions).subscription is None,
{
    lemma_functions_add(
        generated,
        false,
        0,
        reading_root(
            generated,
            names,
            crate::schema::root_name(generated.enable_federation, "Query"@, "query_root"@),
            no_queries(),
        ).fields,
    );
}

// ---------------------------------------------------------------------------
// What may be written
// ---------------------------------------------------------------------------

proof fn lemma_writable(
    object: TableObjectType,
    i: nat,
    names: NameOverrides,
    allowed: Option<Seq<Seq<char>>>,
    found: Seq<GraphQLField>,
    k: int,
)
    requires
        forall|j: int|
            0 <= j < found.len() ==> may_write(#[trigger] found[j], object, names, allowed),
        0 <= k < writable_from(object, i, names, allowed, found).len(),
    ensures
        may_write(writable_from(object, i, names, allowed, found)[k], object, names, allowed),
    decreases object.writable_fields@.len() - i,
{
    if i < object.writable_fields@.len() {
        let field = object.writable_fields@[i as int];
        if may_write(field, object, names, allowed) {
            lemma_writable(object, i + 1, names, allowed, found.push(field), k);
        } else {
            lemma_writable(object, i + 1, names, allowed, found, k);
        }
    }
}

/// A field that may be written is one of its type's.
pub proof fn lemma_writable_source(
    object: TableObjectType,
    i: nat,
    names: NameOverrides,
    allowed: Option<Seq<Seq<char>>>,
    found: Seq<GraphQLField>,
    k: int,
)
    requires
        0 <= k < writable_from(object, i, names, allowed, found).len(),
    ensures
        k < found.len() || exists|j: int|
            0 <= j < object.writable_fields@.len() && crate::inputs::is_column(
                object,
                names,
                #[trigger] object.writable_fields@[j],
            ),
    decreases object.writable_fields@.len() - i,
{
    if i < object.writable_fields@.len() {
        let field = object.writable_fields@[i as int];
        if may_write(field, object, names, allowed) {
            assert(crate::inputs::is_column(object, names, object.writable_fields@[i as int]));
            lemma_writable_source(object, i + 1, names, allowed, found.push(field), k);
        } else {
            lemma_writable_source(object, i + 1, names, allowed, found, k);
        }
    }
}

/// A column that PostgreSQL always generates is in no input, and neither is
/// one that the permission does not let be written.
pub proof fn law_only_writable_columns_are_offered(
    object: TableObjectType,
    names: NameOverrides,
    field: GraphQLField,
)
    ensures
        ({
            let column = column_behind(
                names,
                object.table.schema@,
                object.table.name@,
                field.name@,
            );
            &&& insert_fields_of(object, names).contains(field) ==> object.table.column(
                column,
            ) is Some && !object.table.column(column)->0.always_generated && allows(
                set_of(object.insert_columns),
                column,
            )
            &&& update_fields_of(object, names).contains(field) ==> object.table.column(
                column,
            ) is Some && !object.table.column(column)->0.always_generated && allows(
                set_of(object.update_columns),
                column,
            )
        }),
{
    if insert_fields_of(object, names).contains(field) {
        let k = choose|k: int|
            0 <= k < insert_fields_of(object, names).len() && insert_fields_of(object, names)[k]
                == field;
        lemma_writable(object, 0, names, set_of(object.insert_columns), Seq::empty(), k);
    }
    if update_fields_of(object, names).contains(field) {
        let k = choose|k: int|
            0 <= k < update_fields_of(object, names).len() && update_fields_of(object, names)[k]
                == field;
        lemma_writable(object, 0, names, set_of(object.update_columns), Seq::empty(), k);
    }
}

// ---------------------------------------------------------------------------
// Names on a type
// ---------------------------------------------------------------------------

/// Whether no two fields share a name, and every name is among `taken`.
pub open spec fn distinctly_named(s: Seq<FieldDefV>, taken: Seq<Seq<char>>) -> bool {
    &&& forall|i: int, j: int|
        0 <= i < j < s.len() ==> (#[trigger] s[i]).name != (#[trigger] s[j]).name
    &&& forall|i: int| 0 <= i < s.len() ==> has_text(taken, (#[trigger] s[i]).name)
}

proof fn lemma_has_text_push(taken: Seq<Seq<char>>, more: Seq<char>, name: Seq<char>)
    ensures
        has_text(taken.push(more), name) == (has_text(taken, name) || name == more),
{
    let after = taken.push(more);
    if has_text(taken, name) {
        let i = choose|i: int| 0 <= i < taken.len() && #[trigger] taken[i] == name;
        assert(after[i] == name);
    }
    if name == more {
        assert(after[taken.len() as int] == name);
    }
}

proof fn lemma_placed_distinctly(
    s: Seq<FieldDefV>,
    f: FieldDefV,
    taken: Seq<Seq<char>>,
    held: Seq<Seq<char>>,
)
    requires
        distinctly_named(s, taken),
        !has_text(taken, f.name),
        held == taken.push(f.name),
    ensures
        distinctly_named(placed_field(s, f), held),
{
    law_placing_inserts(s, f);
    let k = field_place(s, f);
    let after = s.insert(k, f);
    assert forall|i: int| 0 <= i < after.len() implies has_text(held, (#[trigger] after[i]).name) by {
        lemma_has_text_push(taken, f.name, after[i].name);
        if i < k {
            assert(after[i] == s[i]);
        } else if i > k {
            assert(after[i] == s[i - 1]);
        }
    }
    assert forall|i: int, j: int| 0 <= i < j < after.len() implies (#[trigger] after[i]).name != (
    #[trigger] after[j]).name by {
        let a = if i < k { i } else { i - 1 };
        let b = if j < k { j } else { j - 1 };
        if i != k {
            assert(after[i] == s[a]);
        }
        if j != k {
            assert(after[j] == s[b]);
        }
    }
}

proof fn lemma_columns_distinctly(
    object: TableObjectType,
    i: nat,
    shared: bool,
    fields: Seq<FieldDefV>,
)
    requires
        i <= object.fields@.len(),
        forall|a: int, b: int|
            0 <= a < b < object.fields@.len() ==> (#[trigger] object.fields@[a]).name@ != (
            #[trigger] object.fields@[b]).name@,
        distinctly_named(fields, field_names(object.fields@.take(i as int))),
    ensures
        distinctly_named(with_columns(object, i, shared, fields), field_names(object.fields@)),
    decreases object.fields@.len() - i,
{
    if i < object.fields@.len() {
        let field = object.fields@[i as int];
        let taken = field_names(object.fields@.take(i as int));
        let held = field_names(object.fields@.take(i as int + 1));
        assert(held =~= taken.push(field.name@));
        if has_text(taken, field.name@) {
            let a = choose|a: int| 0 <= a < taken.len() && #[trigger] taken[a] == field.name@;
            assert(object.fields@[a].name@ == field.name@);
        }
        lemma_placed_distinctly(fields, column_field(object, field, shared), taken, held);
        lemma_columns_distinctly(
            object,
            i + 1,
            shared,
            placed_field(fields, column_field(object, field, shared)),
        );
    } else {
        assert(object.fields@.take(i as int) =~= object.fields@);
    }
}

proof fn lemma_relationships_distinctly(
    object: TableObjectType,
    relationships: Seq<RelationshipField>,
    i: nat,
    shared: bool,
    taken: Seq<Seq<char>>,
    fields: Seq<FieldDefV>,
)
    requires
        distinctly_named(fields, taken),
    ensures
        ({
            let all = with_relationships(object, relationships, i, shared, taken, fields);
            forall|a: int, b: int|
                0 <= a < b < all.len() ==> (#[trigger] all[a]).name != (#[trigger] all[b]).name
        }),
        forall|k: int|
            0 <= k < fields.len() ==> #[trigger] with_relationships(
                object,
                relationships,
                i,
                shared,
                taken,
                fields,
            ).contains(fields[k]),
    decreases relationships.len() - i,
{
    let all = with_relationships(object, relationships, i, shared, taken, fields);
    if i >= relationships.len() {
        assert forall|k: int| 0 <= k < fields.len() implies #[trigger] all.contains(fields[k]) by {
            assert(all[k] == fields[k]);
        }
    } else {
        let rel = relationships[i as int];
        if has_text(taken, rel.name@) {
            lemma_relationships_distinctly(object, relationships, i + 1, shared, taken, fields);
        } else {
            let held = taken.push(rel.name@);
            let row = related_field(object, rel, shared);
            let related = placed_field(fields, row);
            lemma_placed_distinctly(fields, row, taken, held);
            lemma_placing_keeps(fields, row);
            let name = rel.name@ + "_aggregate"@;
            if rel.is_list && !has_text(held, name) {
                let numbers = related_numbers(object, rel, shared);
                let more = placed_field(related, numbers);
                lemma_placed_distinctly(related, numbers, held, held.push(name));
                lemma_placing_keeps(related, numbers);
                lemma_relationships_distinctly(
                    object,
                    relationships,
                    i + 1,
                    shared,
                    held.push(name),
                    more,
                );
                assert forall|k: int| 0 <= k < fields.len() implies #[trigger] all.contains(
                    fields[k],
                ) by {
                    assert(related.contains(fields[k]));
                    let a = choose|a: int| 0 <= a < related.len() && related[a] == fields[k];
                    assert(more.contains(related[a]));
                    let b = choose|b: int| 0 <= b < more.len() && more[b] == fields[k];
                    assert(all.contains(more[b]));
                }
            } else {
                lemma_relationships_distinctly(
                    object,
                    relationships,
                    i + 1,
                    shared,
                    held,
                    related,
                );
                assert forall|k: int| 0 <= k < fields.len() implies #[trigger] all.contains(
                    fields[k],
                ) by {
                    assert(related.contains(fields[k]));
                    let a = choose|a: int| 0 <= a < related.len() && related[a] == fields[k];
                    assert(all.contains(related[a]));
                }
            }
        }
    }
}

proof fn lemma_placing_keeps(s: Seq<FieldDefV>, f: FieldDefV)
    ensures
        placed_field(s, f).contains(f),
        forall|k: int| 0 <= k < s.len() ==> #[trigger] placed_field(s, f).contains(s[k]),
{
    law_placing_inserts(s, f);
    let at = field_place(s, f);
    let after = placed_field(s, f);
    assert(after[at] == f);
    assert forall|k: int| 0 <= k < s.len() implies #[trigger] after.contains(s[k]) by {
        if k < at {
            assert(after[k] == s[k]);
        } else {
            assert(after[k + 1] == s[k]);
        }
    }
}

proof fn lemma_columns_kept(
    object: TableObjectType,
    i: nat,
    shared: bool,
    fields: Seq<FieldDefV>,
    f: FieldDefV,
)
    requires
        fields.contains(f) || exists|k: int|
            i <= k < object.fields@.len() && f == column_field(
                object,
                #[trigger] object.fields@[k],
                shared,
            ),
    ensures
        with_columns(object, i, shared, fields).contains(f),
    decreases object.fields@.len() - i,
{
    if i < object.fields@.len() {
        let column = column_field(object, object.fields@[i as int], shared);
        let next = placed_field(fields, column);
        lemma_placing_keeps(fields, column);
        if fields.contains(f) {
            let k = choose|k: int| 0 <= k < fields.len() && fields[k] == f;
            assert(next.contains(fields[k]));
        }
        lemma_columns_kept(object, i + 1, shared, next, f);
    }
}

/// A row type has no two fields of one name, and a column keeps its field
/// whatever the relationships are called: where the two clash, the column
/// wins.
pub proof fn law_columns_win(
    object: TableObjectType,
    relationships: Seq<RelationshipField>,
    entity: Option<crate::generated::FederationEntity>,
    k: int,
)
    requires
        forall|a: int, b: int|
            0 <= a < b < object.fields@.len() ==> (#[trigger] object.fields@[a]).name@ != (
            #[trigger] object.fields@[b]).name@,
        0 <= k < object.fields@.len(),
    ensures
        ({
            let fields = row_type(object, relationships, entity).fields;
            &&& forall|a: int, b: int|
                0 <= a < b < fields.len() ==> (#[trigger] fields[a]).name != (
                #[trigger] fields[b]).name
            &&& fields.contains(
                column_field(object, object.fields@[k], entity is Some && entity->0.shared),
            )
        }),
{
    let shared = entity is Some && entity->0.shared;
    let columns = with_columns(object, 0, shared, Seq::empty());
    let f = column_field(object, object.fields@[k], shared);
    lemma_columns_distinctly(object, 0, shared, Seq::empty());
    lemma_columns_kept(object, 0, shared, Seq::empty(), f);
    lemma_relationships_distinctly(
        object,
        relationships,
        0,
        shared,
        field_names(object.fields@),
        columns,
    );
    let a = choose|a: int| 0 <= a < columns.len() && columns[a] == f;
    assert(with_relationships(
        object,
        relationships,
        0,
        shared,
        field_names(object.fields@),
        columns,
    ).contains(columns[a]));
}

// ---------------------------------------------------------------------------
// Every scalar is declared
// ---------------------------------------------------------------------------

/// Whether one list holds every name of another.
pub open spec fn covers(more: Seq<Seq<char>>, less: Seq<Seq<char>>) -> bool {
    forall|name: Seq<char>| #[trigger] has_text(less, name) ==> has_text(more, name)
}

proof fn lemma_placed_name(s: Seq<Seq<char>>, name: Seq<char>)
    ensures
        has_text(placed_in(s, name), name),
        covers(placed_in(s, name), s),
    decreases s.len(),
{
    if s.len() == 0 {
        assert(placed_in(s, name)[0] == name);
    } else if not_after(s.last(), name, 0) {
        assert forall|other: Seq<char>| #[trigger] has_text(s, other) implies has_text(
            placed_in(s, name),
            other,
        ) by {
            lemma_has_text_push(s, name, other);
        }
        lemma_has_text_push(s, name, name);
    } else {
        lemma_placed_name(s.drop_last(), name);
        let placed = placed_in(s.drop_last(), name);
        lemma_has_text_push(placed, s.last(), name);
        assert forall|other: Seq<char>| #[trigger] has_text(s, other) implies has_text(
            placed_in(s, name),
            other,
        ) by {
            assert(s.drop_last().push(s.last()) =~= s);
            lemma_has_text_push(s.drop_last(), s.last(), other);
            lemma_has_text_push(placed, s.last(), other);
        }
    }
}

proof fn lemma_with_name(found: Seq<Seq<char>>, name: Seq<char>)
    ensures
        has_text(with_name(found, name), name),
        covers(with_name(found, name), found),
{
    if !has_text(found, name) {
        lemma_placed_name(found, name);
    }
}

proof fn lemma_field_scalars(fields: Seq<GraphQLField>, i: nat, found: Seq<Seq<char>>)
    ensures
        covers(field_scalars(fields, i, found), found),
        forall|k: int|
            i <= k < fields.len() ==> has_text(
                field_scalars(fields, i, found),
                leaf_text((#[trigger] fields[k]).graphql_type),
            ),
    decreases fields.len() - i,
{
    if i < fields.len() {
        let name = leaf_text(fields[i as int].graphql_type);
        lemma_with_name(found, name);
        lemma_field_scalars(fields, i + 1, with_name(found, name));
    }
}

proof fn lemma_argument_scalars(
    list: Seq<FunctionArgument>,
    i: nat,
    types: Seq<PgType>,
    found: Seq<Seq<char>>,
)
    ensures
        covers(argument_scalars(list, i, types, found), found),
        forall|k: int|
            i <= k < list.len() ==> has_text(
                argument_scalars(list, i, types, found),
                pg_leaf(types, (#[trigger] list[k]).pg_type@),
            ),
    decreases list.len() - i,
{
    if i < list.len() {
        let name = pg_leaf(types, list[i as int].pg_type@);
        lemma_with_name(found, name);
        lemma_argument_scalars(list, i + 1, types, with_name(found, name));
    }
}

proof fn lemma_object_scalars(generated: GeneratedSchema, i: nat, found: Seq<Seq<char>>)
    ensures
        covers(object_scalars(generated, i, found), found),
        forall|o: int, k: int|
            i <= o < generated.object_types@.len() && 0 <= k
                < generated.object_types@[o].fields@.len() ==> has_text(
                object_scalars(generated, i, found),
                leaf_text((#[trigger] generated.object_types@[o].fields@[k]).graphql_type),
            ),
        forall|o: int, k: int|
            i <= o < generated.object_types@.len() && 0 <= k
                < generated.object_types@[o].writable_fields@.len() ==> has_text(
                object_scalars(generated, i, found),
                leaf_text((#[trigger] generated.object_types@[o].writable_fields@[k]).graphql_type),
            ),
    decreases generated.object_types@.len() - i,
{
    if i < generated.object_types@.len() {
        let object = generated.object_types@[i as int];
        let read = field_scalars(object.fields@, 0, found);
        let written = field_scalars(object.writable_fields@, 0, read);
        lemma_field_scalars(object.fields@, 0, found);
        lemma_field_scalars(object.writable_fields@, 0, read);
        lemma_object_scalars(generated, i + 1, written);
    }
}

proof fn lemma_function_scalars(generated: GeneratedSchema, i: nat, found: Seq<Seq<char>>)
    ensures
        covers(function_scalars(generated, i, found), found),
        forall|o: int, k: int|
            i <= o < generated.function_fields@.len() && 0 <= k
                < generated.function_fields@[o].arguments@.len() ==> has_text(
                function_scalars(generated, i, found),
                pg_leaf(
                    generated.pg_types@,
                    (#[trigger] generated.function_fields@[o].arguments@[k]).pg_type@,
                ),
            ),
    decreases generated.function_fields@.len() - i,
{
    if i < generated.function_fields@.len() {
        let list = generated.function_fields@[i as int].arguments@;
        lemma_argument_scalars(list, 0, generated.pg_types@, found);
        lemma_function_scalars(
            generated,
            i + 1,
            argument_scalars(list, 0, generated.pg_types@, found),
        );
    }
}

proof fn lemma_computed_scalars(
    fields: Seq<GraphQLField>,
    i: nat,
    types: Seq<PgType>,
    found: Seq<Seq<char>>,
)
    ensures
        covers(computed_scalars(fields, i, types, found), found),
    decreases fields.len() - i,
{
    if i < fields.len() {
        let list = fields[i as int].arguments@;
        lemma_argument_scalars(list, 0, types, found);
        lemma_computed_scalars(fields, i + 1, types, argument_scalars(list, 0, types, found));
    }
}

proof fn lemma_row_function_scalars(generated: GeneratedSchema, i: nat, found: Seq<Seq<char>>)
    ensures
        covers(row_function_scalars(generated, i, found), found),
    decreases generated.object_types@.len() - i,
{
    if i < generated.object_types@.len() {
        let fields = generated.object_types@[i as int].fields@;
        lemma_computed_scalars(fields, 0, generated.pg_types@, found);
        lemma_row_function_scalars(
            generated,
            i + 1,
            computed_scalars(fields, 0, generated.pg_types@, found),
        );
    }
}

proof fn lemma_related_scalars(
    fields: Seq<RelationshipField>,
    i: nat,
    types: Seq<PgType>,
    found: Seq<Seq<char>>,
)
    ensures
        covers(related_scalars(fields, i, types, found), found),
    decreases fields.len() - i,
{
    if i < fields.len() {
        let list = fields[i as int].arguments@;
        lemma_argument_scalars(list, 0, types, found);
        lemma_related_scalars(fields, i + 1, types, argument_scalars(list, 0, types, found));
    }
}

proof fn lemma_relationship_scalars(generated: GeneratedSchema, i: nat, found: Seq<Seq<char>>)
    ensures
        covers(relationship_scalars(generated, i, found), found),
    decreases generated.relationship_fields@.len() - i,
{
    if i < generated.relationship_fields@.len() {
        let fields = generated.relationship_fields@[i as int].fields@;
        lemma_related_scalars(fields, 0, generated.pg_types@, found);
        lemma_relationship_scalars(
            generated,
            i + 1,
            related_scalars(fields, 0, generated.pg_types@, found),
        );
    }
}

proof fn lemma_with_names(found: Seq<Seq<char>>, more: Seq<Seq<char>>, i: nat)
    ensures
        covers(with_names(found, more, i), found),
        forall|k: int| i <= k < more.len() ==> has_text(with_names(found, more, i), #[trigger] more[k]),
    decreases more.len() - i,
{
    if i < more.len() {
        lemma_with_name(found, more[i as int]);
        lemma_with_names(with_name(found, more[i as int]), more, i + 1);
    }
}

proof fn lemma_declared(
    names: Seq<Seq<char>>,
    i: nat,
    enums: Seq<EnumType>,
    found: Seq<Seq<char>>,
    name: Seq<char>,
)
    requires
        has_text(found, name) || exists|k: int|
            i <= k < names.len() && #[trigger] names[k] == name,
        !is_builtin(name),
        named(enums, name) is None,
    ensures
        has_text(declared_scalars(names, i, enums, found), name),
    decreases names.len() - i,
{
    if i < names.len() {
        let first = names[i as int];
        if is_builtin(first) || named(enums, first) is Some {
            lemma_declared(names, i + 1, enums, found, name);
        } else {
            lemma_has_text_push(found, first, name);
            lemma_declared(names, i + 1, enums, found.push(first), name);
        }
    }
}

/// Whether a schema has a scalar or an enum of a name: its own, or GraphQL's.
pub open spec fn known_leaf(generated: GeneratedSchema, name: Seq<char>) -> bool {
    is_builtin(name) || named(generated.enum_types@, name) is Some || has_text(
        scalars_of(generated),
        name,
    )
}

proof fn lemma_known(generated: GeneratedSchema, name: Seq<char>)
    requires
        has_text(scalar_names(generated), name),
    ensures
        known_leaf(generated, name),
{
    if !is_builtin(name) && named(generated.enum_types@, name) is None {
        lemma_declared(scalar_names(generated), 0, generated.enum_types@, Seq::empty(), name);
    }
}

/// Every scalar that a field, a written column, a function's argument or a
/// filter names is one the schema has: a schema that mentions a type it never
/// declares could not be built.
pub proof fn law_every_scalar_is_declared(generated: GeneratedSchema)
    ensures
        forall|o: int, k: int|
            0 <= o < generated.object_types@.len() && 0 <= k
                < generated.object_types@[o].fields@.len() ==> known_leaf(
                generated,
                leaf_text((#[trigger] generated.object_types@[o].fields@[k]).graphql_type),
            ),
        forall|o: int, k: int|
            0 <= o < generated.object_types@.len() && 0 <= k
                < generated.object_types@[o].writable_fields@.len() ==> known_leaf(
                generated,
                leaf_text((#[trigger] generated.object_types@[o].writable_fields@[k]).graphql_type),
            ),
        forall|o: int, k: int|
            0 <= o < generated.function_fields@.len() && 0 <= k
                < generated.function_fields@[o].arguments@.len() ==> known_leaf(
                generated,
                pg_leaf(
                    generated.pg_types@,
                    (#[trigger] generated.function_fields@[o].arguments@[k]).pg_type@,
                ),
            ),
        forall|k: int|
            0 <= k < generated.filter_scalars@.len() ==> known_leaf(
                generated,
                (#[trigger] generated.filter_scalars@[k])@,
            ),
        known_leaf(generated, "JSON"@),
{
    let first = object_scalars(generated, 0, Seq::empty());
    let objects = with_name(first, "JSON"@);
    let functions = function_scalars(generated, 0, objects);
    let fields = row_function_scalars(generated, 0, functions);
    let relationships = relationship_scalars(generated, 0, fields);
    let filters = texts(generated.filter_scalars@);
    lemma_object_scalars(generated, 0, Seq::empty());
    lemma_with_name(first, "JSON"@);
    lemma_function_scalars(generated, 0, objects);
    lemma_row_function_scalars(generated, 0, functions);
    lemma_relationship_scalars(generated, 0, fields);
    lemma_with_names(relationships, filters, 0);
    let all = scalar_names(generated);
    assert forall|name: Seq<char>| #[trigger] has_text(functions, name) implies has_text(all, name) by {
        assert(has_text(fields, name));
        assert(has_text(relationships, name));
    }
    assert forall|name: Seq<char>| #[trigger] has_text(first, name) implies has_text(all, name) by {
        assert(has_text(objects, name));
        assert(has_text(functions, name));
    }
    assert forall|o: int, k: int|
        0 <= o < generated.object_types@.len() && 0 <= k
            < generated.object_types@[o].fields@.len() implies known_leaf(
        generated,
        leaf_text((#[trigger] generated.object_types@[o].fields@[k]).graphql_type),
    ) by {
        lemma_known(generated, leaf_text(generated.object_types@[o].fields@[k].graphql_type));
    }
    assert forall|o: int, k: int|
        0 <= o < generated.object_types@.len() && 0 <= k
            < generated.object_types@[o].writable_fields@.len() implies known_leaf(
        generated,
        leaf_text((#[trigger] generated.object_types@[o].writable_fields@[k]).graphql_type),
    ) by {
        lemma_known(
            generated,
            leaf_text(generated.object_types@[o].writable_fields@[k].graphql_type),
        );
    }
    assert forall|o: int, k: int|
        0 <= o < generated.function_fields@.len() && 0 <= k
            < generated.function_fields@[o].arguments@.len() implies known_leaf(
        generated,
        pg_leaf(
            generated.pg_types@,
            (#[trigger] generated.function_fields@[o].arguments@[k]).pg_type@,
        ),
    ) by {
        lemma_known(
            generated,
            pg_leaf(
                generated.pg_types@,
                generated.function_fields@[o].arguments@[k].pg_type@,
            ),
        );
    }
    assert forall|k: int| 0 <= k < generated.filter_scalars@.len() implies known_leaf(
        generated,
        (#[trigger] generated.filter_scalars@[k])@,
    ) by {
        assert(filters[k] == generated.filter_scalars@[k]@);
        lemma_known(generated, generated.filter_scalars@[k]@);
    }
    assert(has_text(objects, "JSON"@));
    assert(has_text(functions, "JSON"@));
    lemma_known(generated, "JSON"@);
}

// ---------------------------------------------------------------------------
// Every object type is there
// ---------------------------------------------------------------------------

/// Whether some object has a name.
pub open spec fn has_object(s: Seq<ObjectDefV>, name: Seq<char>) -> bool {
    exists|i: int| 0 <= i < s.len() && (#[trigger] s[i]).name == name
}

proof fn lemma_object_place(s: Seq<ObjectDefV>, name: Seq<char>, i: nat)
    ensures
        object_place(s, name, i) < s.len() ==> s[object_place(s, name, i) as int].name == name,
    decreases s.len() - i,
{
    if i < s.len() && s[i as int].name != name {
        lemma_object_place(s, name, i + 1);
    }
}

proof fn lemma_put_object(s: Seq<ObjectDefV>, object: ObjectDefV, name: Seq<char>)
    ensures
        has_object(put_object_of(s, object), object.name),
        has_object(s, name) ==> has_object(put_object_of(s, object), name),
{
    lemma_object_place(s, object.name, 0);
    let k = object_place(s, object.name, 0) as int;
    let after = put_object_of(s, object);
    if k < s.len() {
        assert(after[k].name == object.name);
    } else {
        assert(after[s.len() as int].name == object.name);
    }
    if has_object(s, name) {
        let i = choose|i: int| 0 <= i < s.len() && (#[trigger] s[i]).name == name;
        assert(after[i].name == name);
    }
}

proof fn lemma_put_all_objects(
    s: Seq<ObjectDefV>,
    more: Seq<ObjectDefV>,
    i: nat,
    name: Seq<char>,
)
    ensures
        has_object(s, name) ==> has_object(put_all_of(s, more, i), name),
        (exists|k: int| i <= k < more.len() && (#[trigger] more[k]).name == name) ==> has_object(
            put_all_of(s, more, i),
            name,
        ),
    decreases more.len() - i,
{
    if i < more.len() {
        lemma_put_object(s, more[i as int], name);
        lemma_put_all_objects(put_object_of(s, more[i as int]), more, i + 1, name);
    }
}

proof fn lemma_row_types(
    generated: GeneratedSchema,
    i: nat,
    objects: Seq<ObjectDefV>,
    name: Seq<char>,
)
    ensures
        has_object(objects, name) ==> has_object(row_types(generated, i, objects), name),
        (exists|k: int|
            i <= k < generated.object_types@.len() && (
            #[trigger] generated.object_types@[k]).name@ == name
                && generated.object_types@[k].fields@.len() > 0) ==> has_object(
            row_types(generated, i, objects),
            name,
        ),
    decreases generated.object_types@.len() - i,
{
    if i < generated.object_types@.len() {
        let object = generated.object_types@[i as int];
        if object.fields@.len() == 0 {
            lemma_row_types(generated, i + 1, objects, name);
        } else {
            let row = row_type(
                object,
                relationships_in(generated, object.name@),
                named(generated.federation_entities@, object.name@),
            );
            lemma_put_object(objects, row, name);
            lemma_row_types(generated, i + 1, put_object_of(objects, row), name);
        }
    }
}

proof fn lemma_with_aggregates(
    generated: GeneratedSchema,
    i: nat,
    objects: Seq<ObjectDefV>,
    name: Seq<char>,
)
    ensures
        has_object(objects, name) ==> has_object(with_aggregates(generated, i, objects), name),
        (exists|k: int|
            i <= k < generated.object_types@.len() && aggregate_type(
                (#[trigger] generated.object_types@[k]).local_name@,
            ) == name && (generated.object_types@[k].fields@.len() > 0 || is_counted(
                generated,
                generated.object_types@[k].name@,
            ))) ==> has_object(with_aggregates(generated, i, objects), name),
    decreases generated.object_types@.len() - i,
{
    if i < generated.object_types@.len() {
        let object = generated.object_types@[i as int];
        if object.fields@.len() == 0 && !is_counted(generated, object.name@) {
            lemma_with_aggregates(generated, i + 1, objects, name);
        } else {
            let more = aggregate_types_of(object.local_name@, object);
            assert(more[0].name == aggregate_type(object.local_name@));
            lemma_put_all_objects(objects, more, 0, name);
            lemma_with_aggregates(generated, i + 1, put_all_of(objects, more, 0), name);
        }
    }
}

/// Whether some pair has a key.
pub open spec fn has_key(s: Seq<(Seq<char>, Seq<char>)>, key: Seq<char>) -> bool {
    exists|i: int| 0 <= i < s.len() && (#[trigger] s[i]).0 == key
}

proof fn lemma_put_pair(
    s: Seq<(Seq<char>, Seq<char>)>,
    key: Seq<char>,
    value: Seq<char>,
    i: nat,
    other: Seq<char>,
)
    requires
        i <= s.len(),
    ensures
        has_key(put_pair_of(s, key, value, i), key),
        has_key(s, other) ==> has_key(put_pair_of(s, key, value, i), other),
    decreases s.len() - i,
{
    let after = put_pair_of(s, key, value, i);
    if i >= s.len() {
        assert(after[s.len() as int].0 == key);
        if has_key(s, other) {
            let k = choose|k: int| 0 <= k < s.len() && (#[trigger] s[k]).0 == other;
            assert(after[k].0 == other);
        }
    } else if s[i as int].0 == key {
        assert(after[i as int].0 == key);
        if has_key(s, other) {
            let k = choose|k: int| 0 <= k < s.len() && (#[trigger] s[k]).0 == other;
            assert(after[k].0 == other);
        }
    } else {
        lemma_put_pair(s, key, value, i + 1, other);
    }
}

proof fn lemma_answered_tables(
    generated: GeneratedSchema,
    i: nat,
    found: Seq<(Seq<char>, Seq<char>)>,
    base: Seq<char>,
)
    ensures
        has_key(found, base) ==> has_key(answered_tables(generated, i, found), base),
        (exists|k: int|
            i <= k < generated.mutation_fields@.len() && stripped_suffix(
                crate::generated::bare_type((#[trigger] generated.mutation_fields@[k]).return_type@),
                "_mutation_response"@,
            ) == Some(base)) ==> has_key(answered_tables(generated, i, found), base),
    decreases generated.mutation_fields@.len() - i,
{
    if i < generated.mutation_fields@.len() {
        let field = generated.mutation_fields@[i as int];
        match stripped_suffix(
            crate::generated::bare_type(field.return_type@),
            "_mutation_response"@,
        ) {
            Some(key) => {
                lemma_put_pair(found, key, field.typename@, 0, base);
                lemma_answered_tables(
                    generated,
                    i + 1,
                    put_pair_of(found, key, field.typename@, 0),
                    base,
                );
            },
            None => {
                lemma_answered_tables(generated, i + 1, found, base);
            },
        }
    }
}

proof fn lemma_with_responses(
    generated: GeneratedSchema,
    tables: Seq<(Seq<char>, Seq<char>)>,
    i: nat,
    objects: Seq<ObjectDefV>,
    name: Seq<char>,
)
    ensures
        has_object(objects, name) ==> has_object(
            with_responses(generated, tables, i, objects),
            name,
        ),
        (exists|k: int|
            i <= k < tables.len() && response_type((#[trigger] tables[k]).0) == name)
            ==> has_object(with_responses(generated, tables, i, objects), name),
    decreases tables.len() - i,
{
    if i < tables.len() {
        let (base, row) = tables[i as int];
        let response = response_of(base, row, has_rows(generated, row));
        lemma_put_object(objects, response, name);
        lemma_with_responses(generated, tables, i + 1, put_object_of(objects, response), name);
    }
}

/// A table that may be read has its row type.
pub proof fn law_readable_tables_have_row_types(generated: GeneratedSchema, k: int)
    requires
        0 <= k < generated.object_types@.len(),
        generated.object_types@[k].fields@.len() > 0,
    ensures
        has_object(objects_of(generated), generated.object_types@[k].name@),
{
    let name = generated.object_types@[k].name@;
    let rows = row_types(generated, 0, Seq::empty());
    lemma_row_types(generated, 0, Seq::empty(), name);
    lemma_with_aggregates(generated, 0, rows, name);
    lemma_with_responses(
        generated,
        answered_tables(generated, 0, Seq::empty()),
        0,
        with_aggregates(generated, 0, rows),
        name,
    );
}

/// A table that may be read or counted has the type its root aggregate answers
/// with.
pub proof fn law_counted_tables_have_aggregate_types(generated: GeneratedSchema, k: int)
    requires
        0 <= k < generated.object_types@.len(),
        generated.object_types@[k].fields@.len() > 0 || is_counted(
            generated,
            generated.object_types@[k].name@,
        ),
    ensures
        has_object(objects_of(generated), aggregate_type(generated.object_types@[k].local_name@)),
{
    let name = aggregate_type(generated.object_types@[k].local_name@);
    let rows = row_types(generated, 0, Seq::empty());
    lemma_with_aggregates(generated, 0, rows, name);
    lemma_with_responses(
        generated,
        answered_tables(generated, 0, Seq::empty()),
        0,
        with_aggregates(generated, 0, rows),
        name,
    );
}

/// A bulk write has the type it answers with, whether or not the rows it
/// writes may be read.
pub proof fn law_bulk_writes_have_response_types(
    generated: GeneratedSchema,
    k: int,
    base: Seq<char>,
)
    requires
        0 <= k < generated.mutation_fields@.len(),
        stripped_suffix(
            crate::generated::bare_type(generated.mutation_fields@[k].return_type@),
            "_mutation_response"@,
        ) == Some(base),
    ensures
        has_object(objects_of(generated), response_type(base)),
{
    let tables = answered_tables(generated, 0, Seq::empty());
    lemma_answered_tables(generated, 0, Seq::empty(), base);
    lemma_with_responses(
        generated,
        tables,
        0,
        with_aggregates(generated, 0, row_types(generated, 0, Seq::empty())),
        response_type(base),
    );
}

} // verus!

//! When documents are the same, and which of several things is meant.

use crate::binds::BindsV;
use crate::catalog::{
    fields_of, CatalogueRelationship, DeclaredRelationship, NameOverrides, SchemaCache, Table,
};
use crate::condition::CursorV;
use crate::embed::{computed_fields, embedded, EmbedV, Selected};
use crate::entity::{
    answer_to, applicability, group_named, lookup_columns, lookup_of, EntityKeyColumnV,
    EntityLookupV, FragmentDef, Pick,
};
use crate::error::ErrorV;
use crate::generated::{bare_type, FederationEntity, GeneratedSchema, TableObjectType};
use crate::geojson::shape_refusal;
use crate::input::filter::{
    BooleanFilterInput, FloatFilterInput, IntFilterInput, StringFilterInput, UuidFilterInput,
};
use crate::input::mutation::InputValue;
use crate::json::{entry_of, json_text, leads, same_entries, same_items, same_json, JsonV};
use crate::live::{was_sent, LiveV};
use crate::lookup::{named, qualified};
use crate::ordering::{leads_with, term_column};
use crate::plan::typed_tree;
use crate::read::deleted_extras;
use crate::resolver::mutation::{insert_body, json_of, row_document, update_body};
use crate::resolver::query::{clauses_of, logic_tree, only_denies, TableFilter};
use crate::role::Caller;
use crate::scope::{
    catalogue_from, catalogued, declared_field, given_from, keyed_from, ScopeV, Sources,
};
use crate::statement::{check_scope, typename_of, write_scope, WriteSources};
use crate::text::{has_text, ident, texts};
use vstd::prelude::*;
use vstd::utf8::encode_utf8;

verus! {

// ---------------------------------------------------------------------------
// Documents
// ---------------------------------------------------------------------------

proof fn lemma_first_entry(entries: Seq<(Seq<char>, JsonV)>, i: int)
    requires
        0 <= i < entries.len(),
        leads(entries, i),
    ensures
        entry_of(entries, entries[i].0) == Some(entries[i].1),
    decreases entries.len(),
{
    if i > 0 {
        let rest = entries.drop_first();
        assert(entries[0].0 != entries[i].0);
        assert(rest[i - 1] == entries[i]);
        assert forall|j: int| 0 <= j < i - 1 implies (#[trigger] rest[j]).0 != rest[i - 1].0 by {
            assert(rest[j] == entries[j + 1]);
        }
        lemma_first_entry(rest, i - 1);
    }
}

proof fn lemma_entry_leads(entries: Seq<(Seq<char>, JsonV)>, key: Seq<char>) -> (i: int)
    requires
        entry_of(entries, key) is Some,
    ensures
        0 <= i < entries.len(),
        leads(entries, i),
        entries[i].0 == key,
        entry_of(entries, key) == Some(entries[i].1),
    decreases entries.len(),
{
    if entries[0].0 == key {
        0
    } else {
        let rest = entries.drop_first();
        let k = lemma_entry_leads(rest, key);
        assert(entries[k + 1] == rest[k]);
        assert forall|j: int| 0 <= j < k + 1 implies (#[trigger] entries[j]).0 != entries[k
            + 1].0 by {
            if j > 0 {
                assert(entries[j] == rest[j - 1]);
            }
        }
        k + 1
    }
}

proof fn lemma_same_entries(
    xs: Seq<(Seq<char>, JsonV)>,
    ys: Seq<(Seq<char>, JsonV)>,
    i: nat,
)
    requires
        i <= xs.len(),
    ensures
        same_entries(xs, ys, i) == (forall|k: int|
            i <= k < xs.len() && #[trigger] leads(xs, k) ==> (entry_of(ys, xs[k].0) matches Some(
                value,
            ) && same_json(xs[k].1, value))),
    decreases xs.len() - i,
{
    if i < xs.len() {
        lemma_same_entries(xs, ys, i + 1);
        if same_entries(xs, ys, i) {
            assert forall|k: int| i <= k < xs.len() && #[trigger] leads(xs, k) implies (entry_of(
                ys,
                xs[k].0,
            ) matches Some(value) && same_json(xs[k].1, value)) by {}
        } else if same_entries(xs, ys, i + 1) {
            assert(leads(xs, i as int));
        }
    }
}

proof fn lemma_same_items(xs: Seq<JsonV>, ys: Seq<JsonV>, i: nat)
    requires
        i <= xs.len(),
    ensures
        same_items(xs, ys, i) == (forall|k: int|
            i <= k < xs.len() ==> same_json(#[trigger] xs[k], ys[k])),
    decreases xs.len() - i,
{
    if i < xs.len() {
        lemma_same_items(xs, ys, i + 1);
    }
}

/// Two lists are the same where they are as long and each item is the same as
/// the one in its place.
pub proof fn law_lists_are_the_same_item_by_item(xs: Seq<JsonV>, ys: Seq<JsonV>)
    ensures
        same_json(JsonV::Array(xs), JsonV::Array(ys)) == (xs.len() == ys.len() && forall|k: int|
            0 <= k < xs.len() ==> same_json(#[trigger] xs[k], ys[k])),
{
    lemma_same_items(xs, ys, 0);
}

/// Whether what two objects give for a key is the same.
pub open spec fn gives_the_same(
    xs: Seq<(Seq<char>, JsonV)>,
    ys: Seq<(Seq<char>, JsonV)>,
    key: Seq<char>,
) -> bool {
    match (entry_of(xs, key), entry_of(ys, key)) {
        (None, None) => true,
        (Some(x), Some(y)) => same_json(x, y),
        _ => false,
    }
}

/// Two objects are the same where they give the same for every key, in whatever
/// order.
pub proof fn law_objects_are_the_same_key_by_key(
    xs: Seq<(Seq<char>, JsonV)>,
    ys: Seq<(Seq<char>, JsonV)>,
)
    ensures
        same_json(JsonV::Object(xs), JsonV::Object(ys)) == (forall|key: Seq<char>| #[trigger]
            gives_the_same(xs, ys, key)),
{
    lemma_same_entries(xs, ys, 0);
    if same_json(JsonV::Object(xs), JsonV::Object(ys)) {
        assert forall|key: Seq<char>| #[trigger] gives_the_same(xs, ys, key) by {
            if entry_of(xs, key) is Some {
                let k = lemma_entry_leads(xs, key);
                assert(leads(xs, k));
            } else if entry_of(ys, key) is Some {
                let k = lemma_entry_leads(ys, key);
                assert(entry_of(xs, ys[k].0) is Some);
            }
        }
    }
    if forall|key: Seq<char>| #[trigger] gives_the_same(xs, ys, key) {
        assert forall|k: int| 0 <= k < xs.len() && #[trigger] leads(xs, k) implies (entry_of(
            ys,
            xs[k].0,
        ) matches Some(value) && same_json(xs[k].1, value)) by {
            lemma_first_entry(xs, k);
            assert(gives_the_same(xs, ys, xs[k].0));
        }
        assert forall|j: int| 0 <= j < ys.len() implies entry_of(
            xs,
            (#[trigger] ys[j]).0,
        ) is Some by {
            lemma_present(ys, j);
            assert(gives_the_same(xs, ys, ys[j].0));
        }
    }
}

proof fn lemma_present(entries: Seq<(Seq<char>, JsonV)>, j: int)
    requires
        0 <= j < entries.len(),
    ensures
        entry_of(entries, entries[j].0) is Some,
    decreases entries.len(),
{
    if entries[0].0 != entries[j].0 {
        assert(entries.drop_first()[j - 1] == entries[j]);
        lemma_present(entries.drop_first(), j - 1);
    }
}

/// Documents of no parts are the same where they are equal, and none is the same
/// as one of another kind.
pub proof fn law_plain_documents_are_the_same_where_equal(a: JsonV, b: JsonV)
    ensures
        !(a is Array) && !(a is Object) ==> same_json(a, b) == (a == b),
        a is Array && !(b is Array) ==> !same_json(a, b),
        a is Object && !(b is Object) ==> !same_json(a, b),
{
}

/// What was sent is not sent again, and what was not is.
pub proof fn law_what_was_sent_is_not_sent_again(state: LiveV, seen: JsonV)
    ensures
        state.sent is None ==> !was_sent(state, seen),
        state.sent matches Some(sent) ==> was_sent(state, seen) == same_json(sent, seen),
{
}

/// What is wrong with a shape refuses it, as something that could not be read.
pub proof fn law_faults_refuse_shapes(message: Seq<char>)
    ensures
        shape_refusal(None) == Ok::<(), ErrorV>(()),
        shape_refusal(Some(message)) == Err::<(), ErrorV>(
            ErrorV { message, code: Some("parse-failed"@), path: None },
        ),
{
}

// ---------------------------------------------------------------------------
// Relationships
// ---------------------------------------------------------------------------

/// Which relationship a name means: one that the row's type publishes, then one
/// that was declared for its table, then one that the catalogue found.
pub proof fn law_published_relationships_come_first(
    scope: ScopeV,
    cache: SchemaCache,
    all: Vec<crate::catalog::TypeRelationships>,
    name: Seq<char>,
)
    requires
        scope.resolution == Some((cache, all)),
    ensures
        ({
            let published = match fields_of(all@, scope.typename) {
                Some(fields) => named(fields@, name),
                None => None,
            };
            &&& published matches Some(field) ==> scope.relationship(name) == Some(
                (field.name@, field),
            )
            &&& published is None && scope.table() is None ==> scope.relationship(name) is None
            &&& published is None ==> (scope.table() matches Some(table) ==> {
                let declared = declared_field(scope.names, cache, table, name);
                &&& declared is Some ==> scope.relationship(name) == declared
                &&& declared is None ==> scope.relationship(name) == catalogue_from(
                    catalogued(cache, table),
                    0,
                    scope.names,
                    table,
                    name,
                )
            })
        }),
{
}

/// A declared relationship is the one it maps, or the one that its key leads by.
pub proof fn law_declared_relationships_are_what_they_map(
    names: NameOverrides,
    cache: SchemaCache,
    table: Table,
    name: Seq<char>,
    list: Vec<DeclaredRelationship>,
    entry: DeclaredRelationship,
)
    requires
        names.declared_on(table.schema@, table.name@) == Some(list),
        named(list@, name) == Some(entry),
    ensures
        entry.mapped matches Some(field) ==> declared_field(names, cache, table, name) == Some(
            (field.name@, field),
        ),
        entry.mapped is None && entry.using is None ==> declared_field(
            names,
            cache,
            table,
            name,
        ) is None,
        entry.mapped is None && entry.using is Some ==> declared_field(names, cache, table, name)
            == (match keyed_from(catalogued(cache, table), 0, entry.using->0@) {
            Some(field) => Some((entry.name@, field)),
            None => None,
        }),
{
}

proof fn lemma_keyed_from(found: Seq<CatalogueRelationship>, i: nat, key: Seq<char>)
    ensures
        match keyed_from(found, i, key) {
            None => forall|k: int|
                i <= k < found.len() ==> !has_text(texts((#[trigger] found[k]).keys@), key),
            Some(field) => exists|k: int|
                i <= k < found.len() && has_text(texts((#[trigger] found[k]).keys@), key)
                    && found[k].field == field,
        },
    decreases found.len() - i,
{
    if i < found.len() {
        if !has_text(texts(found[i as int].keys@), key) {
            lemma_keyed_from(found, i + 1, key);
        }
    }
}

/// A key leads to a relationship that rests on it.
pub proof fn law_keys_lead_to_their_relationships(
    found: Seq<CatalogueRelationship>,
    key: Seq<char>,
)
    ensures
        match keyed_from(found, 0, key) {
            None => forall|k: int|
                0 <= k < found.len() ==> !has_text(texts((#[trigger] found[k]).keys@), key),
            Some(field) => exists|k: int|
                0 <= k < found.len() && has_text(texts((#[trigger] found[k]).keys@), key)
                    && found[k].field == field,
        },
{
    lemma_keyed_from(found, 0, key);
}

/// What a relationship of the catalogue is called: the name that was given to a
/// key of it, or its own.
pub open spec fn shown_as(
    found: CatalogueRelationship,
    names: NameOverrides,
    table: Table,
) -> Seq<char> {
    match given_from(found.keys@, 0, names, table) {
        Some(given) => given,
        None => found.field.name@,
    }
}

proof fn lemma_catalogue_from(
    found: Seq<CatalogueRelationship>,
    i: nat,
    names: NameOverrides,
    table: Table,
    name: Seq<char>,
)
    ensures
        match catalogue_from(found, i, names, table, name) {
            None => forall|k: int|
                i <= k < found.len() ==> shown_as(#[trigger] found[k], names, table) != name,
            Some((shown, field)) => shown == name && exists|k: int|
                i <= k < found.len() && shown_as(#[trigger] found[k], names, table) == name
                    && found[k].field == field,
        },
    decreases found.len() - i,
{
    if i < found.len() {
        if shown_as(found[i as int], names, table) != name {
            lemma_catalogue_from(found, i + 1, names, table, name);
        }
    }
}

/// A relationship of the catalogue is meant by the name it is shown by.
pub proof fn law_catalogued_relationships_are_meant_by_name(
    found: Seq<CatalogueRelationship>,
    names: NameOverrides,
    table: Table,
    name: Seq<char>,
)
    ensures
        match catalogue_from(found, 0, names, table, name) {
            None => forall|k: int|
                0 <= k < found.len() ==> shown_as(#[trigger] found[k], names, table) != name,
            Some((shown, field)) => shown == name && exists|k: int|
                0 <= k < found.len() && shown_as(#[trigger] found[k], names, table) == name
                    && found[k].field == field,
        },
{
    lemma_catalogue_from(found, 0, names, table, name);
}

proof fn lemma_given_from(keys: Seq<String>, i: nat, names: NameOverrides, table: Table)
    ensures
        match given_from(keys, i, names, table) {
            None => forall|k: int|
                i <= k < keys.len() ==> names.relationship_name(
                    table.schema@,
                    table.name@,
                    (#[trigger] keys[k])@,
                ) is None,
            Some(given) => exists|k: int|
                i <= k < keys.len() && names.relationship_name(
                    table.schema@,
                    table.name@,
                    (#[trigger] keys[k])@,
                ) == Some(given),
        },
    decreases keys.len() - i,
{
    if i < keys.len() {
        if names.relationship_name(table.schema@, table.name@, keys[i as int]@) is None {
            lemma_given_from(keys, i + 1, names, table);
        }
    }
}

/// A name is given to a relationship by one of its keys, where one has been.
pub proof fn law_names_are_given_by_keys(keys: Seq<String>, names: NameOverrides, table: Table)
    ensures
        match given_from(keys, 0, names, table) {
            None => forall|k: int|
                0 <= k < keys.len() ==> names.relationship_name(
                    table.schema@,
                    table.name@,
                    (#[trigger] keys[k])@,
                ) is None,
            Some(given) => exists|k: int|
                0 <= k < keys.len() && names.relationship_name(
                    table.schema@,
                    table.name@,
                    (#[trigger] keys[k])@,
                ) == Some(given),
        },
{
    lemma_given_from(keys, 0, names, table);
}

// ---------------------------------------------------------------------------
// Entities
// ---------------------------------------------------------------------------

/// A field applies where what it stands in does, one in a fragment where the
/// fragment is on the type too, and nested ones where both are.
pub proof fn law_fields_apply_with_their_fragments(
    defs: Seq<FragmentDef>,
    typename: Seq<char>,
    holds: bool,
    depth: nat,
    on: String,
    inner: Vec<Pick>,
    found: Seq<bool>,
)
    ensures
        applicability(seq![Pick::Field], 0, defs, typename, holds, depth, found) == found.push(
            holds,
        ),
        applicability(
            seq![Pick::Inline { on: Some(on), items: inner }],
            0,
            defs,
            typename,
            holds,
            depth,
            found,
        ) == applicability(
            inner@,
            0,
            defs,
            typename,
            holds && (on@ == typename || on@ == "_Entity"@),
            depth,
            found,
        ),
        applicability(
            seq![Pick::Inline { on: None, items: inner }],
            0,
            defs,
            typename,
            holds,
            depth,
            found,
        ) == applicability(inner@, 0, defs, typename, holds, depth, found),
{
    let field = seq![Pick::Field];
    assert(field[0] == Pick::Field);
    assert(applicability(field, 1, defs, typename, holds, depth, found.push(holds)) == found.push(
        holds,
    ));
    lemma_inline(defs, typename, holds, depth, Some(on), inner, found);
    lemma_inline(defs, typename, holds, depth, None, inner, found);
}

proof fn lemma_inline(
    defs: Seq<FragmentDef>,
    typename: Seq<char>,
    holds: bool,
    depth: nat,
    on: Option<String>,
    inner: Vec<Pick>,
    found: Seq<bool>,
)
    ensures
        applicability(
            seq![Pick::Inline { on, items: inner }],
            0,
            defs,
            typename,
            holds,
            depth,
            found,
        ) == applicability(
            inner@,
            0,
            defs,
            typename,
            holds && (on is None || on->0@ == typename || on->0@ == "_Entity"@),
            depth,
            found,
        ),
{
    let one = seq![Pick::Inline { on, items: inner }];
    assert(one[0] == Pick::Inline { on, items: inner });
    let next = applicability(
        inner@,
        0,
        defs,
        typename,
        holds && (on is None || on->0@ == typename || on->0@ == "_Entity"@),
        depth,
        found,
    );
    assert(applicability(one, 1, defs, typename, holds, depth, next) == next);
}

/// A spread is what its fragment selects, where the fragment is on the type.
pub proof fn law_spreads_are_their_fragments(
    defs: Seq<FragmentDef>,
    typename: Seq<char>,
    holds: bool,
    depth: nat,
    name: String,
    found: Seq<bool>,
)
    requires
        depth > 0,
    ensures
        applicability(seq![Pick::Spread(name)], 0, defs, typename, holds, depth, found) == (
        match named(defs, name@) {
            None => found,
            Some(def) => applicability(
                def.items@,
                0,
                defs,
                typename,
                holds && (def.on@ == typename || def.on@ == "_Entity"@),
                (depth - 1) as nat,
                found,
            ),
        }),
{
    let one = seq![Pick::Spread(name)];
    assert(one[0] == Pick::Spread(name));
    assert(applicability(one, 1, defs, typename, holds, depth, found) == found);
    match named(defs, name@) {
        None => {},
        Some(def) => {
            let next = applicability(
                def.items@,
                0,
                defs,
                typename,
                holds && (def.on@ == typename || def.on@ == "_Entity"@),
                (depth - 1) as nat,
                found,
            );
            assert(applicability(one, 1, defs, typename, holds, depth, next) == next);
        },
    }
}

proof fn lemma_group_named(groups: Seq<(Seq<char>, Seq<JsonV>)>, name: Seq<char>)
    ensures
        group_named(groups, name) is None ==> forall|k: int|
            0 <= k < groups.len() ==> (#[trigger] groups[k]).0 != name,
        group_named(groups, name) matches Some(rows) ==> exists|k: int|
            0 <= k < groups.len() && #[trigger] groups[k] == (name, rows),
    decreases groups.len(),
{
    if groups.len() > 0 && groups[0].0 != name {
        let rest = groups.drop_first();
        lemma_group_named(rest, name);
        if group_named(groups, name) is None {
            assert forall|k: int| 0 <= k < groups.len() implies (#[trigger] groups[k]).0
                != name by {
                if k > 0 {
                    assert(groups[k] == rest[k - 1]);
                }
            }
        } else {
            let rows = group_named(groups, name)->0;
            let k = choose|k: int| 0 <= k < rest.len() && #[trigger] rest[k] == (name, rows);
            assert(groups[k + 1] == (name, rows));
        }
    } else if groups.len() > 0 {
        assert(groups[0] == (name, groups[0].1));
    }
}

/// Each representation is answered from the rows of its own type, with the one in
/// the place it has among those of that type.
pub proof fn law_answers_are_of_their_type(
    types: Seq<Seq<char>>,
    answers: Seq<(Seq<char>, Seq<JsonV>)>,
    i: int,
)
    requires
        0 <= i < types.len(),
    ensures
        answer_to(types, answers, i) matches Some(row) ==> exists|k: int|
            0 <= k < answers.len() && (#[trigger] answers[k]).0 == types[i]
                && crate::entity::rank(types, types[i], i as nat) < answers[k].1.len()
                && answers[k].1[crate::entity::rank(types, types[i], i as nat) as int] == row,
{
    lemma_group_named(answers, types[i]);
}

/// An entity is looked up in its own table, by the columns behind its key fields,
/// each in its own type; one that was declared an identifier is taken as one.
pub proof fn law_entities_are_looked_up_by_their_keys(
    object: TableObjectType,
    names: NameOverrides,
    field: Seq<char>,
    found: Seq<EntityKeyColumnV>,
)
    ensures
        ({
            let (schema, table) = (object.table.schema@, object.table.name@);
            lookup_columns(object, names, seq![field], 0, found) == (match object.table.column(
                crate::catalog::column_behind(names, schema, table, field),
            ) {
                None => None,
                Some(column) => Some(
                    found.push(
                        EntityKeyColumnV {
                            field_name: field,
                            column_name: column.name@,
                            pg_type: column.nominal_type@,
                            explicit_id: names.chosen_type(schema, table, column.name@) == Some(
                                "ID"@,
                            ),
                        },
                    ),
                ),
            })
        }),
{
    let one = seq![field];
    assert(one[0] == field);
    let (schema, table) = (object.table.schema@, object.table.name@);
    match object.table.column(crate::catalog::column_behind(names, schema, table, field)) {
        None => {},
        Some(column) => {
            let more = found.push(
                EntityKeyColumnV {
                    field_name: field,
                    column_name: column.name@,
                    pg_type: column.nominal_type@,
                    explicit_id: names.chosen_type(schema, table, column.name@) == Some("ID"@),
                },
            );
            assert(lookup_columns(object, names, one, 1, more) == Some(more));
        },
    }
}

/// What is known of an entity is its type, its table and its columns.
pub proof fn law_entities_are_of_their_tables(
    generated: GeneratedSchema,
    names: NameOverrides,
    entity: FederationEntity,
)
    ensures
        match named(generated.object_types@, entity.typename@) {
            None => lookup_of(generated, names, entity) is None,
            Some(object) => match lookup_columns(
                object,
                names,
                texts(entity.key_fields@),
                0,
                Seq::empty(),
            ) {
                None => lookup_of(generated, names, entity) is None,
                Some(key_columns) => lookup_of(generated, names, entity) == Some(
                    EntityLookupV {
                        schema_name: object.table.schema@,
                        table_name: object.table.name@,
                        typename: entity.typename@,
                        key_columns,
                        row_column_types: crate::projection::exposed_types(object.table, names),
                    },
                ),
            },
        },
{
}

// ---------------------------------------------------------------------------
// Filters and rows
// ---------------------------------------------------------------------------

/// A filter that asks for nothing gives none of its parts.
pub proof fn law_empty_filters_ask_for_nothing(
    s: StringFilterInput,
    i: IntFilterInput,
    f: FloatFilterInput,
    b: BooleanFilterInput,
    u: UuidFilterInput,
    t: TableFilter,
)
    ensures
        s.asks_nothing() == (s.eq is None && s.neq is None && s.like is None && s.ilike is None
            && s.in_list is None && s.is_null is None && s.starts_with is None
            && s.ends_with is None && s.contains is None),
        i.asks_nothing() == (i.eq is None && i.neq is None && i.gt is None && i.gte is None
            && i.lt is None && i.lte is None && i.in_list is None && i.is_null is None),
        f.asks_nothing() == (f.eq is None && f.neq is None && f.gt is None && f.gte is None
            && f.lt is None && f.lte is None && f.is_null is None),
        b.asks_nothing() == (b.eq is None && b.is_null is None),
        u.asks_nothing() == (u.eq is None && u.neq is None && u.in_list is None
            && u.is_null is None),
        t.asks_nothing() == (t.fields@.len() == 0 && t.and is None && t.or is None
            && t.not is None),
        only_denies(t) == (t.fields@.len() == 0 && t.and is None && t.or is None && t.not is Some),
{
}

/// A read's clauses are its filter's tree, where it asks for anything.
pub proof fn law_a_filter_is_one_clause(filter: TableFilter, table: Table)
    ensures
        clauses_of(None, table).len() == 0,
        logic_tree(filter) is None ==> clauses_of(Some(filter), table).len() == 0,
        logic_tree(filter) matches Some(tree) ==> clauses_of(Some(filter), table) == seq![
            typed_tree(tree, table),
        ],
{
}

/// What is inserted is written as a document: one row as its own, several as a
/// list, and no row as nothing. What is updated is written as one.
pub proof fn law_rows_are_written_as_documents(
    rows: Seq<Vec<(String, InputValue)>>,
    set: Seq<(String, InputValue)>,
    i: int,
)
    ensures
        rows.len() == 0 ==> insert_body(rows) is None,
        rows.len() == 1 ==> insert_body(rows) == Some(
            encode_utf8(json_text(row_document(rows[0]@))),
        ),
        rows.len() > 1 ==> insert_body(rows) == Some(
            encode_utf8(
                json_text(
                    JsonV::Array(Seq::new(rows.len(), |k: int| row_document(rows[k]@))),
                ),
            ),
        ),
        set.len() == 0 ==> update_body(set) is None,
        set.len() > 0 ==> update_body(set) == Some(encode_utf8(json_text(row_document(set)))),
        row_document(set) == JsonV::Object(
            Seq::new(set.len(), |k: int| (set[k].0@, json_of(set[k].1))),
        ),
{
    assert(crate::resolver::mutation::row_documents(rows) =~= Seq::new(
        rows.len(),
        |k: int| row_document(rows[k]@),
    ));
    assert(crate::resolver::mutation::row_entries(set) =~= Seq::new(
        set.len(),
        |k: int| (set[k].0@, json_of(set[k].1)),
    ));
}

// ---------------------------------------------------------------------------
// Writing
// ---------------------------------------------------------------------------

/// A write's filter is over the row that is written, and so is its check, whoever
/// is writing.
pub proof fn law_writes_are_filtered_over_their_rows(
    ws: WriteSources<'_>,
    schema: Seq<char>,
    table: Seq<char>,
    typename: Seq<char>,
)
    ensures
        ({
            let over = |name: Seq<char>|
                ScopeV {
                    qualified: (schema, table),
                    sql_ref: ident("pgrst_row"@),
                    row_ref: ident("pgrst_row"@),
                    typename: name,
                    root_ref: ident("pgrst_row"@),
                    root_qualified: (schema, table),
                    names: *ws.src.names,
                    words: *ws.src.words,
                    resolution: Some((*ws.src.cache, *ws.src.relationships)),
                    caller: None,
                };
            &&& write_scope(ws, schema, table, typename) == over(typename)
            &&& check_scope(ws, schema, table) == over(typename_of(ws.type_names@, schema, table))
        }),
{
}

/// What else is asked of the rows a delete removes: the rows related to them, and
/// then the fields computed of them.
pub proof fn law_more_is_asked_of_the_rows_removed(
    table: Table,
    src: Sources<'_>,
    caller: Caller,
    typename: Seq<char>,
    fields: Seq<Selected>,
    max_rows: Option<i64>,
    bound: Seq<JsonV>,
    embeds: Seq<EmbedV>,
    mid: CursorV,
    computed: Seq<Seq<char>>,
    end: BindsV,
)
    requires
        bound.len() + 1 <= usize::MAX,
        embedded(
            src,
            caller,
            typename,
            "src"@,
            fields,
            max_rows,
            CursorV {
                binds: BindsV { next: (bound.len() + 1) as usize, values: bound },
                aliases: 0,
            },
        ) == Ok::<(Seq<EmbedV>, CursorV), (ErrorV, CursorV)>((embeds, mid)),
        computed_fields(table, fields, 0, "src"@, *src.names, Seq::empty(), mid.binds) == Ok::<
            (Seq<Seq<char>>, BindsV),
            (ErrorV, BindsV),
        >((computed, end)),
    ensures
        deleted_extras(Some(table), src, caller, typename, fields, max_rows, bound) == Ok::<
            (Seq<Seq<char>>, Seq<EmbedV>, Seq<JsonV>),
            ErrorV,
        >((computed, embeds, end.values)),
        deleted_extras(None, src, caller, typename, fields, max_rows, bound) == Ok::<
            (Seq<Seq<char>>, Seq<EmbedV>, Seq<JsonV>),
            ErrorV,
        >((Seq::empty(), embeds, mid.binds.values)),
{
}

// ---------------------------------------------------------------------------
// Names of types
// ---------------------------------------------------------------------------

/// The type within its marks: whatever brackets and marks stand round a plain
/// name, it is the name.
pub proof fn law_marks_are_taken_off(before: Seq<char>, name: Seq<char>, after: Seq<char>)
    requires
        name.len() > 0,
        forall|i: int|
            0 <= i < before.len() ==> (#[trigger] before[i]) == '[' || before[i] == ']'
                || before[i] == '!',
        forall|i: int|
            0 <= i < after.len() ==> (#[trigger] after[i]) == '[' || after[i] == ']' || after[i]
                == '!',
        name[0] != '[' && name[0] != ']' && name[0] != '!',
        name.last() != '[' && name.last() != ']' && name.last() != '!',
    ensures
        bare_type(before + name + after) == name,
{
    lemma_bare_start(before, name + after);
    assert(before + name + after =~= before + (name + after));
    lemma_bare_end(name, after);
}

proof fn lemma_bare_start(before: Seq<char>, rest: Seq<char>)
    requires
        rest.len() > 0,
        forall|i: int|
            0 <= i < before.len() ==> (#[trigger] before[i]) == '[' || before[i] == ']'
                || before[i] == '!',
        rest[0] != '[' && rest[0] != ']' && rest[0] != '!',
    ensures
        crate::generated::bare_start(before + rest) == rest,
    decreases before.len(),
{
    let s = before + rest;
    if before.len() == 0 {
        assert(s =~= rest);
    } else {
        let less = before.drop_first();
        assert(s[0] == before[0]);
        assert(s.drop_first() =~= less + rest);
        assert forall|i: int| 0 <= i < less.len() implies (#[trigger] less[i]) == '[' || less[i]
            == ']' || less[i] == '!' by {
            assert(less[i] == before[i + 1]);
        }
        lemma_bare_start(less, rest);
    }
}

proof fn lemma_bare_end(name: Seq<char>, after: Seq<char>)
    requires
        name.len() > 0,
        forall|i: int|
            0 <= i < after.len() ==> (#[trigger] after[i]) == '[' || after[i] == ']' || after[i]
                == '!',
        name.last() != '[' && name.last() != ']' && name.last() != '!',
    ensures
        crate::generated::bare_end(name + after) == name,
    decreases after.len(),
{
    let s = name + after;
    if after.len() == 0 {
        assert(s =~= name);
    } else {
        let less = after.drop_last();
        assert(s.last() == after.last());
        assert(s.drop_last() =~= name + less);
        lemma_bare_end(name, less);
    }
}

// ---------------------------------------------------------------------------
// Orders
// ---------------------------------------------------------------------------

/// The column that a term orders by: what stands before its direction, without
/// what it is a column of.
pub proof fn law_a_term_is_of_its_column(alias: Seq<char>, column: Seq<char>, rest: Seq<char>)
    requires
        alias.len() > 0,
        column.len() > 0,
        forall|i: int| 0 <= i < column.len() ==> (#[trigger] column[i]) != '.',
        forall|i: int|
            0 <= i < alias.len() ==> !crate::text::white_space(#[trigger] alias[i]),
        forall|i: int|
            0 <= i < column.len() ==> !crate::text::white_space(#[trigger] column[i]),
    ensures
        term_column(alias + seq!['.'] + column) == column,
        term_column(alias + seq!['.'] + column + seq![' '] + rest) == column,
{
    let expression = alias + seq!['.'] + column;
    lemma_split(alias, column);
    lemma_word(expression, Seq::empty());
    assert(expression + Seq::<char>::empty() =~= expression);
    lemma_word(expression, seq![' '] + rest);
    assert(expression + (seq![' '] + rest) =~= alias + seq!['.'] + column + seq![' '] + rest);
}

proof fn lemma_split(alias: Seq<char>, column: Seq<char>)
    requires
        forall|i: int| 0 <= i < column.len() ==> (#[trigger] column[i]) != '.',
    ensures
        crate::text::split_last(alias + seq!['.'] + column, '.') == Some((alias, column)),
{
    let s = alias + seq!['.'] + column;
    lemma_last_dot(s, alias.len(), s.len());
    assert(s.subrange(0, alias.len() as int) =~= alias);
    assert(s.subrange((alias.len() + 1) as int, s.len() as int) =~= column);
}

proof fn lemma_last_dot(s: Seq<char>, at: nat, i: nat)
    requires
        at < i <= s.len(),
        s[at as int] == '.',
        forall|k: int| at < k < s.len() ==> (#[trigger] s[k]) != '.',
    ensures
        crate::text::last_place(s, '.', i) == Some(at),
    decreases i,
{
    if i - 1 > at {
        lemma_last_dot(s, at, (i - 1) as nat);
    }
}

proof fn lemma_word(word: Seq<char>, rest: Seq<char>)
    requires
        word.len() > 0,
        forall|i: int| 0 <= i < word.len() ==> !crate::text::white_space(#[trigger] word[i]),
        rest.len() == 0 || crate::text::white_space(rest[0]),
    ensures
        crate::text::first_word(word + rest) == Some(word),
{
    let s = word + rest;
    assert(s[0] == word[0]);
    assert(crate::text::place_where(s, false, 0) == 0);
    lemma_word_end(word, rest, 0);
    assert(s.subrange(0, word.len() as int) =~= word);
}

proof fn lemma_word_end(word: Seq<char>, rest: Seq<char>, i: nat)
    requires
        i <= word.len(),
        forall|k: int| 0 <= k < word.len() ==> !crate::text::white_space(#[trigger] word[k]),
        rest.len() == 0 || crate::text::white_space(rest[0]),
    ensures
        crate::text::place_where(word + rest, true, i) == word.len(),
    decreases word.len() - i,
{
    let s = word + rest;
    if i < word.len() {
        assert(s[i as int] == word[i as int]);
        lemma_word_end(word, rest, i + 1);
    } else if rest.len() > 0 {
        assert(s[i as int] == rest[0]);
    }
}

/// Orders begin with the columns that groups are kept by where each of those is
/// among as many of the first terms.
pub proof fn law_orders_begin_with_their_groups(
    terms: Seq<Seq<char>>,
    groups: Seq<Seq<char>>,
)
    ensures
        leads_with(terms, groups) == (terms.len() >= groups.len() && forall|i: int|
            0 <= i < groups.len() ==> exists_column(
                terms.take(groups.len() as int),
                term_column(#[trigger] groups[i]),
            )),
{
    let first = terms.take(groups.len() as int);
    let columns = crate::ordering::term_columns(first);
    assert forall|name: Seq<char>| #[trigger] has_text(columns, name) == exists_column(
        first,
        name,
    ) by {
        if exists_column(first, name) {
            let k = choose|k: int|
                0 <= k < first.len() && term_column(#[trigger] first[k]) == name;
            assert(columns[k] == name);
        }
        if has_text(columns, name) {
            let k = choose|k: int| 0 <= k < columns.len() && columns[k] == name;
            assert(term_column(first[k]) == name);
        }
    }
    if terms.len() >= groups.len() {
        if leads_with(terms, groups) {
            assert forall|i: int| 0 <= i < groups.len() implies exists_column(
                first,
                term_column(#[trigger] groups[i]),
            ) by {
                assert(has_text(columns, term_column(groups[i])));
            }
        } else {
            let i = choose|i: int|
                0 <= i < groups.len() && !has_text(columns, #[trigger] term_column(groups[i]));
            assert(!exists_column(first, term_column(groups[i])));
        }
    }
}

/// Whether one of some terms is of a column.
pub open spec fn exists_column(terms: Seq<Seq<char>>, name: Seq<char>) -> bool {
    exists|k: int| 0 <= k < terms.len() && term_column(#[trigger] terms[k]) == name
}

} // verus!

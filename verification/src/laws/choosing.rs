//! Who is answered from what, and how values and texts are taken.

use crate::answer::{list_in, unless_null, value_or};
use crate::binds::{bound_form, BoundV};
use crate::catalog::NameOverrides;
use crate::context::{claims_document, law_put_then_get, session_document, settings_of, AuthResult};
use crate::entity::{
    bounds_of, entity_scope, id_integer, names_text, nearest_double, normal_id, plain_type,
    uuid_text, EntityLookupV,
};
use crate::generated::GeneratedSchema;
use crate::input::order::{order_named, OrderByFieldV, OrderDirection};
use crate::json::{json_text, number_text, JsonV, NumberV};
use crate::role::Caller;
use crate::roots::{no_queries, no_subscriptions, reading_root, with_functions, writing_root};
use crate::schema::schema_of;
use crate::scope::{ScopeV, Sources};
use crate::state::{role_schema, schemas_from, GraphQLState, RoleSchemaV, RoleView};
use crate::text::{ident, integer_of, last_place, lowered, split_last, trimmed, white_space};
use vstd::prelude::*;

verus! {

// ---------------------------------------------------------------------------
// Schemas
// ---------------------------------------------------------------------------

/// A schema goes by conventional names where it is federated and by its own
/// otherwise. It has mutations where there are some, and subscriptions where they
/// are served.
pub proof fn law_roots_have_names(
    generated: GeneratedSchema,
    names: NameOverrides,
    subscriptions: bool,
)
    ensures
        ({
            let r = schema_of(generated, names, subscriptions);
            let f = generated.enable_federation;
            &&& r.query.name == (if f {
                "Query"@
            } else {
                "query_root"@
            })
            &&& r.federated == f
            &&& r.query.fields == with_functions(
                generated,
                false,
                0,
                reading_root(generated, names, r.query.name, no_queries()).fields,
            )
            &&& (r.mutation is Some) == (generated.mutation_fields@.len() > 0 || exists|i: int|
                0 <= i < generated.function_fields@.len() && (
                #[trigger] generated.function_fields@[i]).volatile)
            &&& r.mutation is Some ==> r.mutation->0.name == (if f {
                "Mutation"@
            } else {
                "mutation_root"@
            }) && r.mutation->0.fields == with_functions(
                generated,
                true,
                0,
                writing_root(generated, names, r.mutation->0.name).fields,
            )
            &&& (r.subscription is Some) == subscriptions
            &&& r.subscription is Some ==> r.subscription->0 == reading_root(
                generated,
                names,
                if f {
                    "Subscription"@
                } else {
                    "subscription_root"@
                },
                no_subscriptions(),
            )
        }),
{
}

proof fn lemma_role_schema(s: Seq<RoleSchemaV>, i: nat, role: Seq<char>, backend: bool)
    ensures
        match role_schema(s, i, role, backend) {
            None => forall|k: int|
                i <= k < s.len() ==> !((#[trigger] s[k]).role == role && s[k].backend == backend),
            Some(schema) => exists|k: int|
                i <= k < s.len() && (#[trigger] s[k]).role == role && s[k].backend == backend
                    && s[k].schema == schema,
        },
    decreases s.len() - i,
{
    if i < s.len() {
        if !(s[i as int].role == role && s[i as int].backend == backend) {
            lemma_role_schema(s, i + 1, role, backend);
        }
    }
}

/// A role is answered from a schema that is its own, and for the side that is
/// asking.
pub proof fn law_a_role_is_answered_from_its_own(
    s: Seq<RoleSchemaV>,
    role: Seq<char>,
    backend: bool,
)
    ensures
        match role_schema(s, 0, role, backend) {
            None => forall|k: int|
                0 <= k < s.len() ==> !((#[trigger] s[k]).role == role && s[k].backend == backend),
            Some(schema) => exists|k: int|
                0 <= k < s.len() && (#[trigger] s[k]).role == role && s[k].backend == backend
                    && s[k].schema == schema,
        },
{
    lemma_role_schema(s, 0, role, backend);
}

/// An administrator, and anyone where there are no permissions, is answered from
/// the whole schema. Any other role is answered from its own, that of a backend
/// first where one is asking, and one without any from what is granted to none.
pub proof fn law_a_caller_is_answered_from_what_is_granted(
    state: GraphQLState,
    role: Seq<char>,
    backend: bool,
)
    ensures
        ({
            let schemas = crate::state::role_schemas_of(state.role_schemas@);
            &&& state.answers(None, backend) == Some(state.schema@)
            &&& state.answers(Some("admin"@), backend) == Some(state.schema@)
            &&& !state.permissions ==> state.answers(Some(role), backend) == Some(state.schema@)
            &&& state.permissions && role != "admin"@ ==> {
                let own = role_schema(schemas, 0, role, backend);
                let plain = role_schema(schemas, 0, role, false);
                &&& own is Some ==> state.answers(Some(role), backend) == own
                &&& own is None && plain is Some ==> state.answers(Some(role), backend) == plain
                &&& own is None && plain is None ==> state.answers(Some(role), backend) == (
                match state.ungranted_schema {
                    Some(schema) => Some(schema@),
                    None => None,
                })
            }
        }),
{
}

/// Each role but the administrator has a schema of what it is granted, and one
/// more for its backends where they are granted otherwise.
pub proof fn law_each_role_has_its_schemas(
    view: RoleView,
    names: NameOverrides,
    found: Seq<RoleSchemaV>,
)
    ensures
        schemas_from(seq![view], 0, names, found) == (if view.role@ == "admin"@ {
            found
        } else {
            found + seq![
                RoleSchemaV {
                    role: view.role@,
                    backend: false,
                    schema: schema_of(view.generated, names, false),
                },
            ] + (match view.backend {
                None => Seq::empty(),
                Some(generated) => seq![
                    RoleSchemaV {
                        role: view.role@,
                        backend: true,
                        schema: schema_of(generated, names, false),
                    },
                ],
            })
        }),
{
    let one = seq![view];
    assert(one[0] == view);
    let first = RoleSchemaV {
        role: view.role@,
        backend: false,
        schema: schema_of(view.generated, names, false),
    };
    assert(schemas_from(one, 1, names, found) == found);
    assert(schemas_from(one, 1, names, found.push(first)) == found.push(first));
    assert(found.push(first) =~= found + seq![first] + Seq::<RoleSchemaV>::empty());
    match view.backend {
        None => {},
        Some(generated) => {
            let second = RoleSchemaV {
                role: view.role@,
                backend: true,
                schema: schema_of(generated, names, false),
            };
            let both = found.push(first).push(second);
            assert(schemas_from(one, 1, names, both) == both);
            assert(both =~= found + seq![first] + seq![second]);
        },
    }
}

// ---------------------------------------------------------------------------
// The session
// ---------------------------------------------------------------------------

/// The session document is a setting, and so is the role.
pub proof fn law_the_session_is_a_setting(
    session: Seq<(Seq<char>, Seq<char>)>,
    role: Seq<char>,
)
    ensures
        ({
            let r = settings_of(session, role);
            &&& r.len() >= 2
            &&& r[r.len() - 2] == ("hasura.session"@, json_text(session_document(session, role)))
            &&& r[r.len() - 1] == ("hasura.role"@, role)
        }),
{
}

/// The claims hold the role that was settled on, whatever they said of it.
pub proof fn law_claims_hold_the_role(auth: AuthResult)
    ensures
        claims_document(auth).get("role"@) == Some(JsonV::String(auth.role@)),
{
    let before = crate::statement::put_all(
        Seq::empty(),
        crate::json::entries_view(auth.claims@),
        0,
    );
    law_put_then_get(before, "role"@, JsonV::String(auth.role@), "role"@);
}

// ---------------------------------------------------------------------------
// Values
// ---------------------------------------------------------------------------

/// What is bound for each kind of value: nulls, truths and whole numbers as they
/// are, other numbers as the nearest there is, texts as they are, and lists and
/// objects as their documents.
pub proof fn law_values_are_bound_by_their_kind(
    b: bool,
    n: NumberV,
    s: Seq<char>,
    items: Seq<JsonV>,
    entries: Seq<(Seq<char>, JsonV)>,
)
    ensures
        bound_form(JsonV::Null) is Null,
        bound_form(JsonV::Bool(b)) == BoundV::Bool(b),
        bound_form(JsonV::String(s)) == BoundV::Text(s),
        bound_form(JsonV::Array(items)) == BoundV::Text(json_text(JsonV::Array(items))),
        bound_form(JsonV::Object(entries)) == BoundV::Text(json_text(JsonV::Object(entries))),
        n.as_i64() is Some ==> bound_form(JsonV::Number(n)) == BoundV::Int(n.as_i64()->0),
        n.as_i64() is None && nearest_double(number_text(n)) is Some ==> bound_form(
            JsonV::Number(n),
        ) == BoundV::Double(nearest_double(number_text(n))->0),
        n.as_i64() is None && nearest_double(number_text(n)) is None ==> bound_form(
            JsonV::Number(n),
        ) == BoundV::Text(number_text(n)),
{
}

/// An identifier is taken by the type of its column: a whole number in range for
/// numbers, from its digits too, the one form of a unique identifier, and a text
/// or the digits of a whole number for texts.
pub proof fn law_identifiers_are_taken_by_type(
    value: JsonV,
    pg_type: Seq<char>,
    least: i64,
    most: i64,
)
    ensures
        bounds_of(pg_type) == Some((least, most)) ==> normal_id(value, pg_type) == (match id_integer(
            value,
        ) {
            Some(n) => if least <= n <= most {
                Some(JsonV::Number(NumberV::Int(n)))
            } else {
                None
            },
            None => None,
        }),
        bounds_of(pg_type) is None && lowered(pg_type) == "uuid"@ ==> normal_id(value, pg_type) == (
        match value {
            JsonV::String(s) => match uuid_text(s) {
                Some(text) => Some(JsonV::String(text)),
                None => None,
            },
            _ => None,
        }),
        bounds_of(pg_type) is None && lowered(pg_type) != "uuid"@ && names_text(pg_type)
            ==> normal_id(value, pg_type) == (match value {
            JsonV::String(s) => Some(JsonV::String(s)),
            JsonV::Number(n) => if n.is_whole() {
                Some(JsonV::String(number_text(n)))
            } else {
                None
            },
            _ => None,
        }),
        bounds_of(pg_type) is None && lowered(pg_type) != "uuid"@ && !names_text(pg_type)
            ==> normal_id(value, pg_type) is None,
{
}

/// The types of text, and the whole numbers that identifiers give.
pub proof fn law_identifiers_are_texts_or_numbers(
    pg_type: Seq<char>,
    n: NumberV,
    s: Seq<char>,
    b: bool,
)
    ensures
        ({
            let t = plain_type(pg_type);
            names_text(pg_type) == (t == "text"@ || t == "varchar"@ || t == "character varying"@
                || t == "char"@ || t == "character"@ || t == "bpchar"@ || t == "citext"@)
        }),
        id_integer(JsonV::Number(n)) == n.as_i64(),
        id_integer(JsonV::String(s)) == (match integer_of(s) {
            Some(k) => if -9223372036854775808 <= k <= 9223372036854775807 {
                Some(k)
            } else {
                None
            },
            None => None,
        }),
        id_integer(JsonV::Null) is None,
        id_integer(JsonV::Bool(b)) is None,
{
}

/// Entities are filtered over the rows they are read from, for the caller who
/// asks.
pub proof fn law_entities_are_filtered_over_their_rows(
    lookup: EntityLookupV,
    src: Sources<'_>,
    caller: Caller,
)
    ensures
        entity_scope(lookup, src, caller) == (ScopeV {
            qualified: (lookup.schema_name, lookup.table_name),
            sql_ref: ident("pgrst_src"@),
            row_ref: ident("pgrst_src"@),
            typename: lookup.typename,
            root_ref: ident("pgrst_src"@),
            root_qualified: (lookup.schema_name, lookup.table_name),
            names: *src.names,
            words: *src.words,
            resolution: Some((*src.cache, *src.relationships)),
            caller: Some(caller),
        }),
{
}

/// A list that is not there is empty, a null is not there, and what is not there
/// is what stands in for it.
pub proof fn law_what_is_missing_is_stood_in_for(value: JsonV, otherwise: JsonV)
    ensures
        value is Array ==> list_in(Some(value)) == value,
        !(value is Array) ==> list_in(Some(value)) == JsonV::Array(Seq::empty()),
        list_in(None) == JsonV::Array(Seq::empty()),
        value is Null ==> unless_null(Some(value)) is None,
        !(value is Null) ==> unless_null(Some(value)) == Some(value),
        unless_null(None) is None,
        value_or(Some(value), otherwise) == value,
        value_or(None, otherwise) == otherwise,
{
}

// ---------------------------------------------------------------------------
// Texts
// ---------------------------------------------------------------------------

proof fn lemma_last_place(s: Seq<char>, c: char, i: nat)
    requires
        i <= s.len(),
    ensures
        match last_place(s, c, i) {
            None => forall|k: int| 0 <= k < i ==> (#[trigger] s[k]) != c,
            Some(p) => p < i && s[p as int] == c && forall|k: int|
                p < k < i ==> (#[trigger] s[k]) != c,
        },
    decreases i,
{
    if i > 0 && s[i - 1] != c {
        lemma_last_place(s, c, (i - 1) as nat);
    }
}

/// A text is parted at the last of a character: what stands before it, and what
/// stands after it and holds none; one that holds none is not parted.
pub proof fn law_texts_are_parted_at_the_last(s: Seq<char>, c: char)
    ensures
        match split_last(s, c) {
            None => !s.contains(c),
            Some((before, after)) => s == before + seq![c] + after && !after.contains(c),
        },
{
    lemma_last_place(s, c, s.len());
    match last_place(s, c, s.len()) {
        None => {},
        Some(p) => {
            let before = s.subrange(0, p as int);
            let after = s.subrange((p + 1) as int, s.len() as int);
            assert(s =~= before + seq![c] + after);
            assert forall|k: int| 0 <= k < after.len() implies after[k] != c by {
                assert(after[k] == s[p + 1 + k]);
            }
        },
    }
}

/// A word names an order where it ends in a direction after the name of a field.
pub proof fn law_words_name_orders(field: Seq<char>)
    ensures
        order_named(field + "_ASC"@) == Some(
            OrderByFieldV { field, direction: OrderDirection::Asc, nulls: None },
        ),
        order_named(field + "_DESC"@) == Some(
            OrderByFieldV { field, direction: OrderDirection::Desc, nulls: None },
        ),
{
    reveal_strlit("_ASC");
    reveal_strlit("_DESC");
    reveal_strlit("ASC");
    reveal_strlit("DESC");
    assert("_ASC"@ =~= seq!['_'] + "ASC"@);
    assert("_DESC"@ =~= seq!['_'] + "DESC"@);
    assert("ASC"@.len() == 3 && "DESC"@.len() == 4);
    lemma_parted(field, "ASC"@, "_ASC"@);
    lemma_parted(field, "DESC"@, "_DESC"@);
}

proof fn lemma_parted(field: Seq<char>, word: Seq<char>, tail: Seq<char>)
    requires
        tail == seq!['_'] + word,
        forall|k: int| 0 <= k < word.len() ==> (#[trigger] word[k]) != '_',
    ensures
        split_last(field + tail, '_') == Some((field, word)),
{
    let s = field + tail;
    lemma_last_place(s, '_', s.len());
    assert(s[field.len() as int] == '_');
    let p = last_place(s, '_', s.len())->0;
    if p > field.len() {
        assert(s[p as int] == word[p - field.len() - 1]);
    }
    assert(p == field.len());
    assert(s.subrange(0, p as int) =~= field);
    assert(s.subrange((p + 1) as int, s.len() as int) =~= word);
}

proof fn lemma_place_where(s: Seq<char>, white: bool, i: nat)
    requires
        i <= s.len(),
    ensures
        ({
            let p = crate::text::place_where(s, white, i);
            &&& i <= p <= s.len()
            &&& p < s.len() ==> white_space(s[p as int]) == white
            &&& forall|k: int| i <= k < p ==> white_space(#[trigger] s[k]) != white
        }),
    decreases s.len() - i,
{
    if i < s.len() && white_space(s[i as int]) != white {
        lemma_place_where(s, white, i + 1);
    }
}

proof fn lemma_last_ink(s: Seq<char>, i: nat)
    requires
        i <= s.len(),
    ensures
        ({
            let p = crate::text::last_ink(s, i);
            &&& p <= i
            &&& p > 0 ==> !white_space(s[p - 1])
            &&& forall|k: int| p <= k < i ==> white_space(#[trigger] s[k])
        }),
    decreases i,
{
    if i > 0 && white_space(s[i - 1]) {
        lemma_last_ink(s, (i - 1) as nat);
    }
}

/// A text without its edges begins and ends with something to see, and nothing
/// but space was taken from it.
pub proof fn law_edges_are_trimmed(s: Seq<char>)
    ensures
        trimmed(s).len() > 0 ==> !white_space(trimmed(s)[0]) && !white_space(trimmed(s).last()),
        exists|a: Seq<char>, b: Seq<char>| #[trigger] is_edged(a, trimmed(s), b, s),
{
    lemma_place_where(s, false, 0);
    lemma_last_ink(s, s.len());
    let from = crate::text::place_where(s, false, 0);
    let to = crate::text::last_ink(s, s.len());
    if from >= to {
        let none = Seq::<char>::empty();
        assert forall|k: int| 0 <= k < s.len() implies white_space(#[trigger] s[k]) by {}
        assert(s =~= s + trimmed(s) + none);
        assert(is_edged(s, trimmed(s), none, s));
    } else {
        let a = s.subrange(0, from as int);
        let b = s.subrange(to as int, s.len() as int);
        assert(s =~= a + trimmed(s) + b);
        assert forall|k: int| 0 <= k < a.len() implies white_space(#[trigger] a[k]) by {
            assert(a[k] == s[k]);
        }
        assert forall|k: int| 0 <= k < b.len() implies white_space(#[trigger] b[k]) by {
            assert(b[k] == s[to + k]);
        }
        assert(is_edged(a, trimmed(s), b, s));
    }
}

/// Whether a text is another with nothing but space round it.
pub open spec fn is_edged(a: Seq<char>, inner: Seq<char>, b: Seq<char>, s: Seq<char>) -> bool {
    s == a + inner + b && (forall|k: int| 0 <= k < a.len() ==> white_space(#[trigger] a[k])) && (forall|k: int|
        0 <= k < b.len() ==> white_space(#[trigger] b[k]))
}

/// Lowering a text changes its capitals alone, each to its own small letter.
pub proof fn law_capitals_are_lowered(s: Seq<char>, i: int)
    requires
        0 <= i < s.len(),
    ensures
        lowered(s).len() == s.len(),
        !('A' <= s[i] <= 'Z') ==> lowered(s)[i] == s[i],
        'A' <= s[i] <= 'Z' ==> lowered(s)[i] as int == s[i] as int + 32,
        lowered(lowered(s)) == lowered(s),
{
    assert(lowered(lowered(s)) =~= lowered(s));
}

} // verus!

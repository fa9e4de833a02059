//! Types that other services know: finding their rows by their keys.

use crate::binds::BindsV;
use crate::catalog::{column_behind, column_for, NameOverrides};
use crate::condition::{build_condition, condition, CursorV};
use crate::embed::Selected;
use crate::error::{plain_refusal, Error, ErrorV};
use crate::generated::{FederationEntity, GeneratedSchema, TableObjectType};
use crate::json::{json_text, jsons, lemma_array_view, number_text, Json, JsonV, Number, NumberV};
use crate::lookup::{find_named, named, Named};
use crate::projection::{exposed_column_types, exposed_types, pairs, row_as_json, row_json};
use crate::read::{
    build_extras, find_renamed, frame, framed, head_of, head_text, project, projected, renamed_in,
    row_extras, Query, QueryV, READ_ROW,
};
use crate::role::{filter_of, permission_predicate, Caller, Verb};
use crate::scope::{ScopeV, Sources, WhereScope};
use crate::statement::{append_jsons, number_after, numbered_after};
use crate::text::{
    ascii_lowercase, cat3, cat4, cat5, cat7, cat8, contains_text, decimal, decimal_text,
    escape_ident, escape_ident2, has_text, ident, ident2, integer_of, join, joined, lowered,
    no_texts, owned, parse_i64, push_text, same, text_opt, texts, trim, trimmed,
};
use crate::write::{is_array_type, names_array};
use vstd::prelude::*;

verus! {

// ---------------------------------------------------------------------------
// Which fields apply
// ---------------------------------------------------------------------------

/// A selection as a request writes it: a field, a named fragment, or a
/// fragment in place with the type it is for, where it names one.
pub enum Pick {
    Field,
    Spread(String),
    Inline { on: Option<String>, items: Vec<Pick> },
}

/// A named fragment: the type it is for, and what it selects.
pub struct FragmentDef {
    pub name: String,
    pub on: String,
    pub items: Vec<Pick>,
}

impl Named for FragmentDef {
    open spec fn called(&self) -> Seq<char> {
        self.name@
    }

    fn is_called(&self, name: &str) -> (r: bool) {
        same(&self.name, name)
    }
}

/// Whether a fragment for a type applies to an entity of one: it is for that
/// type, or for any entity.
pub open spec fn applies_to(on: Seq<char>, typename: Seq<char>) -> bool {
    on == typename || on == "_Entity"@
}

/// Whether each field that a selection expands to applies to an entity of a
/// type, from the `i`th item on, after what is in `found`. `depth` bounds how
/// deep fragments name one another; no fragment names itself, so their number
/// is bound enough.
pub open spec fn applicability(
    items: Seq<Pick>,
    i: nat,
    defs: Seq<FragmentDef>,
    typename: Seq<char>,
    matches: bool,
    depth: nat,
    found: Seq<bool>,
) -> Seq<bool>
    decreases depth, items, items.len() - i,
{
    if i >= items.len() {
        found
    } else {
        let next = match items[i as int] {
            Pick::Field => found.push(matches),
            Pick::Spread(name) => match named(defs, name@) {
                Some(def) => if depth == 0 {
                    found
                } else {
                    applicability(
                        def.items@,
                        0,
                        defs,
                        typename,
                        matches && applies_to(def.on@, typename),
                        (depth - 1) as nat,
                        found,
                    )
                },
                None => found,
            },
            Pick::Inline { on, items: inner } => applicability(
                inner@,
                0,
                defs,
                typename,
                matches && (match on {
                    Some(on) => applies_to(on@, typename),
                    None => true,
                }),
                depth,
                found,
            ),
        };
        applicability(items, i + 1, defs, typename, matches, depth, next)
    }
}

fn applies(on: &str, typename: &str) -> (r: bool)
    ensures
        r == applies_to(on@, typename@),
{
    same(on, typename) || same(on, "_Entity")
}

fn collect_applicability(
    items: &Vec<Pick>,
    defs: &Vec<FragmentDef>,
    typename: &str,
    matches: bool,
    depth: usize,
    found: &mut Vec<bool>,
)
    ensures
        final(found)@ == applicability(
            items@,
            0,
            defs@,
            typename@,
            matches,
            depth as nat,
            old(found)@,
        ),
    decreases depth, items,
{
    let mut i: usize = 0;
    while i < items.len()
        invariant
            i <= items.len(),
            applicability(items@, 0, defs@, typename@, matches, depth as nat, old(found)@)
                == applicability(
                items@,
                i as nat,
                defs@,
                typename@,
                matches,
                depth as nat,
                found@,
            ),
        decreases items.len() - i,
    {
        assert(decreases_to!(*items => items@[i as int]));
        match &items[i] {
            Pick::Field => found.push(matches),
            Pick::Spread(name) => {
                if let Some(def) = find_named(defs, name) {
                    if depth > 0 {
                        let inside = matches && applies(&def.on, typename);
                        collect_applicability(
                            &def.items,
                            defs,
                            typename,
                            inside,
                            depth - 1,
                            found,
                        );
                    }
                }
            },
            Pick::Inline { on, items: inner } => {
                let inside = matches && (match on {
                    Some(on) => applies(on, typename),
                    None => true,
                });
                assert(items@[i as int]->items == *inner);
                collect_applicability(inner, defs, typename, inside, depth, found);
            },
        }
        i += 1;
    }
}

/// Whether each field that a selection of entities expands to is meant for one
/// of a type.
pub fn entity_field_applicability(
    items: &Vec<Pick>,
    defs: &Vec<FragmentDef>,
    typename: &str,
) -> (r: Vec<bool>)
    ensures
        r@ == applicability(items@, 0, defs@, typename@, true, defs@.len(), Seq::empty()),
{
    let mut found: Vec<bool> = Vec::new();
    collect_applicability(items, defs, typename, true, defs.len(), &mut found);
    found
}

/// The fields that apply, from the `i`th on, after those in `found`.
pub open spec fn applicable(
    fields: Seq<Selected>,
    applies: Seq<bool>,
    i: nat,
    found: Seq<Selected>,
) -> Seq<Selected>
    decreases fields.len() - i,
{
    if i >= fields.len() || i >= applies.len() {
        found
    } else {
        applicable(
            fields,
            applies,
            i + 1,
            if applies[i as int] {
                found.push(fields[i as int])
            } else {
                found
            },
        )
    }
}

/// Fields selected for one concrete type of entity: those of the expanded
/// selection that are meant for it.
pub fn entity_selection_fields(fields: Vec<Selected>, applies: &Vec<bool>) -> (r: Vec<Selected>)
    ensures
        r@ == applicable(fields@, applies@, 0, Seq::empty()),
{
    let ghost all = fields@;
    let mut rest = fields;
    let mut found: Vec<Selected> = Vec::new();
    let mut i: usize = 0;
    assert(all.skip(0) =~= all);
    while rest.len() > 0 && i < applies.len()
        invariant
            i <= applies@.len(),
            i + rest@.len() == all.len(),
            rest@ == all.skip(i as int),
            applicable(all, applies@, 0, Seq::empty()) == applicable(
                all,
                applies@,
                i as nat,
                found@,
            ),
        decreases rest.len(),
    {
        let ghost remaining = rest@;
        let field = rest.remove(0);
        assert(field == all[i as int]);
        assert(rest@ =~= all.skip(i + 1));
        if applies[i] {
            found.push(field);
        }
        i += 1;
    }
    found
}

// ---------------------------------------------------------------------------
// Key values
// ---------------------------------------------------------------------------

/// A key column of an entity.
pub struct EntityKeyColumn {
    pub field_name: String,
    pub column_name: String,
    pub pg_type: String,
    /// Whether the column is exposed as an `ID`.
    pub explicit_id: bool,
}

/// What an [`EntityKeyColumn`] holds.
#[verifier::ext_equal]
pub struct EntityKeyColumnV {
    pub field_name: Seq<char>,
    pub column_name: Seq<char>,
    pub pg_type: Seq<char>,
    pub explicit_id: bool,
}

impl View for EntityKeyColumn {
    type V = EntityKeyColumnV;

    open spec fn view(&self) -> EntityKeyColumnV {
        EntityKeyColumnV {
            field_name: self.field_name@,
            column_name: self.column_name@,
            pg_type: self.pg_type@,
            explicit_id: self.explicit_id,
        }
    }
}

/// What several hold.
pub open spec fn key_columns_of(v: Seq<EntityKeyColumn>) -> Seq<EntityKeyColumnV> {
    v.map_values(|k: EntityKeyColumn| k@)
}

/// A type name as it is compared: without white space around it, in lower
/// case.
pub open spec fn plain_type(t: Seq<char>) -> Seq<char> {
    lowered(trimmed(t))
}

/// The least and the greatest integer of a type, where it is one of integers.
pub open spec fn bounds_of(pg_type: Seq<char>) -> Option<(i64, i64)> {
    let t = plain_type(pg_type);
    if t == "int2"@ || t == "smallint"@ {
        Some((-32768i64, 32767i64))
    } else if t == "int4"@ || t == "int"@ || t == "integer"@ {
        Some((-2147483648i64, 2147483647i64))
    } else if t == "int8"@ || t == "bigint"@ {
        Some((i64::MIN, i64::MAX))
    } else {
        None
    }
}

/// The least and the greatest integer of a type, where it is one of integers.
pub fn integer_bounds(pg_type: &str) -> (r: Option<(i64, i64)>)
    ensures
        r == bounds_of(pg_type@),
{
    let t = ascii_lowercase(&trim(pg_type));
    if same(&t, "int2") || same(&t, "smallint") {
        Some((-32768, 32767))
    } else if same(&t, "int4") || same(&t, "int") || same(&t, "integer") {
        Some((-2147483648, 2147483647))
    } else if same(&t, "int8") || same(&t, "bigint") {
        Some((i64::MIN, i64::MAX))
    } else {
        None
    }
}

/// Whether a type is one of text.
pub open spec fn names_text(pg_type: Seq<char>) -> bool {
    let t = plain_type(pg_type);
    t == "text"@ || t == "varchar"@ || t == "character varying"@ || t == "char"@ || t
        == "character"@ || t == "bpchar"@ || t == "citext"@
}

/// Whether a type is one of text.
pub fn is_text_type(pg_type: &str) -> (r: bool)
    ensures
        r == names_text(pg_type@),
{
    let t = ascii_lowercase(&trim(pg_type));
    same(&t, "text") || same(&t, "varchar") || same(&t, "character varying") || same(&t, "char")
        || same(&t, "character") || same(&t, "bpchar") || same(&t, "citext")
}

/// Names the canonical text of the UUID that a text spells, where it spells
/// one.
pub uninterp spec fn uuid_text(s: Seq<char>) -> Option<Seq<char>>;

/// Wraps `Uuid::parse_str` of `uuid`, as `sqlx` hands it on, and the text of
/// what it parsed. The result is a function of the characters alone, and is
/// named rather than spelled out; that text spells the same UUID again.
#[verifier::external_body]
fn canonical_uuid(s: &str) -> (r: Option<String>)
    ensures
        text_opt(r) == uuid_text(s@),
        r is Some ==> uuid_text(r->0@) == Some(r->0@),
{
    sqlx::types::Uuid::parse_str(s).ok().map(|uuid| uuid.to_string())
}

/// The canonical text of a UUID given as a string.
pub fn normalize_uuid(value: &Json) -> (r: Option<String>)
    ensures
        text_opt(r) == (match value@ {
            JsonV::String(s) => uuid_text(s),
            _ => None,
        }),
        r is Some ==> uuid_text(r->0@) == Some(r->0@),
{
    match value {
        Json::String(s) => canonical_uuid(s),
        _ => None,
    }
}

/// An integer within bounds, as a number.
pub open spec fn bounded_integer(n: Option<int>, bounds: (i64, i64)) -> Option<JsonV> {
    match n {
        Some(n) => if bounds.0 <= n <= bounds.1 {
            Some(JsonV::Number(NumberV::Int(n)))
        } else {
            None
        },
        None => None,
    }
}

/// The integer of sixty-four bits that an `ID` spells: a number or a text.
pub open spec fn id_integer(value: JsonV) -> Option<int> {
    match value {
        JsonV::Number(_) => value.as_i64(),
        JsonV::String(s) => match integer_of(s) {
            Some(n) => if i64::MIN <= n <= i64::MAX {
                Some(n)
            } else {
                None
            },
            None => None,
        },
        _ => None,
    }
}

/// An `ID` in the one form its column's type has for it: an integer, a
/// canonical UUID, or a text.
pub open spec fn normal_id(value: JsonV, pg_type: Seq<char>) -> Option<JsonV> {
    match bounds_of(pg_type) {
        Some(bounds) => bounded_integer(id_integer(value), bounds),
        None => if lowered(pg_type) == "uuid"@ {
            match value {
                JsonV::String(s) => match uuid_text(s) {
                    Some(text) => Some(JsonV::String(text)),
                    None => None,
                },
                _ => None,
            }
        } else if names_text(pg_type) {
            match value {
                JsonV::String(s) => Some(JsonV::String(s)),
                JsonV::Number(n) => if n.is_whole() {
                    Some(JsonV::String(number_text(n)))
                } else {
                    None
                },
                _ => None,
            }
        } else {
            None
        },
    }
}

fn integer_json(n: i64) -> (r: Json)
    ensures
        r@ == JsonV::Number(NumberV::Int(n as int)),
{
    if n >= 0 {
        Json::Number(Number::PosInt(n as u64))
    } else {
        Json::Number(Number::NegInt(n))
    }
}

/// An `ID` in the one form its column's type has for it.
pub fn normalize_graphql_id(value: &Json, pg_type: &str) -> (r: Option<Json>)
    ensures
        crate::json::json_opt(r) == normal_id(value@, pg_type@),
        r is Some ==> normal_id(r->0@, pg_type@) == Some(r->0@),
{
    if let Some((least, most)) = integer_bounds(pg_type) {
        let integer: Option<i64> = match value {
            Json::Number(_) => value.as_i64(),
            Json::String(s) => parse_i64(s),
            _ => None,
        };
        return match integer {
            Some(n) => if least <= n && n <= most {
                Some(integer_json(n))
            } else {
                None
            },
            None => None,
        };
    }
    if same(&ascii_lowercase(pg_type), "uuid") {
        return match normalize_uuid(value) {
            Some(text) => Some(Json::String(text)),
            None => None,
        };
    }
    if is_text_type(pg_type) {
        return match value {
            Json::String(s) => Some(Json::String(s.clone())),
            Json::Number(n) => if n.is_whole() {
                Some(Json::String(n.text()))
            } else {
                None
            },
            _ => None,
        };
    }
    None
}

/// What kind of value a document is, in words.
pub open spec fn kind_of(value: JsonV) -> Seq<char> {
    match value {
        JsonV::Null => "null"@,
        JsonV::Bool(_) => "a boolean"@,
        JsonV::Number(_) => "a number"@,
        JsonV::String(_) => "a string"@,
        JsonV::Array(_) => "an array"@,
        JsonV::Object(_) => "an object"@,
    }
}

/// What kind of value a document is, in words.
pub fn json_value_kind(value: &Json) -> (r: &'static str)
    ensures
        r@ == kind_of(value@),
{
    match value {
        Json::Null => "null",
        Json::Bool(_) => "a boolean",
        Json::Number(_) => "a number",
        Json::String(_) => "a string",
        Json::Array(_) => "an array",
        Json::Object(_) => "an object",
    }
}

/// Names the text of the double-precision number nearest to a number given by
/// its text, where there is one.
pub uninterp spec fn nearest_double(s: Seq<char>) -> Option<Seq<char>>;

/// Wraps reading a number's text with `serde_json` as the nearest
/// double-precision number, and the text `serde_json` gives that. The result
/// is a function of the characters alone, and is named rather than spelled
/// out.
#[verifier::external_body]
pub(crate) fn double_text(s: &str) -> (r: Option<String>)
    ensures
        text_opt(r) == nearest_double(s@),
{
    let number = serde_json::from_str::<serde_json::Value>(s).ok()?.as_f64()?;
    serde_json::Number::from_f64(number).map(|n| n.to_string())
}

/// A key value in the form its column's type has for it, where it is one.
pub open spec fn normal_value(value: JsonV, pg_type: Seq<char>) -> Option<JsonV> {
    let t = plain_type(pg_type);
    match bounds_of(t) {
        Some(bounds) => bounded_integer(value.as_i64(), bounds),
        None => if t == "float4"@ || t == "float8"@ || t == "real"@ || t == "double precision"@ {
            match value {
                JsonV::Number(n) => match nearest_double(number_text(n)) {
                    Some(text) => Some(JsonV::Number(NumberV::Other(text))),
                    None => None,
                },
                _ => None,
            }
        } else if t == "numeric"@ || t == "decimal"@ {
            match value {
                JsonV::Number(n) => Some(JsonV::String(number_text(n))),
                _ => None,
            }
        } else if t == "bool"@ || t == "boolean"@ {
            match value {
                JsonV::Bool(_) => Some(value),
                _ => None,
            }
        } else if t == "json"@ || t == "jsonb"@ {
            Some(value)
        } else if names_array(t) {
            match value {
                JsonV::Array(_) => Some(value),
                _ => None,
            }
        } else {
            match value {
                JsonV::String(_) => Some(value),
                _ => None,
            }
        },
    }
}

fn normalize_value(value: &Json, pg_type: &str) -> (r: Option<Json>)
    ensures
        crate::json::json_opt(r) == normal_value(value@, pg_type@),
{
    let t = ascii_lowercase(&trim(pg_type));
    if let Some((least, most)) = integer_bounds(&t) {
        return match value.as_i64() {
            Some(n) => if least <= n && n <= most {
                Some(integer_json(n))
            } else {
                None
            },
            None => None,
        };
    }
    if same(&t, "float4") || same(&t, "float8") || same(&t, "real") || same(
        &t,
        "double precision",
    ) {
        return match value {
            Json::Number(n) => match double_text(&n.text()) {
                Some(text) => Some(Json::Number(Number::Other(text))),
                None => None,
            },
            _ => None,
        };
    }
    if same(&t, "numeric") || same(&t, "decimal") {
        return match value {
            Json::Number(n) => Some(Json::String(n.text())),
            _ => None,
        };
    }
    if same(&t, "bool") || same(&t, "boolean") {
        return match value {
            Json::Bool(b) => Some(Json::Bool(*b)),
            _ => None,
        };
    }
    if same(&t, "json") || same(&t, "jsonb") {
        return Some(value.copy());
    }
    if is_array_type(&t) {
        return match value {
            Json::Array(_) => Some(value.copy()),
            _ => None,
        };
    }
    match value {
        Json::String(s) => Some(Json::String(s.clone())),
        _ => None,
    }
}

/// The refusal of a key value that its column cannot hold.
pub open spec fn invalid_key(
    typename: Seq<char>,
    field: Seq<char>,
    expected: Seq<char>,
    value: JsonV,
) -> ErrorV {
    plain_refusal(
        "entity representation for \""@ + typename + "\" has invalid key field \""@ + field
            + "\": expected "@ + expected + ", found "@ + kind_of(value),
    )
}

/// A key value in the form its column has for it, or its refusal.
pub open spec fn key_value(typename: Seq<char>, column: EntityKeyColumnV, value: JsonV) -> Result<
    JsonV,
    ErrorV,
> {
    if column.explicit_id {
        match normal_id(value, column.pg_type) {
            Some(normal) => Ok(normal),
            None => Err(
                invalid_key(
                    typename,
                    column.field_name,
                    "an ID compatible with PostgreSQL type \""@ + column.pg_type + "\""@,
                    value,
                ),
            ),
        }
    } else {
        match normal_value(value, column.pg_type) {
            Some(normal) => Ok(normal),
            None => Err(
                invalid_key(
                    typename,
                    column.field_name,
                    "a value compatible with PostgreSQL type \""@ + column.pg_type + "\""@,
                    value,
                ),
            ),
        }
    }
}

fn refuse_key(typename: &str, field: &str, expected: &str, value: &Json) -> (r: Error)
    ensures
        r@ == invalid_key(typename@, field@, expected@, value@),
{
    Error::new(
        cat8(
            "entity representation for \"",
            typename,
            "\" has invalid key field \"",
            field,
            "\": expected ",
            expected,
            ", found ",
            json_value_kind(value),
        ),
    )
}

/// A key value in the form its column has for it.
///
/// A column exposed as an `ID` takes a number or a text where its storage is
/// an integer or text; any other takes a value of its own type.
pub fn normalize_entity_key_value(typename: &str, column: &EntityKeyColumn, value: &Json) -> (r:
    Result<Json, Error>)
    ensures
        crate::mutate::document_outcome(r) == key_value(typename@, column@, value@),
{
    if column.explicit_id {
        match normalize_graphql_id(value, &column.pg_type) {
            Some(normal) => Ok(normal),
            None => {
                let expected = cat3(
                    "an ID compatible with PostgreSQL type \"",
                    &column.pg_type,
                    "\"",
                );
                Err(refuse_key(typename, &column.field_name, &expected, value))
            },
        }
    } else {
        match normalize_value(value, &column.pg_type) {
            Some(normal) => Ok(normal),
            None => {
                let expected = cat3(
                    "a value compatible with PostgreSQL type \"",
                    &column.pg_type,
                    "\"",
                );
                Err(refuse_key(typename, &column.field_name, &expected, value))
            },
        }
    }
}

/// The key of a representation from its `i`th column on, after what is in
/// `key`.
pub open spec fn key_from(
    values: JsonV,
    columns: Seq<EntityKeyColumnV>,
    i: nat,
    typename: Seq<char>,
    key: Seq<JsonV>,
) -> Result<Seq<JsonV>, ErrorV>
    decreases columns.len() - i,
{
    if i >= columns.len() {
        Ok(key)
    } else {
        match values.get(columns[i as int].field_name) {
            None => Err(
                plain_refusal(
                    "entity representation for \""@ + typename + "\" is missing key field \""@
                        + columns[i as int].field_name + "\""@,
                ),
            ),
            Some(value) => match key_value(typename, columns[i as int], value) {
                Err(e) => Err(e),
                Ok(normal) => key_from(values, columns, i + 1, typename, key.push(normal)),
            },
        }
    }
}

/// The key of a representation, as the text it is compared by and as values.
pub open spec fn entity_key(values: JsonV, columns: Seq<EntityKeyColumnV>, typename: Seq<char>) -> Result<
    (Seq<char>, Seq<JsonV>),
    ErrorV,
> {
    match key_from(values, columns, 0, typename, Seq::empty()) {
        Err(e) => Err(e),
        Ok(key) => Ok((json_text(JsonV::Array(key)), key)),
    }
}

/// Validate an entity key and put it in its one form.
///
/// A representation skips the checks that ordinary arguments receive, so its
/// key is checked here.
pub fn normalized_entity_key(values: &Json, columns: &Vec<EntityKeyColumn>, typename: &str) -> (r:
    Result<(String, Vec<Json>), Error>)
    ensures
        crate::condition::clause_outcome(r) == entity_key(
            values@,
            key_columns_of(columns@),
            typename@,
        ),
{
    let ghost all = key_columns_of(columns@);
    let mut key: Vec<Json> = Vec::new();
    assert(jsons(key@) =~= Seq::<JsonV>::empty());
    let mut i: usize = 0;
    while i < columns.len()
        invariant
            i <= columns.len(),
            all == key_columns_of(columns@),
            key_from(values@, all, 0, typename@, Seq::empty()) == key_from(
                values@,
                all,
                i as nat,
                typename@,
                jsons(key@),
            ),
        decreases columns.len() - i,
    {
        assert(all[i as int] == columns@[i as int]@);
        let value = match values.get(&columns[i].field_name) {
            Some(value) => value,
            None => {
                return Err(
                    Error::new(
                        cat5(
                            "entity representation for \"",
                            typename,
                            "\" is missing key field \"",
                            &columns[i].field_name,
                            "\"",
                        ),
                    ),
                );
            },
        };
        match normalize_entity_key_value(typename, &columns[i], value) {
            Err(e) => return Err(e),
            Ok(normal) => {
                proof {
                    assert(jsons(key@.push(normal)) =~= jsons(key@).push(normal@));
                }
                key.push(normal);
            },
        }
        i += 1;
    }
    let copied = crate::read::copy_jsons(&key);
    proof {
        lemma_array_view(copied);
    }
    let text = Json::Array(copied).text();
    Ok((text, key))
}

// ---------------------------------------------------------------------------
// Where entities are
// ---------------------------------------------------------------------------

/// Everything needed to find the row of a representation.
pub struct EntityLookup {
    pub schema_name: String,
    pub table_name: String,
    pub typename: String,
    pub key_columns: Vec<EntityKeyColumn>,
    pub row_column_types: Vec<(String, String)>,
}

/// What an [`EntityLookup`] holds.
#[verifier::ext_equal]
pub struct EntityLookupV {
    pub schema_name: Seq<char>,
    pub table_name: Seq<char>,
    pub typename: Seq<char>,
    pub key_columns: Seq<EntityKeyColumnV>,
    pub row_column_types: Seq<(Seq<char>, Seq<char>)>,
}

impl View for EntityLookup {
    type V = EntityLookupV;

    open spec fn view(&self) -> EntityLookupV {
        EntityLookupV {
            schema_name: self.schema_name@,
            table_name: self.table_name@,
            typename: self.typename@,
            key_columns: key_columns_of(self.key_columns@),
            row_column_types: pairs(self.row_column_types@),
        }
    }
}

impl Named for EntityLookup {
    open spec fn called(&self) -> Seq<char> {
        self.typename@
    }

    fn is_called(&self, name: &str) -> (r: bool) {
        same(&self.typename, name)
    }
}

/// The key columns of an entity from the `i`th field on, after those in
/// `found`; none where a field has no column.
pub open spec fn lookup_columns(
    object: TableObjectType,
    names: NameOverrides,
    fields: Seq<Seq<char>>,
    i: nat,
    found: Seq<EntityKeyColumnV>,
) -> Option<Seq<EntityKeyColumnV>>
    decreases fields.len() - i,
{
    if i >= fields.len() {
        Some(found)
    } else {
        let schema = object.table.schema@;
        let table = object.table.name@;
        match object.table.column(column_behind(names, schema, table, fields[i as int])) {
            None => None,
            Some(column) => lookup_columns(
                object,
                names,
                fields,
                i + 1,
                found.push(
                    EntityKeyColumnV {
                        field_name: fields[i as int],
                        column_name: column.name@,
                        pg_type: column.nominal_type@,
                        explicit_id: names.chosen_type(schema, table, column.name@) == Some("ID"@),
                    },
                ),
            ),
        }
    }
}

/// Where an entity is, where its type and all of its key columns are known.
pub open spec fn lookup_of(
    generated: GeneratedSchema,
    names: NameOverrides,
    entity: FederationEntity,
) -> Option<EntityLookupV> {
    match named(generated.object_types@, entity.typename@) {
        None => None,
        Some(object) => match lookup_columns(
            object,
            names,
            texts(entity.key_fields@),
            0,
            Seq::empty(),
        ) {
            None => None,
            Some(key_columns) => Some(
                EntityLookupV {
                    schema_name: object.table.schema@,
                    table_name: object.table.name@,
                    typename: entity.typename@,
                    key_columns,
                    row_column_types: exposed_types(object.table, names),
                },
            ),
        },
    }
}

fn find_lookup(generated: &GeneratedSchema, names: &NameOverrides, entity: &FederationEntity) -> (r:
    Option<EntityLookup>)
    ensures
        (match r {
            Some(lookup) => Some(lookup@),
            None => None,
        }) == lookup_of(*generated, *names, *entity),
{
    let object = match find_named(&generated.object_types, &entity.typename) {
        Some(object) => object,
        None => return None,
    };
    let schema = &object.table.schema;
    let table = &object.table.name;
    let ghost fields = texts(entity.key_fields@);
    let mut found: Vec<EntityKeyColumn> = Vec::new();
    assert(key_columns_of(found@) =~= Seq::<EntityKeyColumnV>::empty());
    let mut i: usize = 0;
    while i < entity.key_fields.len()
        invariant
            i <= entity.key_fields.len(),
            fields == texts(entity.key_fields@),
            *schema == object.table.schema,
            *table == object.table.name,
            named(generated.object_types@, entity.typename@) == Some(*object),
            lookup_columns(*object, *names, fields, 0, Seq::empty()) == lookup_columns(
                *object,
                *names,
                fields,
                i as nat,
                key_columns_of(found@),
            ),
        decreases entity.key_fields.len() - i,
    {
        assert(fields[i as int] == entity.key_fields@[i as int]@);
        let name = column_for(names, schema, table, &entity.key_fields[i]);
        let column = match object.table.get_column(name) {
            Some(column) => column,
            None => return None,
        };
        let explicit_id = match names.column_type(schema, table, &column.name) {
            Some(chosen) => same(chosen, "ID"),
            None => false,
        };
        let key = EntityKeyColumn {
            field_name: entity.key_fields[i].clone(),
            column_name: column.name.clone(),
            pg_type: column.nominal_type.clone(),
            explicit_id,
        };
        proof {
            assert(key_columns_of(found@.push(key)) =~= key_columns_of(found@).push(key@));
        }
        found.push(key);
        i += 1;
    }
    Some(
        EntityLookup {
            schema_name: schema.clone(),
            table_name: table.clone(),
            typename: entity.typename.clone(),
            key_columns: found,
            row_column_types: exposed_column_types(&object.table, names),
        },
    )
}

/// Where the entities from the `i`th on are, after those in `found`.
pub open spec fn lookups_from(
    generated: GeneratedSchema,
    names: NameOverrides,
    i: nat,
    found: Seq<EntityLookupV>,
) -> Seq<EntityLookupV>
    decreases generated.federation_entities@.len() - i,
{
    if i >= generated.federation_entities@.len() {
        found
    } else {
        lookups_from(
            generated,
            names,
            i + 1,
            match lookup_of(generated, names, generated.federation_entities@[i as int]) {
                Some(lookup) => found.push(lookup),
                None => found,
            },
        )
    }
}

/// What several hold.
pub open spec fn lookups(v: Seq<EntityLookup>) -> Seq<EntityLookupV> {
    v.map_values(|l: EntityLookup| l@)
}

/// Where the entities of a schema are. One whose type or key is not known is
/// left out.
pub fn entity_lookups(generated: &GeneratedSchema, names: &NameOverrides) -> (r: Vec<EntityLookup>)
    ensures
        lookups(r@) == lookups_from(*generated, *names, 0, Seq::empty()),
{
    let mut found: Vec<EntityLookup> = Vec::new();
    assert(lookups(found@) =~= Seq::<EntityLookupV>::empty());
    let mut i: usize = 0;
    while i < generated.federation_entities.len()
        invariant
            i <= generated.federation_entities.len(),
            lookups_from(*generated, *names, 0, Seq::empty()) == lookups_from(
                *generated,
                *names,
                i as nat,
                lookups(found@),
            ),
        decreases generated.federation_entities.len() - i,
    {
        if let Some(lookup) = find_lookup(generated, names, &generated.federation_entities[i]) {
            proof {
                assert(lookups(found@.push(lookup)) =~= lookups(found@).push(lookup@));
            }
            found.push(lookup);
        }
        i += 1;
    }
    found
}

// ---------------------------------------------------------------------------
// Representations
// ---------------------------------------------------------------------------

/// The type a representation says it is of.
pub open spec fn represented_type(representation: JsonV) -> Result<Seq<char>, ErrorV> {
    match representation {
        JsonV::Object(_) => match representation.get("__typename"@) {
            Some(JsonV::String(name)) => Ok(name),
            _ => Err(plain_refusal("entity representation is missing __typename"@)),
        },
        _ => Err(plain_refusal("entity representation must be an object"@)),
    }
}

/// The types of the representations from the `i`th on, after those in
/// `found`.
pub open spec fn represented_from(list: Seq<JsonV>, i: nat, found: Seq<Seq<char>>) -> Result<
    Seq<Seq<char>>,
    ErrorV,
>
    decreases list.len() - i,
{
    if i >= list.len() {
        Ok(found)
    } else {
        match represented_type(list[i as int]) {
            Err(e) => Err(e),
            Ok(name) => represented_from(list, i + 1, found.push(name)),
        }
    }
}

/// The type that each representation says it is of.
pub fn representation_types(list: &Vec<Json>) -> (r: Result<Vec<String>, Error>)
    ensures
        crate::ordering::texts_outcome(r) == represented_from(jsons(list@), 0, Seq::empty()),
{
    let mut found = no_texts();
    let mut i: usize = 0;
    while i < list.len()
        invariant
            i <= list.len(),
            represented_from(jsons(list@), 0, Seq::empty()) == represented_from(
                jsons(list@),
                i as nat,
                texts(found@),
            ),
        decreases list.len() - i,
    {
        assert(jsons(list@)[i as int] == list@[i as int]@);
        if !matches!(&list[i], Json::Object(_)) {
            return Err(Error::new(owned("entity representation must be an object")));
        }
        match list[i].get("__typename") {
            Some(Json::String(name)) => push_text(&mut found, name.clone()),
            _ => {
                return Err(Error::new(owned("entity representation is missing __typename")));
            },
        }
        i += 1;
    }
    Ok(found)
}

/// The conditions that a key puts on its columns, from the `i`th on, after
/// those in `parts`; `first` is how many values were bound before it.
pub open spec fn key_conditions(
    columns: Seq<EntityKeyColumnV>,
    i: nat,
    first: nat,
    parts: Seq<Seq<char>>,
) -> Seq<Seq<char>>
    decreases columns.len() - i,
{
    if i >= columns.len() {
        parts
    } else {
        key_conditions(
            columns,
            i + 1,
            first,
            parts.push(
                ident(READ_ROW@) + "."@ + ident(columns[i as int].column_name) + " = $"@ + decimal(
                    first + i + 1,
                ) + "::"@ + columns[i as int].pg_type,
            ),
        )
    }
}

/// The conditions that name the representations from the `i`th on by their
/// keys, and the values bound, after what there is of both.
pub open spec fn keys_from(
    lookup: EntityLookupV,
    list: Seq<JsonV>,
    i: nat,
    parts: Seq<Seq<char>>,
    values: Seq<JsonV>,
) -> Result<(Seq<Seq<char>>, Seq<JsonV>), ErrorV>
    decreases list.len() - i,
{
    if i >= list.len() {
        Ok((parts, values))
    } else {
        match entity_key(list[i as int], lookup.key_columns, lookup.typename) {
            Err(e) => Err(e),
            Ok((_, key)) => keys_from(
                lookup,
                list,
                i + 1,
                parts.push(
                    "("@ + joined(
                        key_conditions(lookup.key_columns, 0, values.len(), Seq::empty()),
                        " AND "@,
                    ) + ")"@,
                ),
                values + key,
            ),
        }
    }
}

fn key_conditions_sql(columns: &Vec<EntityKeyColumn>, first: usize) -> (r: String)
    ensures
        r@ == joined(
            key_conditions(key_columns_of(columns@), 0, first as nat, Seq::empty()),
            " AND "@,
        ),
{
    let ghost all = key_columns_of(columns@);
    let mut parts = no_texts();
    let mut i: usize = 0;
    while i < columns.len()
        invariant
            i <= columns.len(),
            all == key_columns_of(columns@),
            key_conditions(all, 0, first as nat, Seq::empty()) == key_conditions(
                all,
                i as nat,
                first as nat,
                texts(parts@),
            ),
        decreases columns.len() - i,
    {
        assert(all[i as int] == columns@[i as int]@);
        let number: u128 = first as u128 + i as u128 + 1;
        push_text(
            &mut parts,
            cat7(
                &escape_ident(READ_ROW),
                ".",
                &escape_ident(&columns[i].column_name),
                " = $",
                &decimal_text(number),
                "::",
                &columns[i].pg_type,
            ),
        );
        i += 1;
    }
    join(&parts, " AND ")
}

fn keys_sql(lookup: &EntityLookup, list: &Vec<Json>, values: &mut Vec<Json>) -> (r: Result<
    Vec<String>,
    Error,
>)
    ensures
        (match r {
            Ok(parts) => Ok((texts(parts@), jsons(final(values)@))),
            Err(e) => Err(e@),
        }) == keys_from(lookup@, jsons(list@), 0, Seq::empty(), jsons(old(values)@)),
{
    let mut parts = no_texts();
    let mut i: usize = 0;
    while i < list.len()
        invariant
            i <= list.len(),
            keys_from(lookup@, jsons(list@), 0, Seq::empty(), jsons(old(values)@)) == keys_from(
                lookup@,
                jsons(list@),
                i as nat,
                texts(parts@),
                jsons(values@),
            ),
        decreases list.len() - i,
    {
        assert(jsons(list@)[i as int] == list@[i as int]@);
        match normalized_entity_key(&list[i], &lookup.key_columns, &lookup.typename) {
            Err(e) => return Err(e),
            Ok((_, key)) => {
                let conditions = key_conditions_sql(&lookup.key_columns, values.len());
                push_text(&mut parts, cat3("(", &conditions, ")"));
                append_jsons(values, key);
            },
        }
        i += 1;
    }
    Ok(parts)
}

/// The scope an entity's permission is read against.
pub open spec fn entity_scope(lookup: EntityLookupV, src: Sources<'_>, caller: Caller) -> ScopeV {
    ScopeV {
        resolution: Some((*src.cache, *src.relationships)),
        caller: Some(caller),
        ..ScopeV::over(
            lookup.schema_name,
            lookup.table_name,
            lookup.typename,
            *src.names,
            *src.words,
        ).renamed(READ_ROW@)
    }
}

/// The statement that reads the rows of the entities of one type that are
/// asked for by their keys, narrowed to what the role may read. Where none is
/// asked for, there is none.
pub open spec fn entity_query_of(
    lookup: EntityLookupV,
    src: Sources<'_>,
    caller: Caller,
    list: Seq<JsonV>,
    fields: Seq<Selected>,
    max_rows: Option<i64>,
) -> Result<Option<QueryV>, ErrorV> {
    if list.len() == 0 {
        Ok(None)
    } else {
        match named_entities_query(lookup, src, caller, list, fields, max_rows) {
            Ok(query) => Ok(Some(query)),
            Err(e) => Err(e),
        }
    }
}

/// The statement that reads the rows of the entities that are asked for.
pub open spec fn named_entities_query(
    lookup: EntityLookupV,
    src: Sources<'_>,
    caller: Caller,
    list: Seq<JsonV>,
    fields: Seq<Selected>,
    max_rows: Option<i64>,
) -> Result<QueryV, ErrorV> {
    match keys_from(lookup, list, 0, Seq::empty(), Seq::empty()) {
        Err(e) => Err(e),
        Ok((parts, keyed)) => {
            let named_rows = " WHERE ("@ + joined(parts, " OR "@) + ")"@;
            match filter_of(caller.ruled(lookup.schema_name, lookup.table_name, Verb::Select)) {
                Err(e) => Err(e),
                Ok(granted) => {
                    let narrowed = match granted {
                        None => Ok((named_rows, keyed)),
                        Some(predicate) => match condition(
                            predicate,
                            entity_scope(lookup, src, caller),
                            CursorV {
                                binds: BindsV {
                                    next: numbered_after(1, keyed.len()),
                                    values: Seq::empty(),
                                },
                                aliases: 0,
                            },
                        ) {
                            Err((e, _)) => Err(e),
                            Ok((None, _)) => Ok((named_rows, keyed)),
                            Ok((Some(sql), end)) => Ok(
                                (
                                    named_rows + " AND ("@ + sql + ")"@,
                                    keyed + end.binds.values,
                                ),
                            ),
                        },
                    };
                    match narrowed {
                        Err(e) => Err(e),
                        Ok((where_sql, filtered)) => {
                            let table = src.cache.table(lookup.schema_name, lookup.table_name);
                            match row_extras(
                                table,
                                src,
                                caller,
                                lookup.typename,
                                fields,
                                max_rows,
                                filtered,
                            ) {
                                Err((e, _)) => Err(e),
                                Ok((computed, embeds, values)) => {
                                    let row = ident(READ_ROW@);
                                    let rows = "SELECT "@ + row + ".* FROM "@ + ident2(
                                        lookup.schema_name,
                                        lookup.table_name,
                                    ) + " AS "@ + row + where_sql;
                                    Ok(
                                        QueryV {
                                            sql: framed(
                                                "SELECT "@ + row_as_json(
                                                    "t"@,
                                                    lookup.row_column_types,
                                                ) + " FROM (SELECT "@,
                                                projected(
                                                    head_of(renamed_in(table, *src.names)),
                                                    computed,
                                                    embeds,
                                                ),
                                                " FROM ("@ + rows + ") AS src) AS t"@,
                                            ),
                                            values,
                                        },
                                    )
                                },
                            }
                        },
                    }
                },
            }
        },
    }
}

/// The statement that reads the rows of the entities of one type.
pub fn entity_query<'a>(
    lookup: &EntityLookup,
    src: Sources<'a>,
    caller: &Caller,
    list: &Vec<Json>,
    fields: &Vec<Selected>,
    max_rows: Option<i64>,
) -> (r: Result<Option<Query<'a>>, Error>)
    ensures
        (match r {
            Ok(Some(query)) => Ok(Some(query@)),
            Ok(None) => Ok(None),
            Err(e) => Err(e@),
        }) == entity_query_of(lookup@, src, *caller, jsons(list@), fields@, max_rows),
{
    if list.len() == 0 {
        return Ok(None);
    }
    let mut values: Vec<Json> = Vec::new();
    assert(jsons(values@) =~= Seq::<JsonV>::empty());
    let parts = match keys_sql(lookup, list, &mut values) {
        Ok(parts) => parts,
        Err(e) => return Err(e),
    };
    let mut where_sql = cat3(" WHERE (", &join(&parts, " OR "), ")");
    let granted = match permission_predicate(caller, &lookup.schema_name, &lookup.table_name) {
        Ok(granted) => granted,
        Err(e) => return Err(e),
    };
    if let Some(predicate) = granted {
        let scope = WhereScope::table(
            &lookup.schema_name,
            &lookup.table_name,
            &lookup.typename,
            src.names,
            src.words,
        ).under_alias(READ_ROW).with_resolution(src.cache, src.relationships).for_caller(caller);
        let mut param_idx: usize = number_after(1, values.len());
        let mut bound: Vec<Json> = Vec::new();
        assert(jsons(bound@) =~= Seq::<JsonV>::empty());
        let mut aliases: usize = 0;
        match build_condition(&predicate, &scope, &mut param_idx, &mut bound, &mut aliases) {
            Err(e) => return Err(e),
            Ok(None) => {},
            Ok(Some(sql)) => {
                where_sql = cat4(&where_sql, " AND (", &sql, ")");
                append_jsons(&mut values, bound);
            },
        }
    }
    let table = src.cache.get_table(&lookup.schema_name, &lookup.table_name);
    let (computed, embeds) = match build_extras(
        table,
        src,
        caller,
        &lookup.typename,
        fields,
        max_rows,
        &mut values,
    ) {
        Ok(extras) => extras,
        Err(e) => return Err(e),
    };
    let row = escape_ident(READ_ROW);
    let rows = cat7(
        "SELECT ",
        &row,
        ".* FROM ",
        &escape_ident2(&lookup.schema_name, &lookup.table_name),
        " AS ",
        &row,
        &where_sql,
    );
    let list_sql = project(head_text(find_renamed(table, src.names)), &computed, embeds);
    let sql = frame(
        cat3("SELECT ", &row_json("t", &lookup.row_column_types), " FROM (SELECT "),
        list_sql,
        cat3(" FROM (", &rows, ") AS src) AS t"),
    );
    Ok(Some(Query { sql, values }))
}

/// The rows that came back from the `i`th on, each under its key, after those
/// in `found`. What is no object is no row.
pub open spec fn keyed_rows(
    lookup: EntityLookupV,
    rows: Seq<JsonV>,
    i: nat,
    found: Seq<(Seq<char>, JsonV)>,
) -> Result<Seq<(Seq<char>, JsonV)>, ErrorV>
    decreases rows.len() - i,
{
    if i >= rows.len() {
        Ok(found)
    } else {
        match rows[i as int] {
            JsonV::Object(_) => match entity_key(
                rows[i as int],
                lookup.key_columns,
                lookup.typename,
            ) {
                Err(e) => Err(e),
                Ok((key, _)) => keyed_rows(
                    lookup,
                    rows,
                    i + 1,
                    crate::statement::put(found, key, rows[i as int]),
                ),
            },
            _ => keyed_rows(lookup, rows, i + 1, found),
        }
    }
}

/// The rows of the representations from the `i`th on, found by their keys,
/// after those in `answer`. One that has no row is refused.
pub open spec fn rows_for(
    lookup: EntityLookupV,
    by_key: Seq<(Seq<char>, JsonV)>,
    list: Seq<JsonV>,
    i: nat,
    answer: Seq<JsonV>,
) -> Result<Seq<JsonV>, ErrorV>
    decreases list.len() - i,
{
    if i >= list.len() {
        Ok(answer)
    } else {
        match entity_key(list[i as int], lookup.key_columns, lookup.typename) {
            Err(e) => Err(e),
            Ok((key, _)) => match crate::json::entry_of(by_key, key) {
                None => Err(
                    plain_refusal(
                        "entity \""@ + lookup.typename
                            + "\" could not be resolved from its key"@,
                    ),
                ),
                Some(row) => rows_for(lookup, by_key, list, i + 1, answer.push(row)),
            },
        }
    }
}

/// The rows of representations, in the order the representations came, out of
/// the rows that were read for them.
pub open spec fn entity_rows_of(lookup: EntityLookupV, rows: Seq<JsonV>, list: Seq<JsonV>) -> Result<
    Seq<JsonV>,
    ErrorV,
> {
    match keyed_rows(lookup, rows, 0, Seq::empty()) {
        Err(e) => Err(e),
        Ok(by_key) => rows_for(lookup, by_key, list, 0, Seq::empty()),
    }
}

/// What a function that yields documents reports.
pub open spec fn documents_outcome(r: Result<Vec<Json>, Error>) -> Result<Seq<JsonV>, ErrorV> {
    match r {
        Ok(found) => Ok(jsons(found@)),
        Err(e) => Err(e@),
    }
}

/// The rows of representations of one type, in the order the representations
/// came.
pub fn entity_rows(lookup: &EntityLookup, rows: &Vec<Json>, list: &Vec<Json>) -> (r: Result<
    Vec<Json>,
    Error,
>)
    ensures
        documents_outcome(r) == entity_rows_of(lookup@, jsons(rows@), jsons(list@)),
{
    let mut by_key: Vec<(String, Json)> = Vec::new();
    assert(crate::json::entries_view(by_key@) =~= Seq::<(Seq<char>, JsonV)>::empty());
    let mut i: usize = 0;
    while i < rows.len()
        invariant
            i <= rows.len(),
            keyed_rows(lookup@, jsons(rows@), 0, Seq::empty()) == keyed_rows(
                lookup@,
                jsons(rows@),
                i as nat,
                crate::json::entries_view(by_key@),
            ),
        decreases rows.len() - i,
    {
        assert(jsons(rows@)[i as int] == rows@[i as int]@);
        if matches!(&rows[i], Json::Object(_)) {
            match normalized_entity_key(&rows[i], &lookup.key_columns, &lookup.typename) {
                Err(e) => return Err(e),
                Ok((key, _)) => {
                    crate::statement::put_entry(&mut by_key, key, rows[i].copy());
                },
            }
        }
        i += 1;
    }
    let ghost found = crate::json::entries_view(by_key@);
    proof {
        crate::json::lemma_object_view(by_key);
    }
    let index = Json::Object(by_key);
    let mut answer: Vec<Json> = Vec::new();
    assert(jsons(answer@) =~= Seq::<JsonV>::empty());
    let mut k: usize = 0;
    while k < list.len()
        invariant
            k <= list.len(),
            index@ == JsonV::Object(found),
            entity_rows_of(lookup@, jsons(rows@), jsons(list@)) == rows_for(
                lookup@,
                found,
                jsons(list@),
                k as nat,
                jsons(answer@),
            ),
        decreases list.len() - k,
    {
        assert(jsons(list@)[k as int] == list@[k as int]@);
        match normalized_entity_key(&list[k], &lookup.key_columns, &lookup.typename) {
            Err(e) => return Err(e),
            Ok((key, _)) => match index.get(&key) {
                None => {
                    return Err(
                        Error::new(
                            cat3(
                                "entity \"",
                                &lookup.typename,
                                "\" could not be resolved from its key",
                            ),
                        ),
                    );
                },
                Some(row) => {
                    let copied = row.copy();
                    proof {
                        assert(jsons(answer@.push(copied)) =~= jsons(answer@).push(copied@));
                    }
                    answer.push(copied);
                },
            },
        }
        k += 1;
    }
    Ok(answer)
}

// ---------------------------------------------------------------------------
// Representations by type, and their answers in place
// ---------------------------------------------------------------------------

/// The representations of a type among the first `n`, in the order they came.
pub open spec fn members(
    list: Seq<JsonV>,
    types: Seq<Seq<char>>,
    typename: Seq<char>,
    n: nat,
) -> Seq<JsonV>
    decreases n,
{
    if n == 0 {
        Seq::empty()
    } else if types[n - 1] == typename {
        members(list, types, typename, (n - 1) as nat).push(list[n - 1])
    } else {
        members(list, types, typename, (n - 1) as nat)
    }
}

/// How many of the first `n` representations are of a type.
pub open spec fn rank(types: Seq<Seq<char>>, typename: Seq<char>, n: nat) -> nat
    decreases n,
{
    if n == 0 {
        0
    } else if types[n - 1] == typename {
        rank(types, typename, (n - 1) as nat) + 1
    } else {
        rank(types, typename, (n - 1) as nat)
    }
}

/// The types of the first `n` representations, each once.
pub open spec fn types_seen(types: Seq<Seq<char>>, n: nat) -> Seq<Seq<char>>
    decreases n,
{
    if n == 0 {
        Seq::empty()
    } else if has_text(types_seen(types, (n - 1) as nat), types[n - 1]) {
        types_seen(types, (n - 1) as nat)
    } else {
        types_seen(types, (n - 1) as nat).push(types[n - 1])
    }
}

/// The documents under each name of a list.
pub open spec fn groups_view(v: Seq<(String, Vec<Json>)>) -> Seq<(Seq<char>, Seq<JsonV>)> {
    v.map_values(|g: (String, Vec<Json>)| (g.0@, jsons(g.1@)))
}

/// The representations by their types.
pub open spec fn groups_of(list: Seq<JsonV>, types: Seq<Seq<char>>) -> Seq<
    (Seq<char>, Seq<JsonV>),
> {
    types_seen(types, types.len()).map_values(
        |name: Seq<char>| (name, members(list, types, name, types.len())),
    )
}

/// There is a type for each representation.
proof fn lemma_represented_len(list: Seq<JsonV>, i: nat, found: Seq<Seq<char>>)
    requires
        i <= list.len(),
    ensures
        represented_from(list, i, found) is Ok ==> (represented_from(list, i, found)->Ok_0).len()
            == found.len() + list.len() - i,
    decreases list.len() - i,
{
    if i < list.len() {
        match represented_type(list[i as int]) {
            Err(_) => {},
            Ok(name) => lemma_represented_len(list, i + 1, found.push(name)),
        }
    }
}

/// The representations of one type, in the order they came.
fn members_of(list: &Vec<Json>, types: &Vec<String>, typename: &str) -> (r: Vec<Json>)
    requires
        list@.len() == types@.len(),
    ensures
        jsons(r@) == members(jsons(list@), texts(types@), typename@, types@.len()),
{
    let mut found: Vec<Json> = Vec::new();
    assert(jsons(found@) =~= Seq::<JsonV>::empty());
    let mut i: usize = 0;
    while i < list.len()
        invariant
            i <= list.len(),
            list@.len() == types@.len(),
            jsons(found@) == members(jsons(list@), texts(types@), typename@, i as nat),
        decreases list.len() - i,
    {
        assert(texts(types@)[i as int] == types@[i as int]@);
        assert(jsons(list@)[i as int] == list@[i as int]@);
        if same(&types[i], typename) {
            let copied = list[i].copy();
            assert(jsons(found@.push(copied)) =~= jsons(found@).push(copied@));
            found.push(copied);
        }
        i += 1;
    }
    found
}

/// The types of representations, and the representations of each type, in the
/// order they came.
pub fn entity_groups(list: &Vec<Json>) -> (r: Result<
    (Vec<String>, Vec<(String, Vec<Json>)>),
    Error,
>)
    ensures
        (match r {
            Ok((types, groups)) => Ok((texts(types@), groups_view(groups@))),
            Err(e) => Err(e@),
        }) == (match represented_from(jsons(list@), 0, Seq::empty()) {
            Ok(types) => Ok((types, groups_of(jsons(list@), types))),
            Err(e) => Err(e),
        }),
{
    let types = match representation_types(list) {
        Ok(types) => types,
        Err(e) => return Err(e),
    };
    proof {
        lemma_represented_len(jsons(list@), 0, Seq::empty());
        assert(texts(types@).len() == types@.len());
        assert(jsons(list@).len() == list@.len());
    }
    let mut names = no_texts();
    let mut i: usize = 0;
    while i < types.len()
        invariant
            i <= types.len(),
            texts(names@) == types_seen(texts(types@), i as nat),
        decreases types.len() - i,
    {
        assert(texts(types@)[i as int] == types@[i as int]@);
        if !contains_text(&names, &types[i]) {
            push_text(&mut names, types[i].clone());
        }
        i += 1;
    }
    let mut groups: Vec<(String, Vec<Json>)> = Vec::new();
    let mut k: usize = 0;
    while k < names.len()
        invariant
            k <= names.len(),
            groups@.len() == k,
            list@.len() == types@.len(),
            forall|j: int|
                0 <= j < k ==> (#[trigger] groups@[j]).0@ == names@[j]@ && jsons(groups@[j].1@)
                    == members(jsons(list@), texts(types@), names@[j]@, types@.len()),
        decreases names.len() - k,
    {
        let found = members_of(list, &types, &names[k]);
        groups.push((names[k].clone(), found));
        k += 1;
    }
    assert(groups_view(groups@) =~= groups_of(jsons(list@), texts(types@))) by {
        assert(texts(names@).len() == names@.len());
        assert forall|j: int| 0 <= j < names@.len() implies groups_view(groups@)[j] == groups_of(
            jsons(list@),
            texts(types@),
        )[j] by {
            assert(texts(names@)[j] == names@[j]@);
        }
    }
    Ok((types, groups))
}

/// The lookup of a type, or that there is none.
pub fn entity_lookup<'a>(found: &'a Vec<EntityLookup>, typename: &str) -> (r: Result<
    &'a EntityLookup,
    Error,
>)
    ensures
        r is Ok ==> named(found@, typename@) == Some(*r->Ok_0),
        r is Err ==> named(found@, typename@) is None && r->Err_0@ == plain_refusal(
            "unknown federation entity \""@ + typename@ + "\""@,
        ),
{
    match find_named(found, typename) {
        Some(lookup) => Ok(lookup),
        None => Err(Error::new(cat3("unknown federation entity \"", typename, "\""))),
    }
}

/// The documents under a name.
pub open spec fn group_named(groups: Seq<(Seq<char>, Seq<JsonV>)>, name: Seq<char>) -> Option<
    Seq<JsonV>,
>
    decreases groups.len(),
{
    if groups.len() == 0 {
        None
    } else if groups[0].0 == name {
        Some(groups[0].1)
    } else {
        group_named(groups.drop_first(), name)
    }
}

/// The answer to the `i`th representation: of the answers to those of its
/// type, the one as far along as it is itself.
pub open spec fn answer_to(
    types: Seq<Seq<char>>,
    answers: Seq<(Seq<char>, Seq<JsonV>)>,
    i: int,
) -> Option<JsonV> {
    match group_named(answers, types[i]) {
        None => None,
        Some(rows) => {
            let k = rank(types, types[i], i as nat) as int;
            if k < rows.len() {
                Some(rows[k])
            } else {
                None
            }
        },
    }
}

/// Puts the answers to the representations of each type back in the order the
/// representations came. There is nothing to put where an answer is missing.
pub fn place_entities(types: &Vec<String>, answers: &Vec<(String, Vec<Json>)>) -> (r: Option<
    Vec<Json>,
>)
    ensures
        r is Some <==> forall|i: int|
            0 <= i < types@.len() ==> #[trigger] answer_to(
                texts(types@),
                groups_view(answers@),
                i,
            ) is Some,
        r is Some ==> jsons((r->0)@).len() == types@.len() && forall|i: int|
            0 <= i < types@.len() ==> Some(#[trigger] jsons((r->0)@)[i]) == answer_to(
                texts(types@),
                groups_view(answers@),
                i,
            ),
{
    let mut placed: Vec<Json> = Vec::new();
    let mut i: usize = 0;
    while i < types.len()
        invariant
            i <= types.len(),
            placed@.len() == i,
            forall|j: int|
                0 <= j < i ==> answer_to(texts(types@), groups_view(answers@), j) == Some(
                    (#[trigger] placed@[j])@,
                ),
        decreases types.len() - i,
    {
        assert(texts(types@)[i as int] == types@[i as int]@);
        let k = count_before(types, i);
        match find_group(answers, &types[i]) {
            Some(rows) => {
                if k < rows.len() {
                    placed.push(rows[k].copy());
                    assert(answer_to(texts(types@), groups_view(answers@), i as int) == Some(
                        placed@[i as int]@,
                    ));
                } else {
                    assert(answer_to(texts(types@), groups_view(answers@), i as int) is None);
                    return None;
                }
            },
            None => {
                assert(answer_to(texts(types@), groups_view(answers@), i as int) is None);
                return None;
            },
        }
        i += 1;
    }
    assert forall|j: int| 0 <= j < types@.len() implies #[trigger] answer_to(
        texts(types@),
        groups_view(answers@),
        j,
    ) == Some(jsons(placed@)[j]) by {
        assert(answer_to(texts(types@), groups_view(answers@), j) == Some(placed@[j]@));
    }
    Some(placed)
}

/// How many representations before the `i`th are of its type.
fn count_before(types: &Vec<String>, i: usize) -> (r: usize)
    requires
        i < types@.len(),
    ensures
        r == rank(texts(types@), types@[i as int]@, i as nat),
{
    let mut count: usize = 0;
    let mut j: usize = 0;
    while j < i
        invariant
            j <= i,
            i < types@.len(),
            count <= j,
            count == rank(texts(types@), types@[i as int]@, j as nat),
        decreases i - j,
    {
        assert(texts(types@)[j as int] == types@[j as int]@);
        if same(&types[j], &types[i]) {
            count += 1;
        }
        j += 1;
    }
    count
}

fn find_group<'a>(groups: &'a Vec<(String, Vec<Json>)>, name: &str) -> (r: Option<&'a Vec<Json>>)
    ensures
        (match r {
            Some(rows) => Some(jsons(rows@)),
            None => None,
        }) == group_named(groups_view(groups@), name@),
{
    let mut i: usize = 0;
    assert(groups_view(groups@).skip(0) =~= groups_view(groups@));
    while i < groups.len()
        invariant
            i <= groups.len(),
            group_named(groups_view(groups@), name@) == group_named(
                groups_view(groups@).skip(i as int),
                name@,
            ),
        decreases groups.len() - i,
    {
        assert(groups_view(groups@).skip(i as int)[0] == groups_view(groups@)[i as int]);
        if same(&groups[i].0, name) {
            return Some(&groups[i].1);
        }
        assert(groups_view(groups@).skip(i as int).drop_first() =~= groups_view(groups@).skip(
            i + 1,
        ));
        i += 1;
    }
    assert(groups_view(groups@).skip(i as int).len() == 0);
    None
}

proof fn lemma_members(
    list: Seq<JsonV>,
    types: Seq<Seq<char>>,
    typename: Seq<char>,
    n: nat,
)
    requires
        n <= types.len(),
        list.len() == types.len(),
    ensures
        members(list, types, typename, n).len() == rank(types, typename, n),
        forall|i: int|
            0 <= i < n && types[i] == typename ==> rank(types, typename, i as nat) < rank(
                types,
                typename,
                n,
            ) && members(list, types, typename, n)[#[trigger] rank(
                types,
                typename,
                i as nat,
            ) as int] == list[i],
    decreases n,
{
    if n > 0 {
        lemma_members(list, types, typename, (n - 1) as nat);
    }
}

/// A representation is found among those of its own type exactly as far along
/// as its answer is looked for.
pub proof fn law_answers_meet_their_representations(
    list: Seq<JsonV>,
    types: Seq<Seq<char>>,
    i: int,
)
    requires
        list.len() == types.len(),
        0 <= i < types.len(),
    ensures
        rank(types, types[i], i as nat) < members(list, types, types[i], types.len()).len(),
        members(list, types, types[i], types.len())[rank(types, types[i], i as nat) as int]
            == list[i],
{
    lemma_members(list, types, types[i], types.len());
}

} // verus!

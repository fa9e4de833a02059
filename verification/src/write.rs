//! The values a statement writes, and the expressions that write them.

use crate::comparison::{as_document, document_operand};
use crate::json::{json_text, jsons, lemma_array_view, Json, JsonV};
use crate::projection::{pairs, second_of, type_of};
use crate::text::{
    cat2, cat3, ends_with, has_prefix, has_suffix, join, joined, owned, replace_char, replaced,
    same, starts_with, str_opt, texts,
};
use vstd::prelude::*;

verus! {

/// The cast to a column's type.
pub open spec fn cast_to(column_type: Option<Seq<char>>) -> Seq<char> {
    match column_type {
        Some(t) => "::"@ + t,
        None => ""@,
    }
}

/// The cast a written value needs to reach a column of this type.
pub fn write_cast(column_types: &Vec<(String, String)>, column: &str) -> (r: String)
    ensures
        r@ == cast_to(second_of(pairs(column_types@), column@)),
{
    match type_of(column_types, column) {
        Some(t) => cat2("::", t),
        None => owned(""),
    }
}

/// Whether a type name is that of an array, in either of the two spellings.
pub open spec fn names_array(t: Seq<char>) -> bool {
    has_suffix(t, "[]"@) || has_prefix(t, "_"@)
}

/// Whether a PostgreSQL type name is an array: `text[]` or `_text`.
pub fn is_array_type(pg_type: &str) -> (r: bool)
    ensures
        r == names_array(pg_type@),
{
    ends_with(pg_type, "[]") || starts_with(pg_type, "_")
}

/// A text between double quotes, backslashes and quotes escaped.
pub open spec fn quoted_element(s: Seq<char>) -> Seq<char> {
    "\""@ + replaced(replaced(s, '\\', "\\\\"@), '"', "\\\""@) + "\""@
}

/// An element of an array literal, quoted: its quotes and backslashes are
/// escaped, so that it is read back as it is.
fn quote_element(s: &str) -> (r: String)
    ensures
        r@ == quoted_element(s@),
{
    cat3("\"", &replace_char(&replace_char(s, '\\', "\\\\"), '"', "\\\""), "\"")
}

/// A JSON array as PostgreSQL writes one; anything else as an element of one.
pub open spec fn array_text(value: JsonV) -> Seq<char>
    decreases value,
{
    match value {
        JsonV::Array(items) => "{"@ + joined(element_texts(items), ","@) + "}"@,
        JsonV::Null => "NULL"@,
        JsonV::String(s) => quoted_element(s),
        other => quoted_element(json_text(other)),
    }
}

/// Each element of an array as PostgreSQL writes it.
pub open spec fn element_texts(items: Seq<JsonV>) -> Seq<Seq<char>>
    decreases items,
{
    Seq::new(
        items.len(),
        |i: int|
            if 0 <= i < items.len() {
                array_text(items[i])
            } else {
                Seq::empty()
            },
    )
}

/// A JSON array as PostgreSQL writes one.
///
/// `["a","b"]` becomes `{"a","b"}`. Every element is quoted, so a comma, a
/// brace or a backslash survives; a null is the unquoted `NULL`.
pub fn array_literal(value: &Json) -> (r: String)
    ensures
        r@ == array_text(value@),
    decreases value,
{
    match value {
        Json::Array(items) => {
            let mut parts: Vec<String> = Vec::new();
            let mut i: usize = 0;
            while i < items.len()
                invariant
                    i <= items.len(),
                    parts.len() == i,
                    value is Array,
                    *items == value->Array_0,
                    forall|j: int| 0 <= j < i ==> parts[j]@ == array_text(items[j]@),
                decreases items.len() - i,
            {
                assert(decreases_to!(*items => items@[i as int]));
                parts.push(array_literal(&items[i]));
                i += 1;
            }
            proof {
                lemma_array_view(*items);
                assert(texts(parts@) =~= element_texts(jsons(items@)));
            }
            cat3("{", &join(&parts, ","), "}")
        },
        Json::Null => owned("NULL"),
        Json::String(s) => quote_element(s),
        _ => quote_element(&value.text()),
    }
}

/// The value a column of a type is written with, as it goes over the wire: a
/// document column keeps the document it is given, and an array column takes
/// an array literal.
pub open spec fn written_value(column_type: Option<Seq<char>>, value: JsonV) -> JsonV {
    match column_type {
        Some(t) => if t == "json"@ || t == "jsonb"@ {
            as_document(value)
        } else if names_array(t) && value is Array {
            JsonV::String(array_text(value))
        } else {
            value
        },
        None => value,
    }
}

/// The value one column is written with, as it goes over the wire.
pub fn write_operand(column_types: &Vec<(String, String)>, column: &str, value: &Json) -> (r: Json)
    ensures
        r@ == written_value(second_of(pairs(column_types@), column@), value@),
{
    match type_of(column_types, column) {
        Some(t) => if same(t, "json") || same(t, "jsonb") {
            document_operand(value)
        } else if is_array_type(t) && matches!(value, Json::Array(_)) {
            Json::String(array_literal(value))
        } else {
            value.copy()
        },
        None => value.copy(),
    }
}

/// The expression that writes one bound value into a column of a type. A
/// shape given as a document is read by PostGIS; an amount given as a number
/// goes through `numeric`; everything else is cast.
pub open spec fn written_as(
    column_type: Option<Seq<char>>,
    value: JsonV,
    placeholder: Seq<char>,
) -> Seq<char> {
    if value is Object && column_type == Some("geography"@) {
        "ST_GeomFromGeoJSON("@ + placeholder + ")::geography"@
    } else if value is Object && column_type == Some("geometry"@) {
        "ST_GeomFromGeoJSON("@ + placeholder + ")"@
    } else if value is Number && column_type == Some("money"@) {
        placeholder + "::numeric::money"@
    } else {
        placeholder + cast_to(column_type)
    }
}

fn is_type(column_type: Option<&str>, name: &str) -> (r: bool)
    ensures
        r == (str_opt(column_type) == Some(name@)),
{
    match column_type {
        Some(t) => same(t, name),
        None => false,
    }
}

/// The expression that writes one bound value into one column.
pub fn write_expression(
    column_types: &Vec<(String, String)>,
    column: &str,
    value: &Json,
    placeholder: &str,
) -> (r: String)
    ensures
        r@ == written_as(second_of(pairs(column_types@), column@), value@, placeholder@),
{
    let pg_type = type_of(column_types, column);
    let is_object = matches!(value, Json::Object(_));
    if is_object && is_type(pg_type, "geography") {
        return cat3("ST_GeomFromGeoJSON(", placeholder, ")::geography");
    }
    if is_object && is_type(pg_type, "geometry") {
        return cat3("ST_GeomFromGeoJSON(", placeholder, ")");
    }
    if matches!(value, Json::Number(_)) && is_type(pg_type, "money") {
        return cat2(placeholder, "::numeric::money");
    }
    cat2(placeholder, &write_cast(column_types, column))
}

} // verus!

//! GraphQL values and the JSON documents they are.

use crate::entity::{double_text, nearest_double};
use crate::json::{
    entries_view, json_opt, jsons, lemma_array_view, lemma_object_view, number_text, Json, JsonV,
    Number, NumberV,
};
use crate::text::{decimal_int, integer_of, parse_i64, parse_u64, same, text_opt};
use vstd::prelude::*;

verus! {

/// A GraphQL value.
#[derive(Debug, PartialEq)]
pub enum Value {
    Null,
    Boolean(bool),
    Number(Number),
    String(std::string::String),
    Enum(std::string::String),
    Binary(Vec<u8>),
    List(Vec<Value>),
    Object(Vec<(std::string::String, Value)>),
}

/// Names the base64 text of bytes, in the standard alphabet with padding.
pub uninterp spec fn base64_text(bytes: Seq<u8>) -> Seq<char>;

/// Wraps `Engine::encode` of `base64` with its `STANDARD` engine. The result
/// is a function of the bytes alone, and is named rather than spelled out.
#[verifier::external_body]
fn encode_base64(bytes: &Vec<u8>) -> (r: std::string::String)
    ensures
        r@ == base64_text(bytes@),
{
    base64::Engine::encode(&base64::engine::general_purpose::STANDARD, bytes)
}

/// A number as it is handed on: an integer of sixty-four signed bits as it is,
/// any other as the nearest double-precision number.
pub open spec fn passed_number(n: NumberV) -> Option<NumberV> {
    match n.as_i64() {
        Some(i) => Some(NumberV::Int(i)),
        None => rounded(n),
    }
}

/// A number as the nearest double-precision number.
pub open spec fn rounded(n: NumberV) -> Option<NumberV> {
    match nearest_double(number_text(n)) {
        Some(text) => Some(NumberV::Other(text)),
        None => None,
    }
}

/// An optional number, or null.
pub open spec fn number_or_null(n: Option<NumberV>) -> JsonV {
    match n {
        Some(n) => JsonV::Number(n),
        None => JsonV::Null,
    }
}

fn pass_number(n: &Number) -> (r: Option<Number>)
    ensures
        (match r {
            Some(n) => Some(n@),
            None => None,
        }) == passed_number(n@),
{
    if let Some(i) = n.as_i64() {
        return Some(
            if i >= 0 {
                Number::PosInt(i as u64)
            } else {
                Number::NegInt(i)
            },
        );
    }
    match double_text(&n.text()) {
        Some(text) => Some(Number::Other(text)),
        None => None,
    }
}

/// A value as a document: bytes as base64 text, an enum's member as its name.
pub open spec fn value_json(v: Value) -> JsonV
    decreases v,
{
    match v {
        Value::Null => JsonV::Null,
        Value::Boolean(b) => JsonV::Bool(b),
        Value::Number(n) => number_or_null(passed_number(n@)),
        Value::String(s) => JsonV::String(s@),
        Value::Enum(s) => JsonV::String(s@),
        Value::Binary(bytes) => JsonV::String(base64_text(bytes@)),
        Value::List(items) => JsonV::Array(
            Seq::new(
                items@.len(),
                |i: int|
                    if 0 <= i < items@.len() {
                        value_json(items@[i])
                    } else {
                        JsonV::Null
                    },
            ),
        ),
        Value::Object(entries) => JsonV::Object(
            Seq::new(
                entries@.len(),
                |i: int|
                    if 0 <= i < entries@.len() {
                        (entries@[i].0@, value_json(entries@[i].1))
                    } else {
                        (Seq::empty(), JsonV::Null)
                    },
            ),
        ),
    }
}

/// Convert a GraphQL value to JSON.
pub fn value_to_json(value: &Value) -> (r: Json)
    ensures
        r@ == value_json(*value),
    decreases value,
{
    match value {
        Value::Null => Json::Null,
        Value::Boolean(b) => Json::Bool(*b),
        Value::Number(n) => match pass_number(n) {
            Some(n) => Json::Number(n),
            None => Json::Null,
        },
        Value::String(s) => Json::String(s.clone()),
        Value::Enum(s) => Json::String(s.clone()),
        Value::Binary(bytes) => Json::String(encode_base64(bytes)),
        Value::List(items) => {
            let mut list: Vec<Json> = Vec::new();
            let mut i: usize = 0;
            while i < items.len()
                invariant
                    i <= items.len(),
                    list@.len() == i,
                    value is List,
                    *items == value->List_0,
                    forall|j: int| 0 <= j < i ==> list@[j]@ == value_json(items@[j]),
                decreases items.len() - i,
            {
                assert(decreases_to!(*items => items@[i as int]));
                list.push(value_to_json(&items[i]));
                i += 1;
            }
            proof {
                lemma_array_view(list);
                assert(jsons(list@) =~= value_json(*value)->Array_0);
            }
            Json::Array(list)
        },
        Value::Object(entries) => {
            let mut list: Vec<(std::string::String, Json)> = Vec::new();
            let mut i: usize = 0;
            while i < entries.len()
                invariant
                    i <= entries.len(),
                    list@.len() == i,
                    value is Object,
                    *entries == value->Object_0,
                    forall|j: int|
                        0 <= j < i ==> list@[j].0@ == entries@[j].0@ && list@[j].1@ == value_json(
                            entries@[j].1,
                        ),
                decreases entries.len() - i,
            {
                assert(decreases_to!(*entries => entries@[i as int]));
                let e = &entries[i];
                list.push((e.0.clone(), value_to_json(&e.1)));
                i += 1;
            }
            proof {
                lemma_object_view(list);
                assert(entries_view(list@) =~= value_json(*value)->Object_0);
            }
            Json::Object(list)
        },
    }
}

/// What a GraphQL value holds that came from a document: that document, with
/// its numbers as they are handed on.
pub open spec fn passed(j: JsonV) -> JsonV
    decreases j,
{
    match j {
        JsonV::Number(n) => number_or_null(passed_number(n)),
        JsonV::Array(items) => JsonV::Array(
            Seq::new(
                items.len(),
                |i: int|
                    if 0 <= i < items.len() {
                        passed(items[i])
                    } else {
                        JsonV::Null
                    },
            ),
        ),
        JsonV::Object(entries) => JsonV::Object(
            Seq::new(
                entries.len(),
                |i: int|
                    if 0 <= i < entries.len() {
                        (entries[i].0, passed(entries[i].1))
                    } else {
                        (Seq::empty(), JsonV::Null)
                    },
            ),
        ),
        other => other,
    }
}

/// What a value made of a document holds.
pub open spec fn value_view(v: Value) -> JsonV
    decreases v,
{
    match v {
        Value::Null => JsonV::Null,
        Value::Boolean(b) => JsonV::Bool(b),
        Value::Number(n) => JsonV::Number(n@),
        Value::String(s) => JsonV::String(s@),
        Value::Enum(s) => JsonV::String(s@),
        Value::Binary(bytes) => JsonV::String(base64_text(bytes@)),
        Value::List(items) => JsonV::Array(
            Seq::new(
                items@.len(),
                |i: int|
                    if 0 <= i < items@.len() {
                        value_view(items@[i])
                    } else {
                        JsonV::Null
                    },
            ),
        ),
        Value::Object(entries) => JsonV::Object(
            Seq::new(
                entries@.len(),
                |i: int|
                    if 0 <= i < entries@.len() {
                        (entries@[i].0@, value_view(entries@[i].1))
                    } else {
                        (Seq::empty(), JsonV::Null)
                    },
            ),
        ),
    }
}

/// Whether a value is of a document's kind: what the document's text would be
/// read as.
pub open spec fn plain_value(v: Value) -> bool
    decreases v,
{
    match v {
        Value::Enum(_) => false,
        Value::Binary(_) => false,
        Value::List(items) => forall|i: int|
            0 <= i < items@.len() ==> plain_value(#[trigger] items@[i]),
        Value::Object(entries) => forall|i: int|
            0 <= i < entries@.len() ==> plain_value((#[trigger] entries@[i]).1),
        _ => true,
    }
}

/// Convert JSON to a GraphQL value.
pub fn json_to_value(json: &Json) -> (r: Value)
    ensures
        value_view(r) == passed(json@),
        plain_value(r),
    decreases json,
{
    match json {
        Json::Null => Value::Null,
        Json::Bool(b) => Value::Boolean(*b),
        Json::Number(n) => match pass_number(n) {
            Some(n) => Value::Number(n),
            None => Value::Null,
        },
        Json::String(s) => Value::String(s.clone()),
        Json::Array(items) => {
            proof {
                lemma_array_view(*items);
            }
            let mut list: Vec<Value> = Vec::new();
            let mut i: usize = 0;
            while i < items.len()
                invariant
                    i <= items.len(),
                    list@.len() == i,
                    json is Array,
                    *items == json->Array_0,
                    forall|j: int|
                        0 <= j < i ==> value_view(list@[j]) == passed(items@[j]@) && plain_value(
                            #[trigger] list@[j],
                        ),
                decreases items.len() - i,
            {
                assert(decreases_to!(*items => items@[i as int]));
                list.push(json_to_value(&items[i]));
                i += 1;
            }
            assert(value_view(Value::List(list))->Array_0 =~= passed(json@)->Array_0);
            Value::List(list)
        },
        Json::Object(entries) => {
            proof {
                lemma_object_view(*entries);
            }
            let mut list: Vec<(std::string::String, Value)> = Vec::new();
            let mut i: usize = 0;
            while i < entries.len()
                invariant
                    i <= entries.len(),
                    list@.len() == i,
                    json is Object,
                    *entries == json->Object_0,
                    forall|j: int|
                        0 <= j < i ==> (#[trigger] list@[j]).0@ == entries@[j].0@ && value_view(
                            list@[j].1,
                        ) == passed(entries@[j].1@) && plain_value(list@[j].1),
                decreases entries.len() - i,
            {
                assert(decreases_to!(*entries => entries@[i as int]));
                let e = &entries[i];
                list.push((e.0.clone(), json_to_value(&e.1)));
                i += 1;
            }
            assert(value_view(Value::Object(list))->Object_0 =~= passed(json@)->Object_0);
            Value::Object(list)
        },
    }
}

// ---------------------------------------------------------------------------
// Numbers kept as text
// ---------------------------------------------------------------------------

/// The key a number is wrapped in where its digits are kept.
pub const NUMBER_AS_TEXT: &'static str = "$serde_json::private::Number";

/// Names the text of the number that a JSON document is, where it is one.
pub uninterp spec fn number_literal(s: Seq<char>) -> Option<Seq<char>>;

/// Wraps `serde_json::from_str`: the text of the number that a document is,
/// where it is a number. The result is a function of the characters alone,
/// and is named rather than spelled out.
#[verifier::external_body]
fn read_number(s: &str) -> (r: Option<std::string::String>)
    ensures
        text_opt(r) == number_literal(s@),
{
    match serde_json::from_str::<serde_json::Value>(s) {
        Ok(serde_json::Value::Number(n)) => Some(n.to_string()),
        _ => None,
    }
}

/// The number of a text: an integer of sixty-four bits where that is how the
/// integer is written, and the text itself otherwise.
pub open spec fn number_of(text: Seq<char>) -> NumberV {
    match integer_of(text) {
        Some(n) => if i64::MIN <= n <= u64::MAX && decimal_int(n) == text {
            NumberV::Int(n)
        } else {
            NumberV::Other(text)
        },
        None => NumberV::Other(text),
    }
}

/// The number of a text, which keeps that text.
pub fn number_from(text: std::string::String) -> (r: Number)
    ensures
        r@ == number_of(text@),
{
    let number = match parse_i64(&text) {
        Some(n) => if n >= 0 {
            Number::PosInt(n as u64)
        } else {
            Number::NegInt(n)
        },
        None => match parse_u64(&text) {
            Some(n) => Number::PosInt(n),
            None => return Number::Other(text),
        },
    };
    if same(&number.text(), &text) {
        number
    } else {
        Number::Other(text)
    }
}

/// The number an object keeps as text, if that is what it is: it has one
/// entry, under the key for that, and the text is a number.
pub open spec fn kept_number(entries: Seq<(Seq<char>, JsonV)>) -> Option<JsonV> {
    if entries.len() == 1 && entries[0].0 == NUMBER_AS_TEXT@ && entries[0].1 is String {
        match number_literal(entries[0].1->String_0) {
            Some(text) => Some(JsonV::Number(number_of(text))),
            None => None,
        }
    } else {
        None
    }
}

/// The number an object keeps as text, if that is what it is.
pub fn number_kept_as_text(entries: &Vec<(std::string::String, Json)>) -> (r: Option<Json>)
    ensures
        json_opt(r) == kept_number(entries_view(entries@)),
{
    if entries.len() != 1 {
        return None;
    }
    assert(entries_view(entries@)[0] == (entries@[0].0@, entries@[0].1@));
    if !same(&entries[0].0, NUMBER_AS_TEXT) {
        return None;
    }
    match &entries[0].1 {
        Json::String(text) => match read_number(text) {
            Some(digits) => Some(Json::Number(number_from(digits))),
            None => None,
        },
        _ => None,
    }
}

/// A document with every number that is kept as text made a number.
pub open spec fn plain(j: JsonV) -> JsonV
    decreases j,
{
    match j {
        JsonV::Object(entries) => match kept_number(entries) {
            Some(number) => number,
            None => JsonV::Object(
                Seq::new(
                    entries.len(),
                    |i: int|
                        if 0 <= i < entries.len() {
                            (entries[i].0, plain(entries[i].1))
                        } else {
                            (Seq::empty(), JsonV::Null)
                        },
                ),
            ),
        },
        JsonV::Array(items) => JsonV::Array(
            Seq::new(
                items.len(),
                |i: int|
                    if 0 <= i < items.len() {
                        plain(items[i])
                    } else {
                        JsonV::Null
                    },
            ),
        ),
        other => other,
    }
}

/// A document with every number that is kept as text made a number.
pub fn plain_numbers(value: &Json) -> (r: Json)
    ensures
        r@ == plain(value@),
    decreases value,
{
    match value {
        Json::Object(entries) => {
            proof {
                lemma_object_view(*entries);
            }
            if let Some(number) = number_kept_as_text(entries) {
                return number;
            }
            let mut list: Vec<(std::string::String, Json)> = Vec::new();
            let mut i: usize = 0;
            while i < entries.len()
                invariant
                    i <= entries.len(),
                    list@.len() == i,
                    value is Object,
                    *entries == value->Object_0,
                    forall|j: int|
                        0 <= j < i ==> (#[trigger] list@[j]).0@ == entries@[j].0@ && list@[j].1@
                            == plain(entries@[j].1@),
                decreases entries.len() - i,
            {
                assert(decreases_to!(*entries => entries@[i as int]));
                let e = &entries[i];
                list.push((e.0.clone(), plain_numbers(&e.1)));
                i += 1;
            }
            proof {
                lemma_object_view(list);
                assert(entries_view(list@) =~= plain(value@)->Object_0);
            }
            Json::Object(list)
        },
        Json::Array(items) => {
            proof {
                lemma_array_view(*items);
            }
            let mut list: Vec<Json> = Vec::new();
            let mut i: usize = 0;
            while i < items.len()
                invariant
                    i <= items.len(),
                    list@.len() == i,
                    value is Array,
                    *items == value->Array_0,
                    forall|j: int| 0 <= j < i ==> list@[j]@ == plain(items@[j]@),
                decreases items.len() - i,
            {
                assert(decreases_to!(*items => items@[i as int]));
                list.push(plain_numbers(&items[i]));
                i += 1;
            }
            proof {
                lemma_array_view(list);
                assert(jsons(list@) =~= plain(value@)->Array_0);
            }
            Json::Array(list)
        },
        _ => value.copy(),
    }
}

/// An argument as a document: an enum's member as its name, a number kept as
/// text as the number, and bytes, which no argument is, as nothing.
pub open spec fn argument_json(v: Value) -> JsonV
    decreases v,
{
    match v {
        Value::Null => JsonV::Null,
        Value::Boolean(b) => JsonV::Bool(b),
        Value::Number(n) => number_or_null(passed_number(n@)),
        Value::String(s) => JsonV::String(s@),
        Value::Enum(s) => JsonV::String(s@),
        Value::Binary(_) => JsonV::Null,
        Value::List(items) => JsonV::Array(
            Seq::new(
                items@.len(),
                |i: int|
                    if 0 <= i < items@.len() {
                        argument_json(items@[i])
                    } else {
                        JsonV::Null
                    },
            ),
        ),
        Value::Object(entries) => {
            let list = argument_entries(entries@);
            match kept_number(list) {
                Some(number) => number,
                None => JsonV::Object(list),
            }
        },
    }
}

/// The entries of an argument as those of a document.
pub open spec fn argument_entries(entries: Seq<(std::string::String, Value)>) -> Seq<
    (Seq<char>, JsonV),
>
    decreases entries,
{
    Seq::new(
        entries.len(),
        |i: int|
            if 0 <= i < entries.len() {
                (entries[i].0@, argument_json(entries[i].1))
            } else {
                (Seq::empty(), JsonV::Null)
            },
    )
}

/// Convert an argument to JSON.
pub fn accessor_to_json(value: &Value) -> (r: Json)
    ensures
        r@ == argument_json(*value),
    decreases value,
{
    match value {
        Value::Null => Json::Null,
        Value::Boolean(b) => Json::Bool(*b),
        Value::Number(n) => match pass_number(n) {
            Some(n) => Json::Number(n),
            None => Json::Null,
        },
        Value::String(s) => Json::String(s.clone()),
        Value::Enum(s) => Json::String(s.clone()),
        Value::Binary(_) => Json::Null,
        Value::List(items) => {
            let mut list: Vec<Json> = Vec::new();
            let mut i: usize = 0;
            while i < items.len()
                invariant
                    i <= items.len(),
                    list@.len() == i,
                    value is List,
                    *items == value->List_0,
                    forall|j: int| 0 <= j < i ==> list@[j]@ == argument_json(items@[j]),
                decreases items.len() - i,
            {
                assert(decreases_to!(*items => items@[i as int]));
                list.push(accessor_to_json(&items[i]));
                i += 1;
            }
            proof {
                lemma_array_view(list);
                assert(jsons(list@) =~= argument_json(*value)->Array_0);
            }
            Json::Array(list)
        },
        Value::Object(entries) => {
            let mut list: Vec<(std::string::String, Json)> = Vec::new();
            let mut i: usize = 0;
            while i < entries.len()
                invariant
                    i <= entries.len(),
                    list@.len() == i,
                    value is Object,
                    *entries == value->Object_0,
                    forall|j: int|
                        0 <= j < i ==> list@[j].0@ == entries@[j].0@ && list@[j].1@
                            == argument_json(entries@[j].1),
                decreases entries.len() - i,
            {
                assert(decreases_to!(*entries => entries@[i as int]));
                let e = &entries[i];
                list.push((e.0.clone(), accessor_to_json(&e.1)));
                i += 1;
            }
            proof {
                assert(entries_view(list@) =~= argument_entries(entries@));
                lemma_object_view(list);
            }
            match number_kept_as_text(&list) {
                Some(number) => number,
                None => Json::Object(list),
            }
        },
    }
}

} // verus!

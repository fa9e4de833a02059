//! JSON documents as plain values, and their text.

use crate::lookup::once;
use crate::text::{
    cat3, decimal_int, decimal_int_text, decimal_text, digit, integer_of, join, joined, parse_i64,
    parse_u64, same, texts,
};
use vstd::prelude::*;

verus! {

// ---------------------------------------------------------------------------
// The model
// ---------------------------------------------------------------------------

/// What a JSON number holds: an integer, or the text of any other number.
#[verifier::ext_equal]
pub enum NumberV {
    Int(int),
    Other(Seq<char>),
}

/// What a JSON document holds. An object is its entries in order.
#[verifier::ext_equal]
pub enum JsonV {
    Null,
    Bool(bool),
    Number(NumberV),
    String(Seq<char>),
    Array(Seq<JsonV>),
    Object(Seq<(Seq<char>, JsonV)>),
}

/// The value an object's entries give a key: that of the first entry under it.
pub open spec fn entry_of(entries: Seq<(Seq<char>, JsonV)>, key: Seq<char>) -> Option<JsonV>
    decreases entries.len(),
{
    if entries.len() == 0 {
        None
    } else if entries[0].0 == key {
        Some(entries[0].1)
    } else {
        entry_of(entries.drop_first(), key)
    }
}

impl JsonV {
    /// The entries of an object, none for anything else.
    pub open spec fn entries(self) -> Seq<(Seq<char>, JsonV)> {
        match self {
            JsonV::Object(entries) => entries,
            _ => Seq::empty(),
        }
    }

    /// The value under a key of an object.
    pub open spec fn get(self, key: Seq<char>) -> Option<JsonV> {
        entry_of(self.entries(), key)
    }

    /// The value under a key, where there is one and it is not null.
    pub open spec fn present(self, key: Seq<char>) -> Option<JsonV> {
        match self.get(key) {
            Some(JsonV::Null) => None,
            other => other,
        }
    }

    /// The text of a string.
    pub open spec fn as_str(self) -> Option<Seq<char>> {
        match self {
            JsonV::String(s) => Some(s),
            _ => None,
        }
    }

    /// The integer of a number that is one and fits sixty-four signed bits.
    pub open spec fn as_i64(self) -> Option<int> {
        match self {
            JsonV::Number(n) => n.as_i64(),
            _ => None,
        }
    }
}

impl NumberV {
    /// The integer that its text spells.
    pub open spec fn spelled(self) -> Option<int> {
        match self {
            NumberV::Int(n) => Some(n),
            NumberV::Other(text) => integer_of(text),
        }
    }

    /// The integer of a number that is one and fits sixty-four signed bits.
    pub open spec fn as_i64(self) -> Option<int> {
        match self.spelled() {
            Some(n) => if i64::MIN <= n <= i64::MAX {
                Some(n)
            } else {
                None
            },
            None => None,
        }
    }

    /// Whether it is an integer of sixty-four bits, with a sign or without.
    pub open spec fn is_whole(self) -> bool {
        match self.spelled() {
            Some(n) => i64::MIN <= n <= u64::MAX,
            None => false,
        }
    }
}

// ---------------------------------------------------------------------------
// The documents
// ---------------------------------------------------------------------------

/// A JSON number: an integer of sixty-four bits, or the text of another number.
#[derive(Debug, PartialEq)]
pub enum Number {
    PosInt(u64),
    NegInt(i64),
    Other(String),
}

/// A JSON document.
#[derive(Debug, PartialEq)]
pub enum Json {
    Null,
    Bool(bool),
    Number(Number),
    String(String),
    Array(Vec<Json>),
    Object(Vec<(String, Json)>),
}

impl View for Number {
    type V = NumberV;

    open spec fn view(&self) -> NumberV {
        match *self {
            Number::PosInt(n) => NumberV::Int(n as int),
            Number::NegInt(n) => NumberV::Int(n as int),
            Number::Other(s) => NumberV::Other(s@),
        }
    }
}

/// What a document holds.
pub open spec fn json_view(j: Json) -> JsonV
    decreases j,
{
    match j {
        Json::Null => JsonV::Null,
        Json::Bool(b) => JsonV::Bool(b),
        Json::Number(n) => JsonV::Number(n@),
        Json::String(s) => JsonV::String(s@),
        Json::Array(items) => JsonV::Array(
            Seq::new(
                items@.len(),
                |i: int|
                    if 0 <= i < items@.len() {
                        json_view(items@[i])
                    } else {
                        JsonV::Null
                    },
            ),
        ),
        Json::Object(entries) => JsonV::Object(
            Seq::new(
                entries@.len(),
                |i: int|
                    if 0 <= i < entries@.len() {
                        (entries@[i].0@, json_view(entries@[i].1))
                    } else {
                        (Seq::empty(), JsonV::Null)
                    },
            ),
        ),
    }
}

impl View for Json {
    type V = JsonV;

    open spec fn view(&self) -> JsonV {
        json_view(*self)
    }
}

/// What each document of a list holds.
pub open spec fn jsons(v: Seq<Json>) -> Seq<JsonV> {
    v.map_values(|j: Json| j@)
}

/// What each entry of a list holds.
pub open spec fn entries_view(v: Seq<(String, Json)>) -> Seq<(Seq<char>, JsonV)> {
    v.map_values(|e: (String, Json)| (e.0@, e.1@))
}

/// What an optional document holds.
pub open spec fn json_opt(o: Option<Json>) -> Option<JsonV> {
    match o {
        Some(j) => Some(j@),
        None => None,
    }
}

/// What an optional borrowed document holds.
pub open spec fn json_ref(o: Option<&Json>) -> Option<JsonV> {
    match o {
        Some(j) => Some(j@),
        None => None,
    }
}

pub proof fn lemma_array_view(items: Vec<Json>)
    ensures
        json_view(Json::Array(items)) == JsonV::Array(jsons(items@)),
{
    assert(json_view(Json::Array(items))->Array_0 =~= jsons(items@));
}

pub proof fn lemma_object_view(entries: Vec<(String, Json)>)
    ensures
        json_view(Json::Object(entries)) == JsonV::Object(entries_view(entries@)),
{
    assert(json_view(Json::Object(entries))->Object_0 =~= entries_view(entries@));
}

pub proof fn lemma_entry_of(entries: Seq<(Seq<char>, JsonV)>, key: Seq<char>, i: int)
    requires
        0 <= i < entries.len(),
        entries[i].0 == key,
        forall|j: int| 0 <= j < i ==> entries[j].0 != key,
    ensures
        entry_of(entries, key) == Some(entries[i].1),
    decreases entries.len(),
{
    if i > 0 {
        assert(entries[0].0 != key);
        assert forall|j: int| 0 <= j < i - 1 implies entries.drop_first()[j].0 != key by {
            assert(entries.drop_first()[j] == entries[j + 1]);
        }
        lemma_entry_of(entries.drop_first(), key, i - 1);
    }
}

pub proof fn lemma_no_entry(entries: Seq<(Seq<char>, JsonV)>, key: Seq<char>)
    requires
        forall|j: int| 0 <= j < entries.len() ==> entries[j].0 != key,
    ensures
        entry_of(entries, key) is None,
    decreases entries.len(),
{
    if entries.len() > 0 {
        assert forall|j: int| 0 <= j < entries.len() - 1 implies entries.drop_first()[j].0
            != key by {
            assert(entries.drop_first()[j] == entries[j + 1]);
        }
        lemma_no_entry(entries.drop_first(), key);
    }
}

impl Number {
    /// A copy of the number.
    pub fn copy(&self) -> (r: Number)
        ensures
            r@ == self@,
    {
        match self {
            Number::PosInt(n) => Number::PosInt(*n),
            Number::NegInt(n) => Number::NegInt(*n),
            Number::Other(s) => Number::Other(s.clone()),
        }
    }
}

impl Json {
    /// A copy of the document.
    pub fn copy(&self) -> (r: Json)
        ensures
            r@ == self@,
        decreases self,
    {
        match self {
            Json::Null => Json::Null,
            Json::Bool(b) => Json::Bool(*b),
            Json::Number(n) => Json::Number(n.copy()),
            Json::String(s) => Json::String(s.clone()),
            Json::Array(items) => {
                let mut copied: Vec<Json> = Vec::new();
                let mut i: usize = 0;
                while i < items.len()
                    invariant
                        i <= items.len(),
                        copied.len() == i,
                        self is Array,
                        *items == self->Array_0,
                        forall|j: int| 0 <= j < i ==> copied[j]@ == items[j]@,
                    decreases items.len() - i,
                {
                    assert(decreases_to!(*items => items@[i as int]));
                    copied.push(items[i].copy());
                    i += 1;
                }
                proof {
                    lemma_array_view(*items);
                    lemma_array_view(copied);
                    assert(jsons(copied@) =~= jsons(items@));
                }
                Json::Array(copied)
            },
            Json::Object(entries) => {
                let mut copied: Vec<(String, Json)> = Vec::new();
                let mut i: usize = 0;
                while i < entries.len()
                    invariant
                        i <= entries.len(),
                        copied.len() == i,
                        self is Object,
                        *entries == self->Object_0,
                        forall|j: int|
                            0 <= j < i ==> copied[j].0@ == entries[j].0@ && copied[j].1@
                                == entries[j].1@,
                    decreases entries.len() - i,
                {
                    let e = &entries[i];
                    assert(decreases_to!(*entries => entries@[i as int]));
                    copied.push((e.0.clone(), e.1.copy()));
                    i += 1;
                }
                proof {
                    lemma_object_view(*entries);
                    lemma_object_view(copied);
                    assert(entries_view(copied@) =~= entries_view(entries@));
                }
                Json::Object(copied)
            },
        }
    }

    /// The value under a key of an object.
    pub fn get(&self, key: &str) -> (r: Option<&Json>)
        ensures
            json_ref(r) == self@.get(key@),
    {
        match self {
            Json::Object(entries) => {
                proof {
                    lemma_object_view(*entries);
                }
                let mut i: usize = 0;
                while i < entries.len()
                    invariant
                        i <= entries.len(),
                        self@ == JsonV::Object(entries_view(entries@)),
                        forall|j: int| 0 <= j < i ==> entries_view(entries@)[j].0 != key@,
                    decreases entries.len() - i,
                {
                    if same(&entries[i].0, key) {
                        proof {
                            lemma_entry_of(entries_view(entries@), key@, i as int);
                        }
                        return Some(&entries[i].1);
                    }
                    i += 1;
                }
                proof {
                    lemma_no_entry(entries_view(entries@), key@);
                }
                None
            },
            _ => None,
        }
    }

    /// The value under a key, where there is one and it is not null.
    pub fn present(&self, key: &str) -> (r: Option<&Json>)
        ensures
            json_ref(r) == self@.present(key@),
    {
        match self.get(key) {
            Some(Json::Null) => None,
            other => other,
        }
    }

    pub fn is_null(&self) -> (r: bool)
        ensures
            r == (self@ is Null),
    {
        matches!(self, Json::Null)
    }

    pub fn is_string(&self) -> (r: bool)
        ensures
            r == (self@ is String),
    {
        matches!(self, Json::String(_))
    }

    /// The text of a string.
    pub fn as_str(&self) -> (r: Option<&str>)
        ensures
            crate::text::str_opt(r) == self@.as_str(),
    {
        match self {
            Json::String(s) => Some(s.as_str()),
            _ => None,
        }
    }

    /// The integer of a number that is one and fits.
    pub fn as_i64(&self) -> (r: Option<i64>)
        ensures
            (match r {
                Some(n) => Some(n as int),
                None => None,
            }) == self@.as_i64(),
    {
        match self {
            Json::Number(n) => n.as_i64(),
            _ => None,
        }
    }
}

impl Number {
    /// The integer of a number that is one and fits.
    pub fn as_i64(&self) -> (r: Option<i64>)
        ensures
            (match r {
                Some(n) => Some(n as int),
                None => None,
            }) == self@.as_i64(),
    {
        match self {
            Number::PosInt(n) => if *n <= i64::MAX as u64 {
                Some(*n as i64)
            } else {
                None
            },
            Number::NegInt(n) => Some(*n),
            Number::Other(text) => parse_i64(text),
        }
    }

    /// Whether it is an integer of sixty-four bits, with a sign or without.
    pub fn is_whole(&self) -> (r: bool)
        ensures
            r == self@.is_whole(),
    {
        match self {
            Number::Other(text) => parse_i64(text).is_some() || parse_u64(text).is_some(),
            _ => true,
        }
    }

    /// Whether two numbers are the same.
    pub fn same_as(&self, other: &Number) -> (r: bool)
        ensures
            r == (self@ == other@),
    {
        match (self, other) {
            (Number::PosInt(x), Number::PosInt(y)) => *x == *y,
            (Number::PosInt(x), Number::NegInt(y)) => *x as i128 == *y as i128,
            (Number::NegInt(x), Number::PosInt(y)) => *x as i128 == *y as i128,
            (Number::NegInt(x), Number::NegInt(y)) => *x == *y,
            (Number::Other(x), Number::Other(y)) => same(x, y),
            _ => false,
        }
    }
}

/// Whether no object of a document, however deep, has a key twice.
pub open spec fn well_keyed(value: JsonV) -> bool
    decreases value,
{
    match value {
        JsonV::Array(items) => forall|i: int|
            0 <= i < items.len() ==> well_keyed(#[trigger] items[i]),
        JsonV::Object(entries) => {
            &&& once(entries)
            &&& forall|i: int| 0 <= i < entries.len() ==> well_keyed((#[trigger] entries[i]).1)
        },
        _ => true,
    }
}

impl Json {
    /// A document as text can hold one: no object in it has a key twice.
    pub open spec fn wf(self) -> bool {
        well_keyed(self@)
    }
}

/// Whether two documents hold the same: an array's items in their order, an
/// object's entries in any.
pub open spec fn same_json(a: JsonV, b: JsonV) -> bool
    decreases a, 0nat,
{
    match (a, b) {
        (JsonV::Array(xs), JsonV::Array(ys)) => xs.len() == ys.len() && same_items(xs, ys, 0),
        (JsonV::Object(xs), JsonV::Object(ys)) => same_entries(xs, ys, 0) && keys_within(ys, xs),
        _ => a == b,
    }
}

/// Whether two lists hold the same from the `i`th item on.
pub open spec fn same_items(xs: Seq<JsonV>, ys: Seq<JsonV>, i: nat) -> bool
    decreases xs, xs.len() - i,
{
    if i >= xs.len() {
        true
    } else {
        same_json(xs[i as int], ys[i as int]) && same_items(xs, ys, i + 1)
    }
}

/// Whether the entries from the `i`th on that give their key its value give it
/// the same as another object's entries do.
pub open spec fn same_entries(
    xs: Seq<(Seq<char>, JsonV)>,
    ys: Seq<(Seq<char>, JsonV)>,
    i: nat,
) -> bool
    decreases xs, xs.len() - i,
{
    if i >= xs.len() {
        true
    } else {
        &&& leads(xs, i as int) ==> (match entry_of(ys, xs[i as int].0) {
            Some(value) => same_json(xs[i as int].1, value),
            None => false,
        })
        &&& same_entries(xs, ys, i + 1)
    }
}

/// Whether no earlier entry stands under the same key.
pub open spec fn leads(entries: Seq<(Seq<char>, JsonV)>, i: int) -> bool {
    forall|j: int| 0 <= j < i ==> (#[trigger] entries[j]).0 != entries[i].0
}

/// Whether every key of some entries stands among others.
pub open spec fn keys_within(
    entries: Seq<(Seq<char>, JsonV)>,
    others: Seq<(Seq<char>, JsonV)>,
) -> bool {
    forall|j: int|
        0 <= j < entries.len() ==> entry_of(others, (#[trigger] entries[j]).0) is Some
}

/// A document holds the same as itself.
pub proof fn law_same_as_itself(a: JsonV)
    ensures
        same_json(a, a),
    decreases a, 0nat,
{
    match a {
        JsonV::Array(xs) => lemma_same_items(xs, 0),
        JsonV::Object(xs) => {
            lemma_same_entries(xs, 0);
            assert forall|j: int| 0 <= j < xs.len() implies entry_of(
                xs,
                (#[trigger] xs[j]).0,
            ) is Some by {
                lemma_entry_found(xs, xs[j].0, j);
            }
        },
        _ => {},
    }
}

proof fn lemma_same_items(xs: Seq<JsonV>, i: nat)
    ensures
        same_items(xs, xs, i),
    decreases xs, xs.len() - i,
{
    if i < xs.len() {
        law_same_as_itself(xs[i as int]);
        lemma_same_items(xs, i + 1);
    }
}

proof fn lemma_same_entries(xs: Seq<(Seq<char>, JsonV)>, i: nat)
    ensures
        same_entries(xs, xs, i),
    decreases xs, xs.len() - i,
{
    if i < xs.len() {
        if leads(xs, i as int) {
            lemma_entry_of(xs, xs[i as int].0, i as int);
        }
        law_same_as_itself(xs[i as int].1);
        lemma_same_entries(xs, i + 1);
    }
}

/// A key under which an entry stands is found.
proof fn lemma_entry_found(entries: Seq<(Seq<char>, JsonV)>, key: Seq<char>, j: int)
    requires
        0 <= j < entries.len(),
        entries[j].0 == key,
    ensures
        entry_of(entries, key) is Some,
    decreases entries.len(),
{
    if entries[0].0 != key {
        assert(entries.drop_first()[j - 1] == entries[j]);
        lemma_entry_found(entries.drop_first(), key, j - 1);
    }
}

/// Whether no earlier entry stands under the same key.
fn is_leading(entries: &Vec<(String, Json)>, i: usize) -> (r: bool)
    requires
        i < entries@.len(),
    ensures
        r == leads(entries_view(entries@), i as int),
{
    let mut j: usize = 0;
    while j < i
        invariant
            j <= i < entries@.len(),
            forall|k: int|
                0 <= k < j ==> (#[trigger] entries_view(entries@)[k]).0 != entries_view(
                    entries@,
                )[i as int].0,
        decreases i - j,
    {
        assert(entries_view(entries@)[j as int].0 == entries@[j as int].0@);
        assert(entries_view(entries@)[i as int].0 == entries@[i as int].0@);
        if same(&entries[j].0, &entries[i].0) {
            return false;
        }
        j += 1;
    }
    true
}

impl Json {
    /// Whether two documents hold the same.
    pub fn same_as(&self, other: &Json) -> (r: bool)
        ensures
            r == same_json(self@, other@),
        decreases self,
    {
        match (self, other) {
            (Json::Null, Json::Null) => true,
            (Json::Bool(a), Json::Bool(b)) => *a == *b,
            (Json::Number(a), Json::Number(b)) => a.same_as(b),
            (Json::String(a), Json::String(b)) => same(a, b),
            (Json::Array(left), Json::Array(right)) => {
                proof {
                    lemma_array_view(*left);
                    lemma_array_view(*right);
                }
                if left.len() != right.len() {
                    assert(jsons(left@).len() != jsons(right@).len());
                    return false;
                }
                let mut i: usize = 0;
                while i < left.len()
                    invariant
                        i <= left.len(),
                        left@.len() == right@.len(),
                        self is Array,
                        *left == self->Array_0,
                        self@ == JsonV::Array(jsons(left@)),
                        other@ == JsonV::Array(jsons(right@)),
                        same_items(jsons(left@), jsons(right@), 0) == same_items(
                            jsons(left@),
                            jsons(right@),
                            i as nat,
                        ),
                    decreases left.len() - i,
                {
                    assert(decreases_to!(*left => left@[i as int]));
                    assert(jsons(left@)[i as int] == left@[i as int]@);
                    assert(jsons(right@)[i as int] == right@[i as int]@);
                    if !left[i].same_as(&right[i]) {
                        return false;
                    }
                    i += 1;
                }
                true
            },
            (Json::Object(left), Json::Object(right)) => {
                let ghost xs = entries_view(left@);
                let ghost ys = entries_view(right@);
                proof {
                    lemma_object_view(*left);
                    lemma_object_view(*right);
                }
                let mut i: usize = 0;
                while i < left.len()
                    invariant
                        i <= left.len(),
                        self is Object,
                        *left == self->Object_0,
                        xs == entries_view(left@),
                        ys == entries_view(right@),
                        self@ == JsonV::Object(xs),
                        other@ == JsonV::Object(ys),
                        same_entries(xs, ys, 0) == same_entries(xs, ys, i as nat),
                    decreases left.len() - i,
                {
                    assert(decreases_to!(*left => left@[i as int]));
                    assert(xs[i as int] == (left@[i as int].0@, left@[i as int].1@));
                    if is_leading(left, i) {
                        let e = &left[i];
                        match other.get(&e.0) {
                            Some(value) => if !e.1.same_as(value) {
                                return false;
                            },
                            None => return false,
                        }
                    }
                    i += 1;
                }
                let mut j: usize = 0;
                while j < right.len()
                    invariant
                        j <= right.len(),
                        xs == entries_view(left@),
                        ys == entries_view(right@),
                        self@ == JsonV::Object(xs),
                        other@ == JsonV::Object(ys),
                        forall|k: int|
                            0 <= k < j ==> entry_of(xs, (#[trigger] ys[k]).0) is Some,
                    decreases right.len() - j,
                {
                    assert(ys[j as int] == (right@[j as int].0@, right@[j as int].1@));
                    if self.get(&right[j].0).is_none() {
                        assert(!keys_within(ys, xs));
                        return false;
                    }
                    j += 1;
                }
                true
            },
            _ => false,
        }
    }
}

// ---------------------------------------------------------------------------
// Text
// ---------------------------------------------------------------------------

/// A hexadecimal digit, in lower case.
pub open spec fn hex_digit(d: nat) -> char {
    if d < 10 {
        digit(d)
    } else if d == 10 {
        'a'
    } else if d == 11 {
        'b'
    } else if d == 12 {
        'c'
    } else if d == 13 {
        'd'
    } else if d == 14 {
        'e'
    } else {
        'f'
    }
}

/// A character as it stands in a JSON string: a quote, a backslash and a
/// control character as an escape, any other as it is.
pub open spec fn escaped(c: char) -> Seq<char> {
    if c == '"' {
        seq!['\\', '"']
    } else if c == '\\' {
        seq!['\\', '\\']
    } else if c == '\u{8}' {
        seq!['\\', 'b']
    } else if c == '\t' {
        seq!['\\', 't']
    } else if c == '\n' {
        seq!['\\', 'n']
    } else if c == '\u{c}' {
        seq!['\\', 'f']
    } else if c == '\r' {
        seq!['\\', 'r']
    } else if ' ' > c {
        seq![
            '\\',
            'u',
            '0',
            '0',
            hex_digit((c as u32 / 16) as nat),
            hex_digit((c as u32 % 16) as nat),
        ]
    } else {
        seq![c]
    }
}

/// The characters of a text as they stand in a JSON string.
pub open spec fn escapes(s: Seq<char>) -> Seq<char>
    decreases s.len(),
{
    if s.len() == 0 {
        Seq::empty()
    } else {
        escapes(s.drop_last()) + escaped(s.last())
    }
}

/// A text as a JSON string.
pub open spec fn quoted_json(s: Seq<char>) -> Seq<char> {
    seq!['"'] + escapes(s) + seq!['"']
}

/// Wraps `to_string` of `serde_json::Value` on a string: the string between
/// quotes, each character escaped where JSON does not let it stand.
#[verifier::external_body]
fn json_quote(s: &str) -> (r: String)
    ensures
        r@ == quoted_json(s@),
{
    serde_json::Value::String(s.to_owned()).to_string()
}

/// A number as JSON writes it.
pub open spec fn number_text(n: NumberV) -> Seq<char> {
    match n {
        NumberV::Int(i) => decimal_int(i),
        NumberV::Other(text) => text,
    }
}

/// A document as JSON writes it, with no space between its parts.
pub open spec fn json_text(j: JsonV) -> Seq<char>
    decreases j,
{
    match j {
        JsonV::Null => "null"@,
        JsonV::Bool(b) => if b {
            "true"@
        } else {
            "false"@
        },
        JsonV::Number(n) => number_text(n),
        JsonV::String(s) => quoted_json(s),
        JsonV::Array(items) => "["@ + joined(item_texts(items), ","@) + "]"@,
        JsonV::Object(entries) => "{"@ + joined(entry_texts(entries), ","@) + "}"@,
    }
}

/// Each document of a list as JSON writes it.
pub open spec fn item_texts(items: Seq<JsonV>) -> Seq<Seq<char>>
    decreases items,
{
    Seq::new(
        items.len(),
        |i: int|
            if 0 <= i < items.len() {
                json_text(items[i])
            } else {
                Seq::empty()
            },
    )
}

/// Each entry of an object as JSON writes it.
pub open spec fn entry_texts(entries: Seq<(Seq<char>, JsonV)>) -> Seq<Seq<char>>
    decreases entries,
{
    Seq::new(
        entries.len(),
        |i: int|
            if 0 <= i < entries.len() {
                quoted_json(entries[i].0) + ":"@ + json_text(entries[i].1)
            } else {
                Seq::empty()
            },
    )
}

impl Number {
    /// The number as JSON writes it.
    pub fn text(&self) -> (r: String)
        ensures
            r@ == number_text(self@),
    {
        match self {
            Number::PosInt(n) => decimal_text(*n as u128),
            Number::NegInt(n) => decimal_int_text(*n),
            Number::Other(s) => s.clone(),
        }
    }
}

impl Json {
    /// The document as JSON writes it.
    pub fn text(&self) -> (r: String)
        ensures
            r@ == json_text(self@),
        decreases self,
    {
        match self {
            Json::Null => "null".to_owned(),
            Json::Bool(b) => if *b {
                "true".to_owned()
            } else {
                "false".to_owned()
            },
            Json::Number(n) => n.text(),
            Json::String(s) => json_quote(s),
            Json::Array(items) => {
                let mut parts: Vec<String> = Vec::new();
                let mut i: usize = 0;
                while i < items.len()
                    invariant
                        i <= items.len(),
                        parts.len() == i,
                        self is Array,
                        *items == self->Array_0,
                        forall|j: int| 0 <= j < i ==> parts[j]@ == json_text(items[j]@),
                    decreases items.len() - i,
                {
                    assert(decreases_to!(*items => items@[i as int]));
                    parts.push(items[i].text());
                    i += 1;
                }
                proof {
                    lemma_array_view(*items);
                    assert(texts(parts@) =~= item_texts(jsons(items@)));
                }
                cat3("[", &join(&parts, ","), "]")
            },
            Json::Object(entries) => {
                let mut parts: Vec<String> = Vec::new();
                let mut i: usize = 0;
                while i < entries.len()
                    invariant
                        i <= entries.len(),
                        parts.len() == i,
                        self is Object,
                        *entries == self->Object_0,
                        forall|j: int|
                            0 <= j < i ==> parts[j]@ == quoted_json(entries[j].0@) + ":"@
                                + json_text(entries[j].1@),
                    decreases entries.len() - i,
                {
                    let e = &entries[i];
                    assert(decreases_to!(*entries => entries@[i as int]));
                    parts.push(cat3(&json_quote(&e.0), ":", &e.1.text()));
                    i += 1;
                }
                proof {
                    lemma_object_view(*entries);
                    assert(texts(parts@) =~= entry_texts(entries_view(entries@)));
                }
                cat3("{", &join(&parts, ","), "}")
            },
        }
    }
}

} // verus!

//! The values a statement binds, and the placeholders that stand for them.

use crate::entity::{double_text, nearest_double};
use crate::json::{json_text, jsons, number_text, Json, JsonV, Number};
use crate::text::{cat2, decimal, decimal_text};
use vstd::prelude::*;

verus! {

/// The binding state of a statement: the number of the next placeholder and
/// the values bound so far.
#[verifier::ext_equal]
pub struct BindsV {
    pub next: usize,
    pub values: Seq<JsonV>,
}

/// The binding state that an index and a list of values make.
pub open spec fn binds(param_idx: usize, values: Seq<Json>) -> BindsV {
    BindsV { next: param_idx, values: jsons(values) }
}

/// The number after one, in the machine's arithmetic.
pub open spec fn following(n: usize) -> usize {
    if n == usize::MAX {
        0
    } else {
        (n + 1) as usize
    }
}

/// The number that is `k` after one, in the machine's arithmetic.
pub open spec fn advanced(n: usize, k: nat) -> usize
    decreases k,
{
    if k == 0 {
        n
    } else {
        following(advanced(n, (k - 1) as nat))
    }
}

/// The placeholder that the next value is bound under.
pub open spec fn placeholder(at: BindsV) -> Seq<char> {
    "$"@ + decimal(at.next as nat)
}

/// The state once a value is bound.
pub open spec fn bound(at: BindsV, value: JsonV) -> BindsV {
    BindsV { next: following(at.next), values: at.values.push(value) }
}

/// The number after one.
pub fn next_number(n: usize) -> (r: usize)
    ensures
        r == following(n),
{
    n.wrapping_add(1)
}

/// Binds a value, and gives the placeholder that stands for it.
pub fn bind(param_idx: &mut usize, values: &mut Vec<Json>, value: Json) -> (r: String)
    ensures
        r@ == placeholder(binds(*old(param_idx), old(values)@)),
        binds(*final(param_idx), final(values)@) == bound(
            binds(*old(param_idx), old(values)@),
            value@,
        ),
{
    let text = cat2("$", &decimal_text(*param_idx as u128));
    *param_idx = next_number(*param_idx);
    proof {
        assert(jsons(values@.push(value)) =~= jsons(values@).push(value@));
    }
    values.push(value);
    text
}

/// The form a value is bound in.
#[derive(Debug)]
pub enum Bound {
    Null,
    Bool(bool),
    Int(i64),
    /// A double-precision number, by its text.
    Double(String),
    Text(String),
}

/// What a [`Bound`] holds.
#[verifier::ext_equal]
pub enum BoundV {
    Null,
    Bool(bool),
    Int(int),
    Double(Seq<char>),
    Text(Seq<char>),
}

impl View for Bound {
    type V = BoundV;

    open spec fn view(&self) -> BoundV {
        match *self {
            Bound::Null => BoundV::Null,
            Bound::Bool(b) => BoundV::Bool(b),
            Bound::Int(n) => BoundV::Int(n as int),
            Bound::Double(text) => BoundV::Double(text@),
            Bound::Text(text) => BoundV::Text(text@),
        }
    }
}

/// How a value is bound: an integer of sixty-four signed bits as one, another
/// number as the nearest double where there is one and by its text where there
/// is none, and a list or an object by its text.
pub open spec fn bound_form(value: JsonV) -> BoundV {
    match value {
        JsonV::Null => BoundV::Null,
        JsonV::Bool(b) => BoundV::Bool(b),
        JsonV::Number(n) => match value.as_i64() {
            Some(i) => BoundV::Int(i),
            None => match nearest_double(number_text(n)) {
                Some(text) => BoundV::Double(text),
                None => BoundV::Text(number_text(n)),
            },
        },
        JsonV::String(s) => BoundV::Text(s),
        _ => BoundV::Text(json_text(value)),
    }
}

/// How a value is bound.
pub fn bound_as(value: &Json) -> (r: Bound)
    ensures
        r@ == bound_form(value@),
{
    match value {
        Json::Null => Bound::Null,
        Json::Bool(b) => Bound::Bool(*b),
        Json::Number(n) => match value.as_i64() {
            Some(i) => Bound::Int(i),
            None => {
                let text = n.text();
                match double_text(&text) {
                    Some(double) => Bound::Double(double),
                    None => Bound::Text(text),
                }
            },
        },
        Json::String(s) => Bound::Text(s.clone()),
        _ => Bound::Text(value.text()),
    }
}

} // verus!

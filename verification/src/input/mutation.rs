//! The values a mutation is given.

use vstd::prelude::*;

verus! {

/// A value that is written to a column.
#[derive(Debug)]
pub enum InputValue {
    Null,
    Bool(bool),
    Int(i64),
    /// A floating-point number by its text; none where it is not finite.
    Float(Option<String>),
    String(String),
    Object(Vec<(String, InputValue)>),
    Array(Vec<InputValue>),
}

} // verus!

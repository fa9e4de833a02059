//! What a refused request is answered.

use crate::text::{cat2, owned, same, starts_with, str_opt, text_opt};
use vstd::prelude::*;

verus! {

/// What an [`Error`] says.
#[verifier::ext_equal]
pub struct ErrorV {
    pub message: Seq<char>,
    pub code: Option<Seq<char>>,
    pub path: Option<Seq<char>>,
}

/// A refusal: a message, the code of the kind of failure where one is known,
/// and the place in the request where one was named.
#[derive(Debug, PartialEq)]
pub struct Error {
    pub message: String,
    pub code: Option<String>,
    pub path: Option<String>,
}

impl View for Error {
    type V = ErrorV;

    open spec fn view(&self) -> ErrorV {
        ErrorV { message: self.message@, code: text_opt(self.code), path: text_opt(self.path) }
    }
}

/// A message alone.
pub open spec fn plain_refusal(message: Seq<char>) -> ErrorV {
    ErrorV { message, code: None, path: None }
}

/// A message with its code.
pub open spec fn coded_refusal(code: Seq<char>, message: Seq<char>) -> ErrorV {
    ErrorV { message, code: Some(code), path: None }
}

/// A request that could have been written differently.
pub open spec fn validation_refusal(message: Seq<char>) -> ErrorV {
    coded_refusal("validation-failed"@, message)
}

impl Error {
    /// A message alone, whose code is left to be read from it.
    pub fn new(message: String) -> (r: Error)
        ensures
            r@ == plain_refusal(message@),
    {
        Error { message, code: None, path: None }
    }

    /// A copy of the error.
    pub fn copy(&self) -> (r: Error)
        ensures
            r@ == self@,
    {
        Error { message: self.message.clone(), code: copy_opt(&self.code), path: copy_opt(&self.path) }
    }
}

fn copy_opt(o: &Option<String>) -> (r: Option<String>)
    ensures
        text_opt(r) == text_opt(*o),
{
    match o {
        Some(s) => Some(s.clone()),
        None => None,
    }
}

/// An error carrying the code of its kind.
pub fn coded_error(code: &str, message: String) -> (r: Error)
    ensures
        r@ == coded_refusal(code@, message@),
{
    Error { message, code: Some(owned(code)), path: None }
}

/// A refusal the client could have avoided by writing the request differently.
pub fn validation_error(message: String) -> (r: Error)
    ensures
        r@ == validation_refusal(message@),
{
    coded_error("validation-failed", message)
}

/// The same error under another code.
pub fn at_code(error: Error, code: &str) -> (r: Error)
    ensures
        r@ == (ErrorV { code: Some(code@), ..error@ }),
{
    Error { message: error.message, code: Some(owned(code)), path: error.path }
}

/// The same error, told where in the request it happened.
pub fn at_path(error: Error, path: &str) -> (r: Error)
    ensures
        r@ == (ErrorV { path: Some(path@), ..error@ }),
{
    Error { message: error.message, code: error.code, path: Some(owned(path)) }
}

/// The heading an integrity violation is reported under, by its SQLSTATE.
pub open spec fn violation_heading(state: Option<Seq<char>>) -> Seq<char> {
    if state == Some("23505"@) {
        "Uniqueness violation. "@
    } else if state == Some("23502"@) {
        "Not-NULL violation. "@
    } else if state == Some("23503"@) {
        "Foreign key violation. "@
    } else if state == Some("23514"@) {
        "Check constraint violation. "@
    } else {
        ""@
    }
}

/// The code a SQLSTATE is answered with, where it decides one: class 23 is a
/// constraint, an unfinished escape is the request's own fault, and the rest
/// of class 22 is the data.
pub open spec fn state_code(state: Option<Seq<char>>) -> Option<Seq<char>> {
    match state {
        None => None,
        Some(s) => if crate::text::has_prefix(s, "23"@) {
            Some("constraint-violation"@)
        } else if s == "22025"@ {
            Some("bad-request"@)
        } else if crate::text::has_prefix(s, "22"@) {
            Some("data-exception"@)
        } else {
            None
        },
    }
}

/// A database's refusal, classified by its SQLSTATE and never by its words.
pub fn database_error(state: Option<&str>, message: &str) -> (r: Error)
    ensures
        r@ == (ErrorV {
            message: violation_heading(str_opt(state)) + message@,
            code: state_code(str_opt(state)),
            path: None,
        }),
{
    let heading: &str = match state {
        Some(s) => if same(s, "23505") {
            "Uniqueness violation. "
        } else if same(s, "23502") {
            "Not-NULL violation. "
        } else if same(s, "23503") {
            "Foreign key violation. "
        } else if same(s, "23514") {
            "Check constraint violation. "
        } else {
            ""
        },
        None => "",
    };
    let error = Error::new(cat2(heading, message));
    match state {
        Some(s) => if starts_with(s, "23") {
            at_code(error, "constraint-violation")
        } else if same(s, "22025") {
            at_code(error, "bad-request")
        } else if starts_with(s, "22") {
            at_code(error, "data-exception")
        } else {
            error
        },
        None => error,
    }
}

} // verus!

//! What a field answers out of the object it is a field of.

use crate::error::{Error, ErrorV};
use crate::json::{json_opt, json_ref, jsons, lemma_array_view, Json, JsonV, Number, NumberV};
use crate::json_path::{part_of, walk_json_path};
use crate::schema_def::Source;
use crate::text::str_opt;
use vstd::prelude::*;

verus! {

/// A value, or nothing where it is null.
pub open spec fn unless_null(value: Option<JsonV>) -> Option<JsonV> {
    match value {
        Some(JsonV::Null) => None,
        other => other,
    }
}

/// A list, or an empty one where there is none.
pub open spec fn list_in(value: Option<JsonV>) -> JsonV {
    match value {
        Some(JsonV::Array(items)) => JsonV::Array(items),
        _ => JsonV::Array(Seq::empty()),
    }
}

/// A value, or another where there is none.
pub open spec fn value_or(value: Option<JsonV>, otherwise: JsonV) -> JsonV {
    match value {
        Some(value) => value,
        None => otherwise,
    }
}

/// What a field answers out of its parent.
///
/// A null column answers nothing rather than a value to be resolved, and so
/// does a row that points at nothing. A count is read under the name it was
/// asked for, since two counts of one selection may count different things.
/// What answers a root is no part of its parent.
pub open spec fn answered(
    source: Source,
    name: Seq<char>,
    alias: Option<Seq<char>>,
    path: Option<Seq<char>>,
    parent: JsonV,
) -> Result<Option<JsonV>, ErrorV> {
    let own = parent.get(name);
    match source {
        Source::Column { path: true } => match (unless_null(own), path) {
            (Some(value), Some(path)) => match part_of(value, path) {
                Ok(part) => Ok(unless_null(Some(part))),
                Err(e) => Err(e),
            },
            (value, _) => Ok(value),
        },
        Source::Column { path: false } => Ok(unless_null(own)),
        Source::Related { list: false } => Ok(unless_null(own)),
        Source::Related { list: true } => Ok(own),
        Source::RelatedNumbers => Ok(Some(value_or(own, JsonV::Null))),
        Source::AffectedRows => Ok(Some(value_or(own, JsonV::Number(NumberV::Int(0))))),
        Source::Returning => Ok(Some(list_in(own))),
        Source::Nodes => Ok(Some(list_in(own))),
        Source::Numbers => Ok(unless_null(own)),
        Source::FunctionNumbers => Ok(unless_null(own)),
        Source::ColumnNumber => Ok(own),
        Source::Count => Ok(
            Some(
                value_or(
                    parent.get(
                        match alias {
                            Some(alias) => alias,
                            None => "count"@,
                        },
                    ),
                    JsonV::Number(NumberV::Int(0)),
                ),
            ),
        ),
        _ => Ok(None),
    }
}

/// What answering a field reports.
pub open spec fn answer_outcome(r: Result<Option<Json>, Error>) -> Result<Option<JsonV>, ErrorV> {
    match r {
        Ok(value) => Ok(json_opt(value)),
        Err(e) => Err(e@),
    }
}

fn copied(value: Option<&Json>) -> (r: Option<Json>)
    ensures
        json_opt(r) == json_ref(value),
{
    match value {
        Some(value) => Some(value.copy()),
        None => None,
    }
}

fn present(value: Option<&Json>) -> (r: Option<Json>)
    ensures
        json_opt(r) == unless_null(json_ref(value)),
{
    match value {
        Some(Json::Null) => None,
        Some(value) => Some(value.copy()),
        None => None,
    }
}

fn list_of(value: Option<&Json>) -> (r: Json)
    ensures
        r@ == list_in(json_ref(value)),
{
    match value {
        Some(Json::Array(items)) => {
            let list = crate::read::copy_jsons(items);
            proof {
                lemma_array_view(*items);
                lemma_array_view(list);
            }
            Json::Array(list)
        },
        _ => {
            let none: Vec<Json> = Vec::new();
            proof {
                lemma_array_view(none);
                assert(jsons(none@) =~= Seq::<JsonV>::empty());
            }
            Json::Array(none)
        },
    }
}

/// What a field answers out of its parent.
pub fn field_answer(
    source: Source,
    name: &str,
    alias: Option<&str>,
    path: Option<&str>,
    parent: &Json,
) -> (r: Result<Option<Json>, Error>)
    ensures
        answer_outcome(r) == answered(source, name@, str_opt(alias), str_opt(path), parent@),
{
    let own = parent.get(name);
    match source {
        Source::Column { path: takes_path } => {
            let value = match own {
                None => return Ok(None),
                Some(Json::Null) => return Ok(None),
                Some(value) => value,
            };
            match path {
                Some(path) => {
                    if !takes_path {
                        return Ok(Some(value.copy()));
                    }
                    match walk_json_path(value, path) {
                        Err(e) => Err(e),
                        Ok(Json::Null) => Ok(None),
                        Ok(part) => Ok(Some(part)),
                    }
                },
                None => Ok(Some(value.copy())),
            }
        },
        Source::Related { list } => if list {
            Ok(copied(own))
        } else {
            Ok(present(own))
        },
        Source::RelatedNumbers => match own {
            Some(value) => Ok(Some(value.copy())),
            None => Ok(Some(Json::Null)),
        },
        Source::AffectedRows => match own {
            Some(value) => Ok(Some(value.copy())),
            None => Ok(Some(Json::Number(Number::PosInt(0)))),
        },
        Source::Returning => Ok(Some(list_of(own))),
        Source::Nodes => Ok(Some(list_of(own))),
        Source::Numbers => Ok(present(own)),
        Source::FunctionNumbers => Ok(present(own)),
        Source::ColumnNumber => Ok(copied(own)),
        Source::Count => {
            let key = match alias {
                Some(alias) => alias,
                None => "count",
            };
            match parent.get(key) {
                Some(value) => Ok(Some(value.copy())),
                None => Ok(Some(Json::Number(Number::PosInt(0)))),
            }
        },
        _ => Ok(None),
    }
}

} // verus!

//! What a role's permissions say of a table, for the caller of one request.

use crate::error::{coded_error, coded_refusal, Error, ErrorV};
use crate::json::{entries_view, json_opt, lemma_object_view, Json, JsonV};
use crate::lookup::{find_qualified, qualified, Qualified};
use crate::text::{owned, same};
use vstd::prelude::*;

verus! {

/// What a caller wants to do with a table's rows.
#[derive(Clone, Copy, PartialEq, Eq, Structural)]
pub enum Verb {
    Select,
    Insert,
    Update,
    Delete,
}

/// Why a permission could not be applied.
pub struct Fault {
    pub code: String,
    pub message: String,
}

impl Fault {
    /// The refusal that a fault is answered with.
    pub open spec fn refusal(self) -> ErrorV {
        coded_refusal(self.code@, self.message@)
    }

    /// The refusal that a fault is answered with.
    pub fn to_error(&self) -> (r: Error)
        ensures
            r@ == self.refusal(),
    {
        coded_error(&self.code, self.message.clone())
    }
}

/// What one operation on one table is held to.
pub struct Rule {
    /// The rows it may reach: every row where there is no filter.
    pub filter: Result<Option<Json>, Fault>,
    /// What every row it writes must satisfy.
    pub check: Result<Option<Json>, Fault>,
    /// The columns it writes whatever the request says, and their values.
    pub presets: Result<Vec<(String, Json)>, Fault>,
    /// The most rows one read may return.
    pub limit: Option<i64>,
}

/// What the operations on one table are held to.
pub struct TableRules {
    pub schema: String,
    pub table: String,
    pub select: Rule,
    pub insert: Rule,
    pub update: Rule,
    pub delete: Rule,
}

impl Qualified for TableRules {
    open spec fn placed(&self) -> (Seq<char>, Seq<char>) {
        (self.schema@, self.table@)
    }

    fn is_at(&self, schema: &str, name: &str) -> (r: bool) {
        same(&self.schema, schema) && same(&self.table, name)
    }
}

/// Who is asking: the rules of each table, and the rule of every other.
pub struct Caller {
    pub tables: Vec<TableRules>,
    pub otherwise: Rule,
}

impl Caller {
    /// The rule an operation on a table is held to.
    pub open spec fn ruled(self, schema: Seq<char>, table: Seq<char>, verb: Verb) -> Rule {
        match qualified(self.tables@, schema, table) {
            None => self.otherwise,
            Some(rules) => match verb {
                Verb::Select => rules.select,
                Verb::Insert => rules.insert,
                Verb::Update => rules.update,
                Verb::Delete => rules.delete,
            },
        }
    }

    /// The rule an operation on a table is held to.
    pub fn rule(&self, schema: &str, table: &str, verb: Verb) -> (r: &Rule)
        ensures
            *r == self.ruled(schema@, table@, verb),
    {
        match find_qualified(&self.tables, schema, table) {
            None => &self.otherwise,
            Some(rules) => match verb {
                Verb::Select => &rules.select,
                Verb::Insert => &rules.insert,
                Verb::Update => &rules.update,
                Verb::Delete => &rules.delete,
            },
        }
    }
}

/// The key a permission's own predicate is wrapped in on its way to the
/// compiler, which marks it as the server's rather than the caller's. No
/// boolean expression a client can write has this field.
pub const PERMISSION: &'static str = "_permission";

/// A permission's predicate under the mark that makes it the server's.
pub open spec fn marked(predicate: JsonV) -> JsonV {
    JsonV::Object(seq![(PERMISSION@, predicate)])
}

/// The marked predicate of a rule's filter, if any.
pub open spec fn filter_of(rule: Rule) -> Result<Option<JsonV>, ErrorV> {
    match rule.filter {
        Ok(Some(predicate)) => Ok(Some(marked(predicate@))),
        Ok(None) => Ok(None),
        Err(fault) => Err(fault.refusal()),
    }
}

/// What a function that yields an optional predicate reports.
pub open spec fn predicate_outcome(r: Result<Option<Json>, Error>) -> Result<
    Option<JsonV>,
    ErrorV,
> {
    match r {
        Ok(predicate) => Ok(json_opt(predicate)),
        Err(e) => Err(e@),
    }
}

/// The predicate that an operation's permission adds, marked as the server's
/// own. `None` where nothing restricts it.
pub fn permission_filter(caller: &Caller, schema: &str, table: &str, verb: Verb) -> (r: Result<
    Option<Json>,
    Error,
>)
    ensures
        predicate_outcome(r) == filter_of(caller.ruled(schema@, table@, verb)),
{
    match &caller.rule(schema, table, verb).filter {
        Ok(Some(predicate)) => {
            let entries: Vec<(String, Json)> = vec![(owned(PERMISSION), predicate.copy())];
            proof {
                lemma_object_view(entries);
                assert(entries_view(entries@) =~= seq![(PERMISSION@, predicate@)]);
            }
            Ok(Some(Json::Object(entries)))
        },
        Ok(None) => Ok(None),
        Err(fault) => Err(fault.to_error()),
    }
}

/// The predicate a role's permission adds to every read of one table.
pub fn permission_predicate(caller: &Caller, schema: &str, table: &str) -> (r: Result<
    Option<Json>,
    Error,
>)
    ensures
        predicate_outcome(r) == filter_of(caller.ruled(schema@, table@, Verb::Select)),
{
    permission_filter(caller, schema, table, Verb::Select)
}

/// How many rows a permission lets one read return: a ceiling rather than a
/// default.
pub fn permission_limit(caller: &Caller, schema: &str, table: &str) -> (r: Option<i64>)
    ensures
        r == caller.ruled(schema@, table@, Verb::Select).limit,
{
    caller.rule(schema, table, Verb::Select).limit
}

/// Both predicates, as one.
pub open spec fn both(request: Option<JsonV>, permission: Option<JsonV>) -> Option<JsonV> {
    match (request, permission) {
        (None, None) => None,
        (Some(only), None) => Some(only),
        (None, Some(only)) => Some(only),
        (Some(r), Some(p)) => Some(
            JsonV::Object(seq![("_and"@, JsonV::Array(seq![r, p]))]),
        ),
    }
}

/// Both predicates, as one `_and`, so that parameters are numbered and
/// relationships resolved once for both halves.
pub fn and_predicates(request: Option<Json>, permission: Option<Json>) -> (r: Option<Json>)
    ensures
        json_opt(r) == both(json_opt(request), json_opt(permission)),
{
    match (request, permission) {
        (None, None) => None,
        (Some(only), None) => Some(only),
        (None, Some(only)) => Some(only),
        (Some(request), Some(permission)) => {
            let items: Vec<Json> = vec![request, permission];
            proof {
                crate::json::lemma_array_view(items);
                assert(crate::json::jsons(items@) =~= seq![request@, permission@]);
            }
            let entries: Vec<(String, Json)> = vec![(owned("_and"), Json::Array(items))];
            proof {
                lemma_object_view(entries);
                assert(entries_view(entries@) =~= seq![
                    ("_and"@, JsonV::Array(seq![request@, permission@])),
                ]);
            }
            Some(Json::Object(entries))
        },
    }
}

/// The table that an `_exists` predicate looks in: a name in the default
/// schema, or an object with a name and perhaps a schema.
pub open spec fn exists_table(spec: JsonV, default_schema: Seq<char>) -> Option<
    (Seq<char>, Seq<char>),
> {
    match spec.get("_table"@) {
        Some(JsonV::String(name)) => Some((default_schema, name)),
        Some(table) => match table.get("name"@) {
            Some(JsonV::String(name)) => match table.get("schema"@) {
                Some(JsonV::String(schema)) => Some((schema, name)),
                _ => Some((default_schema, name)),
            },
            _ => None,
        },
        None => None,
    }
}

/// The table that an `_exists` predicate looks in.
pub fn exists_target(spec: &Json, default_schema: &str) -> (r: Option<(String, String)>)
    ensures
        (match r {
            Some((schema, name)) => Some((schema@, name@)),
            None => None,
        }) == exists_table(spec@, default_schema@),
{
    match spec.get("_table") {
        Some(Json::String(name)) => Some((owned(default_schema), name.clone())),
        Some(table) => match table.get("name") {
            Some(Json::String(name)) => match table.get("schema") {
                Some(Json::String(schema)) => Some((schema.clone(), name.clone())),
                _ => Some((owned(default_schema), name.clone())),
            },
            _ => None,
        },
        None => None,
    }
}

} // verus!

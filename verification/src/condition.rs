//! Boolean expressions, as SQL.
//!
//! An expression is the JSON form of a `<table>_bool_exp`: fields mapped to
//! comparisons, relationships mapped to expressions over the other table, and
//! `_and`, `_or` and `_not` for structure. Nothing is dropped silently: a
//! comparison that is not known would widen the result if it were ignored, so
//! it is refused.

use crate::binds::{bind, binds, bound, following, next_number, placeholder, BindsV};
use crate::catalog::{EmbedPlan, RelationshipField};
use crate::comparison::{comparison, comparison_conditions, comparison_sql};
use crate::error::{plain_refusal, validation_error, validation_refusal, Error, ErrorV};
use crate::json::{
    entries_view, entry_of, json_ref, jsons, lemma_array_view, lemma_entry_of, lemma_no_entry,
    lemma_object_view, Json, JsonV,
};
use crate::role::{exists_table, exists_target, Verb, PERMISSION};
use crate::scope::{ScopeV, WhereScope};
use crate::text::{
    cat2, cat3, cat4, cat5, cat7, cat9, decimal, decimal_text, escape_ident, escape_ident2, ident,
    ident2, join, joined, no_texts, owned, push_text, same, str_opt, strip_suffix, stripped_suffix,
    text_opt, texts,
};
use vstd::prelude::*;

verus! {

/// The state of compiling an expression: what is bound, and the number of the
/// last alias that was given out.
#[verifier::ext_equal]
pub struct CursorV {
    pub binds: BindsV,
    pub aliases: usize,
}

/// An expression as SQL, if it constrains anything, and the state after it, or
/// the refusal and the state it was met in.
pub type ConditionV = Result<(Option<Seq<char>>, CursorV), (ErrorV, CursorV)>;

/// Several conditions and the state after them, or the refusal and the state it
/// was met in.
pub type ConditionsV = Result<(Seq<Seq<char>>, CursorV), (ErrorV, CursorV)>;

/// One condition and the state after it, or the refusal and the state it was
/// met in.
pub type TermV = Result<(Seq<char>, CursorV), (ErrorV, CursorV)>;

/// The state that its parts make.
pub open spec fn cursor(param_idx: usize, values: Seq<Json>, aliases: usize) -> CursorV {
    CursorV { binds: binds(param_idx, values), aliases }
}

/// One while a caller is still to be narrowed for, zero once it is not.
pub open spec fn rank(scope: ScopeV) -> nat {
    if scope.caller is Some {
        1
    } else {
        0
    }
}

/// The SQL operator behind a comparison of two columns.
pub open spec fn column_operator(op: Seq<char>) -> Option<Seq<char>> {
    if op == "_ceq"@ {
        Some("="@)
    } else if op == "_cne"@ {
        Some("<>"@)
    } else if op == "_cgt"@ {
        Some(">"@)
    } else if op == "_cgte"@ {
        Some(">="@)
    } else if op == "_clt"@ {
        Some("<"@)
    } else if op == "_clte"@ {
        Some("<="@)
    } else {
        None
    }
}

/// The SQL operator behind a column-to-column comparison, where this is one.
pub fn column_comparison(op: &str) -> (r: Option<&'static str>)
    ensures
        str_opt(r) == column_operator(op@),
{
    if same(op, "_ceq") {
        Some("=")
    } else if same(op, "_cne") {
        Some("<>")
    } else if same(op, "_cgt") {
        Some(">")
    } else if same(op, "_cgte") {
        Some(">=")
    } else if same(op, "_clt") {
        Some("<")
    } else if same(op, "_clte") {
        Some("<=")
    } else {
        None
    }
}

/// Where an object's entries hold a key: the first place, or past the end.
pub open spec fn place_of(entries: Seq<(Seq<char>, JsonV)>, key: Seq<char>, i: nat) -> nat
    decreases entries.len() - i,
{
    if i >= entries.len() {
        i
    } else if entries[i as int].0 == key {
        i
    } else {
        place_of(entries, key, i + 1)
    }
}

/// A key is found at its place, and nowhere else first.
pub proof fn lemma_place_of(entries: Seq<(Seq<char>, JsonV)>, key: Seq<char>)
    ensures
        place_of(entries, key, 0) < entries.len() ==> entry_of(entries, key) == Some(
            entries[place_of(entries, key, 0) as int].1,
        ),
        place_of(entries, key, 0) >= entries.len() ==> entry_of(entries, key) is None,
{
    lemma_place_range(entries, key, 0);
    let k = place_of(entries, key, 0);
    if k < entries.len() {
        lemma_entry_of(entries, key, k as int);
    } else {
        lemma_no_entry(entries, key);
    }
}

pub proof fn lemma_place_range(entries: Seq<(Seq<char>, JsonV)>, key: Seq<char>, i: nat)
    requires
        i <= entries.len(),
    ensures
        i <= place_of(entries, key, i) <= entries.len(),
        forall|j: int| i <= j < place_of(entries, key, i) ==> entries[j].0 != key,
        place_of(entries, key, i) < entries.len() ==> entries[place_of(
            entries,
            key,
            i,
        ) as int].0 == key,
    decreases entries.len() - i,
{
    if i < entries.len() && entries[i as int].0 != key {
        lemma_place_range(entries, key, i + 1);
    }
}

/// Where an object's entries hold a key, if they do.
pub fn position_of(entries: &Vec<(String, Json)>, key: &str) -> (r: Option<usize>)
    ensures
        match r {
            Some(i) => i < entries@.len() && i == place_of(entries_view(entries@), key@, 0),
            None => place_of(entries_view(entries@), key@, 0) == entries@.len(),
        },
{
    let mut i: usize = 0;
    while i < entries.len()
        invariant
            i <= entries.len(),
            place_of(entries_view(entries@), key@, 0) == place_of(
                entries_view(entries@),
                key@,
                i as nat,
            ),
        decreases entries.len() - i,
    {
        assert(entries_view(entries@)[i as int].0 == entries@[i as int].0@);
        if same(&entries[i].0, key) {
            return Some(i);
        }
        i += 1;
    }
    None
}

// ---------------------------------------------------------------------------
// Relationships
// ---------------------------------------------------------------------------

/// What a subselect over a relationship reads from: the table at the other
/// end, or the function of the parent row.
pub open spec fn source_of(plan: EmbedPlan, scope: ScopeV) -> Seq<char> {
    match plan.function {
        Some(function) => ident2(function.schema@, function.name@) + "("@ + scope.row_ref + ")"@,
        None => ident2(plan.foreign_schema@, plan.foreign_table@),
    }
}

/// The conditions that tie the rows of a relationship to the parent row: its
/// key columns, or none where the parent row is the function's argument.
pub open spec fn correlation_of(plan: EmbedPlan, scope: ScopeV, child: ScopeV) -> Seq<Seq<char>> {
    match plan.function {
        Some(_) => Seq::empty(),
        None => Seq::new(
            plan.columns@.len(),
            |i: int|
                scope.column(plan.columns@[i].0@) + " = "@ + child.column(plan.columns@[i].1@),
        ),
    }
}

/// Whether a relationship can be followed by a subselect: not through a
/// junction, and by a key or by a function.
pub open spec fn is_correlated(plan: EmbedPlan) -> bool {
    !(plan.junction || (plan.function is None && plan.columns@.len() == 0))
}

/// The scope inside a subselect over a relationship.
pub open spec fn child_of(
    scope: ScopeV,
    plan: EmbedPlan,
    alias: Seq<char>,
    field: RelationshipField,
) -> ScopeV {
    scope.entering(plan.foreign_schema@, plan.foreign_table@, alias, field.target_type@)
}

/// The alias of a kind with a number.
pub open spec fn alias_of(kind: Seq<char>, number: usize) -> Seq<char> {
    kind + decimal(number as nat)
}

fn numbered(kind: &str, number: usize) -> (r: String)
    ensures
        r@ == alias_of(kind@, number),
{
    cat2(kind, &decimal_text(number as u128))
}

fn source_sql(plan: &EmbedPlan, scope: &WhereScope<'_>) -> (r: String)
    ensures
        r@ == source_of(*plan, scope@),
{
    match &plan.function {
        Some(function) => cat4(
            &escape_ident2(&function.schema, &function.name),
            "(",
            &scope.row_ref,
            ")",
        ),
        None => escape_ident2(&plan.foreign_schema, &plan.foreign_table),
    }
}

fn correlation_sql(plan: &EmbedPlan, scope: &WhereScope<'_>, child: &WhereScope<'_>) -> (r: Vec<
    String,
>)
    ensures
        texts(r@) == correlation_of(*plan, scope@, child@),
{
    let mut parts = no_texts();
    if plan.function.is_some() {
        assert(texts(parts@) =~= correlation_of(*plan, scope@, child@));
        return parts;
    }
    let mut i: usize = 0;
    while i < plan.columns.len()
        invariant
            i <= plan.columns.len(),
            plan.function is None,
            texts(parts@) =~= correlation_of(*plan, scope@, child@).take(i as int),
        decreases plan.columns.len() - i,
    {
        let pair = &plan.columns[i];
        push_text(&mut parts, cat3(&scope.column(&pair.0), " = ", &child.column(&pair.1)));
        i += 1;
    }
    parts
}

/// Whether a key of an expression asks about an aggregate of a related list.
pub open spec fn aggregated(scope: ScopeV, key: Seq<char>) -> Option<(Seq<char>, RelationshipField)> {
    if scope.column_type(key) is Some {
        None
    } else {
        match stripped_suffix(key, "_aggregate"@) {
            Some(name) => match scope.relationship(name) {
                Some((name, field)) => if field.is_list {
                    Some((name, field))
                } else {
                    None
                },
                None => None,
            },
            None => None,
        }
    }
}

/// Conditions joined by `AND`; none at all constrain nothing.
pub open spec fn conjunction(parts: Seq<Seq<char>>) -> Option<Seq<char>> {
    if parts.len() == 0 {
        None
    } else {
        Some(joined(parts, " AND "@))
    }
}

/// The parts, with one more where there is one, in brackets.
pub open spec fn with_bracketed(parts: Seq<Seq<char>>, more: Option<Seq<char>>) -> Seq<Seq<char>> {
    match more {
        Some(sql) => parts.push("("@ + sql + ")"@),
        None => parts,
    }
}

/// The parts as one condition, `true` where there are none.
pub open spec fn or_true(parts: Seq<Seq<char>>) -> Seq<char> {
    if parts.len() == 0 {
        joined(parts.push("true"@), " AND "@)
    } else {
        joined(parts, " AND "@)
    }
}

/// What an aggregate of a related list is counted or folded over, and the
/// type it is compared as.
pub open spec fn aggregate_of(
    name: Seq<char>,
    function: Seq<char>,
    spec: JsonV,
    child: ScopeV,
) -> Result<(Seq<char>, Seq<char>), ErrorV> {
    let arguments = spec.present("arguments"@);
    if function == "count"@ {
        let columns = match arguments {
            Some(JsonV::Array(items)) => named_columns(items, 0, child, Seq::empty()),
            Some(JsonV::String(one)) => seq![child.column(one)],
            _ => Seq::<Seq<char>>::empty(),
        };
        let counted = counted_columns(columns);
        let distinct = spec.get("distinct"@) == Some(JsonV::Bool(true)) && counted != "*"@;
        Ok(
            (
                if distinct {
                    "count("@ + ("DISTINCT "@ + counted) + ")"@
                } else {
                    "count("@ + counted + ")"@
                },
                "integer"@,
            ),
        )
    } else if function == "bool_and"@ || function == "bool_or"@ {
        match arguments {
            Some(JsonV::String(column)) => Ok(
                (function + "("@ + child.column(column) + ")"@, "boolean"@),
            ),
            _ => Err(
                validation_refusal(
                    "\""@ + function + "\" over \""@ + name + "\" needs the column to fold"@,
                ),
            ),
        }
    } else {
        Err(
            validation_refusal(
                "\""@ + function + "\" is not an aggregate a predicate can be written over"@,
            ),
        )
    }
}

/// The columns that the strings of a list name, from the `i`th item on.
pub open spec fn named_columns(
    items: Seq<JsonV>,
    i: nat,
    child: ScopeV,
    columns: Seq<Seq<char>>,
) -> Seq<Seq<char>>
    decreases items.len() - i,
{
    if i >= items.len() {
        columns
    } else {
        match items[i as int] {
            JsonV::String(name) => named_columns(
                items,
                i + 1,
                child,
                columns.push(child.column(name)),
            ),
            _ => named_columns(items, i + 1, child, columns),
        }
    }
}

/// What a count counts: rows, a column, or the row several columns make.
pub open spec fn counted_columns(columns: Seq<Seq<char>>) -> Seq<char> {
    if columns.len() == 0 {
        "*"@
    } else if columns.len() == 1 {
        columns[0]
    } else {
        "("@ + joined(columns, ", "@) + ")"@
    }
}

// ---------------------------------------------------------------------------
// Expressions
// ---------------------------------------------------------------------------

/// One boolean expression, as SQL: its conditions, all of which have to hold.
pub open spec fn condition(value: JsonV, scope: ScopeV, at: CursorV) -> ConditionV
    decreases rank(scope), value, 1nat,
{
    match value {
        JsonV::Object(entries) => match entries_from(entries, 0, scope, Seq::empty(), at) {
            Ok((parts, end)) => Ok((conjunction(parts), end)),
            Err(e) => Err(e),
        },
        _ => Ok((None, at)),
    }
}

/// The conditions of the entries from the `i`th on, after those in `parts`.
pub open spec fn entries_from(
    entries: Seq<(Seq<char>, JsonV)>,
    i: nat,
    scope: ScopeV,
    parts: Seq<Seq<char>>,
    at: CursorV,
) -> ConditionsV
    decreases rank(scope), entries, entries.len() - i,
{
    if i >= entries.len() {
        Ok((parts, at))
    } else {
        match entry_condition(entries[i as int].0, entries[i as int].1, scope, parts, at) {
            Ok((more, mid)) => entries_from(entries, i + 1, scope, more, mid),
            Err(e) => Err(e),
        }
    }
}

/// The conditions with that of one more entry.
pub open spec fn entry_condition(
    key: Seq<char>,
    value: JsonV,
    scope: ScopeV,
    parts: Seq<Seq<char>>,
    at: CursorV,
) -> ConditionsV
    decreases rank(scope), value, 3nat,
{
    if key == "_and"@ || key == "_or"@ {
        // An empty `_and` is true and an empty `_or` is false.
        match value {
            JsonV::Array(members) => match members_from(members, 0, scope, Seq::empty(), at) {
                Ok((inner, end)) => if inner.len() == 0 {
                    Ok((if key == "_or"@ { parts.push("false"@) } else { parts }, end))
                } else {
                    let joiner = if key == "_and"@ { " AND "@ } else { " OR "@ };
                    Ok((parts.push("("@ + joined(inner, joiner) + ")"@), end))
                },
                Err(e) => Err(e),
            },
            _ => Err((plain_refusal("\""@ + key + "\" takes a list of expressions"@), at)),
        }
    } else if key == "_not"@ {
        match condition(value, scope, at) {
            Ok((Some(sql), end)) => Ok((parts.push("NOT ("@ + sql + ")"@), end)),
            Ok((None, end)) => Ok((parts, end)),
            Err(e) => Err(e),
        }
    } else if key == PERMISSION@ {
        // A permission's own predicate is the server's.
        match condition(value, scope.system(), at) {
            Ok((Some(sql), end)) => Ok((parts.push(sql), end)),
            Ok((None, end)) => Ok((parts, end)),
            Err(e) => Err(e),
        }
    } else if key == "_exists"@ {
        match table_exists(value, scope, at) {
            Ok((sql, end)) => Ok((parts.push(sql), end)),
            Err(e) => Err(e),
        }
    } else if scope.relationship(key) is Some {
        let (name, field) = scope.relationship(key)->0;
        match related_exists(name, field, value, scope, at) {
            Ok((sql, end)) => Ok((parts.push(sql), end)),
            Err(e) => Err(e),
        }
    } else if aggregated(scope, key) is Some {
        let (name, field) = aggregated(scope, key)->0;
        match aggregate_predicate(name, field, value, scope, at) {
            Ok((sql, end)) => Ok((parts.push(sql), end)),
            Err(e) => Err(e),
        }
    } else {
        match value {
            JsonV::Object(ops) => operators_from(ops, 0, key, scope, parts, at),
            other => Ok(
                (
                    parts.push(scope.column(key) + " = "@ + placeholder(at.binds)),
                    CursorV { binds: bound(at.binds, other), aliases: at.aliases },
                ),
            ),
        }
    }
}

/// The conditions of the members of a list from the `i`th on, after those in
/// `parts`.
pub open spec fn members_from(
    members: Seq<JsonV>,
    i: nat,
    scope: ScopeV,
    parts: Seq<Seq<char>>,
    at: CursorV,
) -> ConditionsV
    decreases rank(scope), members, members.len() - i,
{
    if i >= members.len() {
        Ok((parts, at))
    } else {
        match condition(members[i as int], scope, at) {
            Ok((Some(sql), mid)) => members_from(members, i + 1, scope, parts.push(sql), mid),
            Ok((None, mid)) => members_from(members, i + 1, scope, parts, mid),
            Err(e) => Err(e),
        }
    }
}

/// The conditions of the comparisons on one field from the `i`th on, after
/// those in `parts`.
pub open spec fn operators_from(
    ops: Seq<(Seq<char>, JsonV)>,
    i: nat,
    key: Seq<char>,
    scope: ScopeV,
    parts: Seq<Seq<char>>,
    at: CursorV,
) -> ConditionsV
    decreases 0nat, ops, ops.len() - i,
{
    if i >= ops.len() {
        Ok((parts, at))
    } else {
        let (op, operand) = ops[i as int];
        match column_operator(op) {
            Some(operator) => match scope.other_column(operand, op) {
                Ok(other) => operators_from(
                    ops,
                    i + 1,
                    key,
                    scope,
                    parts.push(scope.column(key) + " "@ + operator + " "@ + other),
                    at,
                ),
                Err(e) => Err((e, at)),
            },
            None => match comparison(
                scope.words,
                scope.column(key),
                key,
                scope.column_type(key),
                op,
                operand,
                at.binds,
            ) {
                Ok((sql, end)) => operators_from(
                    ops,
                    i + 1,
                    key,
                    scope,
                    parts.push(sql),
                    CursorV { binds: end, aliases: at.aliases },
                ),
                Err((e, end)) => Err((e, CursorV { binds: end, aliases: at.aliases })),
            },
        }
    }
}

/// A predicate over a relationship, as a correlated `EXISTS`. The far side's
/// own permission narrows it as it narrows a read of the same table.
pub open spec fn related_exists(
    name: Seq<char>,
    field: RelationshipField,
    value: JsonV,
    scope: ScopeV,
    at: CursorV,
) -> TermV
    decreases rank(scope), value, 2nat,
{
    if scope.resolution is None {
        Err(
            (
                plain_refusal(
                    "filtering on the relationship \""@ + name + "\" is not available here"@,
                ),
                at,
            ),
        )
    } else {
        match field.relationship.plan {
            Err(message) => Err((plain_refusal(message@), at)),
            Ok(plan) => if !is_correlated(plan) {
                Err(
                    (
                        plain_refusal(
                            "filtering on \""@ + name
                                + "\" is not supported: it is reached through a junction rather than by a key"@,
                        ),
                        at,
                    ),
                )
            } else {
                let number = following(at.aliases);
                let alias = alias_of("pgrst_rel_"@, number);
                let child = child_of(scope, plan, alias, field);
                match condition(value, child, CursorV { binds: at.binds, aliases: number }) {
                    Err(e) => Err(e),
                    Ok((asked, mid)) => {
                        let parts = with_bracketed(correlation_of(plan, scope, child), asked);
                        // The far side's permission is the server's own.
                        let narrowed = match child.caller {
                            None => Ok((None, mid)),
                            Some(caller) => match caller.ruled(
                                plan.foreign_schema@,
                                plan.foreign_table@,
                                Verb::Select,
                            ).filter {
                                Err(fault) => Err((fault.refusal(), mid)),
                                Ok(None) => Ok((None, mid)),
                                Ok(Some(predicate)) => condition(predicate@, child.system(), mid),
                            },
                        };
                        match narrowed {
                            Err(e) => Err(e),
                            Ok((granted, end)) => Ok(
                                (
                                    "EXISTS (SELECT 1 FROM "@ + source_of(plan, scope) + " AS "@
                                        + ident(alias) + " WHERE "@ + or_true(
                                        with_bracketed(parts, granted),
                                    ) + ")"@,
                                    end,
                                ),
                            ),
                        }
                    },
                }
            },
        }
    }
}

/// `_exists`: whether a row is there in a table that nothing relates to this
/// one. It is correlated with nothing, and no caller narrows it.
pub open spec fn table_exists(spec: JsonV, scope: ScopeV, at: CursorV) -> TermV
    decreases rank(scope), spec, 2nat,
{
    match exists_table(spec, scope.qualified.0) {
        None => Err((plain_refusal("\"_exists\" needs a \"_table\" to look in"@), at)),
        Some((schema, table)) => if (match scope.resolution {
            Some((cache, _)) => cache.table(schema, table) is None,
            None => false,
        }) {
            Err(
                (
                    plain_refusal(
                        "\"_exists\" names a table this server does not have: \""@ + schema + "."@
                            + table + "\""@,
                    ),
                    at,
                ),
            )
        } else {
            let number = following(at.aliases);
            let alias = alias_of("pgrst_exists_"@, number);
            let typename = match scope.names.base(schema, table) {
                Some(name) => name,
                None => table,
            };
            let inner = ScopeV {
                caller: None,
                ..scope.entering(schema, table, alias, typename)
            };
            let start = CursorV { binds: at.binds, aliases: number };
            let k = place_of(spec.entries(), "_where"@, 0);
            let asked = if spec is Object && k < spec->Object_0.len() {
                condition(spec->Object_0[k as int].1, inner, start)
            } else {
                Ok((None, start))
            };
            match asked {
                Err(e) => Err(e),
                Ok((sql, end)) => Ok(
                    (
                        "EXISTS (SELECT 1 FROM "@ + ident2(schema, table) + " AS "@ + ident(alias)
                            + " WHERE "@ + (match sql {
                            Some(sql) => sql,
                            None => "true"@,
                        }) + ")"@,
                        end,
                    ),
                ),
            }
        },
    }
}

/// A predicate over an aggregate of a related set, as a correlated scalar
/// subselect compared the way a column is.
pub open spec fn aggregate_predicate(
    name: Seq<char>,
    field: RelationshipField,
    value: JsonV,
    scope: ScopeV,
    at: CursorV,
) -> TermV
    decreases rank(scope), value, 2nat,
{
    match value {
        JsonV::Object(over) => if scope.resolution is None {
            Err(
                (
                    plain_refusal(
                        "filtering on the relationship \""@ + name + "\" is not available here"@,
                    ),
                    at,
                ),
            )
        } else {
            match field.relationship.plan {
                Err(message) => Err((plain_refusal(message@), at)),
                Ok(plan) => if !is_correlated(plan) {
                    Err(
                        (
                            plain_refusal(
                                "aggregating over \""@ + name
                                    + "\" is not supported: it is reached through a junction rather than by a key"@,
                            ),
                            at,
                        ),
                    )
                } else {
                    match aggregates_from(over, 0, name, field, plan, scope, Seq::empty(), at) {
                        Ok((parts, end)) => Ok(
                            (
                                if parts.len() == 0 {
                                    "true"@
                                } else {
                                    "("@ + joined(parts, " AND "@) + ")"@
                                },
                                end,
                            ),
                        ),
                        Err(e) => Err(e),
                    }
                },
            }
        },
        _ => Ok(("true"@, at)),
    }
}

/// The conditions of the aggregates from the `i`th on, after those in
/// `parts`.
pub open spec fn aggregates_from(
    over: Seq<(Seq<char>, JsonV)>,
    i: nat,
    name: Seq<char>,
    field: RelationshipField,
    plan: EmbedPlan,
    scope: ScopeV,
    parts: Seq<Seq<char>>,
    at: CursorV,
) -> ConditionsV
    decreases rank(scope), over, over.len() - i,
{
    if i >= over.len() {
        Ok((parts, at))
    } else {
        match over[i as int].1 {
            JsonV::Object(spec) => match aggregate_condition(
                over[i as int].0,
                spec,
                name,
                field,
                plan,
                scope,
                parts,
                at,
            ) {
                Ok((more, mid)) => aggregates_from(
                    over,
                    i + 1,
                    name,
                    field,
                    plan,
                    scope,
                    more,
                    mid,
                ),
                Err(e) => Err(e),
            },
            _ => aggregates_from(over, i + 1, name, field, plan, scope, parts, at),
        }
    }
}

/// The conditions with those on one more aggregate.
pub open spec fn aggregate_condition(
    function: Seq<char>,
    spec: Seq<(Seq<char>, JsonV)>,
    name: Seq<char>,
    field: RelationshipField,
    plan: EmbedPlan,
    scope: ScopeV,
    parts: Seq<Seq<char>>,
    at: CursorV,
) -> ConditionsV
    decreases rank(scope), spec, 0nat,
{
    let document = JsonV::Object(spec);
    match document.present("predicate"@) {
        None => Err(
            (
                validation_refusal(
                    "\""@ + function + "\" over \""@ + name + "\" needs a predicate"@,
                ),
                at,
            ),
        ),
        Some(predicate) => {
            let number = following(at.aliases);
            let alias = alias_of("pgrst_agg_"@, number);
            let child = child_of(scope, plan, alias, field);
            let start = CursorV { binds: at.binds, aliases: number };
            let k = place_of(spec, "filter"@, 0);
            let asked = if k < spec.len() && !(spec[k as int].1 is Null) {
                condition(spec[k as int].1, child, start)
            } else {
                Ok((None, start))
            };
            match asked {
                Err(e) => Err(e),
                Ok((filter, mid)) => match aggregate_of(name, function, document, child) {
                    Err(e) => Err((e, mid)),
                    Ok((aggregate, operand_type)) => {
                        let subselect = "(SELECT "@ + aggregate + " FROM "@ + source_of(
                            plan,
                            scope,
                        ) + " AS "@ + ident(alias) + " WHERE "@ + or_true(
                            with_bracketed(correlation_of(plan, scope, child), filter),
                        ) + ")"@;
                        match predicate {
                            JsonV::Object(operators) => match crate::comparison::comparisons_from(
                                scope.words,
                                subselect,
                                function,
                                Some(operand_type),
                                operators,
                                0,
                                parts,
                                mid.binds,
                            ) {
                                Ok((more, end)) => Ok(
                                    (more, CursorV { binds: end, aliases: mid.aliases }),
                                ),
                                Err((e, _, end)) => Err(
                                    (e, CursorV { binds: end, aliases: mid.aliases }),
                                ),
                            },
                            _ => Err(
                                (
                                    validation_refusal(
                                        "the predicate on \""@ + function
                                            + "\" is not a comparison"@,
                                    ),
                                    mid,
                                ),
                            ),
                        }
                    },
                },
            }
        },
    }
}

// ---------------------------------------------------------------------------
// Compiling
// ---------------------------------------------------------------------------

/// What compiling an expression reports.
pub open spec fn condition_outcome(
    r: Result<Option<String>, Error>,
    param_idx: usize,
    values: Seq<Json>,
    aliases: usize,
) -> ConditionV {
    match r {
        Ok(sql) => Ok((text_opt(sql), cursor(param_idx, values, aliases))),
        Err(e) => Err((e@, cursor(param_idx, values, aliases))),
    }
}

/// What compiling several conditions reports.
pub open spec fn conditions_outcome(
    r: Result<(), Error>,
    parts: Seq<String>,
    param_idx: usize,
    values: Seq<Json>,
    aliases: usize,
) -> ConditionsV {
    match r {
        Ok(_) => Ok((texts(parts), cursor(param_idx, values, aliases))),
        Err(e) => Err((e@, cursor(param_idx, values, aliases))),
    }
}

/// What compiling one condition reports.
pub open spec fn term_outcome(
    r: Result<String, Error>,
    param_idx: usize,
    values: Seq<Json>,
    aliases: usize,
) -> TermV {
    match r {
        Ok(sql) => Ok((sql@, cursor(param_idx, values, aliases))),
        Err(e) => Err((e@, cursor(param_idx, values, aliases))),
    }
}

/// One boolean expression, as SQL. `None` where it constrains nothing.
pub fn build_condition(
    value: &Json,
    scope: &WhereScope<'_>,
    param_idx: &mut usize,
    values: &mut Vec<Json>,
    alias_counter: &mut usize,
) -> (r: Result<Option<String>, Error>)
    ensures
        condition_outcome(r, *final(param_idx), final(values)@, *final(alias_counter))
            == condition(
            value@,
            scope@,
            cursor(*old(param_idx), old(values)@, *old(alias_counter)),
        ),
    decreases rank(scope@), value, 1nat,
{
    match value {
        Json::Object(entries) => {
            proof {
                lemma_object_view(*entries);
            }
            let mut parts = no_texts();
            match entry_conditions(entries, scope, &mut parts, param_idx, values, alias_counter) {
                Ok(_) => if parts.len() == 0 {
                    Ok(None)
                } else {
                    Ok(Some(join(&parts, " AND ")))
                },
                Err(e) => Err(e),
            }
        },
        _ => Ok(None),
    }
}

fn entry_conditions(
    entries: &Vec<(String, Json)>,
    scope: &WhereScope<'_>,
    parts: &mut Vec<String>,
    param_idx: &mut usize,
    values: &mut Vec<Json>,
    alias_counter: &mut usize,
) -> (r: Result<(), Error>)
    ensures
        conditions_outcome(r, final(parts)@, *final(param_idx), final(values)@, *final(alias_counter))
            == entries_from(
            entries_view(entries@),
            0,
            scope@,
            texts(old(parts)@),
            cursor(*old(param_idx), old(values)@, *old(alias_counter)),
        ),
    decreases rank(scope@), entries, 0nat,
{
    let mut i: usize = 0;
    while i < entries.len()
        invariant
            i <= entries.len(),
            entries_from(
                entries_view(entries@),
                0,
                scope@,
                texts(old(parts)@),
                cursor(*old(param_idx), old(values)@, *old(alias_counter)),
            ) == entries_from(
                entries_view(entries@),
                i as nat,
                scope@,
                texts(parts@),
                cursor(*param_idx, values@, *alias_counter),
            ),
        decreases entries.len() - i,
    {
        assert(decreases_to!(*entries => entries@[i as int]));
        assert(entries_view(entries@)[i as int] == (entries@[i as int].0@, entries@[i as int].1@));
        match add_entry(
            &entries[i].0,
            &entries[i].1,
            scope,
            parts,
            param_idx,
            values,
            alias_counter,
        ) {
            Ok(_) => {},
            Err(e) => return Err(e),
        }
        i += 1;
    }
    Ok(())
}

fn add_entry(
    key: &str,
    value: &Json,
    scope: &WhereScope<'_>,
    parts: &mut Vec<String>,
    param_idx: &mut usize,
    values: &mut Vec<Json>,
    alias_counter: &mut usize,
) -> (r: Result<(), Error>)
    ensures
        conditions_outcome(r, final(parts)@, *final(param_idx), final(values)@, *final(alias_counter))
            == entry_condition(
            key@,
            value@,
            scope@,
            texts(old(parts)@),
            cursor(*old(param_idx), old(values)@, *old(alias_counter)),
        ),
    decreases rank(scope@), value, 3nat,
{
    if same(key, "_and") || same(key, "_or") {
        match value {
            Json::Array(members) => {
                proof {
                    lemma_array_view(*members);
                }
                let mut inner = no_texts();
                match member_conditions(
                    members,
                    scope,
                    &mut inner,
                    param_idx,
                    values,
                    alias_counter,
                ) {
                    Ok(_) => {},
                    Err(e) => return Err(e),
                }
                if inner.len() == 0 {
                    if same(key, "_or") {
                        push_text(parts, owned("false"));
                    }
                } else {
                    let joiner: &str = if same(key, "_and") { " AND " } else { " OR " };
                    push_text(parts, cat3("(", &join(&inner, joiner), ")"));
                }
                Ok(())
            },
            _ => Err(Error::new(cat3("\"", key, "\" takes a list of expressions"))),
        }
    } else if same(key, "_not") {
        match build_condition(value, scope, param_idx, values, alias_counter) {
            Ok(Some(sql)) => {
                push_text(parts, cat3("NOT (", &sql, ")"));
                Ok(())
            },
            Ok(None) => Ok(()),
            Err(e) => Err(e),
        }
    } else if same(key, PERMISSION) {
        let system = scope.as_system();
        match build_condition(value, &system, param_idx, values, alias_counter) {
            Ok(Some(sql)) => {
                push_text(parts, sql);
                Ok(())
            },
            Ok(None) => Ok(()),
            Err(e) => Err(e),
        }
    } else if same(key, "_exists") {
        match table_exists_sql(value, scope, param_idx, values, alias_counter) {
            Ok(sql) => {
                push_text(parts, sql);
                Ok(())
            },
            Err(e) => Err(e),
        }
    } else if let Some(related) = scope.relationship(key) {
        match exists_sql(
            &related.name,
            related.field,
            value,
            scope,
            param_idx,
            values,
            alias_counter,
        ) {
            Ok(sql) => {
                push_text(parts, sql);
                Ok(())
            },
            Err(e) => Err(e),
        }
    } else if let Some((name, field)) = aggregate_relationship(key, scope) {
        match aggregate_predicate_sql(
            &name,
            field,
            value,
            scope,
            param_idx,
            values,
            alias_counter,
        ) {
            Ok(sql) => {
                push_text(parts, sql);
                Ok(())
            },
            Err(e) => Err(e),
        }
    } else {
        match value {
            Json::Object(ops) => {
                proof {
                    lemma_object_view(*ops);
                }
                operator_conditions(ops, key, scope, parts, param_idx, values, *alias_counter)
            },
            _ => {
                let text = bind(param_idx, values, value.copy());
                push_text(parts, cat3(&scope.column(key), " = ", &text));
                Ok(())
            },
        }
    }
}

fn aggregate_relationship<'a>(key: &str, scope: &WhereScope<'a>) -> (r: Option<
    (String, &'a RelationshipField),
>)
    ensures
        (match r {
            Some((name, field)) => Some((name@, *field)),
            None => None,
        }) == aggregated(scope@, key@),
{
    if scope.column_type(key).is_some() {
        return None;
    }
    match strip_suffix(key, "_aggregate") {
        Some(name) => match scope.relationship(name) {
            Some(related) => if related.field.is_list {
                Some((related.name, related.field))
            } else {
                None
            },
            None => None,
        },
        None => None,
    }
}

fn member_conditions(
    members: &Vec<Json>,
    scope: &WhereScope<'_>,
    parts: &mut Vec<String>,
    param_idx: &mut usize,
    values: &mut Vec<Json>,
    alias_counter: &mut usize,
) -> (r: Result<(), Error>)
    ensures
        conditions_outcome(r, final(parts)@, *final(param_idx), final(values)@, *final(alias_counter))
            == members_from(
            jsons(members@),
            0,
            scope@,
            texts(old(parts)@),
            cursor(*old(param_idx), old(values)@, *old(alias_counter)),
        ),
    decreases rank(scope@), members, 0nat,
{
    let mut i: usize = 0;
    while i < members.len()
        invariant
            i <= members.len(),
            members_from(
                jsons(members@),
                0,
                scope@,
                texts(old(parts)@),
                cursor(*old(param_idx), old(values)@, *old(alias_counter)),
            ) == members_from(
                jsons(members@),
                i as nat,
                scope@,
                texts(parts@),
                cursor(*param_idx, values@, *alias_counter),
            ),
        decreases members.len() - i,
    {
        assert(decreases_to!(*members => members@[i as int]));
        assert(jsons(members@)[i as int] == members@[i as int]@);
        match build_condition(&members[i], scope, param_idx, values, alias_counter) {
            Ok(Some(sql)) => push_text(parts, sql),
            Ok(None) => {},
            Err(e) => return Err(e),
        }
        i += 1;
    }
    Ok(())
}

fn operator_conditions(
    ops: &Vec<(String, Json)>,
    key: &str,
    scope: &WhereScope<'_>,
    parts: &mut Vec<String>,
    param_idx: &mut usize,
    values: &mut Vec<Json>,
    aliases: usize,
) -> (r: Result<(), Error>)
    ensures
        conditions_outcome(r, final(parts)@, *final(param_idx), final(values)@, aliases)
            == operators_from(
            entries_view(ops@),
            0,
            key@,
            scope@,
            texts(old(parts)@),
            cursor(*old(param_idx), old(values)@, aliases),
        ),
{
    let quoted = scope.column(key);
    let column_type = scope.column_type(key);
    let mut i: usize = 0;
    while i < ops.len()
        invariant
            i <= ops.len(),
            quoted@ == scope@.column(key@),
            text_opt(column_type) == scope@.column_type(key@),
            operators_from(
                entries_view(ops@),
                0,
                key@,
                scope@,
                texts(old(parts)@),
                cursor(*old(param_idx), old(values)@, aliases),
            ) == operators_from(
                entries_view(ops@),
                i as nat,
                key@,
                scope@,
                texts(parts@),
                cursor(*param_idx, values@, aliases),
            ),
        decreases ops.len() - i,
    {
        assert(entries_view(ops@)[i as int] == (ops@[i as int].0@, ops@[i as int].1@));
        if let Some(operator) = column_comparison(&ops[i].0) {
            match scope.other_column(&ops[i].1, &ops[i].0) {
                Ok(other) => push_text(parts, cat5(&quoted, " ", operator, " ", &other)),
                Err(e) => return Err(e),
            }
        } else {
            let pg_type: Option<&str> = match &column_type {
                Some(t) => Some(t.as_str()),
                None => None,
            };
            match comparison_sql(
                scope.words,
                &quoted,
                key,
                pg_type,
                &ops[i].0,
                &ops[i].1,
                param_idx,
                values,
            ) {
                Ok(sql) => push_text(parts, sql),
                Err(e) => return Err(e),
            }
        }
        i += 1;
    }
    Ok(())
}

fn add_bracketed(parts: &mut Vec<String>, more: Option<String>)
    ensures
        texts(final(parts)@) == with_bracketed(texts(old(parts)@), text_opt(more)),
{
    if let Some(sql) = more {
        push_text(parts, cat3("(", &sql, ")"));
    }
}

fn join_or_true(parts: &mut Vec<String>) -> (r: String)
    ensures
        r@ == or_true(texts(old(parts)@)),
{
    if parts.len() == 0 {
        push_text(parts, owned("true"));
    }
    join(parts, " AND ")
}

/// A predicate over a relationship, as a correlated `EXISTS`.
///
/// Only a plain key join and a function of the row are expressible this way.
/// A junction needs more than a pair of columns to correlate on, and is
/// refused: read as constraining nothing it would return every parent row.
pub fn exists_sql(
    name: &str,
    field: &RelationshipField,
    child_expression: &Json,
    scope: &WhereScope<'_>,
    param_idx: &mut usize,
    values: &mut Vec<Json>,
    alias_counter: &mut usize,
) -> (r: Result<String, Error>)
    ensures
        term_outcome(r, *final(param_idx), final(values)@, *final(alias_counter))
            == related_exists(
            name@,
            *field,
            child_expression@,
            scope@,
            cursor(*old(param_idx), old(values)@, *old(alias_counter)),
        ),
    decreases rank(scope@), child_expression, 2nat,
{
    if scope.resolution.is_none() {
        return Err(
            Error::new(
                cat3("filtering on the relationship \"", name, "\" is not available here"),
            ),
        );
    }
    let plan = match &field.relationship.plan {
        Ok(plan) => plan,
        Err(message) => return Err(Error::new(message.clone())),
    };
    if plan.junction || (plan.function.is_none() && plan.columns.len() == 0) {
        return Err(
            Error::new(
                cat3(
                    "filtering on \"",
                    name,
                    "\" is not supported: it is reached through a junction rather than by a key",
                ),
            ),
        );
    }
    *alias_counter = next_number(*alias_counter);
    let alias = numbered("pgrst_rel_", *alias_counter);
    let child = WhereScope::aliased(
        &plan.foreign_schema,
        &plan.foreign_table,
        &alias,
        &field.target_type,
        scope,
    );
    let mut correlation = correlation_sql(plan, scope, &child);
    match build_condition(child_expression, &child, param_idx, values, alias_counter) {
        Ok(asked) => add_bracketed(&mut correlation, asked),
        Err(e) => return Err(e),
    }
    if let Some(caller) = child.caller {
        match &caller.rule(&plan.foreign_schema, &plan.foreign_table, Verb::Select).filter {
            Err(fault) => return Err(fault.to_error()),
            Ok(None) => {},
            Ok(Some(predicate)) => {
                let system = child.as_system();
                match build_condition(predicate, &system, param_idx, values, alias_counter) {
                    Ok(granted) => add_bracketed(&mut correlation, granted),
                    Err(e) => return Err(e),
                }
            },
        }
    }
    let wanted = join_or_true(&mut correlation);
    Ok(
        cat7(
            "EXISTS (SELECT 1 FROM ",
            &source_sql(plan, scope),
            " AS ",
            &escape_ident(&alias),
            " WHERE ",
            &wanted,
            ")",
        ),
    )
}

/// `_exists`, the predicate only a permission can write, as SQL: whether a
/// row is there in another table, correlated with nothing. The caller's own
/// permissions are not applied inside it, since the point of it is to consult
/// a table the role has no access to.
pub fn table_exists_sql(
    spec: &Json,
    scope: &WhereScope<'_>,
    param_idx: &mut usize,
    values: &mut Vec<Json>,
    alias_counter: &mut usize,
) -> (r: Result<String, Error>)
    ensures
        term_outcome(r, *final(param_idx), final(values)@, *final(alias_counter)) == table_exists(
            spec@,
            scope@,
            cursor(*old(param_idx), old(values)@, *old(alias_counter)),
        ),
    decreases rank(scope@), spec, 2nat,
{
    let (schema, table) = match exists_target(spec, &scope.qualified.schema) {
        Some(target) => target,
        None => return Err(Error::new(owned("\"_exists\" needs a \"_table\" to look in"))),
    };
    if let Some(resolution) = scope.resolution {
        if resolution.cache.get_table(&schema, &table).is_none() {
            return Err(
                Error::new(
                    cat5(
                        "\"_exists\" names a table this server does not have: \"",
                        &schema,
                        ".",
                        &table,
                        "\"",
                    ),
                ),
            );
        }
    }
    *alias_counter = next_number(*alias_counter);
    let alias = numbered("pgrst_exists_", *alias_counter);
    let typename: &str = match scope.names.base_name(&schema, &table) {
        Some(name) => name,
        None => table.as_str(),
    };
    let mut inner = WhereScope::aliased(&schema, &table, &alias, typename, scope);
    inner.caller = None;
    let mut asked: Option<String> = None;
    if let Json::Object(entries) = spec {
        proof {
            lemma_object_view(*entries);
        }
        if let Some(k) = position_of(entries, "_where") {
            assert(decreases_to!(*entries => entries@[k as int]));
            assert(entries_view(entries@)[k as int].1 == entries@[k as int].1@);
            match build_condition(&entries[k].1, &inner, param_idx, values, alias_counter) {
                Ok(sql) => {
                    asked = sql;
                },
                Err(e) => return Err(e),
            }
        }
    }
    let wanted: &str = match &asked {
        Some(sql) => sql.as_str(),
        None => "true",
    };
    Ok(
        cat7(
            "EXISTS (SELECT 1 FROM ",
            &escape_ident2(&schema, &table),
            " AS ",
            &escape_ident(&alias),
            " WHERE ",
            wanted,
            ")",
        ),
    )
}

fn count_columns(items: &Vec<Json>, child: &WhereScope<'_>) -> (r: Vec<String>)
    ensures
        texts(r@) == named_columns(jsons(items@), 0, child@, Seq::empty()),
{
    let mut columns = no_texts();
    let mut i: usize = 0;
    while i < items.len()
        invariant
            i <= items.len(),
            named_columns(jsons(items@), 0, child@, Seq::empty()) == named_columns(
                jsons(items@),
                i as nat,
                child@,
                texts(columns@),
            ),
        decreases items.len() - i,
    {
        assert(jsons(items@)[i as int] == items@[i as int]@);
        if let Json::String(name) = &items[i] {
            push_text(&mut columns, child.column(name));
        }
        i += 1;
    }
    columns
}

fn aggregate_call(name: &str, function: &str, spec: &Json, child: &WhereScope<'_>) -> (r: Result<
    (String, &'static str),
    Error,
>)
    ensures
        (match r {
            Ok((sql, operand_type)) => Ok((sql@, operand_type@)),
            Err(e) => Err(e@),
        }) == aggregate_of(name@, function@, spec@, child@),
{
    let arguments = spec.present("arguments");
    if same(function, "count") {
        let columns = match arguments {
            Some(Json::Array(items)) => {
                proof {
                    lemma_array_view(*items);
                }
                count_columns(items, child)
            },
            Some(Json::String(one)) => {
                let mut columns = no_texts();
                push_text(&mut columns, child.column(one));
                assert(texts(columns@) =~= seq![child@.column(one@)]);
                columns
            },
            _ => no_texts(),
        };
        let counted = if columns.len() == 0 {
            owned("*")
        } else if columns.len() == 1 {
            columns[0].clone()
        } else {
            cat3("(", &join(&columns, ", "), ")")
        };
        let distinct = matches!(spec.get("distinct"), Some(Json::Bool(true)));
        if distinct && !same(&counted, "*") {
            Ok((cat3("count(", &cat2("DISTINCT ", &counted), ")"), "integer"))
        } else {
            Ok((cat3("count(", &counted, ")"), "integer"))
        }
    } else if same(function, "bool_and") || same(function, "bool_or") {
        match arguments {
            Some(Json::String(column)) => Ok(
                (cat4(function, "(", &child.column(column), ")"), "boolean"),
            ),
            _ => Err(
                validation_error(
                    cat5("\"", function, "\" over \"", name, "\" needs the column to fold"),
                ),
            ),
        }
    } else {
        Err(
            validation_error(
                cat3("\"", function, "\" is not an aggregate a predicate can be written over"),
            ),
        )
    }
}

/// A predicate over an aggregate of a related set, as SQL.
///
/// A scalar subselect rather than an `EXISTS`: the answer is a number or a
/// truth value, and over no rows at all a count is zero.
pub fn aggregate_predicate_sql(
    name: &str,
    field: &RelationshipField,
    expression: &Json,
    scope: &WhereScope<'_>,
    param_idx: &mut usize,
    values: &mut Vec<Json>,
    alias_counter: &mut usize,
) -> (r: Result<String, Error>)
    ensures
        term_outcome(r, *final(param_idx), final(values)@, *final(alias_counter))
            == aggregate_predicate(
            name@,
            *field,
            expression@,
            scope@,
            cursor(*old(param_idx), old(values)@, *old(alias_counter)),
        ),
    decreases rank(scope@), expression, 2nat,
{
    let over = match expression {
        Json::Object(over) => over,
        _ => return Ok(owned("true")),
    };
    proof {
        lemma_object_view(*over);
    }
    if scope.resolution.is_none() {
        return Err(
            Error::new(
                cat3("filtering on the relationship \"", name, "\" is not available here"),
            ),
        );
    }
    let plan = match &field.relationship.plan {
        Ok(plan) => plan,
        Err(message) => return Err(Error::new(message.clone())),
    };
    if plan.junction || (plan.function.is_none() && plan.columns.len() == 0) {
        return Err(
            Error::new(
                cat3(
                    "aggregating over \"",
                    name,
                    "\" is not supported: it is reached through a junction rather than by a key",
                ),
            ),
        );
    }
    let mut parts = no_texts();
    match aggregate_conditions(
        over,
        name,
        field,
        plan,
        scope,
        &mut parts,
        param_idx,
        values,
        alias_counter,
    ) {
        Ok(_) => {},
        Err(e) => return Err(e),
    }
    if parts.len() == 0 {
        Ok(owned("true"))
    } else {
        Ok(cat3("(", &join(&parts, " AND "), ")"))
    }
}

fn aggregate_conditions(
    over: &Vec<(String, Json)>,
    name: &str,
    field: &RelationshipField,
    plan: &EmbedPlan,
    scope: &WhereScope<'_>,
    parts: &mut Vec<String>,
    param_idx: &mut usize,
    values: &mut Vec<Json>,
    alias_counter: &mut usize,
) -> (r: Result<(), Error>)
    ensures
        conditions_outcome(r, final(parts)@, *final(param_idx), final(values)@, *final(alias_counter))
            == aggregates_from(
            entries_view(over@),
            0,
            name@,
            *field,
            *plan,
            scope@,
            texts(old(parts)@),
            cursor(*old(param_idx), old(values)@, *old(alias_counter)),
        ),
    decreases rank(scope@), over, 0nat,
{
    let mut i: usize = 0;
    while i < over.len()
        invariant
            i <= over.len(),
            aggregates_from(
                entries_view(over@),
                0,
                name@,
                *field,
                *plan,
                scope@,
                texts(old(parts)@),
                cursor(*old(param_idx), old(values)@, *old(alias_counter)),
            ) == aggregates_from(
                entries_view(over@),
                i as nat,
                name@,
                *field,
                *plan,
                scope@,
                texts(parts@),
                cursor(*param_idx, values@, *alias_counter),
            ),
        decreases over.len() - i,
    {
        assert(decreases_to!(*over => over@[i as int]));
        assert(entries_view(over@)[i as int] == (over@[i as int].0@, over@[i as int].1@));
        if let Json::Object(spec) = &over[i].1 {
            proof {
                lemma_object_view(*spec);
                assert(over@[i as int].1->Object_0 == *spec);
            }
            match add_aggregate(
                &over[i].0,
                &over[i].1,
                spec,
                name,
                field,
                plan,
                scope,
                parts,
                param_idx,
                values,
                alias_counter,
            ) {
                Ok(_) => {},
                Err(e) => return Err(e),
            }
        }
        i += 1;
    }
    Ok(())
}

fn add_aggregate(
    function: &str,
    document: &Json,
    spec: &Vec<(String, Json)>,
    name: &str,
    field: &RelationshipField,
    plan: &EmbedPlan,
    scope: &WhereScope<'_>,
    parts: &mut Vec<String>,
    param_idx: &mut usize,
    values: &mut Vec<Json>,
    alias_counter: &mut usize,
) -> (r: Result<(), Error>)
    requires
        document@ == JsonV::Object(entries_view(spec@)),
    ensures
        conditions_outcome(r, final(parts)@, *final(param_idx), final(values)@, *final(alias_counter))
            == aggregate_condition(
            function@,
            entries_view(spec@),
            name@,
            *field,
            *plan,
            scope@,
            texts(old(parts)@),
            cursor(*old(param_idx), old(values)@, *old(alias_counter)),
        ),
    decreases rank(scope@), spec, 0nat,
{
    let predicate = match document.present("predicate") {
        Some(predicate) => predicate,
        None => {
            return Err(
                validation_error(
                    cat5("\"", function, "\" over \"", name, "\" needs a predicate"),
                ),
            );
        },
    };
    *alias_counter = next_number(*alias_counter);
    let alias = numbered("pgrst_agg_", *alias_counter);
    let child = WhereScope::aliased(
        &plan.foreign_schema,
        &plan.foreign_table,
        &alias,
        &field.target_type,
        scope,
    );
    let mut correlation = correlation_sql(plan, scope, &child);
    if let Some(k) = position_of(spec, "filter") {
        assert(decreases_to!(*spec => spec@[k as int]));
        assert(entries_view(spec@)[k as int].1 == spec@[k as int].1@);
        if !spec[k].1.is_null() {
            match build_condition(&spec[k].1, &child, param_idx, values, alias_counter) {
                Ok(filter) => add_bracketed(&mut correlation, filter),
                Err(e) => return Err(e),
            }
        }
    }
    let wanted = join_or_true(&mut correlation);
    let (aggregate, operand_type) = match aggregate_call(name, function, document, &child) {
        Ok(call) => call,
        Err(e) => return Err(e),
    };
    let subselect = cat9(
        "(SELECT ",
        &aggregate,
        " FROM ",
        &source_sql(plan, scope),
        " AS ",
        &escape_ident(&alias),
        " WHERE ",
        &wanted,
        ")",
    );
    match predicate {
        Json::Object(operators) => {
            proof {
                lemma_object_view(*operators);
            }
            comparison_conditions(
                scope.words,
                &subselect,
                function,
                Some(operand_type),
                operators,
                parts,
                param_idx,
                values,
            )
        },
        _ => Err(
            validation_error(
                cat3("the predicate on \"", function, "\" is not a comparison"),
            ),
        ),
    }
}

// ---------------------------------------------------------------------------
// Clauses
// ---------------------------------------------------------------------------

/// A `WHERE` clause from a boolean expression: empty where it constrains
/// nothing.
pub open spec fn where_clause(value: Option<JsonV>, start: usize, scope: ScopeV) -> Result<
    (Seq<char>, Seq<JsonV>),
    ErrorV,
> {
    let at = CursorV { binds: BindsV { next: start, values: Seq::empty() }, aliases: 0 };
    match value {
        None => Ok((Seq::empty(), Seq::empty())),
        Some(value) => match condition(value, scope, at) {
            Ok((Some(sql), end)) => Ok(("WHERE "@ + sql, end.binds.values)),
            Ok((None, end)) => Ok((Seq::empty(), end.binds.values)),
            Err((e, _)) => Err(e),
        },
    }
}

/// What a function that builds a clause and its values reports.
pub open spec fn clause_outcome(r: Result<(String, Vec<Json>), Error>) -> Result<
    (Seq<char>, Seq<JsonV>),
    ErrorV,
> {
    match r {
        Ok((sql, values)) => Ok((sql@, jsons(values@))),
        Err(e) => Err(e@),
    }
}

/// Build a `WHERE` clause from a boolean expression.
pub fn build_where_clause(
    where_value: Option<&Json>,
    start_param_idx: usize,
    scope: &WhereScope<'_>,
) -> (r: Result<(String, Vec<Json>), Error>)
    ensures
        clause_outcome(r) == where_clause(json_ref(where_value), start_param_idx, scope@),
{
    let mut values: Vec<Json> = Vec::new();
    let mut param_idx: usize = start_param_idx;
    let mut alias_counter: usize = 0;
    assert(jsons(values@) =~= Seq::<JsonV>::empty());
    match where_value {
        Some(value) => match build_condition(
            value,
            scope,
            &mut param_idx,
            &mut values,
            &mut alias_counter,
        ) {
            Ok(Some(sql)) => Ok((cat2("WHERE ", &sql), values)),
            Ok(None) => Ok((String::new(), values)),
            Err(e) => Err(e),
        },
        None => Ok((String::new(), values)),
    }
}

} // verus!

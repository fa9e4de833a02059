//! Every value a statement binds has a placeholder of its own, and none that
//! was bound before is disturbed.

use crate::binds::{advanced, bound, following, BindsV};
use crate::catalog::{EmbedPlan, RelationshipField};
use crate::comparison::{
    array_of, cast_type, casts_from, comparison, comparisons_from, direct_comparison,
    item_placeholders, Vocabulary,
};
use crate::condition::{
    aggregate_condition, aggregate_predicate, aggregates_from, alias_of, child_of, condition,
    entries_from, entry_condition, members_from, operators_from, place_of, related_exists,
    table_exists, CursorV,
};
use crate::json::JsonV;
use crate::role::Verb;
use crate::scope::ScopeV;
use vstd::prelude::*;

verus! {

/// Whether one state came of another by binding values: those of the first
/// are its own first values, and its number is as much further on as it holds
/// more values.
pub open spec fn grown(from: BindsV, to: BindsV) -> bool {
    &&& from.values.len() <= to.values.len()
    &&& to.values.take(from.values.len() as int) == from.values
    &&& to.next == advanced(from.next, (to.values.len() - from.values.len()) as nat)
}

pub proof fn lemma_advanced(n: usize, j: nat, k: nat)
    ensures
        advanced(advanced(n, j), k) == advanced(n, j + k),
    decreases k,
{
    if k > 0 {
        lemma_advanced(n, j, (k - 1) as nat);
    }
}

pub proof fn lemma_grown_start(at: BindsV)
    ensures
        grown(at, at),
{
    assert(at.values.take(at.values.len() as int) =~= at.values);
}

pub proof fn lemma_grown_bound(from: BindsV, to: BindsV, value: JsonV)
    requires
        grown(from, to),
    ensures
        grown(from, bound(to, value)),
{
    assert(bound(to, value).values.take(from.values.len() as int) =~= to.values.take(
        from.values.len() as int,
    ));
}

pub proof fn lemma_grown_on(from: BindsV, mid: BindsV, to: BindsV)
    requires
        grown(from, mid),
        grown(mid, to),
    ensures
        grown(from, to),
{
    let n = from.values.len() as int;
    assert(to.values.take(n) =~= to.values.take(mid.values.len() as int).take(n));
    lemma_advanced(
        from.next,
        (mid.values.len() - from.values.len()) as nat,
        (to.values.len() - mid.values.len()) as nat,
    );
}

proof fn lemma_one(at: BindsV, value: JsonV)
    ensures
        grown(at, bound(at, value)),
{
    lemma_grown_start(at);
    lemma_grown_bound(at, at, value);
}

proof fn lemma_items(items: Seq<JsonV>, i: nat, parts: Seq<Seq<char>>, at: BindsV)
    ensures
        grown(at, item_placeholders(items, i, parts, at).1),
    decreases items.len() - i,
{
    lemma_grown_start(at);
    if i < items.len() {
        let mid = bound(at, items[i as int]);
        lemma_one(at, items[i as int]);
        lemma_items(items, i + 1, parts.push(crate::binds::placeholder(at)), mid);
        lemma_grown_on(at, mid, item_placeholders(items, i, parts, at).1);
    }
}

pub proof fn lemma_array(items: Seq<JsonV>, cast: Seq<char>, at: BindsV)
    ensures
        grown(at, array_of(items, cast, at).1),
{
    lemma_grown_start(at);
    lemma_items(items, 0, Seq::empty(), at);
}

proof fn lemma_members(
    items: Seq<JsonV>,
    column_type: Option<Seq<char>>,
    i: nat,
    parts: Seq<Seq<char>>,
    at: BindsV,
)
    ensures
        grown(at, crate::comparison::members_from(items, column_type, i, parts, at).1),
    decreases items.len() - i,
{
    lemma_grown_start(at);
    if i < items.len() {
        let item = items[i as int];
        let mid = bound(at, item);
        lemma_one(at, item);
        lemma_members(
            items,
            column_type,
            i + 1,
            parts.push(
                crate::binds::placeholder(at) + crate::comparison::inferred_cast(
                    item,
                    column_type,
                ),
            ),
            mid,
        );
        lemma_grown_on(
            at,
            mid,
            crate::comparison::members_from(items, column_type, i, parts, at).1,
        );
    }
}

proof fn lemma_direct(
    words: Vocabulary,
    quoted: Seq<char>,
    column: Seq<char>,
    column_type: Option<Seq<char>>,
    op: Seq<char>,
    operand: JsonV,
    at: BindsV,
)
    ensures
        ({
            let r = direct_comparison(words, quoted, column, column_type, op, operand, at);
            &&& r is Ok ==> grown(at, (r->Ok_0).1)
            &&& r is Err ==> grown(at, (r->Err_0).1)
        }),
{
    lemma_grown_start(at);
    lemma_one(at, operand);
    lemma_one(at, crate::comparison::as_document(operand));
    if operand is Array {
        let items = operand->Array_0;
        lemma_members(items, column_type, 0, Seq::empty(), at);
        lemma_array(items, "text[]"@, at);
        if crate::lookup::named(words.trees@, op) is Some {
            lemma_array(items, crate::lookup::named(words.trees@, op)->0.cast@, at);
        }
    }
    if operand is Object {
        if operand.get("from"@) is Some && operand.get("distance"@) is Some {
            let shaped = bound(at, operand.get("from"@)->0);
            let measured = bound(shaped, operand.get("distance"@)->0);
            lemma_one(at, operand.get("from"@)->0);
            lemma_grown_bound(at, shaped, operand.get("distance"@)->0);
            if operand.present("use_spheroid"@) is Some {
                lemma_grown_bound(at, measured, operand.present("use_spheroid"@)->0);
            }
        }
        if operand.get("geommin"@) is Some {
            let shaped = bound(at, operand.get("geommin"@)->0);
            lemma_one(at, operand.get("geommin"@)->0);
            if operand.present("nband"@) is Some {
                lemma_grown_bound(at, shaped, operand.present("nband"@)->0);
            }
        }
    }
}

/// A comparison binds its operand's values and nothing else: what was bound
/// stays, and each new value takes the next number. That holds where it is
/// refused, too.
pub proof fn law_comparison_binds(
    words: Vocabulary,
    quoted: Seq<char>,
    column: Seq<char>,
    column_type: Option<Seq<char>>,
    op: Seq<char>,
    operand: JsonV,
    at: BindsV,
)
    ensures
        ({
            let r = comparison(words, quoted, column, column_type, op, operand, at);
            &&& r is Ok ==> grown(at, (r->Ok_0).1)
            &&& r is Err ==> grown(at, (r->Err_0).1)
        }),
    decreases operand, 0nat,
{
    lemma_grown_start(at);
    if op == "_cast"@ {
        match operand {
            JsonV::Object(casts) => {
                lemma_casts(words, quoted, column, casts, 0, Seq::empty(), at);
            },
            _ => {},
        }
    } else {
        lemma_direct(words, quoted, column, column_type, op, operand, at);
    }
}

/// A comparison that is refused binds nothing, but for those of a cast that
/// come before the one that is refused.
pub proof fn law_refused_comparison_binds_nothing(
    words: Vocabulary,
    quoted: Seq<char>,
    column: Seq<char>,
    column_type: Option<Seq<char>>,
    op: Seq<char>,
    operand: JsonV,
    at: BindsV,
)
    requires
        op != "_cast"@,
    ensures
        ({
            let r = comparison(words, quoted, column, column_type, op, operand, at);
            r is Err ==> (r->Err_0).1 == at
        }),
{
}

proof fn lemma_casts(
    words: Vocabulary,
    quoted: Seq<char>,
    column: Seq<char>,
    casts: Seq<(Seq<char>, JsonV)>,
    i: nat,
    parts: Seq<Seq<char>>,
    at: BindsV,
)
    ensures
        ({
            let r = casts_from(words, quoted, column, casts, i, parts, at);
            &&& r is Ok ==> grown(at, (r->Ok_0).1)
            &&& r is Err ==> grown(at, (r->Err_0).2)
        }),
    decreases casts, casts.len() - i,
{
    lemma_grown_start(at);
    if i < casts.len() && cast_type(casts[i as int].0) is Some {
        let t = cast_type(casts[i as int].0)->0;
        match casts[i as int].1 {
            JsonV::Object(ops) => {
                let cast = quoted + "::"@ + t;
                lemma_comparisons(words, cast, column, Some(t), ops, 0, parts, at);
                match comparisons_from(words, cast, column, Some(t), ops, 0, parts, at) {
                    Ok((more, mid)) => {
                        lemma_casts(words, quoted, column, casts, i + 1, more, mid);
                        let r = casts_from(words, quoted, column, casts, i, parts, at);
                        if r is Ok {
                            lemma_grown_on(at, mid, (r->Ok_0).1);
                        } else {
                            lemma_grown_on(at, mid, (r->Err_0).2);
                        }
                    },
                    Err(_) => {},
                }
            },
            _ => {
                lemma_casts(words, quoted, column, casts, i + 1, parts, at);
            },
        }
    }
}

proof fn lemma_comparisons(
    words: Vocabulary,
    quoted: Seq<char>,
    column: Seq<char>,
    column_type: Option<Seq<char>>,
    ops: Seq<(Seq<char>, JsonV)>,
    i: nat,
    parts: Seq<Seq<char>>,
    at: BindsV,
)
    ensures
        ({
            let r = comparisons_from(words, quoted, column, column_type, ops, i, parts, at);
            &&& r is Ok ==> grown(at, (r->Ok_0).1)
            &&& r is Err ==> grown(at, (r->Err_0).2)
        }),
    decreases ops, ops.len() - i,
{
    lemma_grown_start(at);
    if i < ops.len() {
        let (op, operand) = ops[i as int];
        law_comparison_binds(words, quoted, column, column_type, op, operand, at);
        match comparison(words, quoted, column, column_type, op, operand, at) {
            Ok((sql, mid)) => {
                lemma_comparisons(
                    words,
                    quoted,
                    column,
                    column_type,
                    ops,
                    i + 1,
                    parts.push(sql),
                    mid,
                );
                let r = comparisons_from(words, quoted, column, column_type, ops, i, parts, at);
                if r is Ok {
                    lemma_grown_on(at, mid, (r->Ok_0).1);
                } else {
                    lemma_grown_on(at, mid, (r->Err_0).2);
                }
            },
            Err(_) => {},
        }
    }
}

/// A boolean expression, however deep, binds its operands' values and nothing
/// else: what was bound stays, and each new value takes the next number. That
/// holds where it is refused, too.
pub proof fn law_condition_binds(value: JsonV, scope: ScopeV, at: CursorV)
    ensures
        ({
            let r = condition(value, scope, at);
            &&& r is Ok ==> grown(at.binds, (r->Ok_0).1.binds)
            &&& r is Err ==> grown(at.binds, (r->Err_0).1.binds)
        }),
    decreases crate::condition::rank(scope), value, 1nat,
{
    lemma_grown_start(at.binds);
    match value {
        JsonV::Object(entries) => {
            lemma_entries(entries, 0, scope, Seq::empty(), at);
        },
        _ => {},
    }
}

proof fn lemma_entries(
    entries: Seq<(Seq<char>, JsonV)>,
    i: nat,
    scope: ScopeV,
    parts: Seq<Seq<char>>,
    at: CursorV,
)
    ensures
        ({
            let r = entries_from(entries, i, scope, parts, at);
            &&& r is Ok ==> grown(at.binds, (r->Ok_0).1.binds)
            &&& r is Err ==> grown(at.binds, (r->Err_0).1.binds)
        }),
    decreases crate::condition::rank(scope), entries, entries.len() - i,
{
    lemma_grown_start(at.binds);
    if i < entries.len() {
        let (key, value) = entries[i as int];
        lemma_entry(key, value, scope, parts, at);
        match entry_condition(key, value, scope, parts, at) {
            Ok((more, mid)) => {
                lemma_entries(entries, i + 1, scope, more, mid);
                let r = entries_from(entries, i, scope, parts, at);
                if r is Ok {
                    lemma_grown_on(at.binds, mid.binds, (r->Ok_0).1.binds);
                } else {
                    lemma_grown_on(at.binds, mid.binds, (r->Err_0).1.binds);
                }
            },
            Err(_) => {},
        }
    }
}

proof fn lemma_entry(
    key: Seq<char>,
    value: JsonV,
    scope: ScopeV,
    parts: Seq<Seq<char>>,
    at: CursorV,
)
    ensures
        ({
            let r = entry_condition(key, value, scope, parts, at);
            &&& r is Ok ==> grown(at.binds, (r->Ok_0).1.binds)
            &&& r is Err ==> grown(at.binds, (r->Err_0).1.binds)
        }),
    decreases crate::condition::rank(scope), value, 3nat,
{
    lemma_grown_start(at.binds);
    if key == "_and"@ || key == "_or"@ {
        match value {
            JsonV::Array(members) => {
                lemma_conjuncts(members, 0, scope, Seq::empty(), at);
            },
            _ => {},
        }
    } else if key == "_not"@ {
        law_condition_binds(value, scope, at);
    } else if key == crate::role::PERMISSION@ {
        law_condition_binds(value, scope.system(), at);
    } else if key == "_exists"@ {
        lemma_table_exists(value, scope, at);
    } else if scope.relationship(key) is Some {
        let (name, field) = scope.relationship(key)->0;
        lemma_related(name, field, value, scope, at);
    } else if crate::condition::aggregated(scope, key) is Some {
        let (name, field) = crate::condition::aggregated(scope, key)->0;
        lemma_aggregate_predicate(name, field, value, scope, at);
    } else {
        match value {
            JsonV::Object(ops) => {
                lemma_operators(ops, 0, key, scope, parts, at);
            },
            other => {
                lemma_one(at.binds, other);
            },
        }
    }
}

proof fn lemma_conjuncts(
    members: Seq<JsonV>,
    i: nat,
    scope: ScopeV,
    parts: Seq<Seq<char>>,
    at: CursorV,
)
    ensures
        ({
            let r = members_from(members, i, scope, parts, at);
            &&& r is Ok ==> grown(at.binds, (r->Ok_0).1.binds)
            &&& r is Err ==> grown(at.binds, (r->Err_0).1.binds)
        }),
    decreases crate::condition::rank(scope), members, members.len() - i,
{
    lemma_grown_start(at.binds);
    if i < members.len() {
        law_condition_binds(members[i as int], scope, at);
        match condition(members[i as int], scope, at) {
            Ok((sql, mid)) => {
                let more = match sql {
                    Some(sql) => parts.push(sql),
                    None => parts,
                };
                lemma_conjuncts(members, i + 1, scope, more, mid);
                let r = members_from(members, i, scope, parts, at);
                if r is Ok {
                    lemma_grown_on(at.binds, mid.binds, (r->Ok_0).1.binds);
                } else {
                    lemma_grown_on(at.binds, mid.binds, (r->Err_0).1.binds);
                }
            },
            Err(_) => {},
        }
    }
}

proof fn lemma_operators(
    ops: Seq<(Seq<char>, JsonV)>,
    i: nat,
    key: Seq<char>,
    scope: ScopeV,
    parts: Seq<Seq<char>>,
    at: CursorV,
)
    ensures
        ({
            let r = operators_from(ops, i, key, scope, parts, at);
            &&& r is Ok ==> grown(at.binds, (r->Ok_0).1.binds)
            &&& r is Err ==> grown(at.binds, (r->Err_0).1.binds)
        }),
    decreases ops.len() - i,
{
    lemma_grown_start(at.binds);
    if i < ops.len() {
        let (op, operand) = ops[i as int];
        match crate::condition::column_operator(op) {
            Some(operator) => {
                match scope.other_column(operand, op) {
                    Ok(other) => {
                        lemma_operators(
                            ops,
                            i + 1,
                            key,
                            scope,
                            parts.push(scope.column(key) + " "@ + operator + " "@ + other),
                            at,
                        );
                    },
                    Err(_) => {},
                }
            },
            None => {
                let column = scope.column(key);
                let column_type = scope.column_type(key);
                law_comparison_binds(scope.words, column, key, column_type, op, operand, at.binds);
                match comparison(scope.words, column, key, column_type, op, operand, at.binds) {
                    Ok((sql, end)) => {
                        let mid = CursorV { binds: end, aliases: at.aliases };
                        lemma_operators(ops, i + 1, key, scope, parts.push(sql), mid);
                        let r = operators_from(ops, i, key, scope, parts, at);
                        if r is Ok {
                            lemma_grown_on(at.binds, mid.binds, (r->Ok_0).1.binds);
                        } else {
                            lemma_grown_on(at.binds, mid.binds, (r->Err_0).1.binds);
                        }
                    },
                    Err(_) => {},
                }
            },
        }
    }
}

proof fn lemma_related(
    name: Seq<char>,
    field: RelationshipField,
    value: JsonV,
    scope: ScopeV,
    at: CursorV,
)
    ensures
        ({
            let r = related_exists(name, field, value, scope, at);
            &&& r is Ok ==> grown(at.binds, (r->Ok_0).1.binds)
            &&& r is Err ==> grown(at.binds, (r->Err_0).1.binds)
        }),
    decreases crate::condition::rank(scope), value, 2nat,
{
    lemma_grown_start(at.binds);
    if scope.resolution is Some && field.relationship.plan is Ok {
        let plan = field.relationship.plan->Ok_0;
        if crate::condition::is_correlated(plan) {
            let number = following(at.aliases);
            let child = child_of(scope, plan, alias_of("pgrst_rel_"@, number), field);
            let start = CursorV { binds: at.binds, aliases: number };
            law_condition_binds(value, child, start);
            match condition(value, child, start) {
                Ok((asked, mid)) => {
                    match child.caller {
                        None => {},
                        Some(caller) => {
                            match caller.ruled(
                                plan.foreign_schema@,
                                plan.foreign_table@,
                                Verb::Select,
                            ).filter {
                                Ok(Some(predicate)) => {
                                    law_condition_binds(predicate@, child.system(), mid);
                                    match condition(predicate@, child.system(), mid) {
                                        Ok((_, end)) | Err((_, end)) => {
                                            lemma_grown_on(at.binds, mid.binds, end.binds);
                                        },
                                    }
                                },
                                _ => {},
                            }
                        },
                    }
                },
                Err(_) => {},
            }
        }
    }
}

proof fn lemma_table_exists(spec: JsonV, scope: ScopeV, at: CursorV)
    ensures
        ({
            let r = table_exists(spec, scope, at);
            &&& r is Ok ==> grown(at.binds, (r->Ok_0).1.binds)
            &&& r is Err ==> grown(at.binds, (r->Err_0).1.binds)
        }),
    decreases crate::condition::rank(scope), spec, 2nat,
{
    lemma_grown_start(at.binds);
    match crate::role::exists_table(spec, scope.qualified.0) {
        None => {},
        Some((schema, table)) => {
            let number = following(at.aliases);
            let typename = match scope.names.base(schema, table) {
                Some(name) => name,
                None => table,
            };
            let inner = ScopeV {
                caller: None,
                ..scope.entering(schema, table, alias_of("pgrst_exists_"@, number), typename)
            };
            let start = CursorV { binds: at.binds, aliases: number };
            let k = place_of(spec.entries(), "_where"@, 0);
            if spec is Object && k < spec->Object_0.len() {
                law_condition_binds(spec->Object_0[k as int].1, inner, start);
            }
        },
    }
}

proof fn lemma_aggregate_predicate(
    name: Seq<char>,
    field: RelationshipField,
    value: JsonV,
    scope: ScopeV,
    at: CursorV,
)
    ensures
        ({
            let r = aggregate_predicate(name, field, value, scope, at);
            &&& r is Ok ==> grown(at.binds, (r->Ok_0).1.binds)
            &&& r is Err ==> grown(at.binds, (r->Err_0).1.binds)
        }),
    decreases crate::condition::rank(scope), value, 2nat,
{
    lemma_grown_start(at.binds);
    match value {
        JsonV::Object(over) => {
            if field.relationship.plan is Ok {
                lemma_aggregates(
                    over,
                    0,
                    name,
                    field,
                    field.relationship.plan->Ok_0,
                    scope,
                    Seq::empty(),
                    at,
                );
            }
        },
        _ => {},
    }
}

proof fn lemma_aggregates(
    over: Seq<(Seq<char>, JsonV)>,
    i: nat,
    name: Seq<char>,
    field: RelationshipField,
    plan: EmbedPlan,
    scope: ScopeV,
    parts: Seq<Seq<char>>,
    at: CursorV,
)
    ensures
        ({
            let r = aggregates_from(over, i, name, field, plan, scope, parts, at);
            &&& r is Ok ==> grown(at.binds, (r->Ok_0).1.binds)
            &&& r is Err ==> grown(at.binds, (r->Err_0).1.binds)
        }),
    decreases crate::condition::rank(scope), over, over.len() - i,
{
    lemma_grown_start(at.binds);
    if i < over.len() {
        match over[i as int].1 {
            JsonV::Object(spec) => {
                let function = over[i as int].0;
                lemma_aggregate(function, spec, name, field, plan, scope, parts, at);
                match aggregate_condition(function, spec, name, field, plan, scope, parts, at) {
                    Ok((more, mid)) => {
                        lemma_aggregates(over, i + 1, name, field, plan, scope, more, mid);
                        let r = aggregates_from(over, i, name, field, plan, scope, parts, at);
                        if r is Ok {
                            lemma_grown_on(at.binds, mid.binds, (r->Ok_0).1.binds);
                        } else {
                            lemma_grown_on(at.binds, mid.binds, (r->Err_0).1.binds);
                        }
                    },
                    Err(_) => {},
                }
            },
            _ => {
                lemma_aggregates(over, i + 1, name, field, plan, scope, parts, at);
            },
        }
    }
}

#[verifier::rlimit(40)]
proof fn lemma_aggregate(
    function: Seq<char>,
    spec: Seq<(Seq<char>, JsonV)>,
    name: Seq<char>,
    field: RelationshipField,
    plan: EmbedPlan,
    scope: ScopeV,
    parts: Seq<Seq<char>>,
    at: CursorV,
)
    ensures
        ({
            let r = aggregate_condition(function, spec, name, field, plan, scope, parts, at);
            &&& r is Ok ==> grown(at.binds, (r->Ok_0).1.binds)
            &&& r is Err ==> grown(at.binds, (r->Err_0).1.binds)
        }),
    decreases crate::condition::rank(scope), spec, 0nat,
{
    lemma_grown_start(at.binds);
    let document = JsonV::Object(spec);
    match document.present("predicate"@) {
        None => {},
        Some(predicate) => {
            let number = following(at.aliases);
            let alias = alias_of("pgrst_agg_"@, number);
            let child = child_of(scope, plan, alias, field);
            let start = CursorV { binds: at.binds, aliases: number };
            let k = place_of(spec, "filter"@, 0);
            let asked = if k < spec.len() && !(spec[k as int].1 is Null) {
                condition(spec[k as int].1, child, start)
            } else {
                Ok((None, start))
            };
            if k < spec.len() && !(spec[k as int].1 is Null) {
                law_condition_binds(spec[k as int].1, child, start);
            }
            match asked {
                Err(_) => {},
                Ok((filter, mid)) => {
                    match crate::condition::aggregate_of(name, function, document, child) {
                        Err(_) => {},
                        Ok((aggregate, operand_type)) => {
                            let subselect = "(SELECT "@ + aggregate + " FROM "@
                                + crate::condition::source_of(plan, scope) + " AS "@
                                + crate::text::ident(alias) + " WHERE "@
                                + crate::condition::or_true(
                                crate::condition::with_bracketed(
                                    crate::condition::correlation_of(plan, scope, child),
                                    filter,
                                ),
                            ) + ")"@;
                            match predicate {
                                JsonV::Object(operators) => {
                                    lemma_comparisons(
                                        scope.words,
                                        subselect,
                                        function,
                                        Some(operand_type),
                                        operators,
                                        0,
                                        parts,
                                        mid.binds,
                                    );
                                    match comparisons_from(
                                        scope.words,
                                        subselect,
                                        function,
                                        Some(operand_type),
                                        operators,
                                        0,
                                        parts,
                                        mid.binds,
                                    ) {
                                        Ok((_, end)) | Err((_, _, end)) => {
                                            lemma_grown_on(at.binds, mid.binds, end);
                                        },
                                    }
                                },
                                _ => {},
                            }
                        },
                    }
                },
            }
        },
    }
}

} // verus!

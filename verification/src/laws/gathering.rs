//! What filters ask of related rows taken together, and which rules hold.

use crate::catalog::{EmbedPlan, RelationshipField};
use crate::comparison::comparisons_from;
use crate::condition::{
    aggregate_condition, aggregate_of, alias_of, condition, correlation_of, named_columns, place_of,
    CursorV,
};
use crate::error::ErrorV;
use crate::json::{entry_of, JsonV};
use crate::laws::filtering::among;
use crate::lookup::qualified;
use crate::role::{exists_table, filter_of, Caller, Rule, Verb};
use crate::scope::ScopeV;
use crate::text::{decimal, ident, ident2, joined};
use vstd::prelude::*;

verus! {

/// Names of columns are read one after another.
pub open spec fn columns_listed(child: ScopeV, names: Seq<Seq<char>>) -> Seq<Seq<char>> {
    Seq::new(names.len(), |i: int| child.column(names[i]))
}

proof fn lemma_named_columns(
    names: Seq<Seq<char>>,
    i: nat,
    child: ScopeV,
    found: Seq<Seq<char>>,
)
    requires
        i <= names.len(),
        found == columns_listed(child, names.take(i as int)),
    ensures
        named_columns(
            Seq::new(names.len(), |k: int| JsonV::String(names[k])),
            i,
            child,
            found,
        ) == columns_listed(child, names),
    decreases names.len() - i,
{
    let items = Seq::new(names.len(), |k: int| JsonV::String(names[k]));
    if i < names.len() {
        assert(items[i as int] == JsonV::String(names[i as int]));
        let more = found.push(child.column(names[i as int]));
        assert(more =~= columns_listed(child, names.take((i + 1) as int)));
        lemma_named_columns(names, i + 1, child, more);
    } else {
        assert(names.take(i as int) =~= names);
    }
}

/// What is counted: every row, or the values of the columns named, and each of
/// them once where that is asked.
pub proof fn law_related_rows_are_counted(
    name: Seq<char>,
    names: Seq<Seq<char>>,
    distinct: bool,
    child: ScopeV,
)
    ensures
        ({
            let listed = JsonV::Array(Seq::new(names.len(), |k: int| JsonV::String(names[k])));
            let spec = JsonV::Object(
                seq![("arguments"@, listed), ("distinct"@, JsonV::Bool(distinct))],
            );
            let once = if distinct {
                "DISTINCT "@
            } else {
                ""@
            };
            let columns = columns_listed(child, names);
            &&& aggregate_of(name, "count"@, JsonV::Object(Seq::empty()), child) == Ok::<
                (Seq<char>, Seq<char>),
                ErrorV,
            >(("count(*)"@, "integer"@))
            &&& names.len() > 1 ==> aggregate_of(name, "count"@, spec, child) == Ok::<
                (Seq<char>, Seq<char>),
                ErrorV,
            >(("count("@ + (once + ("("@ + joined(columns, ", "@) + ")"@)) + ")"@, "integer"@))
            &&& names.len() == 1 && columns[0] != "*"@ ==> aggregate_of(
                name,
                "count"@,
                spec,
                child,
            ) == Ok::<(Seq<char>, Seq<char>), ErrorV>(
                ("count("@ + (once + columns[0]) + ")"@, "integer"@),
            )
        }),
{
    let items = Seq::new(names.len(), |k: int| JsonV::String(names[k]));
    let entries = seq![("arguments"@, JsonV::Array(items)), ("distinct"@, JsonV::Bool(distinct))];
    let columns = columns_listed(child, names);
    let none = Seq::<Seq<char>>::empty();
    assert(none =~= columns_listed(child, names.take(0)));
    lemma_named_columns(names, 0, child, none);
    reveal_strlit("arguments");
    reveal_strlit("distinct");
    reveal_strlit("count(*)");
    reveal_strlit("count(");
    reveal_strlit("*");
    reveal_strlit(")");
    reveal_strlit("(");
    reveal_strlit("");
    assert("count("@ + "*"@ + ")"@ =~= "count(*)"@);
    assert("arguments"@.len() == 9 && "distinct"@.len() == 8);
    assert(entries[0].0 == "arguments"@);
    assert(entry_of(entries, "arguments"@) == Some(JsonV::Array(items)));
    let rest = entries.drop_first();
    assert(rest[0] == ("distinct"@, JsonV::Bool(distinct)));
    assert(entry_of(rest, "distinct"@) == Some(JsonV::Bool(distinct)));
    assert(entry_of(entries, "distinct"@) == Some(JsonV::Bool(distinct)));
    let spec = JsonV::Object(entries);
    assert(spec.present("arguments"@) == Some(JsonV::Array(items)));
    assert(spec.get("distinct"@) == Some(JsonV::Bool(distinct)));
    let nothing = JsonV::Object(Seq::empty());
    assert(nothing.present("arguments"@) is None);
    assert(nothing.get("distinct"@) is None);
    if names.len() > 1 {
        let counted = "("@ + joined(columns, ", "@) + ")"@;
        assert(counted.len() >= 2);
        assert(counted != "*"@);
        assert(""@ + counted =~= counted);
    }
    if names.len() == 1 {
        assert(""@ + columns[0] =~= columns[0]);
    }
}

/// Truths are folded by the function that was asked for, over the column it was
/// asked of, and what comes out is a truth.
pub proof fn law_truths_are_folded(name: Seq<char>, column: Seq<char>, child: ScopeV)
    ensures
        ({
            let spec = JsonV::Object(seq![("arguments"@, JsonV::String(column))]);
            &&& aggregate_of(name, "bool_and"@, spec, child) == Ok::<
                (Seq<char>, Seq<char>),
                ErrorV,
            >(("bool_and"@ + "("@ + child.column(column) + ")"@, "boolean"@))
            &&& aggregate_of(name, "bool_or"@, spec, child) == Ok::<
                (Seq<char>, Seq<char>),
                ErrorV,
            >(("bool_or"@ + "("@ + child.column(column) + ")"@, "boolean"@))
        }),
{
    let entries = seq![("arguments"@, JsonV::String(column))];
    assert(entries[0].0 == "arguments"@);
    assert(entry_of(entries, "arguments"@) == Some(JsonV::String(column)));
    reveal_strlit("count");
    reveal_strlit("bool_and");
    reveal_strlit("bool_or");
}

/// No other function may be asked about, and one that folds needs a column.
pub proof fn law_only_these_are_folded(
    name: Seq<char>,
    function: Seq<char>,
    spec: JsonV,
    child: ScopeV,
)
    requires
        function != "count"@,
    ensures
        function != "bool_and"@ && function != "bool_or"@ ==> aggregate_of(
            name,
            function,
            spec,
            child,
        ) == Err::<(Seq<char>, Seq<char>), ErrorV>(
            ErrorV {
                message: "\""@ + function
                    + "\" is not an aggregate a predicate can be written over"@,
                code: Some("validation-failed"@),
                path: None,
            },
        ),
        (function == "bool_and"@ || function == "bool_or"@) && !(spec.present(
            "arguments"@,
        ) matches Some(JsonV::String(_))) ==> aggregate_of(name, function, spec, child) == Err::<
            (Seq<char>, Seq<char>),
            ErrorV,
        >(
            ErrorV {
                message: "\""@ + function + "\" over \""@ + name + "\" needs the column to fold"@,
                code: Some("validation-failed"@),
                path: None,
            },
        ),
{
}

/// What is asked about related rows taken together is compared with what it was
/// asked to be: the aggregate over the rows that are related to this one, with
/// the comparisons that were made of it.
pub proof fn law_related_rows_are_folded_and_compared(
    function: Seq<char>,
    arguments: JsonV,
    operators: Seq<(Seq<char>, JsonV)>,
    name: Seq<char>,
    field: RelationshipField,
    plan: EmbedPlan,
    scope: ScopeV,
    at: CursorV,
)
    requires
        at.aliases < usize::MAX,
        plan.function is None,
        plan.columns@.len() > 0,
    ensures
        ({
            let spec = seq![("arguments"@, arguments), ("predicate"@, JsonV::Object(operators))];
            let alias = "pgrst_agg_"@ + decimal((at.aliases + 1) as nat);
            let there = among(
                scope,
                plan.foreign_schema@,
                plan.foreign_table@,
                alias,
                field.target_type@,
            );
            let keys = Seq::new(
                plan.columns@.len(),
                |i: int|
                    scope.column(plan.columns@[i].0@) + " = "@ + there.column(
                        plan.columns@[i].1@,
                    ),
            );
            let r = aggregate_condition(
                function,
                spec,
                name,
                field,
                plan,
                scope,
                Seq::empty(),
                at,
            );
            match aggregate_of(name, function, JsonV::Object(spec), there) {
                Err(e) => r is Err && (r->Err_0).0 == e,
                Ok((aggregate, operand_type)) => match comparisons_from(
                    scope.words,
                    "(SELECT "@ + aggregate + " FROM "@ + ident2(
                        plan.foreign_schema@,
                        plan.foreign_table@,
                    ) + " AS "@ + ident(alias) + " WHERE "@ + joined(keys, " AND "@) + ")"@,
                    function,
                    Some(operand_type),
                    operators,
                    0,
                    Seq::empty(),
                    at.binds,
                ) {
                    Err((e, _, _)) => r is Err && (r->Err_0).0 == e,
                    Ok((parts, end)) => r == Ok::<
                        (Seq<Seq<char>>, CursorV),
                        (ErrorV, CursorV),
                    >((parts, CursorV { binds: end, aliases: (at.aliases + 1) as usize })),
                },
            }
        }),
{
    let spec = seq![("arguments"@, arguments), ("predicate"@, JsonV::Object(operators))];
    let alias = "pgrst_agg_"@ + decimal((at.aliases + 1) as nat);
    let there = among(scope, plan.foreign_schema@, plan.foreign_table@, alias, field.target_type@);
    let keys = Seq::new(
        plan.columns@.len(),
        |i: int| scope.column(plan.columns@[i].0@) + " = "@ + there.column(plan.columns@[i].1@),
    );
    assert(alias_of("pgrst_agg_"@, (at.aliases + 1) as usize) == alias);
    assert(crate::condition::child_of(scope, plan, alias, field) == there);
    assert(correlation_of(plan, scope, there) =~= keys);
    reveal_strlit("arguments");
    reveal_strlit("predicate");
    reveal_strlit("filter");
    assert("arguments"@[0] == 'a' && "predicate"@[0] == 'p');
    let rest = spec.drop_first();
    assert(spec[0] == ("arguments"@, arguments));
    assert(rest[0] == ("predicate"@, JsonV::Object(operators)));
    assert(entry_of(rest, "predicate"@) == Some(JsonV::Object(operators)));
    assert(entry_of(spec, "predicate"@) == Some(JsonV::Object(operators)));
    assert(JsonV::Object(spec).present("predicate"@) == Some(JsonV::Object(operators)));
    assert(spec[1] == ("predicate"@, JsonV::Object(operators)));
    assert(place_of(spec, "filter"@, 2) == 2);
    assert(place_of(spec, "filter"@, 1) == 2);
    assert(place_of(spec, "filter"@, 0) == 2);
}

// ---------------------------------------------------------------------------
// Rules
// ---------------------------------------------------------------------------

/// Each operation on a table is held to the table's own rule for it, and one on
/// a table that has none to the caller's rule for such.
pub proof fn law_each_operation_has_its_rule(
    caller: Caller,
    schema: Seq<char>,
    table: Seq<char>,
    verb: Verb,
)
    ensures
        match qualified(caller.tables@, schema, table) {
            None => caller.ruled(schema, table, verb) == caller.otherwise,
            Some(rules) => {
                &&& caller.ruled(schema, table, Verb::Select) == rules.select
                &&& caller.ruled(schema, table, Verb::Insert) == rules.insert
                &&& caller.ruled(schema, table, Verb::Update) == rules.update
                &&& caller.ruled(schema, table, Verb::Delete) == rules.delete
            },
        },
{
}

/// Which rows a rule lets through: those of its filter, kept apart from what a
/// request may write, or all where it has none; a rule that could not be read
/// refuses.
pub proof fn law_a_rules_filter_is_its_own(rule: Rule)
    ensures
        filter_of(rule) == (match rule.filter {
            Ok(None) => Ok(None),
            Ok(Some(predicate)) => Ok(
                Some(JsonV::Object(seq![("_permission"@, predicate@)])),
            ),
            Err(fault) => Err(
                ErrorV { message: fault.message@, code: Some(fault.code@), path: None },
            ),
        }),
{
}

/// Which table a filter looks in: one of the same schema where it gives a name
/// alone, and of the one it names otherwise.
pub proof fn law_a_table_is_looked_in_by_name(
    schema: Seq<char>,
    table: Seq<char>,
    here: Seq<char>,
)
    ensures
        exists_table(JsonV::Object(seq![("_table"@, JsonV::String(table))]), here) == Some(
            (here, table),
        ),
        exists_table(
            JsonV::Object(
                seq![
                    (
                        "_table"@,
                        JsonV::Object(
                            seq![
                                ("name"@, JsonV::String(table)),
                                ("schema"@, JsonV::String(schema)),
                            ],
                        ),
                    ),
                ],
            ),
            here,
        ) == Some((schema, table)),
        exists_table(JsonV::Object(Seq::empty()), here) is None,
{
    let by_name = seq![("_table"@, JsonV::String(table))];
    assert(by_name[0].0 == "_table"@);
    assert(entry_of(by_name, "_table"@) == Some(JsonV::String(table)));
    let inner = seq![("name"@, JsonV::String(table)), ("schema"@, JsonV::String(schema))];
    reveal_strlit("name");
    reveal_strlit("schema");
    assert(inner[0] == ("name"@, JsonV::String(table)));
    assert(inner.drop_first()[0] == ("schema"@, JsonV::String(schema)));
    assert(entry_of(inner, "name"@) == Some(JsonV::String(table)));
    assert("name"@.len() == 4 && "schema"@.len() == 6);
    assert(entry_of(inner.drop_first(), "schema"@) == Some(JsonV::String(schema)));
    assert(entry_of(inner, "schema"@) == Some(JsonV::String(schema)));
    let by_both = seq![("_table"@, JsonV::Object(inner))];
    assert(by_both[0].0 == "_table"@);
    assert(entry_of(by_both, "_table"@) == Some(JsonV::Object(inner)));
}

} // verus!

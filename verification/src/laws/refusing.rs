//! What is refused, and in what words.

use crate::binds::BindsV;
use crate::catalog::{EmbedPlan, NameOverrides, RelationshipField, Table};
use crate::comparison::{
    cast_type, comparison, membership_sql, within_band, within_distance, Vocabulary,
};
use crate::condition::{
    aggregate_condition, aggregate_predicate, condition, related_exists, table_exists, CursorV,
};
use crate::entity::{
    entity_rows_of, key_from, key_value, normal_id, normal_value, represented_type,
    EntityKeyColumnV, EntityLookupV,
};
use crate::error::{coded_refusal, plain_refusal, validation_refusal, ErrorV};
use crate::insert::{
    answered, begun, children_of, keys_given, FrameV, InsertionV, NestedV, PlaceV, StepV,
};
use crate::json::JsonV;
use crate::json_path::{parsed, path_steps, PathStepV};
use crate::lookup::{named, paired};
use crate::ordering::{
    aggregate_ordering, distinct_clause, distinct_columns, distinct_on, embedded_ordering,
    field_term, key_ordering, order_by_clause, ordering,
};
use crate::read::{key_filter, ReadField};
use crate::role::exists_table;
use crate::scope::{ScopeV, Sources};
use crate::statement::{
    assignment, columns_set, conflict_clause, deleted_rows, operators_set, SetV, WriteSources,
};
use vstd::prelude::*;

verus! {

/// A refusal that says something and no more.
pub open spec fn said(message: Seq<char>) -> ErrorV {
    ErrorV { message, code: None, path: None }
}

/// A refusal of what does not fit the schema.
pub open spec fn invalid(message: Seq<char>) -> ErrorV {
    ErrorV { message, code: Some("validation-failed"@), path: None }
}

/// A refusal says what it was made with, with the code it was given, and where
/// it happened only where that is known.
pub proof fn law_refusals_say_what_they_are(code: Seq<char>, message: Seq<char>)
    ensures
        plain_refusal(message) == said(message),
        validation_refusal(message) == invalid(message),
        coded_refusal(code, message) == (ErrorV { message, code: Some(code), path: None }),
{
}

// ---------------------------------------------------------------------------
// Comparisons
// ---------------------------------------------------------------------------

/// What no comparison is called is refused by its name and its column.
pub proof fn law_unknown_comparisons_are_refused(
    words: Vocabulary,
    quoted: Seq<char>,
    column: Seq<char>,
    column_type: Option<Seq<char>>,
    op: Seq<char>,
    operand: JsonV,
    at: BindsV,
)
    requires
        paired(words.spatial@, op) is None,
        named(words.trees@, op) is None,
        crate::comparison::path_function(op) is None,
        crate::comparison::binary_operator(op) is None,
        op != "_is_null"@,
        op != "_in"@,
        op != "_nin"@,
        op != "_has_keys_any"@,
        op != "_has_keys_all"@,
        op != "_cast"@,
    ensures
        comparison(words, quoted, column, column_type, op, operand, at) == Err::<
            (Seq<char>, BindsV),
            (ErrorV, BindsV),
        >((said("unsupported comparison \""@ + op + "\" on \""@ + column + "\""@), at)),
{
}

/// A search in what is no list is refused by the comparison and its column, and a
/// cast by what is no object.
pub proof fn law_operands_have_to_fit(
    words: Vocabulary,
    quoted: Seq<char>,
    column: Seq<char>,
    column_type: Option<Seq<char>>,
    op: Seq<char>,
    operand: JsonV,
    at: BindsV,
)
    ensures
        !(operand is Array) ==> membership_sql(quoted, column, column_type, op, operand, at)
            == Err::<(Seq<char>, BindsV), (ErrorV, BindsV)>(
            (
                said(
                    "the \""@ + op + "\" comparison on \""@ + column
                        + "\" requires a list of values"@,
                ),
                at,
            ),
        ),
        !(operand is Object) ==> comparison(
            words,
            quoted,
            column,
            column_type,
            "_cast"@,
            operand,
            at,
        ) == Err::<(Seq<char>, BindsV), (ErrorV, BindsV)>(
            (said("_cast takes an object naming the type to compare as"@), at),
        ),
{
}

/// A cast to a type that is not known is refused by the column and the type.
pub proof fn law_unknown_casts_are_refused(
    words: Vocabulary,
    quoted: Seq<char>,
    column: Seq<char>,
    column_type: Option<Seq<char>>,
    name: Seq<char>,
    operators: JsonV,
    at: BindsV,
)
    requires
        cast_type(name) is None,
    ensures
        comparison(
            words,
            quoted,
            column,
            column_type,
            "_cast"@,
            JsonV::Object(seq![(name, operators)]),
            at,
        ) == Err::<(Seq<char>, BindsV), (ErrorV, BindsV)>(
            (said("cannot compare \""@ + column + "\" as \""@ + name + "\""@), at),
        ),
{
    let one = seq![(name, operators)];
    assert(one[0] == (name, operators));
}

/// A distance is measured from a shape, and a band is of one; what is missing is
/// named.
pub proof fn law_shapes_and_distances_are_needed(
    quoted: Seq<char>,
    geography: bool,
    function: Seq<char>,
    op: Seq<char>,
    operand: JsonV,
    at: BindsV,
)
    ensures
        ({
            let r = within_distance(quoted, geography, function, op, operand, at);
            &&& !(operand is Object) ==> r == Err::<(Seq<char>, BindsV), (ErrorV, BindsV)>(
                (said("\""@ + op + "\" takes {distance, from}"@), at),
            )
            &&& operand is Object && operand.get("from"@) is None ==> r == Err::<
                (Seq<char>, BindsV),
                (ErrorV, BindsV),
            >((said("\""@ + op + "\" needs a shape to measure from"@), at))
            &&& operand is Object && operand.get("from"@) is Some && operand.get(
                "distance"@,
            ) is None ==> r == Err::<(Seq<char>, BindsV), (ErrorV, BindsV)>(
                (said("\""@ + op + "\" needs a distance"@), at),
            )
        }),
        ({
            let r = within_band(quoted, geography, function, op, operand, at);
            &&& !(operand is Object) ==> r == Err::<(Seq<char>, BindsV), (ErrorV, BindsV)>(
                (said("\""@ + op + "\" takes an object"@), at),
            )
            &&& operand is Object && operand.get("geommin"@) is None ==> r == Err::<
                (Seq<char>, BindsV),
                (ErrorV, BindsV),
            >((said("\""@ + op + "\" needs a shape"@), at))
        }),
{
}

// ---------------------------------------------------------------------------
// Filters
// ---------------------------------------------------------------------------

/// A relationship that cannot be followed from a filter is refused, and so is one
/// that is reached by no key.
pub proof fn law_relationships_have_to_be_reached(
    name: Seq<char>,
    field: RelationshipField,
    value: JsonV,
    scope: ScopeV,
    at: CursorV,
)
    ensures
        scope.resolution is None ==> related_exists(name, field, value, scope, at) == Err::<
            (Seq<char>, CursorV),
            (ErrorV, CursorV),
        >(
            (
                said("filtering on the relationship \""@ + name + "\" is not available here"@),
                at,
            ),
        ),
        scope.resolution is None && value is Object ==> aggregate_predicate(
            name,
            field,
            value,
            scope,
            at,
        ) == Err::<(Seq<char>, CursorV), (ErrorV, CursorV)>(
            (
                said("filtering on the relationship \""@ + name + "\" is not available here"@),
                at,
            ),
        ),
        scope.resolution is Some && (field.relationship.plan matches Ok(plan)
            && !crate::condition::is_correlated(plan)) ==> related_exists(
            name,
            field,
            value,
            scope,
            at,
        ) == Err::<(Seq<char>, CursorV), (ErrorV, CursorV)>(
            (
                said(
                    "filtering on \""@ + name
                        + "\" is not supported: it is reached through a junction rather than by a key"@,
                ),
                at,
            ),
        ),
        scope.resolution is Some && value is Object && (field.relationship.plan matches Ok(plan)
            && !crate::condition::is_correlated(plan)) ==> aggregate_predicate(
            name,
            field,
            value,
            scope,
            at,
        ) == Err::<(Seq<char>, CursorV), (ErrorV, CursorV)>(
            (
                said(
                    "aggregating over \""@ + name
                        + "\" is not supported: it is reached through a junction rather than by a key"@,
                ),
                at,
            ),
        ),
        field.relationship.plan matches Err(message) ==> (scope.resolution is Some
            ==> related_exists(name, field, value, scope, at) == Err::<
            (Seq<char>, CursorV),
            (ErrorV, CursorV),
        >((said(message@), at))),
{
}

/// A relationship is followed by a filter where a function answers it or keys
/// lead to it, and no junction stands between.
pub proof fn law_correlated_plans_are_followed(plan: EmbedPlan)
    ensures
        plan.junction ==> !crate::condition::is_correlated(plan),
        !plan.junction && (plan.function is Some || plan.columns@.len() > 0)
            ==> crate::condition::is_correlated(plan),
        !plan.junction && plan.function is None && plan.columns@.len() == 0
            ==> !crate::condition::is_correlated(plan),
{
}

/// A table to look in has to be named, and to be one the server has.
pub proof fn law_tables_have_to_be_there(spec: JsonV, scope: ScopeV, at: CursorV)
    ensures
        exists_table(spec, scope.qualified.0) is None ==> table_exists(spec, scope, at) == Err::<
            (Seq<char>, CursorV),
            (ErrorV, CursorV),
        >((said("\"_exists\" needs a \"_table\" to look in"@), at)),
        exists_table(spec, scope.qualified.0) matches Some((schema, table)) ==> (scope.resolution
            matches Some((cache, all)) ==> (cache.table(schema, table) is None ==> table_exists(
            spec,
            scope,
            at,
        ) == Err::<(Seq<char>, CursorV), (ErrorV, CursorV)>(
            (
                said(
                    "\"_exists\" names a table this server does not have: \""@ + schema + "."@
                        + table + "\""@,
                ),
                at,
            ),
        ))),
{
}

/// A question about related rows needs something for the answer to be, written as
/// comparisons.
pub proof fn law_questions_need_a_predicate(
    function: Seq<char>,
    name: Seq<char>,
    field: RelationshipField,
    plan: EmbedPlan,
    scope: ScopeV,
    parts: Seq<Seq<char>>,
    at: CursorV,
)
    ensures
        aggregate_condition(function, Seq::empty(), name, field, plan, scope, parts, at) == Err::<
            (Seq<Seq<char>>, CursorV),
            (ErrorV, CursorV),
        >((invalid("\""@ + function + "\" over \""@ + name + "\" needs a predicate"@), at)),
{
}

/// Another column is named by a text, or by a path from the row the filter began
/// with.
pub proof fn law_other_columns_have_to_be_named(scope: ScopeV, operand: JsonV, op: Seq<char>)
    ensures
        !(operand is String) && !(operand is Array) ==> scope.other_column(operand, op) == Err::<
            Seq<char>,
            ErrorV,
        >(
            said(
                "the \""@ + op
                    + "\" comparison takes the name of a column, written as a string"@,
            ),
        ),
        operand is Array && operand->Array_0.len() == 0 ==> scope.other_column(operand, op)
            == Err::<Seq<char>, ErrorV>(
            said(
                "the \""@ + op
                    + "\" comparison takes the name of a column, or [\"$\", \"a column\"]"@,
            ),
        ),
        operand is Array && operand->Array_0.len() > 2 ==> scope.other_column(operand, op) == Err::<
            Seq<char>,
            ErrorV,
        >(
            said(
                "the \""@ + op
                    + "\" comparison takes the name of a column, or [\"$\", \"a column\"]"@,
            ),
        ),
{
}

// ---------------------------------------------------------------------------
// Orders
// ---------------------------------------------------------------------------

/// An order is by a column the table has, in a direction there is.
pub proof fn law_orders_have_to_fit(
    src: Sources<'_>,
    table: Table,
    reference: Seq<char>,
    key: Seq<char>,
    word: Seq<char>,
)
    ensures
        paired(src.words.directions@, word) is None ==> field_term(
            src,
            table,
            reference,
            key,
            word,
        ) == Err::<(Seq<char>, Seq<char>), ErrorV>(
            said(
                "\""@ + word
                    + "\" is not a sort direction; expected one of asc, desc, asc_nulls_first, asc_nulls_last, desc_nulls_first, desc_nulls_last"@,
            ),
        ),
        paired(src.words.directions@, word) is Some && table.column(
            crate::catalog::column_behind(*src.names, table.schema@, table.name@, key),
        ) is None && crate::catalog::computed_behind(*src.names, table, key) is None
            ==> field_term(src, table, reference, key, word) == Err::<
            (Seq<char>, Seq<char>),
            ErrorV,
        >(
            said(
                "cannot order by unknown column \""@ + key + "\" on \""@ + table.name@ + "\""@,
            ),
        ),
{
}

/// What is to order rows is an object or a list of them, and each is one.
pub proof fn law_orders_are_objects(
    value: JsonV,
    src: Sources<'_>,
    schema: Seq<char>,
    table: Seq<char>,
    typename: Seq<char>,
    reference: Seq<char>,
    found: Table,
    terms: Seq<(Seq<char>, Seq<char>)>,
    aliases: usize,
)
    ensures
        !(value is Null) && !(value is Array) && !(value is Object) ==> order_by_clause(
            Some(value),
            src,
            schema,
            table,
            typename,
            reference,
        ) == Err::<Seq<char>, ErrorV>(said("order_by takes an object or a list of them"@)),
        value is Object && src.cache.table(schema, table) is None ==> order_by_clause(
            Some(value),
            src,
            schema,
            table,
            typename,
            reference,
        ) == Err::<Seq<char>, ErrorV>(said("unknown table \""@ + table + "\""@)),
        value is Object && src.cache.table(schema, table) is None ==> embedded_ordering(
            value,
            src,
            schema,
            table,
            reference,
        ) == Err::<Option<Seq<char>>, ErrorV>(said("unknown table \""@ + table + "\""@)),
        !(value is Object) ==> ordering(value, src, typename, found, reference, terms, aliases)
            == Err::<
            (Seq<(Seq<char>, Seq<char>)>, usize),
            (ErrorV, Seq<(Seq<char>, Seq<char>)>, usize),
        >(
            (
                said("each order_by entry is an object mapping a column to a direction"@),
                terms,
                aliases,
            ),
        ),
{
}

/// An order by numbers of related rows is an object, and the rows are reached by
/// a key or by a function without arguments.
pub proof fn law_orders_by_numbers_have_to_fit(
    value: JsonV,
    rel: RelationshipField,
    src: Sources<'_>,
    reference: Seq<char>,
    terms: Seq<(Seq<char>, Seq<char>)>,
    aliases: usize,
)
    ensures
        ({
            let r = aggregate_ordering(value, rel, src, reference, terms, aliases);
            &&& !(value is Object) ==> r == Err::<
                (Seq<(Seq<char>, Seq<char>)>, usize),
                (ErrorV, Seq<(Seq<char>, Seq<char>)>, usize),
            >(
                (
                    said("ordering by an aggregate takes an object, such as {count: desc}"@),
                    terms,
                    aliases,
                ),
            )
            &&& value is Object && (rel.relationship.plan matches Ok(plan) && plan.columns@.len()
                == 0 && plan.function is None) ==> r == Err::<
                (Seq<(Seq<char>, Seq<char>)>, usize),
                (ErrorV, Seq<(Seq<char>, Seq<char>)>, usize),
            >(
                (
                    said(
                        "cannot order by an aggregate of \""@ + rel.name@
                            + "\": it is not reached by a key"@,
                    ),
                    terms,
                    aliases,
                ),
            )
            &&& value is Object && (rel.relationship.plan matches Ok(plan)
                && plan.function is Some) && rel.arguments@.len() > 0 ==> r == Err::<
                (Seq<(Seq<char>, Seq<char>)>, usize),
                (ErrorV, Seq<(Seq<char>, Seq<char>)>, usize),
            >(
                (
                    said(
                        "cannot order by an aggregate of \""@ + rel.name@
                            + "\": it takes arguments, and an ordering has nowhere to write them"@,
                    ),
                    terms,
                    aliases,
                ),
            )
        }),
{
}

/// An order by what is neither a column nor a relationship to one row is refused,
/// and so is one by a row that no key leads to.
pub proof fn law_orders_by_other_rows_have_to_fit(
    key: Seq<char>,
    value: JsonV,
    src: Sources<'_>,
    typename: Seq<char>,
    table: Table,
    reference: Seq<char>,
    terms: Seq<(Seq<char>, Seq<char>)>,
    aliases: usize,
)
    requires
        !(value is Null),
        !(value is String),
        crate::ordering::aggregated_list(crate::ordering::available(src, typename), key) is None,
    ensures
        ({
            let r = key_ordering(key, value, src, typename, table, reference, terms, aliases);
            match crate::ordering::of_kind(
                crate::ordering::available(src, typename),
                key,
                false,
            ) {
                None => r == Err::<
                    (Seq<(Seq<char>, Seq<char>)>, usize),
                    (ErrorV, Seq<(Seq<char>, Seq<char>)>, usize),
                >(
                    (
                        said("cannot order by \""@ + key + "\" on \""@ + table.name@ + "\""@),
                        terms,
                        aliases,
                    ),
                ),
                Some(rel) => (rel.relationship.plan matches Ok(plan) && plan.columns@.len() == 0)
                    ==> r == Err::<
                    (Seq<(Seq<char>, Seq<char>)>, usize),
                    (ErrorV, Seq<(Seq<char>, Seq<char>)>, usize),
                >(
                    (
                        said("cannot order by \""@ + key + "\": it is not reached by a key"@),
                        terms,
                        aliases,
                    ),
                ),
            }
        }),
{
}

/// One row of each group is kept by columns the table has, and the order begins
/// with them.
pub proof fn law_groups_have_to_fit(
    columns: Seq<Seq<char>>,
    written: Seq<char>,
    field: Seq<char>,
    src: Sources<'_>,
    table: Table,
    table_name: Seq<char>,
    alias: Option<Seq<char>>,
)
    ensures
        columns.len() > 0 && !crate::ordering::leads_with(
            crate::text::split_text(written, ", "@),
            columns,
        ) ==> distinct_clause(columns, Some(written)) == Err::<
            (Seq<char>, Option<Seq<char>>),
            ErrorV,
        >(invalid("\"distinct_on\" columns must match initial \"order_by\" columns"@)),
        table.column(
            crate::catalog::column_behind(*src.names, table.schema@, table.name@, field),
        ) is None ==> distinct_columns(
            seq![field],
            0,
            src,
            table,
            table_name,
            alias,
            Seq::empty(),
        ) == Err::<Seq<Seq<char>>, ErrorV>(
            said(
                "cannot take distinct on unknown column \""@ + field + "\" of \""@ + table_name
                    + "\""@,
            ),
        ),
{
    let one = seq![field];
    assert(one[0] == field);
}

/// A read by key of a table that has none is refused.
pub proof fn law_reads_by_key_need_one(
    field: ReadField,
    names: NameOverrides,
    args: JsonV,
    before: Seq<JsonV>,
)
    requires
        field.pk_columns@.len() == 0,
    ensures
        key_filter(field, names, args, before) == Err::<(Seq<char>, Seq<JsonV>), ErrorV>(
            said(
                "\""@ + field.table_name@
                    + "\" has no primary key, so it cannot be queried by key"@,
            ),
        ),
{
}

// ---------------------------------------------------------------------------
// Writes
// ---------------------------------------------------------------------------

/// An update's operators are those there are, each of an object, and a path is a
/// list of keys.
pub proof fn law_operators_have_to_fit(
    op: Seq<char>,
    column: Seq<char>,
    value: JsonV,
    types: Seq<(Seq<char>, Seq<char>)>,
    at: BindsV,
    ws: WriteSources<'_>,
    schema: Seq<char>,
    table: Seq<char>,
    presets: Seq<(Seq<char>, JsonV)>,
    set: SetV,
)
    ensures
        op != "_set"@ && op != "_inc"@ && op != "_append"@ && op != "_prepend"@ && op
            != "_delete_key"@ && op != "_delete_elem"@ && op != "_delete_at_path"@ ==> assignment(
            op,
            column,
            value,
            types,
            at,
        ) == Err::<(Seq<char>, BindsV), (ErrorV, BindsV)>(
            (said("unsupported update operator \""@ + op + "\""@), at),
        ),
        !(value is Array) ==> assignment("_delete_at_path"@, column, value, types, at) == Err::<
            (Seq<char>, BindsV),
            (ErrorV, BindsV),
        >(
            (
                said("\"_delete_at_path\" on \""@ + column + "\" takes a list of keys"@),
                at,
            ),
        ),
        !(value is Object) ==> operators_set(
            seq![(op, value)],
            0,
            ws,
            schema,
            table,
            presets,
            types,
            set,
        ) == Err::<SetV, ErrorV>(
            said("\""@ + op + "\" takes an object mapping columns to values"@),
        ),
{
    let one = seq![(op, value)];
    assert(one[0] == (op, value));
    reveal_strlit("_delete_at_path");
    reveal_strlit("_set");
    reveal_strlit("_inc");
    reveal_strlit("_append");
    reveal_strlit("_prepend");
    reveal_strlit("_delete_key");
    reveal_strlit("_delete_elem");
    assert("_delete_at_path"@.len() == 15 && "_set"@.len() == 4 && "_inc"@.len() == 4
        && "_append"@.len() == 7 && "_prepend"@.len() == 8 && "_delete_key"@.len() == 11
        && "_delete_elem"@.len() == 12);
}

/// A shape that is not one is refused as it is set.
pub proof fn law_bad_shapes_are_not_set(
    column: Seq<char>,
    value: JsonV,
    t: Seq<char>,
    at: BindsV,
)
    requires
        t == "geometry"@ || t == "geography"@,
        crate::geojson::shape_fault(value) is Some,
    ensures
        assignment("_set"@, column, value, seq![(column, t)], at) == Err::<
            (Seq<char>, BindsV),
            (ErrorV, BindsV),
        >(
            (
                ErrorV {
                    message: crate::geojson::shape_fault(value)->0,
                    code: Some("parse-failed"@),
                    path: None,
                },
                at,
            ),
        ),
{
    let types = seq![(column, t)];
    assert(types[0] == (column, t));
    assert(crate::projection::second_of(types, column) == Some(t));
}

/// A column is changed once in an update.
pub proof fn law_columns_are_not_written_twice(
    op: Seq<char>,
    field: Seq<char>,
    value: JsonV,
    ws: WriteSources<'_>,
    schema: Seq<char>,
    table: Seq<char>,
    presets: Seq<(Seq<char>, JsonV)>,
    types: Seq<(Seq<char>, Seq<char>)>,
    set: SetV,
)
    requires
        crate::text::has_text(
            set.written,
            crate::catalog::column_behind(*ws.src.names, schema, table, field),
        ),
        !crate::statement::is_preset(
            presets,
            crate::catalog::column_behind(*ws.src.names, schema, table, field),
        ),
    ensures
        columns_set(op, seq![(field, value)], 0, ws, schema, table, presets, types, set) == Err::<
            SetV,
            ErrorV,
        >(
            said(
                "\""@ + crate::catalog::column_behind(*ws.src.names, schema, table, field)
                    + "\" is written twice in one update; a column may be changed by one operator at a time"@,
            ),
        ),
{
    let one = seq![(field, value)];
    assert(one[0] == (field, value));
}

/// A delete of every row is refused in so many words.
pub proof fn law_an_unbounded_delete_is_told(
    ws: WriteSources<'_>,
    schema: Seq<char>,
    table: Seq<char>,
    typename: Seq<char>,
)
    ensures
        deleted_rows(ws, schema, table, typename, None) == Err::<(Seq<char>, Seq<JsonV>), ErrorV>(
            said(
                "delete"@ + " on \""@ + table
                    + "\" requires a `where` argument with at least one recognised condition; refusing to "@
                    + "delete"@ + " every row"@,
            ),
        ),
        crate::statement::unbounded_refusal("update"@, table) == said(
            "update"@ + " on \""@ + table
                + "\" requires a `where` argument with at least one recognised condition; refusing to "@
                + "update"@ + " every row"@,
        ),
{
}

/// A conflict is resolved against a constraint the table has, and no column goes
/// by the word that stands for none.
pub proof fn law_conflicts_have_to_fit(
    ws: WriteSources<'_>,
    table: Table,
    schema: Seq<char>,
    name: Seq<char>,
    types: Seq<(Seq<char>, Seq<char>)>,
    spec: JsonV,
    path: Seq<char>,
    start: usize,
)
    requires
        spec is Object,
    ensures
        ({
            let r = conflict_clause(ws, table, schema, name, types, Some(spec), path, start);
            match spec.get("constraint"@) {
                Some(JsonV::String(constraint)) => {
                    &&& !crate::statement::is_constraint(table.unique_constraints@, constraint)
                        ==> r == Err::<(Seq<char>, Seq<JsonV>), ErrorV>(
                        said(
                            "\""@ + constraint + "\" is not a unique constraint of \""@ + name
                                + "\""@,
                        ),
                    )
                    &&& crate::statement::is_constraint(table.unique_constraints@, constraint)
                        && crate::text::has_text(
                        crate::statement::updated_fields(spec),
                        "_PLACEHOLDER"@,
                    ) ==> r == Err::<(Seq<char>, Seq<JsonV>), ErrorV>(
                        ErrorV {
                            message: "erroneous column name"@,
                            code: Some("validation-failed"@),
                            path: Some(path),
                        },
                    )
                },
                _ => r == Err::<(Seq<char>, Seq<JsonV>), ErrorV>(
                    said("on_conflict needs a constraint to resolve against"@),
                ),
            }
        }),
{
}

/// A row begins in a table there is; rows beside it are objects; and the keys it
/// gets from its parent are not given to it otherwise.
pub proof fn law_nested_rows_have_to_fit(
    ws: WriteSources<'_>,
    schema: Seq<char>,
    table: Seq<char>,
    object: Seq<(Seq<char>, JsonV)>,
    place: PlaceV,
    nested: NestedV,
    plan: EmbedPlan,
    parent: JsonV,
    path: Seq<char>,
)
    ensures
        ws.src.cache.table(schema, table) is None ==> begun(ws, schema, table, object, place)
            == Err::<FrameV, ErrorV>(said("unknown table \""@ + table + "\""@)),
        nested.data is Bool || nested.data is Number || nested.data is String ==> children_of(
            nested,
        ) == Err::<Seq<JsonV>, ErrorV>(
            said("\""@ + nested.relationship.name@ + "\" takes objects to insert"@),
        ),
        plan.columns@.len() > 0 && JsonV::Object(object).present(plan.columns@[0].1@) is Some
            ==> keys_given(plan, 0, parent, object, path) == Err::<
            Seq<(Seq<char>, JsonV)>,
            ErrorV,
        >(
            ErrorV {
                message: "cannot insert \""@ + plan.columns@[0].1@
                    + "\" columns as their values are already being determined by parent insert"@,
                code: Some("validation-failed"@),
                path: Some(path),
            },
        ),
{
}

/// A row that fails the check of its rule is refused where the rows were given.
pub proof fn law_failed_checks_are_told(state: InsertionV, row: JsonV)
    requires
        state.frames.len() > 0,
        state.frames.last().checked,
    ensures
        answered(state, Some((row, false))) == Err::<(InsertionV, StepV), (ErrorV, InsertionV)>(
            (
                ErrorV {
                    message: "check constraint of an insert/update permission has failed"@,
                    code: Some("permission-error"@),
                    path: Some(state.frames.last().place.objects),
                },
                state,
            ),
        ),
{
}

// ---------------------------------------------------------------------------
// Entities and paths
// ---------------------------------------------------------------------------

/// What kind of value a document is, in words.
pub open spec fn kind(value: JsonV) -> Seq<char> {
    if value is Null {
        "null"@
    } else if value is Bool {
        "a boolean"@
    } else if value is Number {
        "a number"@
    } else if value is String {
        "a string"@
    } else if value is Array {
        "an array"@
    } else {
        "an object"@
    }
}

/// A key that does not fit its column is refused by the type, the field and what
/// was found there.
pub proof fn law_keys_have_to_fit(typename: Seq<char>, column: EntityKeyColumnV, value: JsonV)
    ensures
        column.explicit_id && normal_id(value, column.pg_type) is None ==> key_value(
            typename,
            column,
            value,
        ) == Err::<JsonV, ErrorV>(
            said(
                "entity representation for \""@ + typename + "\" has invalid key field \""@
                    + column.field_name + "\": expected "@
                    + ("an ID compatible with PostgreSQL type \""@ + column.pg_type + "\""@)
                    + ", found "@ + kind(value),
            ),
        ),
        !column.explicit_id && normal_value(value, column.pg_type) is None ==> key_value(
            typename,
            column,
            value,
        ) == Err::<JsonV, ErrorV>(
            said(
                "entity representation for \""@ + typename + "\" has invalid key field \""@
                    + column.field_name + "\": expected "@
                    + ("a value compatible with PostgreSQL type \""@ + column.pg_type + "\""@)
                    + ", found "@ + kind(value),
            ),
        ),
{
}

/// A representation is an object that names its type and gives its key.
pub proof fn law_representations_have_to_fit(
    value: JsonV,
    column: EntityKeyColumnV,
    typename: Seq<char>,
)
    ensures
        !(value is Object) ==> represented_type(value) == Err::<Seq<char>, ErrorV>(
            said("entity representation must be an object"@),
        ),
        value is Object && !(value.get("__typename"@) matches Some(JsonV::String(_)))
            ==> represented_type(value) == Err::<Seq<char>, ErrorV>(
            said("entity representation is missing __typename"@),
        ),
        value.get(column.field_name) is None ==> key_from(
            value,
            seq![column],
            0,
            typename,
            Seq::empty(),
        ) == Err::<Seq<JsonV>, ErrorV>(
            said(
                "entity representation for \""@ + typename + "\" is missing key field \""@
                    + column.field_name + "\""@,
            ),
        ),
{
    let one = seq![column];
    assert(one[0] == column);
}

/// An entity that was not found is refused by its type.
pub proof fn law_missing_entities_are_told(lookup: EntityLookupV, representation: JsonV)
    requires
        crate::entity::entity_key(
            representation,
            lookup.key_columns,
            lookup.typename,
        ) is Ok,
    ensures
        entity_rows_of(lookup, Seq::empty(), seq![representation]) == Err::<Seq<JsonV>, ErrorV>(
            said(
                "entity \""@ + lookup.typename + "\" could not be resolved from its key"@,
            ),
        ),
{
    let one = seq![representation];
    assert(one[0] == representation);
}

/// A path whose bracket never closes is refused.
pub proof fn law_brackets_have_to_close(path: Seq<char>)
    ensures
        path_steps(path) is None ==> parsed(path) == Err::<Seq<PathStepV>, ErrorV>(
            invalid("\""@ + path + "\" is not a JSON path: a bracket is never closed"@),
        ),
        path_steps(path) matches Some(steps) ==> parsed(path) == Ok::<Seq<PathStepV>, ErrorV>(
            steps,
        ),
{
}

} // verus!

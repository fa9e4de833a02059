//! What rows are ordered by, and kept apart by.

use crate::catalog::{column_behind, computed_behind, EmbedPlan, RelationshipField, Table};
use crate::computed::computed_sql;
use crate::embed::Selected;
use crate::error::ErrorV;
use crate::json::JsonV;
use crate::lookup::paired;
use crate::ordering::{
    aggregate_ordering, aggregated_list, available, column_terms, distinct_clause, distinct_columns,
    distinct_on, embedded_ordering, field_term, function_terms, key_ordering, names_in, of_kind,
    order_by_clause, ordering, ordering_from, orderings_from, plain_entries, plain_keys,
    wrapped_terms, written_terms, TermsV,
};
use crate::read::{read_order, source_reference, ReadField};
use crate::scope::Sources;
use crate::text::{decimal, ident, ident2, joined, stripped_prefix};
use vstd::prelude::*;

verus! {

// ---------------------------------------------------------------------------
// Columns
// ---------------------------------------------------------------------------

/// Rows are ordered by a column of theirs, in the direction its word is, or by
/// a computed field, which is the call that computes it. A word that is no
/// direction is refused, and so is a name that is neither.
pub proof fn law_a_column_is_ordered_by(
    src: Sources<'_>,
    table: Table,
    reference: Seq<char>,
    key: Seq<char>,
    word: Seq<char>,
)
    ensures
        ({
            let column = column_behind(*src.names, table.schema@, table.name@, key);
            let direction = paired(src.words.directions@, word);
            let r = field_term(src, table, reference, key, word);
            &&& direction is None ==> r is Err
            &&& direction is Some && table.column(column) is Some ==> r == Ok::<
                (Seq<char>, Seq<char>),
                ErrorV,
            >((reference + "."@ + ident(column), direction->0))
            &&& direction is Some && table.column(column) is None ==> (match computed_behind(
                *src.names,
                table,
                key,
            ) {
                Some(definition) => r == Ok::<(Seq<char>, Seq<char>), ErrorV>(
                    (computed_sql(definition, reference + ".*"@, reference), direction->0),
                ),
                None => r is Err,
            })
        }),
{
}

/// Terms after those that there are.
pub open spec fn terms_after(terms: Seq<(Seq<char>, Seq<char>)>, more: TermsV) -> TermsV {
    match more {
        Ok((found, last)) => Ok((terms + found, last)),
        Err((e, found, last)) => Err((e, terms + found, last)),
    }
}

proof fn lemma_column_terms_after(
    src: Sources<'_>,
    columns: Seq<(Seq<char>, JsonV)>,
    i: nat,
    function: Seq<char>,
    source: Seq<char>,
    alias: Seq<char>,
    correlation: Seq<char>,
    before: Seq<(Seq<char>, Seq<char>)>,
    terms: Seq<(Seq<char>, Seq<char>)>,
)
    ensures
        column_terms(src, columns, i, function, source, alias, correlation, before + terms) == (
        match column_terms(src, columns, i, function, source, alias, correlation, terms) {
            Ok(found) => Ok(before + found),
            Err((e, found)) => Err((e, before + found)),
        }),
    decreases columns.len() - i,
{
    if i < columns.len() {
        if columns[i as int].1 is Null {
            lemma_column_terms_after(
                src,
                columns,
                i + 1,
                function,
                source,
                alias,
                correlation,
                before,
                terms,
            );
        } else {
            match paired(
                src.words.directions@,
                crate::ordering::text_or_empty(columns[i as int].1),
            ) {
                None => {},
                Some(direction) => {
                    let term = (
                        crate::ordering::subselect(
                            function + "("@ + alias + "."@ + ident(columns[i as int].0) + ")"@,
                            source,
                            alias,
                            correlation,
                        ),
                        direction,
                    );
                    assert((before + terms).push(term) =~= before + terms.push(term));
                    lemma_column_terms_after(
                        src,
                        columns,
                        i + 1,
                        function,
                        source,
                        alias,
                        correlation,
                        before,
                        terms.push(term),
                    );
                },
            }
        }
    }
}

proof fn lemma_function_terms_after(
    src: Sources<'_>,
    spec: Seq<(Seq<char>, JsonV)>,
    i: nat,
    source: Seq<char>,
    alias: Seq<char>,
    correlation: Seq<char>,
    before: Seq<(Seq<char>, Seq<char>)>,
    terms: Seq<(Seq<char>, Seq<char>)>,
)
    ensures
        function_terms(src, spec, i, source, alias, correlation, before + terms) == (
        match function_terms(src, spec, i, source, alias, correlation, terms) {
            Ok(found) => Ok(before + found),
            Err((e, found)) => Err((e, before + found)),
        }),
    decreases spec.len() - i,
{
    if i < spec.len() {
        if spec[i as int].1 is Null {
            lemma_function_terms_after(
                src,
                spec,
                i + 1,
                source,
                alias,
                correlation,
                before,
                terms,
            );
        } else if spec[i as int].0 == "count"@ {
            match paired(src.words.directions@, crate::ordering::text_or_empty(spec[i as int].1)) {
                None => {},
                Some(direction) => {
                    let term = (
                        crate::ordering::subselect("count(*)"@, source, alias, correlation),
                        direction,
                    );
                    assert((before + terms).push(term) =~= before + terms.push(term));
                    lemma_function_terms_after(
                        src,
                        spec,
                        i + 1,
                        source,
                        alias,
                        correlation,
                        before,
                        terms.push(term),
                    );
                },
            }
        } else {
            match spec[i as int].1 {
                JsonV::Object(columns) => {
                    lemma_column_terms_after(
                        src,
                        columns,
                        0,
                        spec[i as int].0,
                        source,
                        alias,
                        correlation,
                        before,
                        terms,
                    );
                    match column_terms(
                        src,
                        columns,
                        0,
                        spec[i as int].0,
                        source,
                        alias,
                        correlation,
                        terms,
                    ) {
                        Ok(more) => {
                            lemma_function_terms_after(
                                src,
                                spec,
                                i + 1,
                                source,
                                alias,
                                correlation,
                                before,
                                more,
                            );
                        },
                        Err(_) => {},
                    }
                },
                _ => {
                    lemma_function_terms_after(
                        src,
                        spec,
                        i + 1,
                        source,
                        alias,
                        correlation,
                        before,
                        terms,
                    );
                },
            }
        }
    }
}

proof fn lemma_wrapped_after(
    nested: Seq<(Seq<char>, Seq<char>)>,
    i: nat,
    plan: EmbedPlan,
    alias: Seq<char>,
    correlation: Seq<char>,
    before: Seq<(Seq<char>, Seq<char>)>,
    terms: Seq<(Seq<char>, Seq<char>)>,
)
    ensures
        wrapped_terms(nested, i, plan, alias, correlation, before + terms) == before
            + wrapped_terms(nested, i, plan, alias, correlation, terms),
    decreases nested.len() - i,
{
    if i < nested.len() {
        let term = crate::ordering::wrapped_term(nested[i as int], plan, alias, correlation);
        assert((before + terms).push(term) =~= before + terms.push(term));
        lemma_wrapped_after(nested, i + 1, plan, alias, correlation, before, terms.push(term));
    }
}

proof fn lemma_key_after(
    key: Seq<char>,
    value: JsonV,
    src: Sources<'_>,
    typename: Seq<char>,
    table: Table,
    reference: Seq<char>,
    terms: Seq<(Seq<char>, Seq<char>)>,
    aliases: usize,
)
    ensures
        key_ordering(key, value, src, typename, table, reference, terms, aliases) == terms_after(
            terms,
            key_ordering(key, value, src, typename, table, reference, Seq::empty(), aliases),
        ),
{
    let none = Seq::<(Seq<char>, Seq<char>)>::empty();
    assert(terms + none =~= terms);
    match value {
        JsonV::Null => {},
        JsonV::String(name) => match field_term(src, table, reference, key, name) {
            Ok(term) => {
                assert(terms.push(term) =~= terms + none.push(term));
            },
            Err(_) => {},
        },
        _ => match aggregated_list(available(src, typename), key) {
            Some(rel) => {
                match (value, rel.relationship.plan) {
                    (JsonV::Object(spec), Ok(plan)) => {
                        let alias = ident(
                            crate::condition::alias_of(
                                "pgrst_ord_"@,
                                crate::binds::following(aliases),
                            ),
                        );
                        let (source, correlation) = crate::ordering::aggregate_source(
                            plan,
                            src,
                            reference,
                            alias,
                        );
                        lemma_function_terms_after(
                            src,
                            spec,
                            0,
                            source,
                            alias,
                            correlation,
                            terms,
                            none,
                        );
                    },
                    _ => {},
                }
            },
            None => match of_kind(available(src, typename), key, false) {
                None => {},
                Some(rel) => match rel.relationship.plan {
                    Err(_) => {},
                    Ok(plan) => {
                        let number = crate::binds::following(aliases);
                        let alias = ident(crate::condition::alias_of("pgrst_ord_"@, number));
                        match src.cache.table(plan.foreign_schema@, plan.foreign_table@) {
                            None => {},
                            Some(target) => match ordering(
                                value,
                                src,
                                rel.target_type@,
                                target,
                                alias,
                                none,
                                number,
                            ) {
                                Err(_) => {},
                                Ok((nested, last)) => {
                                    lemma_wrapped_after(
                                        nested,
                                        0,
                                        plan,
                                        alias,
                                        joined(
                                            crate::ordering::key_conditions(
                                                plan,
                                                reference,
                                                alias,
                                            ),
                                            " AND "@,
                                        ),
                                        terms,
                                        none,
                                    );
                                },
                            },
                        }
                    },
                },
            },
        },
    }
}

proof fn lemma_keys_after(
    keys: Seq<(Seq<char>, JsonV)>,
    i: nat,
    src: Sources<'_>,
    typename: Seq<char>,
    table: Table,
    reference: Seq<char>,
    terms: Seq<(Seq<char>, Seq<char>)>,
    aliases: usize,
)
    ensures
        ordering_from(keys, i, src, typename, table, reference, terms, aliases) == terms_after(
            terms,
            ordering_from(keys, i, src, typename, table, reference, Seq::empty(), aliases),
        ),
    decreases keys.len() - i,
{
    let none = Seq::<(Seq<char>, Seq<char>)>::empty();
    if i >= keys.len() {
        assert(terms + none =~= terms);
    } else {
        let (key, value) = keys[i as int];
        lemma_key_after(key, value, src, typename, table, reference, terms, aliases);
        match key_ordering(key, value, src, typename, table, reference, none, aliases) {
            Err(_) => {},
            Ok((found, last)) => {
                lemma_keys_after(
                    keys,
                    i + 1,
                    src,
                    typename,
                    table,
                    reference,
                    terms + found,
                    last,
                );
                lemma_keys_after(keys, i + 1, src, typename, table, reference, found, last);
                match ordering_from(keys, i + 1, src, typename, table, reference, none, last) {
                    Ok((more, end)) => {
                        assert((terms + found) + more =~= terms + (found + more));
                    },
                    Err((e, more, end)) => {
                        assert((terms + found) + more =~= terms + (found + more));
                    },
                }
            },
        }
    }
}

proof fn lemma_keys_shifted(
    a: Seq<(Seq<char>, JsonV)>,
    b: Seq<(Seq<char>, JsonV)>,
    j: nat,
    src: Sources<'_>,
    typename: Seq<char>,
    table: Table,
    reference: Seq<char>,
    terms: Seq<(Seq<char>, Seq<char>)>,
    aliases: usize,
)
    ensures
        ordering_from(a + b, a.len() + j, src, typename, table, reference, terms, aliases)
            == ordering_from(b, j, src, typename, table, reference, terms, aliases),
    decreases b.len() - j,
{
    if j < b.len() {
        assert((a + b)[(a.len() + j) as int] == b[j as int]);
        let (key, value) = b[j as int];
        match key_ordering(key, value, src, typename, table, reference, terms, aliases) {
            Ok((more, last)) => {
                lemma_keys_shifted(a, b, j + 1, src, typename, table, reference, more, last);
            },
            Err(_) => {},
        }
    }
}

proof fn lemma_keys_split(
    a: Seq<(Seq<char>, JsonV)>,
    b: Seq<(Seq<char>, JsonV)>,
    i: nat,
    src: Sources<'_>,
    typename: Seq<char>,
    table: Table,
    reference: Seq<char>,
    terms: Seq<(Seq<char>, Seq<char>)>,
    aliases: usize,
)
    requires
        i <= a.len(),
    ensures
        ordering_from(a + b, i, src, typename, table, reference, terms, aliases) == (
        match ordering_from(a, i, src, typename, table, reference, terms, aliases) {
            Ok((found, last)) => ordering_from(
                b,
                0,
                src,
                typename,
                table,
                reference,
                found,
                last,
            ),
            Err(e) => Err(e),
        }),
    decreases a.len() - i,
{
    if i < a.len() {
        assert((a + b)[i as int] == a[i as int]);
        let (key, value) = a[i as int];
        match key_ordering(key, value, src, typename, table, reference, terms, aliases) {
            Ok((more, last)) => {
                lemma_keys_split(a, b, i + 1, src, typename, table, reference, more, last);
            },
            Err(_) => {},
        }
    } else {
        lemma_keys_shifted(a, b, 0, src, typename, table, reference, terms, aliases);
    }
}

/// An ordering by several keys is by the first of them first, and by each after
/// those before it. One by no key is none.
pub proof fn law_keys_are_ordered_by_in_turn(
    a: Seq<(Seq<char>, JsonV)>,
    b: Seq<(Seq<char>, JsonV)>,
    src: Sources<'_>,
    typename: Seq<char>,
    table: Table,
    reference: Seq<char>,
    aliases: usize,
)
    ensures
        ordering(
            JsonV::Object(Seq::empty()),
            src,
            typename,
            table,
            reference,
            Seq::empty(),
            aliases,
        ) matches Ok((none, last)) && none.len() == 0 && last == aliases,
        ordering(
            JsonV::Object(a + b),
            src,
            typename,
            table,
            reference,
            Seq::empty(),
            aliases,
        ) == (match ordering(
            JsonV::Object(a),
            src,
            typename,
            table,
            reference,
            Seq::empty(),
            aliases,
        ) {
            Err(e) => Err(e),
            Ok((first, last)) => terms_after(
                first,
                ordering(
                    JsonV::Object(b),
                    src,
                    typename,
                    table,
                    reference,
                    Seq::empty(),
                    last,
                ),
            ),
        }),
{
    let none = Seq::<(Seq<char>, Seq<char>)>::empty();
    let nothing = Seq::<(Seq<char>, JsonV)>::empty();
    assert(ordering_from(nothing, 0, src, typename, table, reference, none, aliases) == Ok::<
        (Seq<(Seq<char>, Seq<char>)>, usize),
        (ErrorV, Seq<(Seq<char>, Seq<char>)>, usize),
    >((none, aliases)));
    lemma_keys_split(a, b, 0, src, typename, table, reference, none, aliases);
    match ordering_from(a, 0, src, typename, table, reference, none, aliases) {
        Ok((first, last)) => {
            lemma_keys_after(b, 0, src, typename, table, reference, first, last);
        },
        Err(_) => {},
    }
}

proof fn lemma_one_key(
    key: Seq<char>,
    value: JsonV,
    src: Sources<'_>,
    typename: Seq<char>,
    table: Table,
    reference: Seq<char>,
    aliases: usize,
)
    ensures
        ordering(
            JsonV::Object(seq![(key, value)]),
            src,
            typename,
            table,
            reference,
            Seq::empty(),
            aliases,
        ) == key_ordering(
            key,
            value,
            src,
            typename,
            table,
            reference,
            Seq::empty(),
            aliases,
        ),
{
    let keys = seq![(key, value)];
    let none = Seq::<(Seq<char>, Seq<char>)>::empty();
    assert(keys[0] == (key, value));
    match key_ordering(key, value, src, typename, table, reference, none, aliases) {
        Ok((found, last)) => {
            assert(ordering_from(keys, 1, src, typename, table, reference, found, last) == Ok::<
                (Seq<(Seq<char>, Seq<char>)>, usize),
                (ErrorV, Seq<(Seq<char>, Seq<char>)>, usize),
            >((found, last)));
        },
        Err(_) => {},
    }
    assert(ordering_from(keys, 0, src, typename, table, reference, none, aliases) == key_ordering(
        key,
        value,
        src,
        typename,
        table,
        reference,
        none,
        aliases,
    ));
}

/// A key with a direction orders by its column, and one with none by nothing.
pub proof fn law_a_key_orders_by_its_column(
    key: Seq<char>,
    word: Seq<char>,
    src: Sources<'_>,
    typename: Seq<char>,
    table: Table,
    reference: Seq<char>,
    aliases: usize,
)
    ensures
        ordering(
            JsonV::Object(seq![(key, JsonV::Null)]),
            src,
            typename,
            table,
            reference,
            Seq::empty(),
            aliases,
        ) matches Ok((none, last)) && none.len() == 0 && last == aliases,
        ordering(
            JsonV::Object(seq![(key, JsonV::String(word))]),
            src,
            typename,
            table,
            reference,
            Seq::empty(),
            aliases,
        ) == (match field_term(src, table, reference, key, word) {
            Ok(term) => Ok((seq![term], aliases)),
            Err(e) => Err((e, Seq::<(Seq<char>, Seq<char>)>::empty(), aliases)),
        }),
{
    lemma_one_key(key, JsonV::Null, src, typename, table, reference, aliases);
    lemma_one_key(key, JsonV::String(word), src, typename, table, reference, aliases);
    let none = Seq::<(Seq<char>, Seq<char>)>::empty();
    match field_term(src, table, reference, key, word) {
        Ok(term) => {
            assert(none.push(term) =~= seq![term]);
        },
        Err(_) => {},
    }
}

// ---------------------------------------------------------------------------
// Related rows
// ---------------------------------------------------------------------------

/// That the key columns of a related row equal this row's.
pub open spec fn keys_meet(plan: EmbedPlan, reference: Seq<char>, alias: Seq<char>) -> Seq<char> {
    joined(
        Seq::new(
            plan.columns@.len(),
            |i: int|
                reference + "."@ + ident(plan.columns@[i].0@) + " = "@ + alias + "."@ + ident(
                    plan.columns@[i].1@,
                ),
        ),
        " AND "@,
    )
}

proof fn lemma_keys_meet(plan: EmbedPlan, reference: Seq<char>, alias: Seq<char>)
    ensures
        joined(crate::ordering::key_conditions(plan, reference, alias), " AND "@) == keys_meet(
            plan,
            reference,
            alias,
        ),
{
    assert(crate::ordering::key_conditions(plan, reference, alias) =~= Seq::new(
        plan.columns@.len(),
        |i: int|
            reference + "."@ + ident(plan.columns@[i].0@) + " = "@ + alias + "."@ + ident(
                plan.columns@[i].1@,
            ),
    ));
}

/// Rows are ordered by a column of the row they point at: what that row holds,
/// the one whose key columns equal theirs, in the direction that was asked for.
pub proof fn law_rows_are_ordered_by_the_row_they_point_at(
    key: Seq<char>,
    column: Seq<char>,
    word: Seq<char>,
    src: Sources<'_>,
    typename: Seq<char>,
    table: Table,
    reference: Seq<char>,
    rel: RelationshipField,
    plan: EmbedPlan,
    target: Table,
    aliases: usize,
)
    requires
        aggregated_list(available(src, typename), key) is None,
        of_kind(available(src, typename), key, false) == Some(rel),
        rel.relationship.plan == Ok::<EmbedPlan, String>(plan),
        plan.columns@.len() > 0,
        src.cache.table(plan.foreign_schema@, plan.foreign_table@) == Some(target),
        aliases < usize::MAX,
    ensures
        ({
            let alias = ident("pgrst_ord_"@ + decimal((aliases + 1) as nat));
            let inner = JsonV::Object(seq![(column, JsonV::String(word))]);
            let r = ordering(
                JsonV::Object(seq![(key, inner)]),
                src,
                typename,
                table,
                reference,
                Seq::empty(),
                aliases,
            );
            match field_term(src, target, alias, column, word) {
                Err(e) => r == Err::<
                    (Seq<(Seq<char>, Seq<char>)>, usize),
                    (ErrorV, Seq<(Seq<char>, Seq<char>)>, usize),
                >((e, Seq::empty(), (aliases + 1) as usize)),
                Ok((expression, direction)) => r == Ok::<
                    (Seq<(Seq<char>, Seq<char>)>, usize),
                    (ErrorV, Seq<(Seq<char>, Seq<char>)>, usize),
                >(
                    (
                        seq![
                            (
                                "(SELECT "@ + expression + " FROM "@ + ident2(
                                    plan.foreign_schema@,
                                    plan.foreign_table@,
                                ) + " AS "@ + alias + " WHERE "@ + keys_meet(
                                    plan,
                                    reference,
                                    alias,
                                ) + ")"@,
                                direction,
                            ),
                        ],
                        (aliases + 1) as usize,
                    ),
                ),
            }
        }),
{
    let inner = JsonV::Object(seq![(column, JsonV::String(word))]);
    let alias = ident("pgrst_ord_"@ + decimal((aliases + 1) as nat));
    let number = (aliases + 1) as usize;
    lemma_one_key(key, inner, src, typename, table, reference, aliases);
    law_a_key_orders_by_its_column(
        column,
        word,
        src,
        rel.target_type@,
        target,
        alias,
        number,
    );
    lemma_keys_meet(plan, reference, alias);
    let none = Seq::<(Seq<char>, Seq<char>)>::empty();
    let correlation = keys_meet(plan, reference, alias);
    match field_term(src, target, alias, column, word) {
        Ok(term) => {
            let nested = seq![term];
            let wrapped = crate::ordering::wrapped_term(term, plan, alias, correlation);
            assert(nested[0] == term);
            assert(wrapped_terms(nested, 1, plan, alias, correlation, none.push(wrapped))
                == none.push(wrapped));
            assert(wrapped_terms(nested, 0, plan, alias, correlation, none) == none.push(wrapped));
            assert(none.push(wrapped) =~= seq![wrapped]);
        },
        Err(_) => {},
    }
}

/// What an expression is over the related rows: those whose key columns equal
/// this row's.
pub open spec fn over_related(
    expression: Seq<char>,
    plan: EmbedPlan,
    reference: Seq<char>,
    alias: Seq<char>,
) -> Seq<char> {
    "(SELECT "@ + expression + " FROM "@ + ident2(plan.foreign_schema@, plan.foreign_table@)
        + " AS "@ + alias + " WHERE "@ + keys_meet(plan, reference, alias) + ")"@
}

/// Rows are ordered by how many rows point back at them.
pub proof fn law_rows_are_ordered_by_a_count(
    rel: RelationshipField,
    plan: EmbedPlan,
    src: Sources<'_>,
    reference: Seq<char>,
    word: Seq<char>,
    direction: Seq<char>,
    aliases: usize,
)
    requires
        rel.relationship.plan == Ok::<EmbedPlan, String>(plan),
        plan.function is None,
        plan.columns@.len() > 0,
        paired(src.words.directions@, word) == Some(direction),
        aliases < usize::MAX,
    ensures
        aggregate_ordering(
            JsonV::Object(seq![("count"@, JsonV::String(word))]),
            rel,
            src,
            reference,
            Seq::empty(),
            aliases,
        ) == Ok::<
            (Seq<(Seq<char>, Seq<char>)>, usize),
            (ErrorV, Seq<(Seq<char>, Seq<char>)>, usize),
        >(
            (
                seq![
                    (
                        over_related(
                            "count(*)"@,
                            plan,
                            reference,
                            ident("pgrst_ord_"@ + decimal((aliases + 1) as nat)),
                        ),
                        direction,
                    ),
                ],
                (aliases + 1) as usize,
            ),
        ),
{
    let alias = ident("pgrst_ord_"@ + decimal((aliases + 1) as nat));
    let source = ident2(plan.foreign_schema@, plan.foreign_table@);
    let correlation = keys_meet(plan, reference, alias);
    lemma_keys_meet(plan, reference, alias);
    let none = Seq::<(Seq<char>, Seq<char>)>::empty();
    let spec = seq![("count"@, JsonV::String(word))];
    assert(spec[0] == ("count"@, JsonV::String(word)));
    let term = (over_related("count(*)"@, plan, reference, alias), direction);
    assert(term.0 == crate::ordering::subselect("count(*)"@, source, alias, correlation));
    assert(function_terms(src, spec, 1, source, alias, correlation, none.push(term)) == Ok::<
        Seq<(Seq<char>, Seq<char>)>,
        (ErrorV, Seq<(Seq<char>, Seq<char>)>),
    >(none.push(term)));
    assert(none.push(term) =~= seq![term]);
}

/// Rows are ordered by a function of a column of the rows that point back at
/// them.
pub proof fn law_rows_are_ordered_by_a_function(
    rel: RelationshipField,
    plan: EmbedPlan,
    src: Sources<'_>,
    reference: Seq<char>,
    function: Seq<char>,
    column: Seq<char>,
    word: Seq<char>,
    direction: Seq<char>,
    aliases: usize,
)
    requires
        rel.relationship.plan == Ok::<EmbedPlan, String>(plan),
        plan.function is None,
        plan.columns@.len() > 0,
        paired(src.words.directions@, word) == Some(direction),
        function != "count"@,
        aliases < usize::MAX,
    ensures
        ({
            let alias = ident("pgrst_ord_"@ + decimal((aliases + 1) as nat));
            aggregate_ordering(
                JsonV::Object(
                    seq![(function, JsonV::Object(seq![(column, JsonV::String(word))]))],
                ),
                rel,
                src,
                reference,
                Seq::empty(),
                aliases,
            ) == Ok::<
                (Seq<(Seq<char>, Seq<char>)>, usize),
                (ErrorV, Seq<(Seq<char>, Seq<char>)>, usize),
            >(
                (
                    seq![
                        (
                            over_related(
                                function + "("@ + alias + "."@ + ident(column) + ")"@,
                                plan,
                                reference,
                                alias,
                            ),
                            direction,
                        ),
                    ],
                    (aliases + 1) as usize,
                ),
            )
        }),
{
    let alias = ident("pgrst_ord_"@ + decimal((aliases + 1) as nat));
    let source = ident2(plan.foreign_schema@, plan.foreign_table@);
    let correlation = keys_meet(plan, reference, alias);
    lemma_keys_meet(plan, reference, alias);
    let none = Seq::<(Seq<char>, Seq<char>)>::empty();
    let columns = seq![(column, JsonV::String(word))];
    assert(columns[0] == (column, JsonV::String(word)));
    let given = seq![(function, JsonV::Object(columns))];
    assert(given[0] == (function, JsonV::Object(columns)));
    let call = function + "("@ + alias + "."@ + ident(column) + ")"@;
    let term = (over_related(call, plan, reference, alias), direction);
    assert(term.0 == crate::ordering::subselect(call, source, alias, correlation));
    let one = none.push(term);
    lemma_one_column(src, columns, function, source, alias, correlation, call, direction);
    assert(function_terms(src, given, 1, source, alias, correlation, one) == Ok::<
        Seq<(Seq<char>, Seq<char>)>,
        (ErrorV, Seq<(Seq<char>, Seq<char>)>),
    >(one));
    assert(one =~= seq![term]);
}

proof fn lemma_one_column(
    src: Sources<'_>,
    columns: Seq<(Seq<char>, JsonV)>,
    function: Seq<char>,
    source: Seq<char>,
    alias: Seq<char>,
    correlation: Seq<char>,
    call: Seq<char>,
    direction: Seq<char>,
)
    requires
        columns.len() == 1,
        columns[0].1 is String,
        paired(src.words.directions@, columns[0].1->String_0) == Some(direction),
        call == function + "("@ + alias + "."@ + ident(columns[0].0) + ")"@,
    ensures
        column_terms(src, columns, 0, function, source, alias, correlation, Seq::empty()) == Ok::<
            Seq<(Seq<char>, Seq<char>)>,
            (ErrorV, Seq<(Seq<char>, Seq<char>)>),
        >(
            Seq::<(Seq<char>, Seq<char>)>::empty().push(
                (crate::ordering::subselect(call, source, alias, correlation), direction),
            ),
        ),
{
    let none = Seq::<(Seq<char>, Seq<char>)>::empty();
    let one = none.push(
        (crate::ordering::subselect(call, source, alias, correlation), direction),
    );
    assert(column_terms(src, columns, 1, function, source, alias, correlation, one) == Ok::<
        Seq<(Seq<char>, Seq<char>)>,
        (ErrorV, Seq<(Seq<char>, Seq<char>)>),
    >(one));
}

// ---------------------------------------------------------------------------
// The clause
// ---------------------------------------------------------------------------

/// What several orderings are ordered by, one after another, each with its
/// direction after it.
pub open spec fn each_term(
    entries: Seq<JsonV>,
    src: Sources<'_>,
    typename: Seq<char>,
    table: Table,
    reference: Seq<char>,
    aliases: usize,
) -> Result<Seq<Seq<char>>, ErrorV>
    decreases entries.len(),
{
    if entries.len() == 0 {
        Ok(Seq::empty())
    } else {
        match ordering(entries[0], src, typename, table, reference, Seq::empty(), aliases) {
            Err((e, _, _)) => Err(e),
            Ok((found, last)) => match each_term(
                entries.drop_first(),
                src,
                typename,
                table,
                reference,
                last,
            ) {
                Err(e) => Err(e),
                Ok(rest) => Ok(
                    Seq::new(found.len(), |i: int| found[i].0 + " "@ + found[i].1) + rest,
                ),
            },
        }
    }
}

proof fn lemma_orderings(
    entries: Seq<JsonV>,
    i: nat,
    src: Sources<'_>,
    typename: Seq<char>,
    table: Table,
    reference: Seq<char>,
    terms: Seq<Seq<char>>,
    aliases: usize,
)
    requires
        i <= entries.len(),
    ensures
        match (
            orderings_from(entries, i, src, typename, table, reference, terms, aliases),
            each_term(entries.skip(i as int), src, typename, table, reference, aliases),
        ) {
            (Ok((all, _)), Ok(rest)) => all == terms + rest,
            (Err(e), Err(f)) => e == f,
            _ => false,
        },
    decreases entries.len() - i,
{
    let rest = entries.skip(i as int);
    if i < entries.len() {
        assert(rest[0] == entries[i as int]);
        assert(rest.drop_first() =~= entries.skip((i + 1) as int));
        match ordering(
            entries[i as int],
            src,
            typename,
            table,
            reference,
            Seq::empty(),
            aliases,
        ) {
            Err(_) => {},
            Ok((found, last)) => {
                let here = Seq::new(found.len(), |k: int| found[k].0 + " "@ + found[k].1);
                assert(written_terms(found) =~= here);
                lemma_orderings(
                    entries,
                    i + 1,
                    src,
                    typename,
                    table,
                    reference,
                    terms + here,
                    last,
                );
                match each_term(rest.drop_first(), src, typename, table, reference, last) {
                    Ok(more) => {
                        assert((terms + here) + more =~= terms + (here + more));
                    },
                    Err(_) => {},
                }
            },
        }
    } else {
        assert(terms + Seq::<Seq<char>>::empty() =~= terms);
    }
}

/// Rows are ordered by everything that was asked for, in the order it was asked
/// for; where nothing was, they are in no order.
pub proof fn law_rows_are_ordered_as_asked(
    entries: Seq<JsonV>,
    src: Sources<'_>,
    schema: Seq<char>,
    table: Seq<char>,
    typename: Seq<char>,
    reference: Seq<char>,
    found: Table,
)
    requires
        src.cache.table(schema, table) == Some(found),
    ensures
        order_by_clause(None, src, schema, table, typename, reference) == Ok::<Seq<char>, ErrorV>(
            Seq::empty(),
        ),
        order_by_clause(Some(JsonV::Null), src, schema, table, typename, reference) == Ok::<
            Seq<char>,
            ErrorV,
        >(Seq::empty()),
        order_by_clause(
            Some(JsonV::Array(entries)),
            src,
            schema,
            table,
            typename,
            reference,
        ) == (match each_term(entries, src, typename, found, reference, 0) {
            Err(e) => Err(e),
            Ok(terms) => if terms.len() == 0 {
                Ok(Seq::empty())
            } else {
                Ok(" ORDER BY "@ + joined(terms, ", "@))
            },
        }),
        entries.len() == 1 && entries[0] is Object ==> order_by_clause(
            Some(entries[0]),
            src,
            schema,
            table,
            typename,
            reference,
        ) == order_by_clause(
            Some(JsonV::Array(entries)),
            src,
            schema,
            table,
            typename,
            reference,
        ),
{
    let none = Seq::<Seq<char>>::empty();
    lemma_orderings(entries, 0, src, typename, found, reference, none, 0);
    assert(entries.skip(0) =~= entries);
    match each_term(entries, src, typename, found, reference, 0) {
        Ok(terms) => {
            assert(none + terms =~= terms);
        },
        Err(_) => {},
    }
    if entries.len() == 1 {
        assert(seq![entries[0]] =~= entries);
    }
}

/// Related rows are ordered by their own columns, each after the name they are
/// embedded under.
pub proof fn law_embedded_rows_are_ordered_by_their_columns(
    key: Seq<char>,
    word: Seq<char>,
    direction: Seq<char>,
    src: Sources<'_>,
    schema: Seq<char>,
    table: Seq<char>,
    found: Table,
    alias: Seq<char>,
)
    requires
        src.cache.table(schema, table) == Some(found),
        paired(src.words.directions@, word) == Some(direction),
        found.column(column_behind(*src.names, found.schema@, found.name@, key)) is Some,
    ensures
        embedded_ordering(
            JsonV::Object(seq![(key, JsonV::String(word))]),
            src,
            schema,
            table,
            alias,
        ) == Ok::<Option<Seq<char>>, ErrorV>(
            Some(
                ident(alias) + "."@ + ident(
                    column_behind(*src.names, found.schema@, found.name@, key),
                ) + " "@ + direction,
            ),
        ),
{
    let keys = seq![(key, JsonV::String(word))];
    assert(keys[0] == (key, JsonV::String(word)));
    let entry = JsonV::Object(keys);
    let entries = seq![entry];
    assert(entries[0] == entry);
    let none = Seq::<Seq<char>>::empty();
    let column = column_behind(*src.names, found.schema@, found.name@, key);
    let term = ident(alias) + "."@ + ident(column) + " "@ + direction;
    let one = none.push(term);
    assert(plain_keys(keys, 1, src, found, table, alias, one) == Ok::<Seq<Seq<char>>, ErrorV>(
        one,
    ));
    assert(plain_keys(keys, 0, src, found, table, alias, none) == Ok::<Seq<Seq<char>>, ErrorV>(
        one,
    ));
    assert(plain_entries(entries, 1, src, found, table, alias, one) == Ok::<
        Seq<Seq<char>>,
        ErrorV,
    >(one));
    assert(plain_entries(entries, 0, src, found, table, alias, none) == Ok::<
        Seq<Seq<char>>,
        ErrorV,
    >(one));
    assert(joined(one, ", "@) == term);
}

/// The same, one after another: what some keys order by, and what the others
/// do.
pub proof fn law_embedded_keys_are_ordered_by_in_turn(
    a: Seq<(Seq<char>, JsonV)>,
    b: Seq<(Seq<char>, JsonV)>,
    i: nat,
    src: Sources<'_>,
    table: Table,
    name: Seq<char>,
    alias: Seq<char>,
    terms: Seq<Seq<char>>,
)
    requires
        i <= a.len(),
    ensures
        plain_keys(a + b, i, src, table, name, alias, terms) == (match plain_keys(
            a,
            i,
            src,
            table,
            name,
            alias,
            terms,
        ) {
            Ok(found) => plain_keys(b, 0, src, table, name, alias, found),
            Err(e) => Err(e),
        }),
    decreases a.len() - i,
{
    if i < a.len() {
        assert((a + b)[i as int] == a[i as int]);
        let (field, direction) = a[i as int];
        let column = column_behind(*src.names, table.schema@, table.name@, field);
        let word = crate::ordering::text_or_empty(direction);
        if direction is Null {
            law_embedded_keys_are_ordered_by_in_turn(a, b, i + 1, src, table, name, alias, terms);
        } else if table.column(column) is Some && paired(src.words.directions@, word) is Some {
            law_embedded_keys_are_ordered_by_in_turn(
                a,
                b,
                i + 1,
                src,
                table,
                name,
                alias,
                terms.push(
                    ident(alias) + "."@ + ident(column) + " "@ + paired(
                        src.words.directions@,
                        word,
                    )->0,
                ),
            );
        }
    } else {
        lemma_plain_shifted(a, b, 0, src, table, name, alias, terms);
    }
}

proof fn lemma_plain_shifted(
    a: Seq<(Seq<char>, JsonV)>,
    b: Seq<(Seq<char>, JsonV)>,
    j: nat,
    src: Sources<'_>,
    table: Table,
    name: Seq<char>,
    alias: Seq<char>,
    terms: Seq<Seq<char>>,
)
    ensures
        plain_keys(a + b, a.len() + j, src, table, name, alias, terms) == plain_keys(
            b,
            j,
            src,
            table,
            name,
            alias,
            terms,
        ),
    decreases b.len() - j,
{
    if j < b.len() {
        assert((a + b)[(a.len() + j) as int] == b[j as int]);
        let (field, direction) = b[j as int];
        let column = column_behind(*src.names, table.schema@, table.name@, field);
        let word = crate::ordering::text_or_empty(direction);
        if direction is Null {
            lemma_plain_shifted(a, b, j + 1, src, table, name, alias, terms);
        } else if table.column(column) is Some && paired(src.words.directions@, word) is Some {
            lemma_plain_shifted(
                a,
                b,
                j + 1,
                src,
                table,
                name,
                alias,
                terms.push(
                    ident(alias) + "."@ + ident(column) + " "@ + paired(
                        src.words.directions@,
                        word,
                    )->0,
                ),
            );
        }
    }
}

// ---------------------------------------------------------------------------
// One row of each group
// ---------------------------------------------------------------------------

/// One row is kept of each group of rows that agree in some columns; without
/// such columns every row is kept.
pub proof fn law_one_row_is_kept_of_each_group(
    columns: Seq<Seq<char>>,
    written: Option<Seq<char>>,
)
    ensures
        columns.len() == 0 ==> distinct_clause(columns, written) == Ok::<
            (Seq<char>, Option<Seq<char>>),
            ErrorV,
        >((Seq::empty(), written)),
        columns.len() > 0 && distinct_clause(columns, written) is Ok ==> (distinct_clause(
            columns,
            written,
        )->Ok_0).0 == "DISTINCT ON ("@ + joined(columns, ", "@) + ") "@,
{
}

proof fn lemma_distinct(
    fields: Seq<Seq<char>>,
    i: nat,
    src: Sources<'_>,
    table: Table,
    name: Seq<char>,
    alias: Option<Seq<char>>,
    quoted: Seq<Seq<char>>,
)
    requires
        i <= fields.len(),
        quoted == Seq::new(i, |k: int| grouped_by(fields[k], src, table, alias)),
    ensures
        (forall|k: int|
            i <= k < fields.len() ==> table.column(
                column_behind(*src.names, table.schema@, table.name@, #[trigger] fields[k]),
            ) is Some) ==> distinct_columns(fields, i, src, table, name, alias, quoted) == Ok::<
            Seq<Seq<char>>,
            ErrorV,
        >(Seq::new(fields.len(), |k: int| grouped_by(fields[k], src, table, alias))),
        !(forall|k: int|
            i <= k < fields.len() ==> table.column(
                column_behind(*src.names, table.schema@, table.name@, #[trigger] fields[k]),
            ) is Some) ==> distinct_columns(fields, i, src, table, name, alias, quoted) is Err,
    decreases fields.len() - i,
{
    if i < fields.len() {
        let column = column_behind(*src.names, table.schema@, table.name@, fields[i as int]);
        if table.column(column) is Some {
            let more = quoted.push(grouped_by(fields[i as int], src, table, alias));
            assert(more =~= Seq::new(
                i + 1,
                |k: int| grouped_by(fields[k], src, table, alias),
            ));
            lemma_distinct(fields, i + 1, src, table, name, alias, more);
        } else {
            assert(table.column(
                column_behind(
                    *src.names,
                    table.schema@,
                    table.name@,
                    fields[i as int],
                ),
            ) is None);
        }
    }
}

/// A column that groups are by.
pub open spec fn grouped_by(
    field: Seq<char>,
    src: Sources<'_>,
    table: Table,
    alias: Option<Seq<char>>,
) -> Seq<char> {
    let column = ident(column_behind(*src.names, table.schema@, table.name@, field));
    match alias {
        None => column,
        Some(alias) => ident(alias) + "."@ + column,
    }
}

/// Groups are by the columns that were named, in order, and a name that is no
/// column is refused.
pub proof fn law_groups_are_by_the_columns_named(
    value: Option<JsonV>,
    src: Sources<'_>,
    schema: Seq<char>,
    table: Seq<char>,
    found: Table,
    alias: Option<Seq<char>>,
)
    requires
        src.cache.table(schema, table) == Some(found),
    ensures
        ({
            let fields = names_in(value);
            let r = distinct_on(value, src, schema, table, alias);
            let known = forall|k: int|
                0 <= k < fields.len() ==> found.column(
                    column_behind(*src.names, found.schema@, found.name@, #[trigger] fields[k]),
                ) is Some;
            &&& known ==> r == Ok::<Seq<Seq<char>>, ErrorV>(
                Seq::new(fields.len(), |k: int| grouped_by(fields[k], src, found, alias)),
            )
            &&& !known ==> r is Err
        }),
{
    let fields = names_in(value);
    let none = Seq::<Seq<char>>::empty();
    assert(none =~= Seq::new(0, |k: int| grouped_by(fields[k], src, found, alias)));
    lemma_distinct(fields, 0, src, found, table, alias, none);
    if fields.len() == 0 {
        assert(Seq::new(fields.len(), |k: int| grouped_by(fields[k], src, found, alias)) =~= none);
    }
}

/// A read is ordered by its own ordering, where nothing keeps its rows apart,
/// and a read by key by none.
pub proof fn law_a_read_keeps_its_order(
    field: ReadField,
    src: Sources<'_>,
    args: JsonV,
    selection: Selected,
    terms: Seq<char>,
)
    requires
        !field.is_by_pk,
        names_in(args.get("distinct_on"@)).len() == 0,
    ensures
        order_by_clause(
            args.get("order_by"@),
            src,
            field.schema_name@,
            field.table_name@,
            field.typename@,
            source_reference(field),
        ) == Ok::<Seq<char>, ErrorV>(" ORDER BY "@ + terms) ==> read_order(
            field,
            src,
            args,
            selection,
        ) == Ok::<(Seq<char>, Seq<char>), ErrorV>((Seq::empty(), " ORDER BY "@ + terms)),
        order_by_clause(
            args.get("order_by"@),
            src,
            field.schema_name@,
            field.table_name@,
            field.typename@,
            source_reference(field),
        ) == Ok::<Seq<char>, ErrorV>(Seq::empty()) ==> read_order(field, src, args, selection)
            == Ok::<(Seq<char>, Seq<char>), ErrorV>((Seq::empty(), Seq::empty())),
{
    reveal_strlit(" ORDER BY ");
    let whole = " ORDER BY "@ + terms;
    assert(whole.subrange(0, " ORDER BY "@.len() as int) =~= " ORDER BY "@);
    assert(whole.subrange(" ORDER BY "@.len() as int, whole.len() as int) =~= terms);
    assert(stripped_prefix(whole, " ORDER BY "@) == Some(terms));
    assert(stripped_prefix(Seq::<char>::empty(), " ORDER BY "@) is None);
}

} // verus!

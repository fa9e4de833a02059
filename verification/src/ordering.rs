//! `ORDER BY` and `DISTINCT ON`.

use crate::binds::{following, next_number};
use crate::catalog::{
    column_behind, computed_behind, computed_for, fields_of, relationships_of, table_column_for,
    EmbedPlan, RelationshipField, Table,
};
use crate::computed::{
    computed_call, computed_session_argument, computed_sql, session_parameter, SESSION_ARGUMENT,
};
use crate::condition::alias_of;
use crate::error::{plain_refusal, validation_error, validation_refusal, Error, ErrorV};
use crate::json::{entries_view, json_ref, jsons, lemma_array_view, lemma_object_view, Json, JsonV};
use crate::lookup::{find_pair, paired};
use crate::projection::{pairs, push_pair};
use crate::scope::Sources;
use crate::text::{
    cat2, cat3, cat4, cat5, cat6, cat7, contains_text, decimal_text, escape_ident, escape_ident2,
    first_word, has_text, ident, ident2, join, joined, leading_word, no_texts, owned, owned_opt,
    push_text, rsplit_once, same, split_last, split_on, split_text, str_opt, strip_suffix,
    stripped_suffix, text_opt, texts,
};
use vstd::prelude::*;

verus! {

/// The terms of an ordering, each what it orders by and its direction, and the
/// number of the last alias given out; or the refusal, with the terms before it
/// and that number.
pub type TermsV = Result<
    (Seq<(Seq<char>, Seq<char>)>, usize),
    (ErrorV, Seq<(Seq<char>, Seq<char>)>, usize),
>;

/// The same with the terms as they are written.
pub type WrittenV = Result<(Seq<Seq<char>>, usize), (ErrorV, Seq<Seq<char>>, usize)>;

/// A term as it is written: what it orders by, and then its direction.
pub open spec fn written_term(term: (Seq<char>, Seq<char>)) -> Seq<char> {
    term.0 + " "@ + term.1
}

/// Terms as they are written.
pub open spec fn written_terms(terms: Seq<(Seq<char>, Seq<char>)>) -> Seq<Seq<char>> {
    terms.map_values(|term: (Seq<char>, Seq<char>)| written_term(term))
}

/// What was found, written after those in `terms`.
pub open spec fn written_after(terms: Seq<Seq<char>>, found: TermsV) -> WrittenV {
    match found {
        Ok((more, last)) => Ok((terms + written_terms(more), last)),
        Err((e, more, last)) => Err((e, terms + written_terms(more), last)),
    }
}

fn add_term(terms: &mut Vec<(String, String)>, expression: String, direction: &str)
    ensures
        pairs(final(terms)@) == pairs(old(terms)@).push((expression@, direction@)),
{
    push_pair(terms, expression, owned(direction));
}

fn write_terms(found: &Vec<(String, String)>, terms: &mut Vec<String>)
    ensures
        texts(final(terms)@) == texts(old(terms)@) + written_terms(pairs(found@)),
{
    let mut i: usize = 0;
    assert(written_terms(pairs(found@)).take(0) =~= Seq::empty());
    assert(texts(terms@) =~= texts(old(terms)@) + Seq::<Seq<char>>::empty());
    while i < found.len()
        invariant
            i <= found.len(),
            texts(terms@) == texts(old(terms)@) + written_terms(pairs(found@)).take(i as int),
        decreases found.len() - i,
    {
        let ghost all = written_terms(pairs(found@));
        assert(pairs(found@)[i as int] == (found@[i as int].0@, found@[i as int].1@));
        assert(all.take(i as int + 1) =~= all.take(i as int).push(all[i as int]));
        push_text(terms, cat3(&found[i].0, " ", &found[i].1));
        assert(texts(terms@) =~= texts(old(terms)@) + all.take(i as int + 1));
        i += 1;
    }
    assert(written_terms(pairs(found@)).take(found@.len() as int) =~= written_terms(
        pairs(found@),
    ));
}

// ---------------------------------------------------------------------------
// Relationships by name and kind
// ---------------------------------------------------------------------------

/// The first relationship of a name that is, or is not, a list.
pub open spec fn of_kind(fields: Seq<RelationshipField>, name: Seq<char>, list: bool) -> Option<
    RelationshipField,
>
    decreases fields.len(),
{
    if fields.len() == 0 {
        None
    } else if fields[0].name@ == name && fields[0].is_list == list {
        Some(fields[0])
    } else {
        of_kind(fields.drop_first(), name, list)
    }
}

/// The first relationship of a name that is, or is not, a list.
pub fn find_of_kind<'a>(fields: &'a Vec<RelationshipField>, name: &str, list: bool) -> (r: Option<
    &'a RelationshipField,
>)
    ensures
        crate::lookup::deref_opt(r) == of_kind(fields@, name@, list),
{
    let mut i: usize = 0;
    assert(fields@.skip(0) =~= fields@);
    while i < fields.len()
        invariant
            i <= fields.len(),
            of_kind(fields@, name@, list) == of_kind(fields@.skip(i as int), name@, list),
        decreases fields.len() - i,
    {
        if same(&fields[i].name, name) && fields[i].is_list == list {
            return Some(&fields[i]);
        }
        assert(fields@.skip(i as int).drop_first() =~= fields@.skip(i + 1));
        i += 1;
    }
    None
}

/// The relationships of a type, none where it has no entry.
pub open spec fn available(src: Sources<'_>, typename: Seq<char>) -> Seq<RelationshipField> {
    match fields_of(src.relationships@, typename) {
        Some(fields) => fields@,
        None => Seq::empty(),
    }
}

/// The list whose aggregate a key names.
pub open spec fn aggregated_list(fields: Seq<RelationshipField>, key: Seq<char>) -> Option<
    RelationshipField,
> {
    match stripped_suffix(key, "_aggregate"@) {
        Some(name) => of_kind(fields, name, true),
        None => None,
    }
}

/// The list whose aggregate a key names.
pub fn find_aggregated<'a>(fields: &'a Vec<RelationshipField>, key: &str) -> (r: Option<
    &'a RelationshipField,
>)
    ensures
        crate::lookup::deref_opt(r) == aggregated_list(fields@, key@),
{
    match strip_suffix(key, "_aggregate") {
        Some(name) => find_of_kind(fields, name, true),
        None => None,
    }
}

// ---------------------------------------------------------------------------
// Ordering by an aggregate
// ---------------------------------------------------------------------------

/// What an aggregate is taken over, and how its rows belong to this one.
pub open spec fn aggregate_source(
    plan: EmbedPlan,
    src: Sources<'_>,
    reference: Seq<char>,
    alias: Seq<char>,
) -> (Seq<char>, Seq<char>) {
    match plan.function {
        Some(function) => {
            let call = match plan.row_argument {
                Some(row_argument) => match session_parameter(*src.cache, function@) {
                    Some(session) => ident(row_argument@) + " => "@ + reference + ", "@ + ident(
                        session,
                    ) + " => "@ + SESSION_ARGUMENT@,
                    None => reference,
                },
                None => reference,
            };
            (ident2(function.schema@, function.name@) + "("@ + call + ")"@, "true"@)
        },
        None => (
            ident2(plan.foreign_schema@, plan.foreign_table@),
            joined(key_conditions(plan, reference, alias), " AND "@),
        ),
    }
}

/// The key columns of two rows, equated.
pub open spec fn key_conditions(plan: EmbedPlan, reference: Seq<char>, alias: Seq<char>) -> Seq<
    Seq<char>,
> {
    Seq::new(
        plan.columns@.len(),
        |i: int|
            reference + "."@ + ident(plan.columns@[i].0@) + " = "@ + alias + "."@ + ident(
                plan.columns@[i].1@,
            ),
    )
}

fn key_conditions_sql(plan: &EmbedPlan, reference: &str, alias: &str) -> (r: String)
    ensures
        r@ == joined(key_conditions(*plan, reference@, alias@), " AND "@),
{
    let mut parts = no_texts();
    let mut i: usize = 0;
    while i < plan.columns.len()
        invariant
            i <= plan.columns.len(),
            texts(parts@) =~= key_conditions(*plan, reference@, alias@).take(i as int),
        decreases plan.columns.len() - i,
    {
        let pair = &plan.columns[i];
        push_text(
            &mut parts,
            cat7(
                reference,
                ".",
                &escape_ident(&pair.0),
                " = ",
                alias,
                ".",
                &escape_ident(&pair.1),
            ),
        );
        i += 1;
    }
    assert(texts(parts@) =~= key_conditions(*plan, reference@, alias@));
    join(&parts, " AND ")
}

fn aggregate_source_sql(plan: &EmbedPlan, src: Sources<'_>, reference: &str, alias: &str) -> (r: (
    String,
    String,
))
    ensures
        (r.0@, r.1@) == aggregate_source(*plan, src, reference@, alias@),
{
    match &plan.function {
        Some(function) => {
            let call = match &plan.row_argument {
                Some(row_argument) => match computed_session_argument(src.cache, function) {
                    Some(session) => cat7(
                        &escape_ident(row_argument),
                        " => ",
                        reference,
                        ", ",
                        &escape_ident(&session),
                        " => ",
                        SESSION_ARGUMENT,
                    ),
                    None => owned(reference),
                },
                None => owned(reference),
            };
            (
                cat4(&escape_ident2(&function.schema, &function.name), "(", &call, ")"),
                owned("true"),
            )
        },
        None => (
            escape_ident2(&plan.foreign_schema, &plan.foreign_table),
            key_conditions_sql(plan, reference, alias),
        ),
    }
}

/// A text, or none for what is not one.
pub open spec fn text_or_empty(value: JsonV) -> Seq<char> {
    match value {
        JsonV::String(s) => s,
        _ => ""@,
    }
}

fn text_or_none(value: &Json) -> (r: &str)
    ensures
        r@ == text_or_empty(value@),
{
    match value {
        Json::String(s) => s.as_str(),
        _ => "",
    }
}

/// An expression over the rows of a source that a row is correlated with, as a
/// subselect.
pub open spec fn subselect(
    expression: Seq<char>,
    source: Seq<char>,
    alias: Seq<char>,
    correlation: Seq<char>,
) -> Seq<char> {
    "(SELECT "@ + expression + " FROM "@ + source + " AS "@ + alias + " WHERE "@ + correlation
        + ")"@
}

fn subselect_sql(expression: &str, source: &str, alias: &str, correlation: &str) -> (r: String)
    ensures
        r@ == subselect(expression@, source@, alias@, correlation@),
{
    crate::text::cat9(
        "(SELECT ",
        expression,
        " FROM ",
        source,
        " AS ",
        alias,
        " WHERE ",
        correlation,
        ")",
    )
}

/// The terms of one function's columns from the `i`th on, after those in
/// `terms`. A direction given as null is no direction.
pub open spec fn column_terms(
    src: Sources<'_>,
    columns: Seq<(Seq<char>, JsonV)>,
    i: nat,
    function: Seq<char>,
    source: Seq<char>,
    alias: Seq<char>,
    correlation: Seq<char>,
    terms: Seq<(Seq<char>, Seq<char>)>,
) -> Result<Seq<(Seq<char>, Seq<char>)>, (ErrorV, Seq<(Seq<char>, Seq<char>)>)>
    decreases columns.len() - i,
{
    if i >= columns.len() {
        Ok(terms)
    } else if columns[i as int].1 is Null {
        column_terms(src, columns, i + 1, function, source, alias, correlation, terms)
    } else {
        let name = text_or_empty(columns[i as int].1);
        match paired(src.words.directions@, name) {
            None => Err((plain_refusal("\""@ + name + "\" is not a sort direction"@), terms)),
            Some(direction) => column_terms(
                src,
                columns,
                i + 1,
                function,
                source,
                alias,
                correlation,
                terms.push(
                    (
                        subselect(
                            function + "("@ + alias + "."@ + ident(columns[i as int].0) + ")"@,
                            source,
                            alias,
                            correlation,
                        ),
                        direction,
                    ),
                ),
            ),
        }
    }
}

/// The terms of the aggregates from the `i`th on, after those in `terms`.
/// `{count: desc}` is one term, `{max: {id: desc}}` one for each column.
pub open spec fn function_terms(
    src: Sources<'_>,
    spec: Seq<(Seq<char>, JsonV)>,
    i: nat,
    source: Seq<char>,
    alias: Seq<char>,
    correlation: Seq<char>,
    terms: Seq<(Seq<char>, Seq<char>)>,
) -> Result<Seq<(Seq<char>, Seq<char>)>, (ErrorV, Seq<(Seq<char>, Seq<char>)>)>
    decreases spec.len() - i,
{
    if i >= spec.len() {
        Ok(terms)
    } else if spec[i as int].1 is Null {
        function_terms(src, spec, i + 1, source, alias, correlation, terms)
    } else if spec[i as int].0 == "count"@ {
        let name = text_or_empty(spec[i as int].1);
        match paired(src.words.directions@, name) {
            None => Err((plain_refusal("\""@ + name + "\" is not a sort direction"@), terms)),
            Some(direction) => function_terms(
                src,
                spec,
                i + 1,
                source,
                alias,
                correlation,
                terms.push((subselect("count(*)"@, source, alias, correlation), direction)),
            ),
        }
    } else {
        match spec[i as int].1 {
            JsonV::Object(columns) => match column_terms(
                src,
                columns,
                0,
                spec[i as int].0,
                source,
                alias,
                correlation,
                terms,
            ) {
                Ok(more) => function_terms(src, spec, i + 1, source, alias, correlation, more),
                Err(e) => Err(e),
            },
            _ => function_terms(src, spec, i + 1, source, alias, correlation, terms),
        }
    }
}

/// The terms that order by aggregates of a row's children.
pub open spec fn aggregate_ordering(
    value: JsonV,
    rel: RelationshipField,
    src: Sources<'_>,
    reference: Seq<char>,
    terms: Seq<(Seq<char>, Seq<char>)>,
    aliases: usize,
) -> TermsV {
    match value {
        JsonV::Object(spec) => match rel.relationship.plan {
            Err(message) => Err((plain_refusal(message@), terms, aliases)),
            Ok(plan) => if plan.columns@.len() == 0 && plan.function is None {
                Err(
                    (
                        plain_refusal(
                            "cannot order by an aggregate of \""@ + rel.name@
                                + "\": it is not reached by a key"@,
                        ),
                        terms,
                        aliases,
                    ),
                )
            } else if plan.function is Some && rel.arguments@.len() > 0 {
                Err(
                    (
                        plain_refusal(
                            "cannot order by an aggregate of \""@ + rel.name@
                                + "\": it takes arguments, and an ordering has nowhere to write them"@,
                        ),
                        terms,
                        aliases,
                    ),
                )
            } else {
                let number = following(aliases);
                let alias = ident(alias_of("pgrst_ord_"@, number));
                let (source, correlation) = aggregate_source(plan, src, reference, alias);
                match function_terms(src, spec, 0, source, alias, correlation, terms) {
                    Ok(more) => Ok((more, number)),
                    Err((e, more)) => Err((e, more, number)),
                }
            },
        },
        _ => Err(
            (
                plain_refusal("ordering by an aggregate takes an object, such as {count: desc}"@),
                terms,
                aliases,
            ),
        ),
    }
}

fn add_column_terms(
    src: Sources<'_>,
    columns: &Vec<(String, Json)>,
    function: &str,
    source: &str,
    alias: &str,
    correlation: &str,
    terms: &mut Vec<(String, String)>,
) -> (r: Result<(), Error>)
    ensures
        (match r {
            Ok(_) => Ok(pairs(final(terms)@)),
            Err(e) => Err((e@, pairs(final(terms)@))),
        }) == column_terms(
            src,
            entries_view(columns@),
            0,
            function@,
            source@,
            alias@,
            correlation@,
            pairs(old(terms)@),
        ),
{
    let mut i: usize = 0;
    while i < columns.len()
        invariant
            i <= columns.len(),
            column_terms(
                src,
                entries_view(columns@),
                0,
                function@,
                source@,
                alias@,
                correlation@,
                pairs(old(terms)@),
            ) == column_terms(
                src,
                entries_view(columns@),
                i as nat,
                function@,
                source@,
                alias@,
                correlation@,
                pairs(terms@),
            ),
        decreases columns.len() - i,
    {
        assert(entries_view(columns@)[i as int] == (columns@[i as int].0@, columns@[i as int].1@));
        if !columns[i].1.is_null() {
            let name = text_or_none(&columns[i].1);
            match find_pair(&src.words.directions, name) {
                None => {
                    return Err(Error::new(cat3("\"", name, "\" is not a sort direction")));
                },
                Some(direction) => {
                    let expression = cat6(
                        function,
                        "(",
                        alias,
                        ".",
                        &escape_ident(&columns[i].0),
                        ")",
                    );
                    add_term(
                        terms,
                        subselect_sql(&expression, source, alias, correlation),
                        direction,
                    );
                },
            }
        }
        i += 1;
    }
    Ok(())
}

fn add_function_terms(
    src: Sources<'_>,
    spec: &Vec<(String, Json)>,
    source: &str,
    alias: &str,
    correlation: &str,
    terms: &mut Vec<(String, String)>,
) -> (r: Result<(), Error>)
    ensures
        (match r {
            Ok(_) => Ok(pairs(final(terms)@)),
            Err(e) => Err((e@, pairs(final(terms)@))),
        }) == function_terms(
            src,
            entries_view(spec@),
            0,
            source@,
            alias@,
            correlation@,
            pairs(old(terms)@),
        ),
{
    let mut i: usize = 0;
    while i < spec.len()
        invariant
            i <= spec.len(),
            function_terms(
                src,
                entries_view(spec@),
                0,
                source@,
                alias@,
                correlation@,
                pairs(old(terms)@),
            ) == function_terms(
                src,
                entries_view(spec@),
                i as nat,
                source@,
                alias@,
                correlation@,
                pairs(terms@),
            ),
        decreases spec.len() - i,
    {
        assert(entries_view(spec@)[i as int] == (spec@[i as int].0@, spec@[i as int].1@));
        if spec[i].1.is_null() {
        } else if same(&spec[i].0, "count") {
            let name = text_or_none(&spec[i].1);
            match find_pair(&src.words.directions, name) {
                None => {
                    return Err(Error::new(cat3("\"", name, "\" is not a sort direction")));
                },
                Some(direction) => {
                    add_term(
                        terms,
                        subselect_sql("count(*)", source, alias, correlation),
                        direction,
                    );
                },
            }
        } else if let Json::Object(columns) = &spec[i].1 {
            proof {
                lemma_object_view(*columns);
            }
            match add_column_terms(
                src,
                columns,
                &spec[i].0,
                source,
                alias,
                correlation,
                terms,
            ) {
                Ok(_) => {},
                Err(e) => return Err(e),
            }
        }
        i += 1;
    }
    Ok(())
}

/// What a function that finds terms reports.
pub open spec fn terms_outcome(
    r: Result<(), Error>,
    terms: Seq<(String, String)>,
    aliases: usize,
) -> TermsV {
    match r {
        Ok(_) => Ok((pairs(terms), aliases)),
        Err(e) => Err((e@, pairs(terms), aliases)),
    }
}

/// What a function that writes terms reports.
pub open spec fn written_outcome(
    r: Result<(), Error>,
    terms: Seq<String>,
    aliases: usize,
) -> WrittenV {
    match r {
        Ok(_) => Ok((texts(terms), aliases)),
        Err(e) => Err((e@, texts(terms), aliases)),
    }
}

/// The `ORDER BY` terms for an aggregate of a row's children, after those in
/// `terms`. A refusal leaves those that came before it.
pub fn aggregate_order_terms(
    value: &Json,
    rel: &RelationshipField,
    src: Sources<'_>,
    reference: &str,
    alias_counter: &mut usize,
    terms: &mut Vec<String>,
) -> (r: Result<(), Error>)
    ensures
        written_outcome(r, final(terms)@, *final(alias_counter)) == written_after(
            texts(old(terms)@),
            aggregate_ordering(
                value@,
                *rel,
                src,
                reference@,
                Seq::empty(),
                *old(alias_counter),
            ),
        ),
{
    let mut found: Vec<(String, String)> = Vec::new();
    assert(pairs(found@) =~= Seq::empty());
    let r = find_aggregate_terms(value, rel, src, reference, alias_counter, &mut found);
    write_terms(&found, terms);
    r
}

fn find_aggregate_terms(
    value: &Json,
    rel: &RelationshipField,
    src: Sources<'_>,
    reference: &str,
    alias_counter: &mut usize,
    terms: &mut Vec<(String, String)>,
) -> (r: Result<(), Error>)
    ensures
        terms_outcome(r, final(terms)@, *final(alias_counter)) == aggregate_ordering(
            value@,
            *rel,
            src,
            reference@,
            pairs(old(terms)@),
            *old(alias_counter),
        ),
{
    let spec = match value {
        Json::Object(spec) => spec,
        _ => {
            return Err(
                Error::new(owned("ordering by an aggregate takes an object, such as {count: desc}")),
            );
        },
    };
    proof {
        lemma_object_view(*spec);
    }
    let plan = match &rel.relationship.plan {
        Ok(plan) => plan,
        Err(message) => return Err(Error::new(message.clone())),
    };
    if plan.columns.len() == 0 && plan.function.is_none() {
        return Err(
            Error::new(
                cat3(
                    "cannot order by an aggregate of \"",
                    &rel.name,
                    "\": it is not reached by a key",
                ),
            ),
        );
    }
    if plan.function.is_some() && rel.arguments.len() > 0 {
        return Err(
            Error::new(
                cat3(
                    "cannot order by an aggregate of \"",
                    &rel.name,
                    "\": it takes arguments, and an ordering has nowhere to write them",
                ),
            ),
        );
    }
    *alias_counter = next_number(*alias_counter);
    let alias = escape_ident(&cat2("pgrst_ord_", &decimal_text(*alias_counter as u128)));
    let (source, correlation) = aggregate_source_sql(plan, src, reference, &alias);
    add_function_terms(src, spec, &source, &alias, &correlation, terms)
}

// ---------------------------------------------------------------------------
// Ordering by a field or by what a row points at
// ---------------------------------------------------------------------------

/// One field of a table in an order, as its term: what it orders by, and its
/// direction.
pub open spec fn field_term(
    src: Sources<'_>,
    table: Table,
    reference: Seq<char>,
    key: Seq<char>,
    direction_name: Seq<char>,
) -> Result<(Seq<char>, Seq<char>), ErrorV> {
    match paired(src.words.directions@, direction_name) {
        None => Err(
            plain_refusal(
                "\""@ + direction_name
                    + "\" is not a sort direction; expected one of asc, desc, asc_nulls_first, asc_nulls_last, desc_nulls_first, desc_nulls_last"@,
            ),
        ),
        Some(direction) => {
            let column = column_behind(*src.names, table.schema@, table.name@, key);
            if table.column(column) is Some {
                Ok((reference + "."@ + ident(column), direction))
            } else {
                match computed_behind(*src.names, table, key) {
                    Some(definition) => Ok(
                        (computed_sql(definition, reference + ".*"@, reference), direction),
                    ),
                    None => Err(
                        plain_refusal(
                            "cannot order by unknown column \""@ + key + "\" on \""@ + table.name@
                                + "\""@,
                        ),
                    ),
                }
            }
        },
    }
}

fn field_term_sql<'a>(
    src: Sources<'a>,
    table: &Table,
    reference: &str,
    key: &str,
    direction_name: &str,
) -> (r: Result<(String, &'a str), Error>)
    ensures
        (match r {
            Ok((sql, direction)) => Ok((sql@, direction@)),
            Err(e) => Err(e@),
        }) == field_term(src, *table, reference@, key@, direction_name@),
{
    let direction = match find_pair(&src.words.directions, direction_name) {
        Some(direction) => direction,
        None => {
            return Err(
                Error::new(
                    cat3(
                        "\"",
                        direction_name,
                        "\" is not a sort direction; expected one of asc, desc, asc_nulls_first, asc_nulls_last, desc_nulls_first, desc_nulls_last",
                    ),
                ),
            );
        },
    };
    let column = table_column_for(src.names, table, key);
    if table.get_column(column).is_some() {
        return Ok((cat3(reference, ".", &escape_ident(column)), direction));
    }
    match computed_for(src.names, table, key) {
        Some(definition) => Ok(
            (computed_call(definition, &cat2(reference, ".*"), reference), direction),
        ),
        None => Err(
            Error::new(
                cat5("cannot order by unknown column \"", key, "\" on \"", &table.name, "\""),
            ),
        ),
    }
}

/// A related row's term: what it orders by as a subselect, under the same
/// direction.
pub open spec fn wrapped_term(
    term: (Seq<char>, Seq<char>),
    plan: EmbedPlan,
    alias: Seq<char>,
    correlation: Seq<char>,
) -> (Seq<char>, Seq<char>) {
    (
        subselect(
            term.0,
            ident2(plan.foreign_schema@, plan.foreign_table@),
            alias,
            correlation,
        ),
        term.1,
    )
}

/// The related row's terms from the `i`th on, wrapped, after those in
/// `terms`.
pub open spec fn wrapped_terms(
    nested: Seq<(Seq<char>, Seq<char>)>,
    i: nat,
    plan: EmbedPlan,
    alias: Seq<char>,
    correlation: Seq<char>,
    terms: Seq<(Seq<char>, Seq<char>)>,
) -> Seq<(Seq<char>, Seq<char>)>
    decreases nested.len() - i,
{
    if i >= nested.len() {
        terms
    } else {
        wrapped_terms(
            nested,
            i + 1,
            plan,
            alias,
            correlation,
            terms.push(wrapped_term(nested[i as int], plan, alias, correlation)),
        )
    }
}

fn wrap_terms(
    nested: &Vec<(String, String)>,
    plan: &EmbedPlan,
    alias: &str,
    correlation: &str,
    terms: &mut Vec<(String, String)>,
)
    ensures
        pairs(final(terms)@) == wrapped_terms(
            pairs(nested@),
            0,
            *plan,
            alias@,
            correlation@,
            pairs(old(terms)@),
        ),
{
    let source = escape_ident2(&plan.foreign_schema, &plan.foreign_table);
    let mut i: usize = 0;
    while i < nested.len()
        invariant
            i <= nested.len(),
            source@ == ident2(plan.foreign_schema@, plan.foreign_table@),
            wrapped_terms(pairs(nested@), 0, *plan, alias@, correlation@, pairs(old(terms)@))
                == wrapped_terms(
                pairs(nested@),
                i as nat,
                *plan,
                alias@,
                correlation@,
                pairs(terms@),
            ),
        decreases nested.len() - i,
    {
        assert(pairs(nested@)[i as int] == (nested@[i as int].0@, nested@[i as int].1@));
        add_term(
            terms,
            subselect_sql(&nested[i].0, &source, alias, correlation),
            &nested[i].1,
        );
        i += 1;
    }
}

/// The terms that one entry of an ordering contributes, after those in
/// `terms`.
pub open spec fn ordering(
    entry: JsonV,
    src: Sources<'_>,
    typename: Seq<char>,
    table: Table,
    reference: Seq<char>,
    terms: Seq<(Seq<char>, Seq<char>)>,
    aliases: usize,
) -> TermsV
    decreases entry, 1nat,
{
    match entry {
        JsonV::Object(keys) => ordering_from(
            keys,
            0,
            src,
            typename,
            table,
            reference,
            terms,
            aliases,
        ),
        _ => Err(
            (
                plain_refusal("each order_by entry is an object mapping a column to a direction"@),
                terms,
                aliases,
            ),
        ),
    }
}

/// The terms of the keys of an entry from the `i`th on, after those in
/// `terms`. A direction given as null is no direction.
pub open spec fn ordering_from(
    keys: Seq<(Seq<char>, JsonV)>,
    i: nat,
    src: Sources<'_>,
    typename: Seq<char>,
    table: Table,
    reference: Seq<char>,
    terms: Seq<(Seq<char>, Seq<char>)>,
    aliases: usize,
) -> TermsV
    decreases keys, keys.len() - i,
{
    if i >= keys.len() {
        Ok((terms, aliases))
    } else {
        match key_ordering(
            keys[i as int].0,
            keys[i as int].1,
            src,
            typename,
            table,
            reference,
            terms,
            aliases,
        ) {
            Ok((more, last)) => ordering_from(
                keys,
                i + 1,
                src,
                typename,
                table,
                reference,
                more,
                last,
            ),
            Err(e) => Err(e),
        }
    }
}

/// The terms that one key of an entry contributes, after those in `terms`. A
/// direction given as null is no direction.
pub open spec fn key_ordering(
    key: Seq<char>,
    value: JsonV,
    src: Sources<'_>,
    typename: Seq<char>,
    table: Table,
    reference: Seq<char>,
    terms: Seq<(Seq<char>, Seq<char>)>,
    aliases: usize,
) -> TermsV
    decreases value, 2nat,
{
    match value {
        JsonV::Null => Ok((terms, aliases)),
        JsonV::String(name) => match field_term(src, table, reference, key, name) {
            Ok(term) => Ok((terms.push(term), aliases)),
            Err(e) => Err((e, terms, aliases)),
        },
        _ => match aggregated_list(available(src, typename), key) {
            Some(rel) => aggregate_ordering(value, rel, src, reference, terms, aliases),
            None => match of_kind(available(src, typename), key, false) {
                None => Err(
                    (
                        plain_refusal(
                            "cannot order by \""@ + key + "\" on \""@ + table.name@ + "\""@,
                        ),
                        terms,
                        aliases,
                    ),
                ),
                Some(rel) => match rel.relationship.plan {
                    Err(message) => Err((plain_refusal(message@), terms, aliases)),
                    Ok(plan) => if plan.columns@.len() == 0 {
                        Err(
                            (
                                plain_refusal(
                                    "cannot order by \""@ + key
                                        + "\": it is not reached by a key"@,
                                ),
                                terms,
                                aliases,
                            ),
                        )
                    } else {
                        let number = following(aliases);
                        let alias = ident(alias_of("pgrst_ord_"@, number));
                        match src.cache.table(plan.foreign_schema@, plan.foreign_table@) {
                            None => Err(
                                (
                                    plain_refusal(
                                        "unknown table \""@ + plan.foreign_table@ + "\""@,
                                    ),
                                    terms,
                                    number,
                                ),
                            ),
                            Some(target) => match ordering(
                                value,
                                src,
                                rel.target_type@,
                                target,
                                alias,
                                Seq::empty(),
                                number,
                            ) {
                                Err((e, _, last)) => Err((e, terms, last)),
                                Ok((nested, last)) => Ok(
                                    (
                                        wrapped_terms(
                                            nested,
                                            0,
                                            plan,
                                            alias,
                                            joined(
                                                key_conditions(plan, reference, alias),
                                                " AND "@,
                                            ),
                                            terms,
                                        ),
                                        last,
                                    ),
                                ),
                            },
                        }
                    },
                },
            },
        },
    }
}

/// Collect the `ORDER BY` terms one entry contributes.
///
/// A key whose value is a direction is a field of this table. A key whose
/// value is an object is something the row points at: one related row
/// contributes its columns, and many contribute an aggregate, each as a
/// correlated subselect.
///
/// A refusal leaves the terms that came before it.
pub fn order_terms_into(
    entry: &Json,
    src: Sources<'_>,
    typename: &str,
    table: &Table,
    reference: &str,
    alias_counter: &mut usize,
    terms: &mut Vec<String>,
) -> (r: Result<(), Error>)
    ensures
        written_outcome(r, final(terms)@, *final(alias_counter)) == written_after(
            texts(old(terms)@),
            ordering(
                entry@,
                src,
                typename@,
                *table,
                reference@,
                Seq::empty(),
                *old(alias_counter),
            ),
        ),
{
    let mut found: Vec<(String, String)> = Vec::new();
    assert(pairs(found@) =~= Seq::empty());
    let r = find_terms(entry, src, typename, table, reference, alias_counter, &mut found);
    write_terms(&found, terms);
    r
}

fn find_terms(
    entry: &Json,
    src: Sources<'_>,
    typename: &str,
    table: &Table,
    reference: &str,
    alias_counter: &mut usize,
    terms: &mut Vec<(String, String)>,
) -> (r: Result<(), Error>)
    ensures
        terms_outcome(r, final(terms)@, *final(alias_counter)) == ordering(
            entry@,
            src,
            typename@,
            *table,
            reference@,
            pairs(old(terms)@),
            *old(alias_counter),
        ),
    decreases entry, 1nat,
{
    match entry {
        Json::Object(keys) => {
            proof {
                lemma_object_view(*keys);
            }
            let mut i: usize = 0;
            while i < keys.len()
                invariant
                    i <= keys.len(),
                    entry is Object,
                    *keys == entry->Object_0,
                    entry@ == JsonV::Object(entries_view(keys@)),
                    ordering(
                        entry@,
                        src,
                        typename@,
                        *table,
                        reference@,
                        pairs(old(terms)@),
                        *old(alias_counter),
                    ) == ordering_from(
                        entries_view(keys@),
                        i as nat,
                        src,
                        typename@,
                        *table,
                        reference@,
                        pairs(terms@),
                        *alias_counter,
                    ),
                decreases keys.len() - i,
            {
                assert(decreases_to!(*keys => keys@[i as int]));
                assert(entries_view(keys@)[i as int] == (keys@[i as int].0@, keys@[i as int].1@));
                match order_key(
                    &keys[i].0,
                    &keys[i].1,
                    src,
                    typename,
                    table,
                    reference,
                    alias_counter,
                    terms,
                ) {
                    Ok(_) => {},
                    Err(e) => return Err(e),
                }
                i += 1;
            }
            Ok(())
        },
        _ => Err(
            Error::new(owned("each order_by entry is an object mapping a column to a direction")),
        ),
    }
}

/// The terms of one key of an entry: an entry of that key alone.
fn order_key(
    key: &str,
    value: &Json,
    src: Sources<'_>,
    typename: &str,
    table: &Table,
    reference: &str,
    alias_counter: &mut usize,
    terms: &mut Vec<(String, String)>,
) -> (r: Result<(), Error>)
    ensures
        terms_outcome(r, final(terms)@, *final(alias_counter)) == key_ordering(
            key@,
            value@,
            src,
            typename@,
            *table,
            reference@,
            pairs(old(terms)@),
            *old(alias_counter),
        ),
    decreases value, 2nat,
{
    match value {
        Json::Null => return Ok(()),
        Json::String(name) => {
            return match field_term_sql(src, table, reference, key, name) {
                Ok((expression, direction)) => {
                    add_term(terms, expression, direction);
                    Ok(())
                },
                Err(e) => Err(e),
            };
        },
        _ => {},
    }
    let empty: Vec<RelationshipField> = Vec::new();
    let fields: &Vec<RelationshipField> = match relationships_of(src.relationships, typename) {
        Some(fields) => fields,
        None => &empty,
    };
    assert(fields@ =~= available(src, typename@));
    if let Some(rel) = find_aggregated(fields, key) {
        return find_aggregate_terms(value, rel, src, reference, alias_counter, terms);
    }
    let rel = match find_of_kind(fields, key, false) {
        Some(rel) => rel,
        None => {
            return Err(
                Error::new(cat5("cannot order by \"", key, "\" on \"", &table.name, "\"")),
            );
        },
    };
    let plan = match &rel.relationship.plan {
        Ok(plan) => plan,
        Err(message) => return Err(Error::new(message.clone())),
    };
    if plan.columns.len() == 0 {
        return Err(
            Error::new(cat3("cannot order by \"", key, "\": it is not reached by a key")),
        );
    }
    *alias_counter = next_number(*alias_counter);
    let alias = escape_ident(&cat2("pgrst_ord_", &decimal_text(*alias_counter as u128)));
    let correlation = key_conditions_sql(plan, reference, &alias);
    let target = match src.cache.get_table(&plan.foreign_schema, &plan.foreign_table) {
        Some(target) => target,
        None => {
            return Err(Error::new(cat3("unknown table \"", &plan.foreign_table, "\"")));
        },
    };
    let mut nested: Vec<(String, String)> = Vec::new();
    assert(pairs(nested@) =~= Seq::empty());
    match find_terms(
        value,
        src,
        &rel.target_type,
        target,
        &alias,
        alias_counter,
        &mut nested,
    ) {
        Ok(_) => {},
        Err(e) => return Err(e),
    }
    wrap_terms(&nested, plan, &alias, &correlation, terms);
    Ok(())
}

/// The terms of the entries from the `i`th on, after those in `terms`.
pub open spec fn orderings_from(
    entries: Seq<JsonV>,
    i: nat,
    src: Sources<'_>,
    typename: Seq<char>,
    table: Table,
    reference: Seq<char>,
    terms: Seq<Seq<char>>,
    aliases: usize,
) -> Result<(Seq<Seq<char>>, usize), ErrorV>
    decreases entries.len() - i,
{
    if i >= entries.len() {
        Ok((terms, aliases))
    } else {
        match written_after(
            terms,
            ordering(entries[i as int], src, typename, table, reference, Seq::empty(), aliases),
        ) {
            Ok((more, last)) => orderings_from(
                entries,
                i + 1,
                src,
                typename,
                table,
                reference,
                more,
                last,
            ),
            Err((e, _, _)) => Err(e),
        }
    }
}

/// The `ORDER BY` clause of an `order_by` argument. One object is a list of
/// one; nothing asked for is an empty clause.
pub open spec fn order_by_clause(
    order: Option<JsonV>,
    src: Sources<'_>,
    schema: Seq<char>,
    table: Seq<char>,
    typename: Seq<char>,
    reference: Seq<char>,
) -> Result<Seq<char>, ErrorV> {
    match order {
        None | Some(JsonV::Null) => Ok(Seq::empty()),
        Some(value) => {
            let entries = match value {
                JsonV::Array(items) => items,
                _ => seq![value],
            };
            if !(value is Array) && !(value is Object) {
                Err(plain_refusal("order_by takes an object or a list of them"@))
            } else if entries.len() == 0 {
                Ok(Seq::empty())
            } else {
                match src.cache.table(schema, table) {
                    None => Err(plain_refusal("unknown table \""@ + table + "\""@)),
                    Some(found) => match orderings_from(
                        entries,
                        0,
                        src,
                        typename,
                        found,
                        reference,
                        Seq::empty(),
                        0,
                    ) {
                        Err(e) => Err(e),
                        Ok((terms, _)) => if terms.len() == 0 {
                            Ok(Seq::empty())
                        } else {
                            Ok(" ORDER BY "@ + joined(terms, ", "@))
                        },
                    },
                }
            }
        },
    }
}

/// What a function that builds text reports.
pub open spec fn text_outcome(r: Result<String, Error>) -> Result<Seq<char>, ErrorV> {
    match r {
        Ok(sql) => Ok(sql@),
        Err(e) => Err(e@),
    }
}

fn ordered_entries(
    entries: &Vec<Json>,
    src: Sources<'_>,
    typename: &str,
    table: &Table,
    reference: &str,
) -> (r: Result<String, Error>)
    ensures
        text_outcome(r) == (match orderings_from(
            jsons(entries@),
            0,
            src,
            typename@,
            *table,
            reference@,
            Seq::empty(),
            0,
        ) {
            Err(e) => Err(e),
            Ok((terms, _)) => if terms.len() == 0 {
                Ok(Seq::empty())
            } else {
                Ok(" ORDER BY "@ + joined(terms, ", "@))
            },
        }),
{
    let mut terms = no_texts();
    let mut alias_counter: usize = 0;
    let mut i: usize = 0;
    while i < entries.len()
        invariant
            i <= entries.len(),
            orderings_from(
                jsons(entries@),
                0,
                src,
                typename@,
                *table,
                reference@,
                Seq::empty(),
                0,
            ) == orderings_from(
                jsons(entries@),
                i as nat,
                src,
                typename@,
                *table,
                reference@,
                texts(terms@),
                alias_counter,
            ),
        decreases entries.len() - i,
    {
        assert(jsons(entries@)[i as int] == entries@[i as int]@);
        match order_terms_into(
            &entries[i],
            src,
            typename,
            table,
            reference,
            &mut alias_counter,
            &mut terms,
        ) {
            Ok(_) => {},
            Err(e) => return Err(e),
        }
        i += 1;
    }
    if terms.len() == 0 {
        Ok(String::new())
    } else {
        Ok(cat2(" ORDER BY ", &join(&terms, ", ")))
    }
}

/// Build an `ORDER BY` clause from the `order_by` argument.
///
/// The argument is a list of objects, and the list is ordered. Names are
/// looked up in the table before they are quoted, so one that is unknown is
/// refused rather than written.
pub fn build_order_by_clause(
    order: Option<&Json>,
    src: Sources<'_>,
    schema_name: &str,
    table_name: &str,
    typename: &str,
    reference: &str,
) -> (r: Result<String, Error>)
    ensures
        text_outcome(r) == order_by_clause(
            json_ref(order),
            src,
            schema_name@,
            table_name@,
            typename@,
            reference@,
        ),
{
    let value = match order {
        None | Some(Json::Null) => return Ok(String::new()),
        Some(value) => value,
    };
    match value {
        Json::Array(items) => {
            proof {
                lemma_array_view(*items);
            }
            if items.len() == 0 {
                return Ok(String::new());
            }
            match src.cache.get_table(schema_name, table_name) {
                None => Err(Error::new(cat3("unknown table \"", table_name, "\""))),
                Some(table) => ordered_entries(items, src, typename, table, reference),
            }
        },
        Json::Object(_) => {
            let items: Vec<Json> = vec![value.copy()];
            assert(jsons(items@) =~= seq![value@]);
            match src.cache.get_table(schema_name, table_name) {
                None => Err(Error::new(cat3("unknown table \"", table_name, "\""))),
                Some(table) => ordered_entries(&items, src, typename, table, reference),
            }
        },
        _ => Err(Error::new(owned("order_by takes an object or a list of them"))),
    }
}

// ---------------------------------------------------------------------------
// Ordering an embedded list
// ---------------------------------------------------------------------------

/// The terms of an embedded list's ordering by its own columns, from the
/// `i`th key of one entry on, after those in `terms`.
pub open spec fn plain_keys(
    keys: Seq<(Seq<char>, JsonV)>,
    i: nat,
    src: Sources<'_>,
    table: Table,
    table_name: Seq<char>,
    alias: Seq<char>,
    terms: Seq<Seq<char>>,
) -> Result<Seq<Seq<char>>, ErrorV>
    decreases keys.len() - i,
{
    if i >= keys.len() {
        Ok(terms)
    } else {
        let (field, direction) = keys[i as int];
        let column = column_behind(*src.names, table.schema@, table.name@, field);
        let name = text_or_empty(direction);
        if direction is Null {
            plain_keys(keys, i + 1, src, table, table_name, alias, terms)
        } else if table.column(column) is None {
            Err(
                plain_refusal(
                    "cannot order by unknown column \""@ + field + "\" on \""@ + table_name
                        + "\""@,
                ),
            )
        } else {
            match paired(src.words.directions@, name) {
                None => Err(plain_refusal("\""@ + name + "\" is not a sort direction"@)),
                Some(sql) => plain_keys(
                    keys,
                    i + 1,
                    src,
                    table,
                    table_name,
                    alias,
                    terms.push(ident(alias) + "."@ + ident(column) + " "@ + sql),
                ),
            }
        }
    }
}

/// The terms of the entries from the `i`th on, after those in `terms`. What
/// is not an object orders nothing.
pub open spec fn plain_entries(
    entries: Seq<JsonV>,
    i: nat,
    src: Sources<'_>,
    table: Table,
    table_name: Seq<char>,
    alias: Seq<char>,
    terms: Seq<Seq<char>>,
) -> Result<Seq<Seq<char>>, ErrorV>
    decreases entries.len() - i,
{
    if i >= entries.len() {
        Ok(terms)
    } else {
        match entries[i as int] {
            JsonV::Object(keys) => match plain_keys(
                keys,
                0,
                src,
                table,
                table_name,
                alias,
                terms,
            ) {
                Ok(more) => plain_entries(entries, i + 1, src, table, table_name, alias, more),
                Err(e) => Err(e),
            },
            _ => plain_entries(entries, i + 1, src, table, table_name, alias, terms),
        }
    }
}

/// The ordering of an embedded list, as its terms, where there are any.
pub open spec fn embedded_ordering(
    order: JsonV,
    src: Sources<'_>,
    schema: Seq<char>,
    table: Seq<char>,
    alias: Seq<char>,
) -> Result<Option<Seq<char>>, ErrorV> {
    if !(order is Array) && !(order is Object) {
        Ok(None)
    } else {
        let entries = match order {
            JsonV::Array(items) => items,
            _ => seq![order],
        };
        match src.cache.table(schema, table) {
            None => Err(plain_refusal("unknown table \""@ + table + "\""@)),
            Some(found) => match plain_entries(
                entries,
                0,
                src,
                found,
                table,
                alias,
                Seq::empty(),
            ) {
                Err(e) => Err(e),
                Ok(terms) => if terms.len() == 0 {
                    Ok(None)
                } else {
                    Ok(Some(joined(terms, ", "@)))
                },
            },
        }
    }
}

fn add_plain_keys(
    keys: &Vec<(String, Json)>,
    src: Sources<'_>,
    table: &Table,
    table_name: &str,
    alias: &str,
    terms: &mut Vec<String>,
) -> (r: Result<(), Error>)
    ensures
        (match r {
            Ok(_) => Ok(texts(final(terms)@)),
            Err(e) => Err(e@),
        }) == plain_keys(
            entries_view(keys@),
            0,
            src,
            *table,
            table_name@,
            alias@,
            texts(old(terms)@),
        ),
{
    let mut i: usize = 0;
    while i < keys.len()
        invariant
            i <= keys.len(),
            plain_keys(
                entries_view(keys@),
                0,
                src,
                *table,
                table_name@,
                alias@,
                texts(old(terms)@),
            ) == plain_keys(
                entries_view(keys@),
                i as nat,
                src,
                *table,
                table_name@,
                alias@,
                texts(terms@),
            ),
        decreases keys.len() - i,
    {
        assert(entries_view(keys@)[i as int] == (keys@[i as int].0@, keys@[i as int].1@));
        if !keys[i].1.is_null() {
            let column = table_column_for(src.names, table, &keys[i].0);
            if table.get_column(column).is_none() {
                return Err(
                    Error::new(
                        cat5(
                            "cannot order by unknown column \"",
                            &keys[i].0,
                            "\" on \"",
                            table_name,
                            "\"",
                        ),
                    ),
                );
            }
            let name = text_or_none(&keys[i].1);
            match find_pair(&src.words.directions, name) {
                None => {
                    return Err(Error::new(cat3("\"", name, "\" is not a sort direction")));
                },
                Some(sql) => push_text(
                    terms,
                    cat5(&escape_ident(alias), ".", &escape_ident(column), " ", sql),
                ),
            }
        }
        i += 1;
    }
    Ok(())
}

fn plain_terms(
    entries: &Vec<Json>,
    src: Sources<'_>,
    table: &Table,
    table_name: &str,
    alias: &str,
) -> (r: Result<Vec<String>, Error>)
    ensures
        (match r {
            Ok(terms) => Ok(texts(terms@)),
            Err(e) => Err(e@),
        }) == plain_entries(jsons(entries@), 0, src, *table, table_name@, alias@, Seq::empty()),
{
    let mut terms = no_texts();
    let mut i: usize = 0;
    while i < entries.len()
        invariant
            i <= entries.len(),
            plain_entries(jsons(entries@), 0, src, *table, table_name@, alias@, Seq::empty())
                == plain_entries(
                jsons(entries@),
                i as nat,
                src,
                *table,
                table_name@,
                alias@,
                texts(terms@),
            ),
        decreases entries.len() - i,
    {
        assert(jsons(entries@)[i as int] == entries@[i as int]@);
        if let Json::Object(keys) = &entries[i] {
            proof {
                lemma_object_view(*keys);
            }
            match add_plain_keys(keys, src, table, table_name, alias, &mut terms) {
                Ok(_) => {},
                Err(e) => return Err(e),
            }
        }
        i += 1;
    }
    Ok(terms)
}

/// Render the `order_by` terms of an embedded list, qualified with its alias.
pub fn order_terms(
    order: &Json,
    src: Sources<'_>,
    schema_name: &str,
    table_name: &str,
    alias: &str,
) -> (r: Result<Option<String>, Error>)
    ensures
        (match r {
            Ok(sql) => Ok(text_opt(sql)),
            Err(e) => Err(e@),
        }) == embedded_ordering(order@, src, schema_name@, table_name@, alias@),
{
    let single: Vec<Json>;
    let entries: &Vec<Json> = match order {
        Json::Array(items) => {
            proof {
                lemma_array_view(*items);
            }
            items
        },
        Json::Object(_) => {
            single = vec![order.copy()];
            assert(jsons(single@) =~= seq![order@]);
            &single
        },
        _ => return Ok(None),
    };
    let table = match src.cache.get_table(schema_name, table_name) {
        Some(table) => table,
        None => return Err(Error::new(cat3("unknown table \"", table_name, "\""))),
    };
    match plain_terms(entries, src, table, table_name, alias) {
        Err(e) => Err(e),
        Ok(terms) => if terms.len() == 0 {
            Ok(None)
        } else {
            Ok(Some(join(&terms, ", ")))
        },
    }
}

// ---------------------------------------------------------------------------
// Distinct
// ---------------------------------------------------------------------------

/// The name a term orders by: what follows the last dot of its first word.
pub open spec fn term_column(term: Seq<char>) -> Seq<char> {
    let expression = match first_word(term) {
        Some(word) => word,
        None => term,
    };
    match split_last(expression, '.') {
        Some((_, name)) => name,
        None => expression,
    }
}

fn column_of(term: &str) -> (r: String)
    ensures
        r@ == term_column(term@),
{
    let expression = match leading_word(term) {
        Some(word) => word,
        None => owned(term),
    };
    match rsplit_once(&expression, '.') {
        Some((_, name)) => name,
        None => expression,
    }
}

/// The names that terms order by.
pub open spec fn term_columns(terms: Seq<Seq<char>>) -> Seq<Seq<char>> {
    terms.map_values(|term: Seq<char>| term_column(term))
}

/// Whether an ordering begins with the distinct columns, in any order among
/// themselves.
pub open spec fn leads_with(terms: Seq<Seq<char>>, distinct_on: Seq<Seq<char>>) -> bool {
    terms.len() >= distinct_on.len() && forall|i: int|
        0 <= i < distinct_on.len() ==> has_text(
            term_columns(terms.take(distinct_on.len() as int)),
            #[trigger] term_column(distinct_on[i]),
        )
}

/// The `DISTINCT ON` prefix and the ordering that goes with it. An ordering
/// that does not begin with the distinct columns is refused; where there is
/// none, the distinct columns become it.
pub open spec fn distinct_clause(distinct_on: Seq<Seq<char>>, written: Option<Seq<char>>) -> Result<
    (Seq<char>, Option<Seq<char>>),
    ErrorV,
> {
    if distinct_on.len() == 0 {
        Ok((Seq::empty(), written))
    } else {
        let prefix = "DISTINCT ON ("@ + joined(distinct_on, ", "@) + ") "@;
        match written {
            None => Ok((prefix, Some(joined(distinct_on, ", "@)))),
            Some(text) => if leads_with(split_text(text, ", "@), distinct_on) {
                Ok((prefix, Some(text)))
            } else {
                Err(
                    validation_refusal(
                        "\"distinct_on\" columns must match initial \"order_by\" columns"@,
                    ),
                )
            },
        }
    }
}

fn ordering_leads(terms: &Vec<String>, distinct_on: &Vec<String>) -> (r: bool)
    ensures
        r == leads_with(texts(terms@), texts(distinct_on@)),
{
    if terms.len() < distinct_on.len() {
        return false;
    }
    let ghost wanted = texts(terms@).take(distinct_on@.len() as int);
    let mut leading = no_texts();
    let mut i: usize = 0;
    while i < distinct_on.len()
        invariant
            i <= distinct_on@.len() <= terms@.len(),
            wanted == texts(terms@).take(distinct_on@.len() as int),
            texts(leading@) =~= term_columns(wanted).take(i as int),
        decreases distinct_on.len() - i,
    {
        push_text(&mut leading, column_of(&terms[i]));
        i += 1;
    }
    assert(texts(leading@) =~= term_columns(wanted));
    let mut k: usize = 0;
    while k < distinct_on.len()
        invariant
            k <= distinct_on@.len() <= terms@.len(),
            wanted == texts(terms@).take(distinct_on@.len() as int),
            texts(leading@) == term_columns(wanted),
            forall|j: int|
                0 <= j < k ==> has_text(
                    term_columns(wanted),
                    #[trigger] term_column(texts(distinct_on@)[j]),
                ),
        decreases distinct_on.len() - k,
    {
        let name = column_of(&distinct_on[k]);
        if !contains_text(&leading, &name) {
            assert(!has_text(term_columns(wanted), term_column(texts(distinct_on@)[k as int])));
            return false;
        }
        k += 1;
    }
    true
}

/// The `DISTINCT ON (...)` prefix, and the ordering that has to go with it.
///
/// PostgreSQL keeps the first row of each group in the query's own order, and
/// picks arbitrarily where the ordering does not begin with the distinct
/// columns, so such an ordering is refused. `written` is the ordering as its
/// comma-separated terms, and so is the answer.
pub fn distinct_on_clause(distinct_on: &Vec<String>, written: Option<&str>) -> (r: Result<
    (String, Option<String>),
    Error,
>)
    ensures
        (match r {
            Ok((prefix, order)) => Ok((prefix@, text_opt(order))),
            Err(e) => Err(e@),
        }) == distinct_clause(texts(distinct_on@), str_opt(written)),
{
    if distinct_on.len() == 0 {
        return Ok((String::new(), owned_opt(written)));
    }
    let columns = join(distinct_on, ", ");
    let prefix = cat3("DISTINCT ON (", &columns, ") ");
    match written {
        None => Ok((prefix, Some(columns))),
        Some(text) => {
            proof {
                reveal_strlit(", ");
            }
            let terms = split_on(text, ", ");
            if ordering_leads(&terms, distinct_on) {
                Ok((prefix, Some(owned(text))))
            } else {
                Err(
                    validation_error(
                        owned("\"distinct_on\" columns must match initial \"order_by\" columns"),
                    ),
                )
            }
        },
    }
}

/// The strings of a list from the `i`th item on, after those in `found`.
pub open spec fn strings_from(items: Seq<JsonV>, i: nat, found: Seq<Seq<char>>) -> Seq<Seq<char>>
    decreases items.len() - i,
{
    if i >= items.len() {
        found
    } else {
        match items[i as int] {
            JsonV::String(s) => strings_from(items, i + 1, found.push(s)),
            _ => strings_from(items, i + 1, found),
        }
    }
}

/// The names that an argument gives: a list of them, or one.
pub open spec fn names_in(value: Option<JsonV>) -> Seq<Seq<char>> {
    match value {
        Some(JsonV::Array(items)) => strings_from(items, 0, Seq::empty()),
        Some(JsonV::String(one)) => seq![one],
        _ => Seq::empty(),
    }
}

/// The names that an argument gives: a list of them, or one.
pub fn argument_names(value: Option<&Json>) -> (r: Vec<String>)
    ensures
        texts(r@) == names_in(json_ref(value)),
{
    let mut found = no_texts();
    match value {
        Some(Json::Array(items)) => {
            proof {
                lemma_array_view(*items);
            }
            let mut i: usize = 0;
            while i < items.len()
                invariant
                    i <= items.len(),
                    strings_from(jsons(items@), 0, Seq::empty()) == strings_from(
                        jsons(items@),
                        i as nat,
                        texts(found@),
                    ),
                decreases items.len() - i,
            {
                assert(jsons(items@)[i as int] == items@[i as int]@);
                if let Json::String(s) = &items[i] {
                    push_text(&mut found, s.clone());
                }
                i += 1;
            }
            found
        },
        Some(Json::String(one)) => {
            push_text(&mut found, one.clone());
            assert(texts(found@) =~= seq![one@]);
            found
        },
        _ => found,
    }
}

/// The columns that the fields from the `i`th on name, quoted, after those in
/// `quoted`; under an alias where there is one.
pub open spec fn distinct_columns(
    fields: Seq<Seq<char>>,
    i: nat,
    src: Sources<'_>,
    table: Table,
    table_name: Seq<char>,
    alias: Option<Seq<char>>,
    quoted: Seq<Seq<char>>,
) -> Result<Seq<Seq<char>>, ErrorV>
    decreases fields.len() - i,
{
    if i >= fields.len() {
        Ok(quoted)
    } else {
        let column = column_behind(*src.names, table.schema@, table.name@, fields[i as int]);
        if table.column(column) is None {
            Err(
                plain_refusal(
                    "cannot take distinct on unknown column \""@ + fields[i as int] + "\" of \""@
                        + table_name + "\""@,
                ),
            )
        } else {
            distinct_columns(
                fields,
                i + 1,
                src,
                table,
                table_name,
                alias,
                quoted.push(
                    match alias {
                        Some(alias) => ident(alias) + "."@ + ident(column),
                        None => ident(column),
                    },
                ),
            )
        }
    }
}

/// The distinct columns of a table that an argument names, quoted.
pub open spec fn distinct_on(
    value: Option<JsonV>,
    src: Sources<'_>,
    schema: Seq<char>,
    table: Seq<char>,
    alias: Option<Seq<char>>,
) -> Result<Seq<Seq<char>>, ErrorV> {
    let fields = names_in(value);
    if fields.len() == 0 {
        Ok(Seq::empty())
    } else {
        match src.cache.table(schema, table) {
            None => Err(plain_refusal("unknown table \""@ + table + "\""@)),
            Some(found) => distinct_columns(fields, 0, src, found, table, alias, Seq::empty()),
        }
    }
}

/// What a function that lists texts reports.
pub open spec fn texts_outcome(r: Result<Vec<String>, Error>) -> Result<Seq<Seq<char>>, ErrorV> {
    match r {
        Ok(found) => Ok(texts(found@)),
        Err(e) => Err(e@),
    }
}

/// The columns that a `distinct_on` argument names, each checked against the
/// table and quoted, and under an alias where there is one.
pub fn build_distinct_on(
    value: Option<&Json>,
    src: Sources<'_>,
    schema_name: &str,
    table_name: &str,
    alias: Option<&str>,
) -> (r: Result<Vec<String>, Error>)
    ensures
        texts_outcome(r) == distinct_on(
            json_ref(value),
            src,
            schema_name@,
            table_name@,
            str_opt(alias),
        ),
{
    let fields = argument_names(value);
    let mut quoted = no_texts();
    if fields.len() == 0 {
        return Ok(quoted);
    }
    let table = match src.cache.get_table(schema_name, table_name) {
        Some(table) => table,
        None => return Err(Error::new(cat3("unknown table \"", table_name, "\""))),
    };
    let mut i: usize = 0;
    while i < fields.len()
        invariant
            i <= fields.len(),
            distinct_on(json_ref(value), src, schema_name@, table_name@, str_opt(alias))
                == distinct_columns(
                texts(fields@),
                i as nat,
                src,
                *table,
                table_name@,
                str_opt(alias),
                texts(quoted@),
            ),
        decreases fields.len() - i,
    {
        assert(texts(fields@)[i as int] == fields@[i as int]@);
        let column = table_column_for(src.names, table, &fields[i]);
        if table.get_column(column).is_none() {
            return Err(
                Error::new(
                    cat5(
                        "cannot take distinct on unknown column \"",
                        &fields[i],
                        "\" of \"",
                        table_name,
                        "\"",
                    ),
                ),
            );
        }
        match alias {
            Some(alias) => push_text(
                &mut quoted,
                cat3(&escape_ident(alias), ".", &escape_ident(column)),
            ),
            None => push_text(&mut quoted, escape_ident(column)),
        }
        i += 1;
    }
    Ok(quoted)
}

} // verus!

//! Relationships read in the same query as the rows that have them.
//!
//! Each requested relationship becomes a correlated subselect that yields
//! JSON, so the whole selection comes back from the parent's query. What a
//! subselect is made of is settled here; its correlation with the parent is
//! rendered from its plan.

use crate::binds::{binds, following, next_number, BindsV};
use crate::catalog::{
    column_behind, column_for, computed_behind, computed_for, fields_of, relationships_of,
    table_column_for, ComputedColumn, EmbedPlan, NameOverrides, RelationshipField, Table,
};
use crate::computed::{
    computed_arguments, computed_call, computed_column_call, computed_field_sql, computed_sql,
    relationship_arguments,
};
use crate::condition::{alias_of, build_condition, condition, cursor, CursorV};
use crate::error::{plain_refusal, Error, ErrorV};
use crate::json::{Json, JsonV};
use crate::limits::{lower, lower_ceiling};
use crate::lookup::{deref_opt, find_named, named};
use crate::ordering::{
    aggregated_list, argument_names, build_distinct_on, distinct_clause, distinct_on,
    distinct_on_clause, embedded_ordering, find_aggregated, names_in, order_terms,
};
use crate::projection::{place_name, placed_in, rename_projection, renaming};
use crate::role::{
    and_predicates, both, filter_of, permission_limit, permission_predicate, Caller, Verb,
};
use crate::scope::{ScopeV, Sources, WhereScope};
use crate::text::{
    cat2, cat3, cat4, cat5, cat8, contains_text, decimal_text, escape_ident, has_text, ident, join,
    joined, no_texts, owned, push_text, replace_char, replaced, same, str_opt, text_opt, texts,
};
use vstd::prelude::*;

verus! {

/// A field as a request selects it: its name, the name it is answered under
/// where that is another, its arguments as one document, and the fields
/// selected below it.
pub struct Selected {
    pub name: String,
    pub alias: Option<String>,
    pub arguments: Json,
    pub fields: Vec<Selected>,
}

/// A piece of a select list: text, or a further relationship to be rendered.
pub enum Fragment<'a> {
    Text(String),
    Embed(Box<Embed<'a>>),
}

/// A relationship to be rendered as a correlated subselect.
pub struct Embed<'a> {
    /// The field it is answered under.
    pub field: String,
    /// How its rows are reached.
    pub plan: &'a EmbedPlan,
    /// The alias of the row it belongs to, and of its own rows.
    pub parent_alias: String,
    pub child_alias: String,
    /// Whether it is an aggregate of the rows rather than the rows.
    pub aggregate: bool,
    /// The `DISTINCT ON` prefix of its rows.
    pub distinct: String,
    /// Its select list.
    pub select: Vec<Fragment<'a>>,
    pub filter: Option<String>,
    pub order: Option<String>,
    pub limit: Option<i64>,
    pub offset: i64,
    /// The arguments its function is called with, where there are any beside
    /// the row.
    pub call: Option<String>,
}

/// What a [`Fragment`] holds.
#[verifier::ext_equal]
pub enum FragmentV {
    Text(Seq<char>),
    Embed(Box<EmbedV>),
}

/// What an [`Embed`] holds.
#[verifier::ext_equal]
pub struct EmbedV {
    pub field: Seq<char>,
    pub plan: EmbedPlan,
    pub parent_alias: Seq<char>,
    pub child_alias: Seq<char>,
    pub aggregate: bool,
    pub distinct: Seq<char>,
    pub select: Seq<FragmentV>,
    pub filter: Option<Seq<char>>,
    pub order: Option<Seq<char>>,
    pub limit: Option<i64>,
    pub offset: i64,
    pub call: Option<Seq<char>>,
}

/// What an [`Embed`] holds.
pub open spec fn embed_view(e: Embed<'_>) -> EmbedV
    decreases e,
{
    EmbedV {
        field: e.field@,
        plan: *e.plan,
        parent_alias: e.parent_alias@,
        child_alias: e.child_alias@,
        aggregate: e.aggregate,
        distinct: e.distinct@,
        select: Seq::new(
            e.select@.len(),
            |i: int|
                if 0 <= i < e.select@.len() {
                    fragment_view(e.select@[i])
                } else {
                    FragmentV::Text(Seq::empty())
                },
        ),
        filter: text_opt(e.filter),
        order: text_opt(e.order),
        limit: e.limit,
        offset: e.offset,
        call: text_opt(e.call),
    }
}

/// What a [`Fragment`] holds.
pub open spec fn fragment_view(f: Fragment<'_>) -> FragmentV
    decreases f,
{
    match f {
        Fragment::Text(s) => FragmentV::Text(s@),
        Fragment::Embed(e) => FragmentV::Embed(Box::new(embed_view(*e))),
    }
}

/// What several fragments hold.
pub open spec fn fragments(v: Seq<Fragment<'_>>) -> Seq<FragmentV> {
    v.map_values(|f: Fragment<'_>| fragment_view(f))
}

/// What several relationships hold.
pub open spec fn embeds_of(v: Seq<Embed<'_>>) -> Seq<EmbedV> {
    v.map_values(|e: Embed<'_>| embed_view(e))
}

pub proof fn lemma_select_view(e: Embed<'_>)
    ensures
        embed_view(e).select == fragments(e.select@),
{
    assert(embed_view(e).select =~= fragments(e.select@));
}

/// A select list with one more part.
pub open spec fn with_part(list: Seq<FragmentV>, part: Seq<FragmentV>) -> Seq<FragmentV> {
    if list.len() == 0 {
        part
    } else {
        list.push(FragmentV::Text(", "@)) + part
    }
}

/// Adds a fragment at the end of a list.
pub fn push_fragment<'a>(list: &mut Vec<Fragment<'a>>, f: Fragment<'a>)
    ensures
        fragments(final(list)@) == fragments(old(list)@).push(fragment_view(f)),
{
    proof {
        assert(fragments(list@.push(f)) =~= fragments(list@).push(fragment_view(f)));
    }
    list.push(f);
}

/// Adds a part that is text to a select list.
pub fn add_text<'a>(list: &mut Vec<Fragment<'a>>, text: String)
    ensures
        fragments(final(list)@) == with_part(
            fragments(old(list)@),
            seq![FragmentV::Text(text@)],
        ),
{
    let ghost before = fragments(list@);
    let ghost added = text@;
    if list.len() > 0 {
        push_fragment(list, Fragment::Text(owned(", ")));
    }
    push_fragment(list, Fragment::Text(text));
    proof {
        if before.len() == 0 {
            assert(before.push(FragmentV::Text(added)) =~= seq![FragmentV::Text(added)]);
        } else {
            assert(before.push(FragmentV::Text(", "@)).push(FragmentV::Text(added)) =~= before.push(
                FragmentV::Text(", "@),
            ) + seq![FragmentV::Text(added)]);
        }
    }
}

/// Adds a part that is a relationship, between two texts, to a select list.
fn add_embed<'a>(list: &mut Vec<Fragment<'a>>, before: String, embed: Embed<'a>, after: String)
    ensures
        fragments(final(list)@) == with_part(
            fragments(old(list)@),
            seq![
                FragmentV::Text(before@),
                FragmentV::Embed(Box::new(embed_view(embed))),
                FragmentV::Text(after@),
            ],
        ),
{
    let ghost was = fragments(list@);
    let ghost part = seq![
        FragmentV::Text(before@),
        FragmentV::Embed(Box::new(embed_view(embed))),
        FragmentV::Text(after@),
    ];
    if list.len() > 0 {
        push_fragment(list, Fragment::Text(owned(", ")));
    }
    push_fragment(list, Fragment::Text(before));
    push_fragment(list, Fragment::Embed(Box::new(embed)));
    push_fragment(list, Fragment::Text(after));
    proof {
        if was.len() == 0 {
            assert(fragments(list@) =~= part);
        } else {
            assert(fragments(list@) =~= was.push(FragmentV::Text(", "@)) + part);
        }
    }
}

// ---------------------------------------------------------------------------
// Narrowing
// ---------------------------------------------------------------------------

/// What an embed's arguments narrow its rows to, in the order the SQL takes
/// them.
pub struct Narrowing {
    pub distinct: String,
    pub filter: Option<String>,
    pub order: Option<String>,
    pub limit: Option<i64>,
    pub offset: i64,
}

/// What a [`Narrowing`] holds.
#[verifier::ext_equal]
pub struct NarrowingV {
    pub distinct: Seq<char>,
    pub filter: Option<Seq<char>>,
    pub order: Option<Seq<char>>,
    pub limit: Option<i64>,
    pub offset: i64,
}

impl View for Narrowing {
    type V = NarrowingV;

    open spec fn view(&self) -> NarrowingV {
        NarrowingV {
            distinct: self.distinct@,
            filter: text_opt(self.filter),
            order: text_opt(self.order),
            limit: self.limit,
            offset: self.offset,
        }
    }
}

/// An integer argument, where one was given.
pub open spec fn integer_argument(arguments: JsonV, name: Seq<char>) -> Option<i64> {
    match arguments.get(name) {
        Some(value) => match value.as_i64() {
            Some(n) => Some(n as i64),
            None => None,
        },
        None => None,
    }
}

/// An integer argument, where one was given.
pub fn integer_of(arguments: &Json, name: &str) -> (r: Option<i64>)
    ensures
        r == integer_argument(arguments@, name@),
{
    match arguments.get(name) {
        Some(value) => value.as_i64(),
        None => None,
    }
}

/// What narrows the rows of a relationship: its arguments, the child's own
/// permission, and the ceilings on how many rows a read may return.
pub open spec fn narrowing(
    arguments: JsonV,
    plan: EmbedPlan,
    src: Sources<'_>,
    caller: Caller,
    target_type: Seq<char>,
    child_alias: Seq<char>,
    max_rows: Option<i64>,
    at: BindsV,
) -> Result<(NarrowingV, BindsV), (ErrorV, BindsV)> {
    let schema = plan.foreign_schema@;
    let table = plan.foreign_table@;
    let rule = caller.ruled(schema, table, Verb::Select);
    match filter_of(rule) {
        Err(e) => Err((e, at)),
        Ok(granted) => {
            let filtered = match both(arguments.present("where"@), granted) {
                None => Ok((None, CursorV { binds: at, aliases: 0 })),
                Some(expression) => condition(
                    expression,
                    ScopeV {
                        caller: Some(caller),
                        ..ScopeV::over_alias(
                            schema,
                            table,
                            child_alias,
                            target_type,
                            *src.cache,
                            *src.relationships,
                            *src.names,
                            *src.words,
                        )
                    },
                    CursorV { binds: at, aliases: 0 },
                ),
            };
            match filtered {
                Err((e, end)) => Err((e, end.binds)),
                Ok((filter, end)) => {
                    let ordered = match arguments.present("order_by"@) {
                        Some(order) => embedded_ordering(order, src, schema, table, child_alias),
                        None => Ok(None),
                    };
                    match ordered {
                        Err(e) => Err((e, end.binds)),
                        Ok(order) => match distinct_on(
                            arguments.get("distinct_on"@),
                            src,
                            schema,
                            table,
                            Some(child_alias),
                        ) {
                            Err(e) => Err((e, end.binds)),
                            Ok(columns) => match distinct_clause(columns, order) {
                                Err(e) => Err((e, end.binds)),
                                Ok((distinct, order)) => Ok(
                                    (
                                        NarrowingV {
                                            distinct,
                                            filter,
                                            order,
                                            limit: lower(
                                                integer_argument(arguments, "limit"@),
                                                lower(max_rows, rule.limit),
                                            ),
                                            offset: match integer_argument(arguments, "offset"@) {
                                                Some(n) => n,
                                                None => 0,
                                            },
                                        },
                                        end.binds,
                                    ),
                                ),
                            },
                        },
                    }
                },
            }
        },
    }
}

/// What an embed's arguments narrow its child rows to.
///
/// A list and an aggregate of that list take the same arguments and mean the
/// same by them.
pub fn embed_narrowing(
    arguments: &Json,
    plan: &EmbedPlan,
    src: Sources<'_>,
    caller: &Caller,
    target_type: &str,
    child_alias: &str,
    max_rows: Option<i64>,
    param_idx: &mut usize,
    values: &mut Vec<Json>,
) -> (r: Result<Narrowing, Error>)
    ensures
        (match r {
            Ok(narrowed) => Ok((narrowed@, binds(*final(param_idx), final(values)@))),
            Err(e) => Err((e@, binds(*final(param_idx), final(values)@))),
        }) == narrowing(
            arguments@,
            *plan,
            src,
            *caller,
            target_type@,
            child_alias@,
            max_rows,
            binds(*old(param_idx), old(values)@),
        ),
{
    let schema = &plan.foreign_schema;
    let table = &plan.foreign_table;
    let granted = match permission_predicate(caller, schema, table) {
        Ok(granted) => granted,
        Err(e) => return Err(e),
    };
    let requested = match arguments.present("where") {
        Some(filter) => Some(filter.copy()),
        None => None,
    };
    let mut filter: Option<String> = None;
    if let Some(expression) = and_predicates(requested, granted) {
        let scope = WhereScope::for_alias(
            schema,
            table,
            child_alias,
            target_type,
            src.cache,
            src.relationships,
            src.names,
            src.words,
        ).for_caller(caller);
        let mut nested_alias: usize = 0;
        match build_condition(&expression, &scope, param_idx, values, &mut nested_alias) {
            Ok(sql) => {
                filter = sql;
            },
            Err(e) => return Err(e),
        }
    }
    let order = match arguments.present("order_by") {
        Some(order) => match order_terms(order, src, schema, table, child_alias) {
            Ok(order) => order,
            Err(e) => return Err(e),
        },
        None => None,
    };
    let ceiling = lower_ceiling(max_rows, permission_limit(caller, schema, table));
    let limit = lower_ceiling(integer_of(arguments, "limit"), ceiling);
    let offset: i64 = match integer_of(arguments, "offset") {
        Some(n) => n,
        None => 0,
    };
    let columns = match build_distinct_on(
        arguments.get("distinct_on"),
        src,
        schema,
        table,
        Some(child_alias),
    ) {
        Ok(columns) => columns,
        Err(e) => return Err(e),
    };
    let written: Option<&str> = match &order {
        Some(order) => Some(order.as_str()),
        None => None,
    };
    match distinct_on_clause(&columns, written) {
        Err(e) => Err(e),
        Ok((distinct, order)) => Ok(Narrowing { distinct, filter, order, limit, offset }),
    }
}

// ---------------------------------------------------------------------------
// Columns
// ---------------------------------------------------------------------------

/// The computed column a selected name is, where no column has that name.
pub open spec fn computed_in(table: Option<Table>, name: Seq<char>, names: NameOverrides) -> Option<
    ComputedColumn,
> {
    match table {
        Some(t) => if t.column(column_behind(names, t.schema@, t.name@, name)) is None {
            computed_behind(names, t, name)
        } else {
            None
        },
        None => None,
    }
}

/// The column behind a selected name, where the table is known.
pub open spec fn column_in(table: Option<Table>, name: Seq<char>, names: NameOverrides) -> Seq<
    char,
> {
    match table {
        Some(t) => column_behind(names, t.schema@, t.name@, name),
        None => name,
    }
}

fn find_computed<'a>(table: Option<&'a Table>, name: &str, names: &NameOverrides) -> (r: Option<
    &'a ComputedColumn,
>)
    ensures
        deref_opt(r) == computed_in(deref_opt(table), name@, *names),
{
    match table {
        Some(t) => if t.get_column(table_column_for(names, t, name)).is_none() {
            computed_for(names, t, name)
        } else {
            None
        },
        None => None,
    }
}

fn find_column<'a>(table: Option<&Table>, name: &'a str, names: &'a NameOverrides) -> (r: &'a str)
    ensures
        r@ == column_in(deref_opt(table), name@, *names),
{
    match table {
        Some(t) => table_column_for(names, t, name),
        None => name,
    }
}

/// How one named field of a row is read, given the alias the row goes by.
pub open spec fn field_expression(
    table: Option<Table>,
    alias: Seq<char>,
    name: Seq<char>,
    names: NameOverrides,
) -> Seq<char> {
    match computed_in(table, name, names) {
        Some(definition) => computed_sql(definition, ident(alias) + ".*"@, ident(alias)),
        None => ident(alias) + "."@ + ident(column_in(table, name, names)),
    }
}

/// How one named field of a row is read: a column is itself, a computed field
/// is the call that produces it.
pub fn column_expression(table: Option<&Table>, alias: &str, name: &str, names: &NameOverrides) -> (r:
    String)
    ensures
        r@ == field_expression(deref_opt(table), alias@, name@, *names),
{
    let quoted = escape_ident(alias);
    match find_computed(table, name, names) {
        Some(definition) => computed_call(definition, &cat2(&quoted, ".*"), &quoted),
        None => cat3(&quoted, ".", &escape_ident(find_column(table, name, names))),
    }
}

/// The computed columns that the fields from the `i`th on ask for, after those
/// in `parts`.
pub open spec fn computed_fields(
    table: Table,
    fields: Seq<Selected>,
    i: nat,
    row: Seq<char>,
    names: NameOverrides,
    parts: Seq<Seq<char>>,
    at: BindsV,
) -> Result<(Seq<Seq<char>>, BindsV), (ErrorV, BindsV)>
    decreases fields.len() - i,
{
    if i >= fields.len() {
        Ok((parts, at))
    } else {
        let field = fields[i as int];
        match computed_in(Some(table), field.name@, names) {
            None => computed_fields(table, fields, i + 1, row, names, parts, at),
            Some(computed) => {
                let given = if computed.arguments@.len() == 0 {
                    None
                } else {
                    field.arguments@.get("args"@)
                };
                match computed_field_sql(computed, row, field.name@, given, at) {
                    Err(e) => Err(e),
                    Ok((sql, end)) => computed_fields(
                        table,
                        fields,
                        i + 1,
                        row,
                        names,
                        parts.push(sql + " AS "@ + ident(field.name@)),
                        end,
                    ),
                }
            },
        }
    }
}

/// The select-list entries for any computed columns the selection asks for.
///
/// A computed column is not in `*` and has to be named. A real column of the
/// same name wins.
pub fn computed_projections(
    table: &Table,
    fields: &Vec<Selected>,
    row_reference: &str,
    names: &NameOverrides,
    param_idx: &mut usize,
    values: &mut Vec<Json>,
) -> (r: Result<Vec<String>, Error>)
    ensures
        (match r {
            Ok(parts) => Ok((texts(parts@), binds(*final(param_idx), final(values)@))),
            Err(e) => Err((e@, binds(*final(param_idx), final(values)@))),
        }) == computed_fields(
            *table,
            fields@,
            0,
            row_reference@,
            *names,
            Seq::empty(),
            binds(*old(param_idx), old(values)@),
        ),
{
    let mut parts = no_texts();
    let mut i: usize = 0;
    while i < fields.len()
        invariant
            i <= fields.len(),
            computed_fields(
                *table,
                fields@,
                0,
                row_reference@,
                *names,
                Seq::empty(),
                binds(*old(param_idx), old(values)@),
            ) == computed_fields(
                *table,
                fields@,
                i as nat,
                row_reference@,
                *names,
                texts(parts@),
                binds(*param_idx, values@),
            ),
        decreases fields.len() - i,
    {
        let field = &fields[i];
        if let Some(computed) = find_computed(Some(table), &field.name, names) {
            let given: Option<&Json> = if computed.arguments.len() == 0 {
                None
            } else {
                field.arguments.get("args")
            };
            match computed_column_call(
                computed,
                row_reference,
                &field.name,
                given,
                param_idx,
                values,
            ) {
                Ok(sql) => push_text(
                    &mut parts,
                    cat3(&sql, " AS ", &escape_ident(&field.name)),
                ),
                Err(e) => return Err(e),
            }
        }
        i += 1;
    }
    Ok(parts)
}

// ---------------------------------------------------------------------------
// Aggregates
// ---------------------------------------------------------------------------

/// The columns a count names, quoted, and under an alias where there is one.
pub open spec fn counted(
    requested: Seq<Seq<char>>,
    schema: Seq<char>,
    table: Seq<char>,
    alias: Option<Seq<char>>,
    names: NameOverrides,
) -> Seq<Seq<char>> {
    requested.map_values(
        |column: Seq<char>|
            match alias {
                Some(alias) => ident(alias) + "."@ + ident(
                    column_behind(names, schema, table, column),
                ),
                None => ident(column_behind(names, schema, table, column)),
            },
    )
}

/// The `count` a selection asks for. Alone it counts rows; of a column it
/// counts those where it is not null; several columns are counted as the row
/// they make.
pub open spec fn count_sql(
    arguments: JsonV,
    schema: Seq<char>,
    table: Seq<char>,
    alias: Option<Seq<char>>,
    names: NameOverrides,
) -> Seq<char> {
    let requested = names_in(arguments.get("columns"@));
    if requested.len() == 0 {
        "count(*)"@
    } else {
        let columns = counted(requested, schema, table, alias, names);
        let what = if columns.len() == 1 {
            columns[0]
        } else {
            "("@ + joined(columns, ", "@) + ")"@
        };
        if arguments.get("distinct"@) == Some(JsonV::Bool(true)) {
            "count(DISTINCT "@ + what + ")"@
        } else {
            "count("@ + what + ")"@
        }
    }
}

/// The `count(...)` a selection asked for.
pub fn count_expression(
    arguments: &Json,
    schema: &str,
    table: &str,
    alias: Option<&str>,
    names: &NameOverrides,
) -> (r: String)
    ensures
        r@ == count_sql(arguments@, schema@, table@, str_opt(alias), *names),
{
    let requested = argument_names(arguments.get("columns"));
    if requested.len() == 0 {
        return owned("count(*)");
    }
    let ghost wanted = counted(texts(requested@), schema@, table@, str_opt(alias), *names);
    let mut columns = no_texts();
    let mut i: usize = 0;
    while i < requested.len()
        invariant
            i <= requested.len(),
            wanted == counted(texts(requested@), schema@, table@, str_opt(alias), *names),
            texts(columns@) =~= wanted.take(i as int),
        decreases requested.len() - i,
    {
        assert(texts(requested@)[i as int] == requested@[i as int]@);
        let source = column_for(names, schema, table, &requested[i]);
        match alias {
            Some(alias) => push_text(
                &mut columns,
                cat3(&escape_ident(alias), ".", &escape_ident(source)),
            ),
            None => push_text(&mut columns, escape_ident(source)),
        }
        i += 1;
    }
    assert(texts(columns@) =~= wanted);
    let what = if columns.len() == 1 {
        columns[0].clone()
    } else {
        cat3("(", &join(&columns, ", "), ")")
    };
    if matches!(arguments.get("distinct"), Some(Json::Bool(true))) {
        cat3("count(DISTINCT ", &what, ")")
    } else {
        cat3("count(", &what, ")")
    }
}

/// The name a selected field is answered under.
pub open spec fn answered_as(field: Selected) -> Seq<char> {
    match field.alias {
        Some(alias) => alias@,
        None => field.name@,
    }
}

/// A text as it stands inside single quotes in SQL.
pub open spec fn literal(s: Seq<char>) -> Seq<char> {
    replaced(s, '\'', "''"@)
}

/// The counts that the fields from the `i`th on ask for, each under the name
/// it is answered as, after those in `parts`.
pub open spec fn count_fields(
    fields: Seq<Selected>,
    i: nat,
    schema: Seq<char>,
    table: Seq<char>,
    alias: Option<Seq<char>>,
    names: NameOverrides,
    parts: Seq<Seq<char>>,
) -> Seq<Seq<char>>
    decreases fields.len() - i,
{
    if i >= fields.len() {
        parts
    } else if fields[i as int].name@ == "count"@ {
        count_fields(
            fields,
            i + 1,
            schema,
            table,
            alias,
            names,
            parts.push(
                "'"@ + literal(answered_as(fields[i as int])) + "', "@ + count_sql(
                    fields[i as int].arguments@,
                    schema,
                    table,
                    alias,
                    names,
                ),
            ),
        )
    } else {
        count_fields(fields, i + 1, schema, table, alias, names, parts)
    }
}

/// Whether a count is answered under its own name.
pub open spec fn counts_plainly(fields: Seq<Selected>) -> bool {
    exists|i: int|
        0 <= i < fields.len() && (#[trigger] fields[i]).name@ == "count"@ && answered_as(fields[i])
            == "count"@
}

/// The aggregates that the fields from the `i`th on ask for, by name and in
/// order, with those in `found`; only those that are offered, where a list of
/// them is given.
pub open spec fn functions_asked(
    fields: Seq<Selected>,
    i: nat,
    offered: Option<Seq<Seq<char>>>,
    found: Seq<Seq<char>>,
) -> Seq<Seq<char>>
    decreases fields.len() - i,
{
    if i >= fields.len() {
        found
    } else {
        let name = fields[i as int].name@;
        let known = match offered {
            Some(offered) => has_text(offered, name),
            None => true,
        };
        functions_asked(
            fields,
            i + 1,
            offered,
            if name != "count"@ && known && !has_text(found, name) {
                placed_in(found, name)
            } else {
                found
            },
        )
    }
}

/// The names of the fields from the `i`th on, each once, after those in
/// `found`.
pub open spec fn distinct_names(fields: Seq<Selected>, i: nat, found: Seq<Seq<char>>) -> Seq<
    Seq<char>,
>
    decreases fields.len() - i,
{
    if i >= fields.len() {
        found
    } else if has_text(found, fields[i as int].name@) {
        distinct_names(fields, i + 1, found)
    } else {
        distinct_names(fields, i + 1, found.push(fields[i as int].name@))
    }
}

/// The columns asked of one aggregate by the fields from the `i`th on,
/// however many times it is asked for, after those in `found`.
pub open spec fn columns_asked(
    fields: Seq<Selected>,
    i: nat,
    function: Seq<char>,
    found: Seq<Seq<char>>,
) -> Seq<Seq<char>>
    decreases fields.len() - i,
{
    if i >= fields.len() {
        found
    } else if fields[i as int].name@ == function {
        columns_asked(
            fields,
            i + 1,
            function,
            distinct_names(fields[i as int].fields@, 0, found),
        )
    } else {
        columns_asked(fields, i + 1, function, found)
    }
}

/// The column behind a field, where the table it belongs to is known.
pub open spec fn source_in(
    table: Option<(Seq<char>, Seq<char>)>,
    field: Seq<char>,
    names: NameOverrides,
) -> Seq<char> {
    match table {
        Some((schema, name)) => column_behind(names, schema, name, field),
        None => field,
    }
}

/// One aggregate of each of several columns, under the fields they are.
pub open spec fn column_entries(
    columns: Seq<Seq<char>>,
    function: Seq<char>,
    alias: Option<Seq<char>>,
    table: Option<(Seq<char>, Seq<char>)>,
    names: NameOverrides,
) -> Seq<Seq<char>> {
    columns.map_values(
        |column: Seq<char>|
            "'"@ + literal(column) + "', "@ + function + "("@ + (match alias {
                Some(alias) => ident(alias) + "."@,
                None => ""@,
            }) + ident(source_in(table, column, names)) + ")"@,
    )
}

/// One aggregate as an entry of the answer: an object of its columns.
pub open spec fn function_entry(
    columns: Seq<Seq<char>>,
    function: Seq<char>,
    alias: Option<Seq<char>>,
    table: Option<(Seq<char>, Seq<char>)>,
    names: NameOverrides,
) -> Seq<char> {
    "'"@ + function + "', json_build_object("@ + joined(
        column_entries(columns, function, alias, table, names),
        ", "@,
    ) + ")"@
}

/// Adds the counts that fields ask for.
pub fn add_counts(
    fields: &Vec<Selected>,
    schema: &str,
    table: &str,
    alias: Option<&str>,
    names: &NameOverrides,
    parts: &mut Vec<String>,
)
    ensures
        texts(final(parts)@) == count_fields(
            fields@,
            0,
            schema@,
            table@,
            str_opt(alias),
            *names,
            texts(old(parts)@),
        ),
{
    let mut i: usize = 0;
    while i < fields.len()
        invariant
            i <= fields.len(),
            count_fields(
                fields@,
                0,
                schema@,
                table@,
                str_opt(alias),
                *names,
                texts(old(parts)@),
            ) == count_fields(
                fields@,
                i as nat,
                schema@,
                table@,
                str_opt(alias),
                *names,
                texts(parts@),
            ),
        decreases fields.len() - i,
    {
        let field = &fields[i];
        if same(&field.name, "count") {
            let key: &str = match &field.alias {
                Some(alias) => alias.as_str(),
                None => field.name.as_str(),
            };
            push_text(
                parts,
                cat4(
                    "'",
                    &replace_char(key, '\'', "''"),
                    "', ",
                    &count_expression(&field.arguments, schema, table, alias, names),
                ),
            );
        }
        i += 1;
    }
}

/// Whether a count is answered under its own name.
pub fn has_plain_count(fields: &Vec<Selected>) -> (r: bool)
    ensures
        r == counts_plainly(fields@),
{
    let mut i: usize = 0;
    while i < fields.len()
        invariant
            i <= fields.len(),
            forall|j: int|
                0 <= j < i ==> !((#[trigger] fields@[j]).name@ == "count"@ && answered_as(
                    fields@[j],
                ) == "count"@),
        decreases fields.len() - i,
    {
        let key: &str = match &fields[i].alias {
            Some(alias) => alias.as_str(),
            None => fields[i].name.as_str(),
        };
        if same(&fields[i].name, "count") && same(key, "count") {
            assert(fields@[i as int].name@ == "count"@);
            return true;
        }
        i += 1;
    }
    false
}

/// Adds the aggregates that fields ask for, by name and in order.
pub fn add_functions(fields: &Vec<Selected>, offered: Option<&Vec<String>>, found: &mut Vec<String>)
    ensures
        texts(final(found)@) == functions_asked(
            fields@,
            0,
            match offered {
                Some(offered) => Some(texts(offered@)),
                None => None,
            },
            texts(old(found)@),
        ),
{
    let ghost allowed = match offered {
        Some(offered) => Some(texts(offered@)),
        None => None,
    };
    let mut i: usize = 0;
    while i < fields.len()
        invariant
            i <= fields.len(),
            allowed == (match offered {
                Some(offered) => Some(texts(offered@)),
                None => None,
            }),
            functions_asked(fields@, 0, allowed, texts(old(found)@)) == functions_asked(
                fields@,
                i as nat,
                allowed,
                texts(found@),
            ),
        decreases fields.len() - i,
    {
        let name = &fields[i].name;
        let known = match offered {
            Some(offered) => contains_text(offered, name),
            None => true,
        };
        if !same(name, "count") && known && !contains_text(found, name) {
            place_name(found, name.clone());
        }
        i += 1;
    }
}

fn add_names(fields: &Vec<Selected>, found: &mut Vec<String>)
    ensures
        texts(final(found)@) == distinct_names(fields@, 0, texts(old(found)@)),
{
    let mut i: usize = 0;
    while i < fields.len()
        invariant
            i <= fields.len(),
            distinct_names(fields@, 0, texts(old(found)@)) == distinct_names(
                fields@,
                i as nat,
                texts(found@),
            ),
        decreases fields.len() - i,
    {
        if !contains_text(found, &fields[i].name) {
            push_text(found, fields[i].name.clone());
        }
        i += 1;
    }
}

/// Adds the columns that fields ask of one aggregate.
pub fn add_columns(fields: &Vec<Selected>, function: &str, found: &mut Vec<String>)
    ensures
        texts(final(found)@) == columns_asked(fields@, 0, function@, texts(old(found)@)),
{
    let mut i: usize = 0;
    while i < fields.len()
        invariant
            i <= fields.len(),
            columns_asked(fields@, 0, function@, texts(old(found)@)) == columns_asked(
                fields@,
                i as nat,
                function@,
                texts(found@),
            ),
        decreases fields.len() - i,
    {
        if same(&fields[i].name, function) {
            add_names(&fields[i].fields, found);
        }
        i += 1;
    }
}

/// The schema and name of a table, where there is one.
pub open spec fn place_of_table(table: Option<Table>) -> Option<(Seq<char>, Seq<char>)> {
    match table {
        Some(t) => Some((t.schema@, t.name@)),
        None => None,
    }
}

/// A borrowed schema and name.
pub open spec fn place_view(table: Option<(&str, &str)>) -> Option<(Seq<char>, Seq<char>)> {
    match table {
        Some((schema, name)) => Some((schema@, name@)),
        None => None,
    }
}

/// One aggregate as an entry of the answer.
pub fn function_entry_sql(
    columns: &Vec<String>,
    function: &str,
    alias: Option<&str>,
    table: Option<(&str, &str)>,
    names: &NameOverrides,
) -> (r: String)
    ensures
        r@ == function_entry(
            texts(columns@),
            function@,
            str_opt(alias),
            place_view(table),
            *names,
        ),
{
    let ghost wanted = column_entries(
        texts(columns@),
        function@,
        str_opt(alias),
        place_view(table),
        *names,
    );
    let prefix = match alias {
        Some(alias) => cat2(&escape_ident(alias), "."),
        None => owned(""),
    };
    let mut entries = no_texts();
    let mut i: usize = 0;
    while i < columns.len()
        invariant
            i <= columns.len(),
            wanted == column_entries(
                texts(columns@),
                function@,
                str_opt(alias),
                place_view(table),
                *names,
            ),
            prefix@ == (match str_opt(alias) {
                Some(alias) => ident(alias) + "."@,
                None => ""@,
            }),
            texts(entries@) =~= wanted.take(i as int),
        decreases columns.len() - i,
    {
        assert(texts(columns@)[i as int] == columns@[i as int]@);
        let source: &str = match table {
            Some((schema, name)) => column_for(names, schema, name, &columns[i]),
            None => columns[i].as_str(),
        };
        push_text(
            &mut entries,
            cat8(
                "'",
                &replace_char(&columns[i], '\'', "''"),
                "', ",
                function,
                "(",
                &prefix,
                &escape_ident(source),
                ")",
            ),
        );
        i += 1;
    }
    assert(texts(entries@) =~= wanted);
    cat5("'", function, "', json_build_object(", &join(&entries, ", "), ")")
}

/// The entries of the aggregates from the `i`th on, after those in `parts`.
/// One of no columns has no entry.
pub open spec fn function_entries(
    functions: Seq<Seq<char>>,
    i: nat,
    fields: Seq<Selected>,
    alias: Option<Seq<char>>,
    table: Option<(Seq<char>, Seq<char>)>,
    names: NameOverrides,
    parts: Seq<Seq<char>>,
) -> Seq<Seq<char>>
    decreases functions.len() - i,
{
    if i >= functions.len() {
        parts
    } else {
        let columns = columns_asked(fields, 0, functions[i as int], Seq::empty());
        function_entries(
            functions,
            i + 1,
            fields,
            alias,
            table,
            names,
            if columns.len() == 0 {
                parts
            } else {
                parts.push(function_entry(columns, functions[i as int], alias, table, names))
            },
        )
    }
}

/// The count that is answered whether or not it was asked for.
pub open spec fn leading_count(plain: bool) -> Seq<Seq<char>> {
    if plain {
        Seq::empty()
    } else {
        seq!["'count', count(*)"@]
    }
}

/// The list that [`leading_count`] is.
pub fn start_with_count(plain: bool) -> (r: Vec<String>)
    ensures
        texts(r@) == leading_count(plain),
{
    let mut parts = no_texts();
    if !plain {
        push_text(&mut parts, owned("'count', count(*)"));
        assert(texts(parts@) =~= seq!["'count', count(*)"@]);
    }
    parts
}

/// The `aggregate` object of a related list.
pub open spec fn aggregate_part(
    fields: Seq<Selected>,
    child_alias: Seq<char>,
    table: Option<Table>,
    src: Sources<'_>,
) -> Seq<char> {
    let (schema, name) = match place_of_table(table) {
        Some(place) => place,
        None => (""@, ""@),
    };
    let counts = count_fields(
        fields,
        0,
        schema,
        name,
        Some(child_alias),
        *src.names,
        leading_count(counts_plainly(fields)),
    );
    let entries = function_entries(
        functions_asked(fields, 0, Some(texts(src.words.aggregates@)), Seq::empty()),
        0,
        fields,
        Some(child_alias),
        place_of_table(table),
        *src.names,
        counts,
    );
    "json_build_object("@ + joined(entries, ", "@) + ") AS "@ + ident("aggregate"@)
}

fn aggregate_part_sql(
    fields: &Vec<Selected>,
    child_alias: &str,
    table: Option<&Table>,
    src: Sources<'_>,
) -> (r: String)
    ensures
        r@ == aggregate_part(fields@, child_alias@, deref_opt(table), src),
{
    let place: Option<(&str, &str)> = match table {
        Some(t) => Some((t.schema.as_str(), t.name.as_str())),
        None => None,
    };
    let (schema, name): (&str, &str) = match table {
        Some(t) => (t.schema.as_str(), t.name.as_str()),
        None => ("", ""),
    };
    let mut parts = start_with_count(has_plain_count(fields));
    add_counts(fields, schema, name, Some(child_alias), src.names, &mut parts);
    let mut functions = no_texts();
    add_functions(fields, Some(&src.words.aggregates), &mut functions);
    let ghost counts = texts(parts@);
    let mut i: usize = 0;
    while i < functions.len()
        invariant
            i <= functions.len(),
            place_view(place) == place_of_table(deref_opt(table)),
            function_entries(
                texts(functions@),
                0,
                fields@,
                Some(child_alias@),
                place_view(place),
                *src.names,
                counts,
            ) == function_entries(
                texts(functions@),
                i as nat,
                fields@,
                Some(child_alias@),
                place_view(place),
                *src.names,
                texts(parts@),
            ),
        decreases functions.len() - i,
    {
        assert(texts(functions@)[i as int] == functions@[i as int]@);
        let mut columns = no_texts();
        add_columns(fields, &functions[i], &mut columns);
        if columns.len() > 0 {
            push_text(
                &mut parts,
                function_entry_sql(&columns, &functions[i], Some(child_alias), place, src.names),
            );
        }
        i += 1;
    }
    cat4("json_build_object(", &join(&parts, ", "), ") AS ", &escape_ident("aggregate"))
}

// ---------------------------------------------------------------------------
// Relationships
// ---------------------------------------------------------------------------

/// Whether a selected name is a relationship of a type, or the aggregate of
/// one that is a list.
pub open spec fn names_relationship(fields: Option<Seq<RelationshipField>>, name: Seq<char>) -> bool {
    match fields {
        Some(fields) => exists|i: int|
            0 <= i < fields.len() && ((#[trigger] fields[i]).name@ == name || (fields[i].is_list
                && fields[i].name@ + "_aggregate"@ == name)),
        None => false,
    }
}

fn is_relationship(fields: Option<&Vec<RelationshipField>>, name: &str) -> (r: bool)
    ensures
        r == names_relationship(
            match fields {
                Some(fields) => Some(fields@),
                None => None,
            },
            name@,
        ),
{
    let known = match fields {
        Some(known) => known,
        None => return false,
    };
    let mut i: usize = 0;
    while i < known.len()
        invariant
            i <= known.len(),
            fields == Some(known),
            forall|j: int|
                0 <= j < i ==> !((#[trigger] known@[j]).name@ == name@ || (known@[j].is_list
                    && known@[j].name@ + "_aggregate"@ == name@)),
        decreases known.len() - i,
    {
        if same(&known[i].name, name) || (known[i].is_list && same(
            &cat2(&known[i].name, "_aggregate"),
            name,
        )) {
            assert(known@[i as int].name@ == name@ || known@[i as int].is_list);
            return true;
        }
        i += 1;
    }
    false
}

/// The select-list entry of a plain or computed field of an embedded row.
pub open spec fn plain_entry(
    name: Seq<char>,
    child_alias: Seq<char>,
    table: Option<Table>,
    names: NameOverrides,
) -> Seq<char> {
    let column = column_in(table, name, names);
    match computed_in(table, name, names) {
        Some(definition) => computed_sql(
            definition,
            ident(child_alias) + ".*"@,
            ident(child_alias),
        ) + " AS "@ + ident(name),
        None => if column != name {
            ident(column) + " AS "@ + ident(name)
        } else {
            ident(name)
        },
    }
}

fn plain_entry_sql(name: &str, child_alias: &str, table: Option<&Table>, names: &NameOverrides) -> (r:
    String)
    ensures
        r@ == plain_entry(name@, child_alias@, deref_opt(table), *names),
{
    let column = find_column(table, name, names);
    match find_computed(table, name, names) {
        Some(definition) => {
            let quoted = escape_ident(child_alias);
            cat3(
                &computed_call(definition, &cat2(&quoted, ".*"), &quoted),
                " AS ",
                &escape_ident(name),
            )
        },
        None => if !same(column, name) {
            cat3(&escape_ident(column), " AS ", &escape_ident(name))
        } else {
            escape_ident(name)
        },
    }
}

/// The entries of the fields from the `i`th on that are no relationships,
/// after those in `list`.
pub open spec fn plain_entries(
    fields: Seq<Selected>,
    i: nat,
    child_alias: Seq<char>,
    relationships: Option<Seq<RelationshipField>>,
    table: Option<Table>,
    names: NameOverrides,
    list: Seq<FragmentV>,
) -> Seq<FragmentV>
    decreases fields.len() - i,
{
    if i >= fields.len() {
        list
    } else if names_relationship(relationships, fields[i as int].name@) {
        plain_entries(fields, i + 1, child_alias, relationships, table, names, list)
    } else {
        plain_entries(
            fields,
            i + 1,
            child_alias,
            relationships,
            table,
            names,
            with_part(
                list,
                seq![
                    FragmentV::Text(
                        plain_entry(fields[i as int].name@, child_alias, table, names),
                    ),
                ],
            ),
        )
    }
}

/// A select list with embedded relationships from the `i`th on, each under
/// its field, after what is in `list`.
pub open spec fn embed_entries(embeds: Seq<EmbedV>, i: nat, list: Seq<FragmentV>) -> Seq<FragmentV>
    decreases embeds.len() - i,
{
    if i >= embeds.len() {
        list
    } else {
        embed_entries(
            embeds,
            i + 1,
            with_part(
                list,
                seq![
                    FragmentV::Text(""@),
                    FragmentV::Embed(Box::new(embeds[i as int])),
                    FragmentV::Text(" AS "@ + ident(embeds[i as int].field)),
                ],
            ),
        )
    }
}

/// The select list of embedded rows. Where nothing was asked of them it is
/// every column.
pub open spec fn row_select(
    fields: Seq<Selected>,
    child_alias: Seq<char>,
    relationships: Option<Seq<RelationshipField>>,
    table: Option<Table>,
    names: NameOverrides,
    nested: Seq<EmbedV>,
) -> Seq<FragmentV> {
    let plain = plain_entries(
        fields,
        0,
        child_alias,
        relationships,
        table,
        names,
        Seq::empty(),
    );
    let list = if plain.len() == 0 && nested.len() == 0 {
        let everything = match table {
            Some(t) => match renaming(t, child_alias, names) {
                Some(renamed) => renamed,
                None => ident(child_alias) + ".*"@,
            },
            None => ident(child_alias) + ".*"@,
        };
        seq![FragmentV::Text(everything)]
    } else {
        plain
    };
    embed_entries(nested, 0, list)
}

fn add_plain_entries<'a>(
    fields: &Vec<Selected>,
    child_alias: &str,
    relationships: Option<&Vec<RelationshipField>>,
    table: Option<&Table>,
    names: &NameOverrides,
    list: &mut Vec<Fragment<'a>>,
)
    ensures
        fragments(final(list)@) == plain_entries(
            fields@,
            0,
            child_alias@,
            match relationships {
                Some(fields) => Some(fields@),
                None => None,
            },
            deref_opt(table),
            *names,
            fragments(old(list)@),
        ),
{
    let ghost known = match relationships {
        Some(fields) => Some(fields@),
        None => None,
    };
    let mut i: usize = 0;
    while i < fields.len()
        invariant
            i <= fields.len(),
            known == (match relationships {
                Some(fields) => Some(fields@),
                None => None,
            }),
            plain_entries(
                fields@,
                0,
                child_alias@,
                known,
                deref_opt(table),
                *names,
                fragments(old(list)@),
            ) == plain_entries(
                fields@,
                i as nat,
                child_alias@,
                known,
                deref_opt(table),
                *names,
                fragments(list@),
            ),
        decreases fields.len() - i,
    {
        let name = &fields[i].name;
        if !is_relationship(relationships, name) {
            add_text(list, plain_entry_sql(name, child_alias, table, names));
        }
        i += 1;
    }
}

/// Adds relationships to a select list, each under its field.
pub fn add_embed_entries<'a>(embeds: Vec<Embed<'a>>, list: &mut Vec<Fragment<'a>>)
    ensures
        fragments(final(list)@) == embed_entries(embeds_of(embeds@), 0, fragments(old(list)@)),
{
    let ghost all = embeds_of(embeds@);
    let ghost before = fragments(list@);
    let ghost mut i: nat = 0;
    let mut rest = embeds;
    assert(all.skip(0) =~= all);
    while rest.len() > 0
        invariant
            i + rest@.len() == all.len(),
            embeds_of(rest@) == all.skip(i as int),
            embed_entries(all, 0, before) == embed_entries(all, i, fragments(list@)),
        decreases rest.len(),
    {
        let ghost remaining = rest@;
        let embed = rest.remove(0);
        proof {
            assert(all[i as int] == all.skip(i as int)[0]);
            assert(embed_view(embed) == embeds_of(remaining)[0]);
            assert forall|j: int| 0 <= j < rest@.len() implies embeds_of(rest@)[j] == all.skip(
                (i + 1) as int,
            )[j] by {
                assert(rest@[j] == remaining[j + 1]);
                assert(embeds_of(remaining)[j + 1] == all.skip(i as int)[j + 1]);
            }
            assert(embeds_of(rest@) =~= all.skip((i + 1) as int));
            i = i + 1;
        }
        let after = cat2(" AS ", &escape_ident(&embed.field));
        add_embed(list, owned(""), embed, after);
    }
}

/// Whether one of several relationships is answered under a field.
pub open spec fn embeds_field(embeds: Seq<EmbedV>, name: Seq<char>) -> bool {
    exists|i: int| 0 <= i < embeds.len() && (#[trigger] embeds[i]).field == name
}

/// The entries of the plain fields of `nodes` from the `i`th on, after those
/// in `list`.
pub open spec fn node_columns(
    fields: Seq<Selected>,
    i: nat,
    child_alias: Seq<char>,
    table: Option<Table>,
    names: NameOverrides,
    embeds: Seq<EmbedV>,
    list: Seq<FragmentV>,
) -> Seq<FragmentV>
    decreases fields.len() - i,
{
    if i >= fields.len() {
        list
    } else {
        let name = fields[i as int].name@;
        node_columns(
            fields,
            i + 1,
            child_alias,
            table,
            names,
            embeds,
            if name == "__typename"@ || embeds_field(embeds, name) {
                list
            } else {
                with_part(
                    list,
                    seq![
                        FragmentV::Text(
                            "'"@ + literal(name) + "', "@ + field_expression(
                                table,
                                child_alias,
                                name,
                                names,
                            ),
                        ),
                    ],
                )
            },
        )
    }
}

/// The entries of the relationships of `nodes` from the `i`th on, after those
/// in `list`.
pub open spec fn node_embeds(embeds: Seq<EmbedV>, i: nat, list: Seq<FragmentV>) -> Seq<FragmentV>
    decreases embeds.len() - i,
{
    if i >= embeds.len() {
        list
    } else {
        node_embeds(
            embeds,
            i + 1,
            with_part(
                list,
                seq![
                    FragmentV::Text("'"@ + literal(embeds[i as int].field) + "', "@),
                    FragmentV::Embed(Box::new(embeds[i as int])),
                    FragmentV::Text(""@),
                ],
            ),
        )
    }
}

/// The `nodes` of a related list's aggregate: its rows as one list.
pub open spec fn nodes_part(
    fields: Seq<Selected>,
    child_alias: Seq<char>,
    table: Option<Table>,
    names: NameOverrides,
    embeds: Seq<EmbedV>,
) -> Seq<FragmentV> {
    let list = node_embeds(
        embeds,
        0,
        node_columns(fields, 0, child_alias, table, names, embeds, Seq::empty()),
    );
    let row = if list.len() == 0 {
        seq![FragmentV::Text("row_to_json("@ + ident(child_alias) + ")"@)]
    } else {
        (seq![FragmentV::Text("json_build_object("@)] + list).push(FragmentV::Text(")"@))
    };
    (seq![FragmentV::Text("COALESCE(json_agg("@)] + row).push(
        FragmentV::Text("), '[]'::json) AS "@ + ident("nodes"@)),
    )
}

/// The relationships that the fields from the `i`th on ask for, after those
/// in `found`.
pub open spec fn embedded_from(
    src: Sources<'_>,
    caller: Caller,
    available: Seq<RelationshipField>,
    parent_alias: Seq<char>,
    fields: Seq<Selected>,
    i: nat,
    max_rows: Option<i64>,
    found: Seq<EmbedV>,
    at: CursorV,
) -> Result<(Seq<EmbedV>, CursorV), (ErrorV, CursorV)>
    decreases fields, fields.len() - i,
{
    if i >= fields.len() {
        Ok((found, at))
    } else {
        match embedded_field(
            src,
            caller,
            available,
            parent_alias,
            fields[i as int],
            max_rows,
            at,
        ) {
            Err(e) => Err(e),
            Ok((None, mid)) => embedded_from(
                src,
                caller,
                available,
                parent_alias,
                fields,
                i + 1,
                max_rows,
                found,
                mid,
            ),
            Ok((Some(embed), mid)) => embedded_from(
                src,
                caller,
                available,
                parent_alias,
                fields,
                i + 1,
                max_rows,
                found.push(embed),
                mid,
            ),
        }
    }
}

/// The relationships that a selection on a type asks for.
pub open spec fn embedded(
    src: Sources<'_>,
    caller: Caller,
    typename: Seq<char>,
    parent_alias: Seq<char>,
    fields: Seq<Selected>,
    max_rows: Option<i64>,
    at: CursorV,
) -> Result<(Seq<EmbedV>, CursorV), (ErrorV, CursorV)>
    decreases fields, fields.len() + 1,
{
    match fields_of(src.relationships@, typename) {
        None => Ok((Seq::empty(), at)),
        Some(available) => embedded_from(
            src,
            caller,
            available@,
            parent_alias,
            fields,
            0,
            max_rows,
            Seq::empty(),
            at,
        ),
    }
}

/// The select list of a related list's aggregate, from the `i`th field on,
/// after what is in `list`.
pub open spec fn aggregate_select(
    src: Sources<'_>,
    caller: Caller,
    fields: Seq<Selected>,
    i: nat,
    child_alias: Seq<char>,
    target_type: Seq<char>,
    table: Option<Table>,
    max_rows: Option<i64>,
    list: Seq<FragmentV>,
    at: CursorV,
) -> Result<(Seq<FragmentV>, CursorV), (ErrorV, CursorV)>
    decreases fields, fields.len() - i,
{
    if i >= fields.len() {
        // A selection of nothing but a type name: a count nobody reads.
        Ok(
            (
                if list.len() == 0 {
                    seq![FragmentV::Text("count(*) AS pgrst_empty"@)]
                } else {
                    list
                },
                at,
            ),
        )
    } else if fields[i as int].name@ == "aggregate"@ {
        let part = aggregate_part(fields[i as int].fields@, child_alias, table, src);
        aggregate_select(
            src,
            caller,
            fields,
            i + 1,
            child_alias,
            target_type,
            table,
            max_rows,
            with_part(list, seq![FragmentV::Text(part)]),
            at,
        )
    } else if fields[i as int].name@ == "nodes"@ {
        match embedded(
            src,
            caller,
            target_type,
            child_alias,
            fields[i as int].fields@,
            max_rows,
            at,
        ) {
            Err(e) => Err(e),
            Ok((embeds, mid)) => aggregate_select(
                src,
                caller,
                fields,
                i + 1,
                child_alias,
                target_type,
                table,
                max_rows,
                with_part(
                    list,
                    nodes_part(
                        fields[i as int].fields@,
                        child_alias,
                        table,
                        *src.names,
                        embeds,
                    ),
                ),
                mid,
            ),
        }
    } else {
        aggregate_select(
            src,
            caller,
            fields,
            i + 1,
            child_alias,
            target_type,
            table,
            max_rows,
            list,
            at,
        )
    }
}

/// The relationship, or the aggregate of one, that a field asks for, if it
/// asks for one.
pub open spec fn embedded_field(
    src: Sources<'_>,
    caller: Caller,
    available: Seq<RelationshipField>,
    parent_alias: Seq<char>,
    field: Selected,
    max_rows: Option<i64>,
    at: CursorV,
) -> Result<(Option<EmbedV>, CursorV), (ErrorV, CursorV)>
    decreases field, 0nat,
{
    let arguments = field.arguments@;
    match aggregated_list(available, field.name@) {
        Some(rel) => match rel.relationship.plan {
            Err(message) => Err((plain_refusal(message@), at)),
            Ok(plan) => {
                let number = following(at.aliases);
                let alias = alias_of("a"@, number);
                match narrowing(
                    arguments,
                    plan,
                    src,
                    caller,
                    rel.target_type@,
                    alias,
                    max_rows,
                    at.binds,
                ) {
                    Err((e, end)) => Err((e, CursorV { binds: end, aliases: number })),
                    Ok((narrowed, mid)) => {
                        let table = src.cache.table(plan.foreign_schema@, plan.foreign_table@);
                        match aggregate_select(
                            src,
                            caller,
                            field.fields@,
                            0,
                            alias,
                            rel.target_type@,
                            table,
                            max_rows,
                            Seq::empty(),
                            CursorV { binds: mid, aliases: number },
                        ) {
                            Err(e) => Err(e),
                            Ok((select, selected)) => embed_of(
                                src,
                                rel,
                                plan,
                                parent_alias,
                                alias,
                                true,
                                field.name@,
                                narrowed,
                                select,
                                arguments,
                                selected,
                            ),
                        }
                    },
                }
            },
        },
        None => match named(available, field.name@) {
            None => Ok((None, at)),
            Some(rel) => match rel.relationship.plan {
                Err(message) => Err((plain_refusal(message@), at)),
                Ok(plan) => {
                    let number = following(at.aliases);
                    let alias = alias_of("e"@, number);
                    match embedded(
                        src,
                        caller,
                        rel.target_type@,
                        alias,
                        field.fields@,
                        max_rows,
                        CursorV { binds: at.binds, aliases: number },
                    ) {
                        Err(e) => Err(e),
                        Ok((nested, inner)) => match narrowing(
                            arguments,
                            plan,
                            src,
                            caller,
                            rel.target_type@,
                            alias,
                            max_rows,
                            inner.binds,
                        ) {
                            Err((e, end)) => Err(
                                (e, CursorV { binds: end, aliases: inner.aliases }),
                            ),
                            Ok((narrowed, mid)) => {
                                let table = src.cache.table(
                                    plan.foreign_schema@,
                                    plan.foreign_table@,
                                );
                                let known = match fields_of(
                                    src.relationships@,
                                    rel.target_type@,
                                ) {
                                    Some(fields) => Some(fields@),
                                    None => None,
                                };
                                embed_of(
                                    src,
                                    rel,
                                    plan,
                                    parent_alias,
                                    alias,
                                    false,
                                    rel.name@,
                                    narrowed,
                                    row_select(
                                        field.fields@,
                                        alias,
                                        known,
                                        table,
                                        *src.names,
                                        nested,
                                    ),
                                    arguments,
                                    CursorV { binds: mid, aliases: inner.aliases },
                                )
                            },
                        },
                    }
                },
            },
        },
    }
}

/// A relationship to be rendered, once what its function is passed is bound.
pub open spec fn embed_of(
    src: Sources<'_>,
    rel: RelationshipField,
    plan: EmbedPlan,
    parent_alias: Seq<char>,
    child_alias: Seq<char>,
    aggregate: bool,
    field: Seq<char>,
    narrowed: NarrowingV,
    select: Seq<FragmentV>,
    arguments: JsonV,
    at: CursorV,
) -> Result<(Option<EmbedV>, CursorV), (ErrorV, CursorV)> {
    match relationship_arguments(
        rel.name@,
        rel.arguments@,
        plan,
        ident(parent_alias),
        arguments.get("args"@),
        *src.cache,
        at.binds,
    ) {
        Err((e, end)) => Err((e, CursorV { binds: end, aliases: at.aliases })),
        Ok((call, end)) => Ok(
            (
                Some(
                    EmbedV {
                        field,
                        plan,
                        parent_alias,
                        child_alias,
                        aggregate,
                        distinct: narrowed.distinct,
                        select,
                        filter: narrowed.filter,
                        order: narrowed.order,
                        limit: narrowed.limit,
                        offset: narrowed.offset,
                        call,
                    },
                ),
                CursorV { binds: end, aliases: at.aliases },
            ),
        ),
    }
}

// ---------------------------------------------------------------------------
// Building
// ---------------------------------------------------------------------------

fn answers_field(embeds: &Vec<Embed<'_>>, name: &str) -> (r: bool)
    ensures
        r == embeds_field(embeds_of(embeds@), name@),
{
    let mut i: usize = 0;
    while i < embeds.len()
        invariant
            i <= embeds.len(),
            forall|j: int|
                0 <= j < i ==> (#[trigger] embeds_of(embeds@)[j]).field != name@,
        decreases embeds.len() - i,
    {
        assert(embeds_of(embeds@)[i as int] == embed_view(embeds@[i as int]));
        if same(&embeds[i].field, name) {
            return true;
        }
        i += 1;
    }
    false
}

fn add_node_columns<'a>(
    fields: &Vec<Selected>,
    child_alias: &str,
    table: Option<&Table>,
    names: &NameOverrides,
    embeds: &Vec<Embed<'a>>,
    list: &mut Vec<Fragment<'a>>,
)
    ensures
        fragments(final(list)@) == node_columns(
            fields@,
            0,
            child_alias@,
            deref_opt(table),
            *names,
            embeds_of(embeds@),
            fragments(old(list)@),
        ),
{
    let mut i: usize = 0;
    while i < fields.len()
        invariant
            i <= fields.len(),
            node_columns(
                fields@,
                0,
                child_alias@,
                deref_opt(table),
                *names,
                embeds_of(embeds@),
                fragments(old(list)@),
            ) == node_columns(
                fields@,
                i as nat,
                child_alias@,
                deref_opt(table),
                *names,
                embeds_of(embeds@),
                fragments(list@),
            ),
        decreases fields.len() - i,
    {
        let name = &fields[i].name;
        if !same(name, "__typename") && !answers_field(embeds, name) {
            add_text(
                list,
                cat4(
                    "'",
                    &replace_char(name, '\'', "''"),
                    "', ",
                    &column_expression(table, child_alias, name, names),
                ),
            );
        }
        i += 1;
    }
}

fn add_node_embeds<'a>(embeds: Vec<Embed<'a>>, list: &mut Vec<Fragment<'a>>)
    ensures
        fragments(final(list)@) == node_embeds(embeds_of(embeds@), 0, fragments(old(list)@)),
{
    let ghost all = embeds_of(embeds@);
    let ghost before = fragments(list@);
    let ghost mut i: nat = 0;
    let mut rest = embeds;
    assert(all.skip(0) =~= all);
    while rest.len() > 0
        invariant
            i + rest@.len() == all.len(),
            embeds_of(rest@) == all.skip(i as int),
            node_embeds(all, 0, before) == node_embeds(all, i, fragments(list@)),
        decreases rest.len(),
    {
        let ghost remaining = rest@;
        let embed = rest.remove(0);
        proof {
            assert(all[i as int] == all.skip(i as int)[0]);
            assert(embed_view(embed) == embeds_of(remaining)[0]);
            assert forall|j: int| 0 <= j < rest@.len() implies embeds_of(rest@)[j] == all.skip(
                (i + 1) as int,
            )[j] by {
                assert(rest@[j] == remaining[j + 1]);
                assert(embeds_of(remaining)[j + 1] == all.skip(i as int)[j + 1]);
            }
            assert(embeds_of(rest@) =~= all.skip((i + 1) as int));
            i = i + 1;
        }
        let before_text = cat3("'", &replace_char(&embed.field, '\'', "''"), "', ");
        add_embed(list, before_text, embed, owned(""));
    }
}

/// Adds fragments at the end of a list.
pub fn append_fragments<'a>(list: &mut Vec<Fragment<'a>>, more: Vec<Fragment<'a>>)
    ensures
        fragments(final(list)@) == fragments(old(list)@) + fragments(more@),
{
    let mut more = more;
    proof {
        assert(fragments(list@ + more@) =~= fragments(list@) + fragments(more@));
    }
    list.append(&mut more);
}

fn nodes_fragments<'a>(
    fields: &Vec<Selected>,
    child_alias: &str,
    table: Option<&Table>,
    names: &NameOverrides,
    embeds: Vec<Embed<'a>>,
) -> (r: Vec<Fragment<'a>>)
    ensures
        fragments(r@) == nodes_part(
            fields@,
            child_alias@,
            deref_opt(table),
            *names,
            embeds_of(embeds@),
        ),
{
    let mut list: Vec<Fragment<'a>> = Vec::new();
    assert(fragments(list@) =~= Seq::<FragmentV>::empty());
    add_node_columns(fields, child_alias, table, names, &embeds, &mut list);
    add_node_embeds(embeds, &mut list);
    let ghost inner = fragments(list@);
    let mut part: Vec<Fragment<'a>> = Vec::new();
    push_fragment(&mut part, Fragment::Text(owned("COALESCE(json_agg(")));
    assert(fragments(part@) =~= seq![FragmentV::Text("COALESCE(json_agg("@)]);
    if list.len() == 0 {
        push_fragment(
            &mut part,
            Fragment::Text(cat3("row_to_json(", &escape_ident(child_alias), ")")),
        );
        assert(fragments(part@) =~= seq![FragmentV::Text("COALESCE(json_agg("@)] + seq![
            FragmentV::Text("row_to_json("@ + ident(child_alias@) + ")"@),
        ]);
    } else {
        push_fragment(&mut part, Fragment::Text(owned("json_build_object(")));
        append_fragments(&mut part, list);
        push_fragment(&mut part, Fragment::Text(owned(")")));
        assert(fragments(part@) =~= seq![FragmentV::Text("COALESCE(json_agg("@)] + (seq![
            FragmentV::Text("json_build_object("@),
        ] + inner).push(FragmentV::Text(")"@)));
    }
    push_fragment(
        &mut part,
        Fragment::Text(cat2("), '[]'::json) AS ", &escape_ident("nodes"))),
    );
    part
}

fn add_part<'a>(list: &mut Vec<Fragment<'a>>, part: Vec<Fragment<'a>>)
    ensures
        fragments(final(list)@) == with_part(fragments(old(list)@), fragments(part@)),
{
    if list.len() == 0 {
        let ghost before = fragments(list@);
        append_fragments(list, part);
        assert(before + fragments(part@) =~= fragments(part@));
    } else {
        push_fragment(list, Fragment::Text(owned(", ")));
        append_fragments(list, part);
    }
}

/// The SELECT list for a nested aggregate.
///
/// Both halves, the numbers and the rows, are aggregates over the same
/// correlated set, so they go in one select list.
pub fn nested_aggregate_select<'a>(
    src: Sources<'a>,
    caller: &Caller,
    fields: &Vec<Selected>,
    child_alias: &str,
    target_type: &str,
    child_table: Option<&Table>,
    max_rows: Option<i64>,
    alias_counter: &mut usize,
    param_idx: &mut usize,
    values: &mut Vec<Json>,
) -> (r: Result<Vec<Fragment<'a>>, Error>)
    ensures
        (match r {
            Ok(list) => Ok(
                (
                    fragments(list@),
                    cursor(*final(param_idx), final(values)@, *final(alias_counter)),
                ),
            ),
            Err(e) => Err(
                (e@, cursor(*final(param_idx), final(values)@, *final(alias_counter))),
            ),
        }) == aggregate_select(
            src,
            *caller,
            fields@,
            0,
            child_alias@,
            target_type@,
            deref_opt(child_table),
            max_rows,
            Seq::empty(),
            cursor(*old(param_idx), old(values)@, *old(alias_counter)),
        ),
    decreases fields, 0nat,
{
    let mut list: Vec<Fragment<'a>> = Vec::new();
    assert(fragments(list@) =~= Seq::<FragmentV>::empty());
    let mut i: usize = 0;
    while i < fields.len()
        invariant
            i <= fields.len(),
            aggregate_select(
                src,
                *caller,
                fields@,
                0,
                child_alias@,
                target_type@,
                deref_opt(child_table),
                max_rows,
                Seq::empty(),
                cursor(*old(param_idx), old(values)@, *old(alias_counter)),
            ) == aggregate_select(
                src,
                *caller,
                fields@,
                i as nat,
                child_alias@,
                target_type@,
                deref_opt(child_table),
                max_rows,
                fragments(list@),
                cursor(*param_idx, values@, *alias_counter),
            ),
        decreases fields.len() - i,
    {
        assert(decreases_to!(*fields => fields@[i as int]));
        let child = &fields[i];
        if same(&child.name, "aggregate") {
            add_text(&mut list, aggregate_part_sql(&child.fields, child_alias, child_table, src));
        } else if same(&child.name, "nodes") {
            assert(decreases_to!(fields@[i as int] => fields@[i as int].fields));
            match build_embed_expressions(
                src,
                caller,
                target_type,
                child_alias,
                &child.fields,
                max_rows,
                alias_counter,
                param_idx,
                values,
            ) {
                Err(e) => return Err(e),
                Ok(embeds) => {
                    let part = nodes_fragments(
                        &child.fields,
                        child_alias,
                        child_table,
                        src.names,
                        embeds,
                    );
                    add_part(&mut list, part);
                },
            }
        }
        i += 1;
    }
    if list.len() == 0 {
        push_fragment(&mut list, Fragment::Text(owned("count(*) AS pgrst_empty")));
        assert(fragments(list@) =~= seq![FragmentV::Text("count(*) AS pgrst_empty"@)]);
    }
    Ok(list)
}

/// The relationships a selection asks for, each as a correlated subselect to
/// be rendered. `<relationship>_aggregate` is the same with an aggregate
/// select list.
pub fn build_embed_expressions<'a>(
    src: Sources<'a>,
    caller: &Caller,
    typename: &str,
    parent_alias: &str,
    fields: &Vec<Selected>,
    max_rows: Option<i64>,
    alias_counter: &mut usize,
    param_idx: &mut usize,
    values: &mut Vec<Json>,
) -> (r: Result<Vec<Embed<'a>>, Error>)
    ensures
        (match r {
            Ok(found) => Ok(
                (
                    embeds_of(found@),
                    cursor(*final(param_idx), final(values)@, *final(alias_counter)),
                ),
            ),
            Err(e) => Err(
                (e@, cursor(*final(param_idx), final(values)@, *final(alias_counter))),
            ),
        }) == embedded(
            src,
            *caller,
            typename@,
            parent_alias@,
            fields@,
            max_rows,
            cursor(*old(param_idx), old(values)@, *old(alias_counter)),
        ),
    decreases fields, 0nat,
{
    let mut found: Vec<Embed<'a>> = Vec::new();
    assert(embeds_of(found@) =~= Seq::<EmbedV>::empty());
    let available = match relationships_of(src.relationships, typename) {
        Some(available) => available,
        None => return Ok(found),
    };
    let mut i: usize = 0;
    while i < fields.len()
        invariant
            i <= fields.len(),
            fields_of(src.relationships@, typename@) == Some(*available),
            embedded(
                src,
                *caller,
                typename@,
                parent_alias@,
                fields@,
                max_rows,
                cursor(*old(param_idx), old(values)@, *old(alias_counter)),
            ) == embedded_from(
                src,
                *caller,
                available@,
                parent_alias@,
                fields@,
                i as nat,
                max_rows,
                embeds_of(found@),
                cursor(*param_idx, values@, *alias_counter),
            ),
        decreases fields.len() - i,
    {
        assert(decreases_to!(*fields => fields@[i as int]));
        match embed_field(
            src,
            caller,
            available,
            parent_alias,
            &fields[i],
            max_rows,
            alias_counter,
            param_idx,
            values,
        ) {
            Err(e) => return Err(e),
            Ok(None) => {},
            Ok(Some(embed)) => {
                proof {
                    assert(embeds_of(found@.push(embed)) =~= embeds_of(found@).push(
                        embed_view(embed),
                    ));
                }
                found.push(embed);
            },
        }
        i += 1;
    }
    Ok(found)
}

fn embed_field<'a>(
    src: Sources<'a>,
    caller: &Caller,
    available: &'a Vec<RelationshipField>,
    parent_alias: &str,
    field: &Selected,
    max_rows: Option<i64>,
    alias_counter: &mut usize,
    param_idx: &mut usize,
    values: &mut Vec<Json>,
) -> (r: Result<Option<Embed<'a>>, Error>)
    ensures
        embed_outcome(r, *final(param_idx), final(values)@, *final(alias_counter))
            == embedded_field(
            src,
            *caller,
            available@,
            parent_alias@,
            *field,
            max_rows,
            cursor(*old(param_idx), old(values)@, *old(alias_counter)),
        ),
    decreases field, 1nat,
{
    if let Some(rel) = find_aggregated(available, &field.name) {
        return embed_aggregate(
            src,
            caller,
            rel,
            parent_alias,
            field,
            max_rows,
            alias_counter,
            param_idx,
            values,
        );
    }
    match find_named(available, &field.name) {
        None => Ok(None),
        Some(rel) => embed_rows(
            src,
            caller,
            rel,
            parent_alias,
            field,
            max_rows,
            alias_counter,
            param_idx,
            values,
        ),
    }
}

/// What building a relationship reports.
pub open spec fn embed_outcome(
    r: Result<Option<Embed<'_>>, Error>,
    param_idx: usize,
    values: Seq<Json>,
    aliases: usize,
) -> Result<(Option<EmbedV>, CursorV), (ErrorV, CursorV)> {
    match r {
        Ok(Some(embed)) => Ok((Some(embed_view(embed)), cursor(param_idx, values, aliases))),
        Ok(None) => Ok((None, cursor(param_idx, values, aliases))),
        Err(e) => Err((e@, cursor(param_idx, values, aliases))),
    }
}

fn embed_aggregate<'a>(
    src: Sources<'a>,
    caller: &Caller,
    rel: &'a RelationshipField,
    parent_alias: &str,
    field: &Selected,
    max_rows: Option<i64>,
    alias_counter: &mut usize,
    param_idx: &mut usize,
    values: &mut Vec<Json>,
) -> (r: Result<Option<Embed<'a>>, Error>)
    ensures
        forall|available: Seq<RelationshipField>|
            #[trigger] aggregated_list(available, field.name@) == Some(*rel) ==> embed_outcome(
                r,
                *final(param_idx),
                final(values)@,
                *final(alias_counter),
            ) == embedded_field(
                src,
                *caller,
                available,
                parent_alias@,
                *field,
                max_rows,
                cursor(*old(param_idx), old(values)@, *old(alias_counter)),
            ),
    decreases field, 0nat,
{
    let plan = match &rel.relationship.plan {
        Ok(plan) => plan,
        Err(message) => return Err(Error::new(message.clone())),
    };
    *alias_counter = next_number(*alias_counter);
    let child_alias = cat2("a", &decimal_text(*alias_counter as u128));
    let narrowed = match embed_narrowing(
        &field.arguments,
        plan,
        src,
        caller,
        &rel.target_type,
        &child_alias,
        max_rows,
        param_idx,
        values,
    ) {
        Ok(narrowed) => narrowed,
        Err(e) => return Err(e),
    };
    let child_table = src.cache.get_table(&plan.foreign_schema, &plan.foreign_table);
    assert(decreases_to!(*field => field.fields));
    let select = match nested_aggregate_select(
        src,
        caller,
        &field.fields,
        &child_alias,
        &rel.target_type,
        child_table,
        max_rows,
        alias_counter,
        param_idx,
        values,
    ) {
        Ok(select) => select,
        Err(e) => return Err(e),
    };
    finish_embed(
        src,
        rel,
        plan,
        parent_alias,
        child_alias,
        true,
        &field.name,
        narrowed,
        select,
        &field.arguments,
        *alias_counter,
        param_idx,
        values,
    )
}

fn embed_rows<'a>(
    src: Sources<'a>,
    caller: &Caller,
    rel: &'a RelationshipField,
    parent_alias: &str,
    field: &Selected,
    max_rows: Option<i64>,
    alias_counter: &mut usize,
    param_idx: &mut usize,
    values: &mut Vec<Json>,
) -> (r: Result<Option<Embed<'a>>, Error>)
    ensures
        forall|available: Seq<RelationshipField>|
            aggregated_list(available, field.name@) is None && #[trigger] named(
                available,
                field.name@,
            ) == Some(*rel) ==> embed_outcome(
                r,
                *final(param_idx),
                final(values)@,
                *final(alias_counter),
            ) == embedded_field(
                src,
                *caller,
                available,
                parent_alias@,
                *field,
                max_rows,
                cursor(*old(param_idx), old(values)@, *old(alias_counter)),
            ),
    decreases field, 0nat,
{
    let plan = match &rel.relationship.plan {
        Ok(plan) => plan,
        Err(message) => return Err(Error::new(message.clone())),
    };
    *alias_counter = next_number(*alias_counter);
    let child_alias = cat2("e", &decimal_text(*alias_counter as u128));
    assert(decreases_to!(*field => field.fields));
    let nested = match build_embed_expressions(
        src,
        caller,
        &rel.target_type,
        &child_alias,
        &field.fields,
        max_rows,
        alias_counter,
        param_idx,
        values,
    ) {
        Ok(nested) => nested,
        Err(e) => return Err(e),
    };
    let narrowed = match embed_narrowing(
        &field.arguments,
        plan,
        src,
        caller,
        &rel.target_type,
        &child_alias,
        max_rows,
        param_idx,
        values,
    ) {
        Ok(narrowed) => narrowed,
        Err(e) => return Err(e),
    };
    let child_table = src.cache.get_table(&plan.foreign_schema, &plan.foreign_table);
    let known = relationships_of(src.relationships, &rel.target_type);
    let select = row_fragments(&field.fields, &child_alias, known, child_table, src.names, nested);
    finish_embed(
        src,
        rel,
        plan,
        parent_alias,
        child_alias,
        false,
        &rel.name,
        narrowed,
        select,
        &field.arguments,
        *alias_counter,
        param_idx,
        values,
    )
}

fn row_fragments<'a>(
    fields: &Vec<Selected>,
    child_alias: &str,
    relationships: Option<&Vec<RelationshipField>>,
    table: Option<&Table>,
    names: &NameOverrides,
    nested: Vec<Embed<'a>>,
) -> (r: Vec<Fragment<'a>>)
    ensures
        fragments(r@) == row_select(
            fields@,
            child_alias@,
            match relationships {
                Some(fields) => Some(fields@),
                None => None,
            },
            deref_opt(table),
            *names,
            embeds_of(nested@),
        ),
{
    let mut list: Vec<Fragment<'a>> = Vec::new();
    assert(fragments(list@) =~= Seq::<FragmentV>::empty());
    add_plain_entries(fields, child_alias, relationships, table, names, &mut list);
    if list.len() == 0 && nested.len() == 0 {
        let renamed = match table {
            Some(t) => rename_projection(t, child_alias, names),
            None => None,
        };
        let everything = match renamed {
            Some(renamed) => renamed,
            None => cat2(&escape_ident(child_alias), ".*"),
        };
        let ghost text = everything@;
        push_fragment(&mut list, Fragment::Text(everything));
        assert(fragments(list@) =~= seq![FragmentV::Text(text)]);
    }
    add_embed_entries(nested, &mut list);
    list
}

fn finish_embed<'a>(
    src: Sources<'a>,
    rel: &'a RelationshipField,
    plan: &'a EmbedPlan,
    parent_alias: &str,
    child_alias: String,
    aggregate: bool,
    field: &str,
    narrowed: Narrowing,
    select: Vec<Fragment<'a>>,
    arguments: &Json,
    aliases: usize,
    param_idx: &mut usize,
    values: &mut Vec<Json>,
) -> (r: Result<Option<Embed<'a>>, Error>)
    ensures
        embed_outcome(r, *final(param_idx), final(values)@, aliases) == embed_of(
            src,
            *rel,
            *plan,
            parent_alias@,
            child_alias@,
            aggregate,
            field@,
            narrowed@,
            fragments(select@),
            arguments@,
            cursor(*old(param_idx), old(values)@, aliases),
        ),
{
    let call = match computed_arguments(
        rel,
        plan,
        &escape_ident(parent_alias),
        arguments.get("args"),
        param_idx,
        values,
        src.cache,
    ) {
        Ok(call) => call,
        Err(e) => return Err(e),
    };
    let embed = Embed {
        field: owned(field),
        plan,
        parent_alias: owned(parent_alias),
        child_alias,
        aggregate,
        distinct: narrowed.distinct,
        select,
        filter: narrowed.filter,
        order: narrowed.order,
        limit: narrowed.limit,
        offset: narrowed.offset,
        call,
    };
    proof {
        lemma_select_view(embed);
    }
    Ok(Some(embed))
}

} // verus!

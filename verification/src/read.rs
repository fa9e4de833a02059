//! The statements that read rows.

use crate::binds::{binds, BindsV};
use crate::catalog::{exposed_name, field_for, FunctionArgument, NameOverrides, Table};
use crate::comparison::SqlV;
use crate::computed::{arguments_from, pass_arguments, SESSION_ARGUMENT};
use crate::condition::{build_condition, condition, CursorV};
use crate::embed::{
    add_columns, add_counts, add_embed_entries, add_functions, add_text, append_fragments,
    build_embed_expressions, columns_asked, computed_fields, computed_projections, count_fields,
    counts_plainly, embed_entries, embedded, embeds_of, fragments, function_entry,
    function_entry_sql, functions_asked, has_plain_count, integer_argument, integer_of,
    leading_count, push_fragment, start_with_count, with_part, Embed, EmbedV, Fragment, FragmentV,
    Selected,
};
use crate::error::{at_path, plain_refusal, Error, ErrorV};
use crate::generated::{FunctionField, QueryField};
use crate::json::{
    entries_view, json_opt, json_ref, jsons, lemma_array_view, lemma_object_view, Json, JsonV,
};
use crate::limits::{lower, lower_ceiling};
use crate::lookup::deref_opt;
use crate::ordering::{
    build_distinct_on, build_order_by_clause, distinct_clause, distinct_on, distinct_on_clause,
    order_by_clause,
};
use crate::projection::{
    exposed_column_types, exposed_types, pairs, rename_projection, renaming, row_as_json, row_json,
};
use crate::role::{
    and_predicates, both, filter_of, permission_limit, permission_predicate, Caller, Verb,
};
use crate::scope::{ScopeV, Sources, WhereScope};
use crate::statement::{append_jsons, number_after, numbered_after};
use crate::text::{
    cat2, cat3, cat4, cat5, cat6, cat7, contains_text, decimal, decimal_int, decimal_int_text,
    decimal_text, escape_ident, escape_ident2, has_text, ident, ident2, join, joined, no_texts,
    owned, push_text, same, str_opt, strip_prefix, stripped_prefix, text_opt, texts,
};
use vstd::prelude::*;

verus! {

/// What a read table is called inside its own query: a row that is passed to
/// a function has to be named, and a qualified name is not a name of a row.
pub const READ_ROW: &'static str = "pgrst_src";

/// A statement with relationships still to be rendered, and the values it
/// binds in order.
pub struct Query<'a> {
    pub sql: Vec<Fragment<'a>>,
    pub values: Vec<Json>,
}

/// What a [`Query`] holds.
#[verifier::ext_equal]
pub struct QueryV {
    pub sql: Seq<FragmentV>,
    pub values: Seq<JsonV>,
}

impl<'a> View for Query<'a> {
    type V = QueryV;

    open spec fn view(&self) -> QueryV {
        QueryV { sql: fragments(self.sql@), values: jsons(self.values@) }
    }
}

/// What building a query reports.
pub open spec fn query_outcome(r: Result<Query<'_>, Error>) -> Result<QueryV, ErrorV> {
    match r {
        Ok(query) => Ok(query@),
        Err(e) => Err(e@),
    }
}

// ---------------------------------------------------------------------------
// Framing
// ---------------------------------------------------------------------------

/// Fragments between two texts.
pub open spec fn framed(before: Seq<char>, list: Seq<FragmentV>, after: Seq<char>) -> Seq<
    FragmentV,
> {
    (seq![FragmentV::Text(before)] + list).push(FragmentV::Text(after))
}

/// Fragments between two texts.
pub fn frame<'a>(before: String, list: Vec<Fragment<'a>>, after: String) -> (r: Vec<Fragment<'a>>)
    ensures
        fragments(r@) == framed(before@, fragments(list@), after@),
{
    let mut r: Vec<Fragment<'a>> = Vec::new();
    let ghost head = before@;
    push_fragment(&mut r, Fragment::Text(before));
    assert(fragments(r@) =~= seq![FragmentV::Text(head)]);
    append_fragments(&mut r, list);
    push_fragment(&mut r, Fragment::Text(after));
    r
}

/// A select list with texts from the `i`th on, after what is in `list`.
pub open spec fn text_entries(parts: Seq<Seq<char>>, i: nat, list: Seq<FragmentV>) -> Seq<FragmentV>
    decreases parts.len() - i,
{
    if i >= parts.len() {
        list
    } else {
        text_entries(parts, i + 1, with_part(list, seq![FragmentV::Text(parts[i as int])]))
    }
}

/// A select list over a row: its columns, its computed fields and its
/// relationships.
pub open spec fn projected(head: Seq<char>, computed: Seq<Seq<char>>, embeds: Seq<EmbedV>) -> Seq<
    FragmentV,
> {
    embed_entries(embeds, 0, text_entries(computed, 0, seq![FragmentV::Text(head)]))
}

/// A select list over a row.
pub fn project<'a>(head: String, computed: &Vec<String>, embeds: Vec<Embed<'a>>) -> (r: Vec<
    Fragment<'a>,
>)
    ensures
        fragments(r@) == projected(head@, texts(computed@), embeds_of(embeds@)),
{
    let mut list: Vec<Fragment<'a>> = Vec::new();
    let ghost first = head@;
    push_fragment(&mut list, Fragment::Text(head));
    assert(fragments(list@) =~= seq![FragmentV::Text(first)]);
    let mut i: usize = 0;
    while i < computed.len()
        invariant
            i <= computed.len(),
            text_entries(texts(computed@), 0, seq![FragmentV::Text(first)]) == text_entries(
                texts(computed@),
                i as nat,
                fragments(list@),
            ),
        decreases computed.len() - i,
    {
        assert(texts(computed@)[i as int] == computed@[i as int]@);
        add_text(&mut list, computed[i].clone());
        i += 1;
    }
    add_embed_entries(embeds, &mut list);
    list
}

/// The columns a projection over a table begins with: renamed where anything
/// is, and every column otherwise.
pub open spec fn head_of(renamed: Option<Seq<char>>) -> Seq<char> {
    match renamed {
        Some(list) => list,
        None => "src.*"@,
    }
}

/// The renamed columns of a table that may not be known.
pub open spec fn renamed_in(table: Option<Table>, names: NameOverrides) -> Option<Seq<char>> {
    match table {
        Some(t) => renaming(t, "src"@, names),
        None => None,
    }
}

/// The renamed columns of a table that may not be known.
pub fn find_renamed(table: Option<&Table>, names: &NameOverrides) -> (r: Option<String>)
    ensures
        text_opt(r) == renamed_in(deref_opt(table), *names),
{
    match table {
        Some(t) => rename_projection(t, "src", names),
        None => None,
    }
}

/// The columns a projection over a table begins with.
pub fn head_text(renamed: Option<String>) -> (r: String)
    ensures
        r@ == head_of(text_opt(renamed)),
{
    match renamed {
        Some(list) => list,
        None => owned("src.*"),
    }
}

/// The column types of a table that may not be known.
pub open spec fn types_in(table: Option<Table>, names: NameOverrides) -> Seq<
    (Seq<char>, Seq<char>),
> {
    match table {
        Some(t) => exposed_types(t, names),
        None => Seq::empty(),
    }
}

fn find_types(table: Option<&Table>, names: &NameOverrides) -> (r: Vec<(String, String)>)
    ensures
        pairs(r@) == types_in(deref_opt(table), *names),
{
    match table {
        Some(t) => exposed_column_types(t, names),
        None => {
            let none: Vec<(String, String)> = Vec::new();
            assert(pairs(none@) =~= Seq::<(Seq<char>, Seq<char>)>::empty());
            none
        },
    }
}

/// A bound on how many rows are read and from which on.
pub open spec fn page(limit: Option<i64>, offset: Option<i64>) -> Seq<char> {
    (match limit {
        Some(n) => " LIMIT "@ + decimal_int(n as int),
        None => ""@,
    }) + (match offset {
        Some(n) => " OFFSET "@ + decimal_int(n as int),
        None => ""@,
    })
}

fn page_sql(limit: Option<i64>, offset: Option<i64>) -> (r: String)
    ensures
        r@ == page(limit, offset),
{
    let first = match limit {
        Some(n) => cat2(" LIMIT ", &decimal_int_text(n)),
        None => owned(""),
    };
    let second = match offset {
        Some(n) => cat2(" OFFSET ", &decimal_int_text(n)),
        None => owned(""),
    };
    cat2(&first, &second)
}

/// The binding state after values, in a statement whose parameters begin at
/// one.
pub open spec fn bound_after(values: Seq<JsonV>) -> BindsV {
    BindsV { next: numbered_after(1, values.len()), values }
}

// ---------------------------------------------------------------------------
// Where rows come from
// ---------------------------------------------------------------------------

/// A function a root field calls instead of reading a table.
pub struct FunctionCall {
    pub schema: String,
    pub name: String,
    pub arguments: Vec<FunctionArgument>,
    /// The parameter filled from the caller's session rather than from the
    /// request.
    pub session_argument: Option<String>,
}

/// The rows a function answers with, under an alias. Its session argument is
/// not the client's to send.
pub open spec fn function_rows(
    call: FunctionCall,
    given: Option<JsonV>,
    alias: Seq<char>,
    at: BindsV,
) -> SqlV {
    match arguments_from(call.name@, call.arguments@, given, 0, Seq::empty(), at) {
        Err((e, _, end)) => Err((e, end)),
        Ok((passed, end)) => {
            let all = match call.session_argument {
                Some(session) => passed.push(ident(session@) + " => "@ + SESSION_ARGUMENT@),
                None => passed,
            };
            Ok(
                (
                    ident2(call.schema@, call.name@) + "("@ + joined(all, ", "@) + ") AS "@ + ident(
                        alias,
                    ),
                    end,
                ),
            )
        },
    }
}

/// The FROM clause that calls a function, with whatever the caller gave it
/// bound.
///
/// It is aliased as the table it answers with rows of, so that a filter or an
/// ordering written against that table's columns finds them. An argument left
/// out is left out, so the function's own default applies.
pub fn function_source(
    call: &FunctionCall,
    given: Option<&Json>,
    alias: &str,
    param_idx: &mut usize,
    values: &mut Vec<Json>,
) -> (r: Result<String, Error>)
    ensures
        crate::comparison::outcome(r, *final(param_idx), final(values)@) == function_rows(
            *call,
            json_ref(given),
            alias@,
            binds(*old(param_idx), old(values)@),
        ),
{
    let mut passed = no_texts();
    match pass_arguments(&call.name, &call.arguments, given, &mut passed, param_idx, values) {
        Ok(_) => {},
        Err(e) => return Err(e),
    }
    if let Some(session) = &call.session_argument {
        push_text(&mut passed, cat3(&escape_ident(session), " => ", SESSION_ARGUMENT));
    }
    Ok(
        cat5(
            &escape_ident2(&call.schema, &call.name),
            "(",
            &join(&passed, ", "),
            ") AS ",
            &escape_ident(alias),
        ),
    )
}

/// What a root field reads: a table, or the rows of a function.
pub struct ReadField {
    pub schema_name: String,
    pub table_name: String,
    /// The type of its rows, which keys their relationships.
    pub typename: String,
    /// Whether it is one row by its key.
    pub is_by_pk: bool,
    /// The key columns and their types.
    pub pk_columns: Vec<(String, String)>,
    /// The most rows the server is configured to return.
    pub max_rows: Option<i64>,
    /// The function the rows come from, where it is not the table itself.
    pub call: Option<FunctionCall>,
}

/// The arguments of a function, one by one.
pub open spec fn same_arguments(a: Seq<FunctionArgument>, b: Seq<FunctionArgument>) -> bool {
    a.len() == b.len() && forall|i: int|
        0 <= i < a.len() ==> (#[trigger] a[i]).name@ == b[i].name@ && a[i].pg_type@ == b[i].pg_type@
            && a[i].required == b[i].required
}

impl ReadField {
    /// What a root field reads of its table.
    pub fn of_query(field: &QueryField, max_rows: Option<i64>) -> (r: ReadField)
        ensures
            r.schema_name@ == field.schema_name@,
            r.table_name@ == field.table_name@,
            r.typename@ == field.typename@,
            r.is_by_pk == field.is_by_pk,
            pairs(r.pk_columns@) == pairs(field.pk_columns@),
            r.max_rows == max_rows,
            r.call is None,
    {
        let mut pk_columns: Vec<(String, String)> = Vec::new();
        assert(pairs(pk_columns@) =~= pairs(field.pk_columns@.take(0)));
        let mut i: usize = 0;
        while i < field.pk_columns.len()
            invariant
                i <= field.pk_columns.len(),
                pairs(pk_columns@) == pairs(field.pk_columns@.take(i as int)),
            decreases field.pk_columns.len() - i,
        {
            let pair = &field.pk_columns[i];
            crate::projection::push_pair(&mut pk_columns, pair.0.clone(), pair.1.clone());
            assert(pairs(field.pk_columns@.take(i + 1)) =~= pairs(
                field.pk_columns@.take(i as int),
            ).push((pair.0@, pair.1@)));
            i += 1;
        }
        assert(field.pk_columns@.take(i as int) =~= field.pk_columns@);
        ReadField {
            schema_name: field.schema_name.clone(),
            table_name: field.table_name.clone(),
            typename: field.typename.clone(),
            is_by_pk: field.is_by_pk,
            pk_columns,
            max_rows,
            call: None,
        }
    }

    /// What a root field reads of the rows a function answers with.
    pub fn of_function(function: &FunctionField, max_rows: Option<i64>) -> (r: ReadField)
        ensures
            r.schema_name@ == function.returns_schema@,
            r.table_name@ == function.returns_table@,
            r.typename@ == function.returns@,
            !r.is_by_pk,
            r.pk_columns@.len() == 0,
            r.max_rows == max_rows,
            r.call is Some,
            (r.call->0).schema@ == function.schema_name@,
            (r.call->0).name@ == function.function_name@,
            same_arguments((r.call->0).arguments@, function.arguments@),
            text_opt((r.call->0).session_argument) == text_opt(function.session_argument),
    {
        let mut arguments: Vec<FunctionArgument> = Vec::new();
        let mut i: usize = 0;
        while i < function.arguments.len()
            invariant
                i <= function.arguments.len(),
                same_arguments(arguments@, function.arguments@.take(i as int)),
            decreases function.arguments.len() - i,
        {
            let argument = &function.arguments[i];
            arguments.push(
                FunctionArgument {
                    name: argument.name.clone(),
                    pg_type: argument.pg_type.clone(),
                    required: argument.required,
                },
            );
            i += 1;
        }
        assert(function.arguments@.take(i as int) =~= function.arguments@);
        let session_argument = match &function.session_argument {
            Some(name) => Some(name.clone()),
            None => None,
        };
        ReadField {
            schema_name: function.returns_schema.clone(),
            table_name: function.returns_table.clone(),
            typename: function.returns.clone(),
            is_by_pk: false,
            pk_columns: Vec::new(),
            max_rows,
            call: Some(
                FunctionCall {
                    schema: function.schema_name.clone(),
                    name: function.function_name.clone(),
                    arguments,
                    session_argument,
                },
            ),
        }
    }
}

/// Where the rows of a field come from. A function's own arguments are bound
/// before anything else; a table goes by the name given, where one is.
pub open spec fn rows_source(field: ReadField, args: JsonV, table_alias: Option<Seq<char>>) -> Result<
    (Seq<char>, BindsV),
    ErrorV,
> {
    let start = BindsV { next: 1, values: Seq::empty() };
    match field.call {
        Some(call) => match function_rows(call, args.get("args"@), field.table_name@, start) {
            Ok(source) => Ok(source),
            Err((e, _)) => Err(e),
        },
        None => Ok(
            (
                match table_alias {
                    Some(alias) => ident2(field.schema_name@, field.table_name@) + " AS "@ + ident(
                        alias,
                    ),
                    None => ident2(field.schema_name@, field.table_name@),
                },
                start,
            ),
        ),
    }
}

fn source_sql(
    field: &ReadField,
    args: &Json,
    table_alias: Option<&str>,
    values: &mut Vec<Json>,
) -> (r: Result<String, Error>)
    requires
        old(values)@.len() == 0,
    ensures
        (match r {
            Ok(sql) => Ok((sql@, jsons(final(values)@))),
            Err(e) => Err(e@),
        }) == (match rows_source(*field, args@, str_opt(table_alias)) {
            Ok((sql, end)) => Ok((sql, end.values)),
            Err(e) => Err(e),
        }),
{
    assert(jsons(values@) =~= Seq::<JsonV>::empty());
    match &field.call {
        Some(call) => {
            let mut param_idx: usize = 1;
            function_source(call, args.get("args"), &field.table_name, &mut param_idx, values)
        },
        None => {
            let table = escape_ident2(&field.schema_name, &field.table_name);
            match table_alias {
                Some(alias) => Ok(cat3(&table, " AS ", &escape_ident(alias))),
                None => Ok(table),
            }
        },
    }
}

/// The scope a field's filter is read against: a function's rows under the
/// table's name, a table under the name given or its own.
pub open spec fn read_scope(
    field: ReadField,
    src: Sources<'_>,
    caller: Caller,
    table_alias: Option<Seq<char>>,
) -> ScopeV {
    let schema = field.schema_name@;
    let table = field.table_name@;
    let scope = match field.call {
        Some(_) => ScopeV::over_alias(
            schema,
            table,
            table,
            field.typename@,
            *src.cache,
            *src.relationships,
            *src.names,
            *src.words,
        ),
        None => {
            let over = ScopeV::over(schema, table, field.typename@, *src.names, *src.words);
            ScopeV {
                resolution: Some((*src.cache, *src.relationships)),
                ..match table_alias {
                    Some(alias) => over.renamed(alias),
                    None => over,
                }
            }
        },
    };
    ScopeV { caller: Some(caller), ..scope }
}

fn scope_of_read<'a>(
    field: &ReadField,
    src: Sources<'a>,
    caller: &'a Caller,
    table_alias: Option<&str>,
) -> (r: WhereScope<'a>)
    ensures
        r@ == read_scope(*field, src, *caller, str_opt(table_alias)),
{
    let scope = match &field.call {
        Some(_) => WhereScope::for_alias(
            &field.schema_name,
            &field.table_name,
            &field.table_name,
            &field.typename,
            src.cache,
            src.relationships,
            src.names,
            src.words,
        ),
        None => {
            let over = WhereScope::table(
                &field.schema_name,
                &field.table_name,
                &field.typename,
                src.names,
                src.words,
            );
            let named = match table_alias {
                Some(alias) => over.under_alias(alias),
                None => over,
            };
            named.with_resolution(src.cache, src.relationships)
        },
    };
    scope.for_caller(caller)
}

/// The condition on the rows of a field: what was asked and what the role may
/// read, as one. Values are bound after those already bound.
pub open spec fn read_filter(
    field: ReadField,
    src: Sources<'_>,
    caller: Caller,
    requested: Option<JsonV>,
    table_alias: Option<Seq<char>>,
    bound: Seq<JsonV>,
) -> Result<(Option<Seq<char>>, Seq<JsonV>), ErrorV> {
    match filter_of(caller.ruled(field.schema_name@, field.table_name@, Verb::Select)) {
        Err(e) => Err(e),
        Ok(granted) => match both(requested, granted) {
            None => Ok((None, bound)),
            Some(predicate) => match condition(
                predicate,
                read_scope(field, src, caller, table_alias),
                CursorV {
                    binds: BindsV {
                        next: numbered_after(1, bound.len()),
                        values: Seq::empty(),
                    },
                    aliases: 0,
                },
            ) {
                Err((e, _)) => Err(e),
                Ok((None, _)) => Ok((None, bound)),
                Ok((Some(sql), end)) => Ok((Some(sql), bound + end.binds.values)),
            },
        },
    }
}

fn read_filter_sql(
    field: &ReadField,
    src: Sources<'_>,
    caller: &Caller,
    requested: Option<Json>,
    table_alias: Option<&str>,
    values: &mut Vec<Json>,
) -> (r: Result<Option<String>, Error>)
    ensures
        (match r {
            Ok(sql) => Ok((text_opt(sql), jsons(final(values)@))),
            Err(e) => Err(e@),
        }) == read_filter(
            *field,
            src,
            *caller,
            json_opt(requested),
            str_opt(table_alias),
            jsons(old(values)@),
        ),
{
    let granted = match permission_predicate(caller, &field.schema_name, &field.table_name) {
        Ok(granted) => granted,
        Err(e) => return Err(e),
    };
    let predicate = match and_predicates(requested, granted) {
        Some(predicate) => predicate,
        None => return Ok(None),
    };
    let scope = scope_of_read(field, src, caller, table_alias);
    let mut param_idx: usize = number_after(1, values.len());
    let mut bound: Vec<Json> = Vec::new();
    assert(jsons(bound@) =~= Seq::<JsonV>::empty());
    let mut alias_counter: usize = 0;
    match build_condition(&predicate, &scope, &mut param_idx, &mut bound, &mut alias_counter) {
        Err(e) => Err(e),
        Ok(None) => Ok(None),
        Ok(Some(sql)) => {
            append_jsons(values, bound);
            Ok(Some(sql))
        },
    }
}

// ---------------------------------------------------------------------------
// Reading by key
// ---------------------------------------------------------------------------

/// The conditions of the key columns from the `i`th on, after those in
/// `parts`. Each value is cast to its column's type.
pub open spec fn key_conditions(
    field: ReadField,
    names: NameOverrides,
    args: JsonV,
    i: nat,
    parts: Seq<Seq<char>>,
    values: Seq<JsonV>,
) -> Result<(Seq<Seq<char>>, Seq<JsonV>), ErrorV>
    decreases field.pk_columns@.len() - i,
{
    if i >= field.pk_columns@.len() {
        Ok((parts, values))
    } else {
        let column = field.pk_columns@[i as int].0@;
        let name = field_for(names, field.schema_name@, field.table_name@, column);
        match args.get(name) {
            None => Err(
                plain_refusal("missing required primary key argument \""@ + name + "\""@),
            ),
            Some(value) => key_conditions(
                field,
                names,
                args,
                i + 1,
                parts.push(
                    ident(column) + " = $"@ + decimal(i + 1) + "::"@
                        + field.pk_columns@[i as int].1@,
                ),
                values.push(value),
            ),
        }
    }
}

/// The condition that a by-key field puts on its rows.
pub open spec fn key_filter(
    field: ReadField,
    names: NameOverrides,
    args: JsonV,
    values: Seq<JsonV>,
) -> Result<(Seq<char>, Seq<JsonV>), ErrorV> {
    if field.pk_columns@.len() == 0 {
        Err(
            plain_refusal(
                "\""@ + field.table_name@ + "\" has no primary key, so it cannot be queried by key"@,
            ),
        )
    } else {
        match key_conditions(field, names, args, 0, Seq::empty(), values) {
            Err(e) => Err(e),
            Ok((parts, end)) => Ok((" WHERE "@ + joined(parts, " AND "@), end)),
        }
    }
}

fn key_filter_sql(
    field: &ReadField,
    names: &NameOverrides,
    args: &Json,
    values: &mut Vec<Json>,
) -> (r: Result<String, Error>)
    ensures
        (match r {
            Ok(sql) => Ok((sql@, jsons(final(values)@))),
            Err(e) => Err(e@),
        }) == key_filter(*field, *names, args@, jsons(old(values)@)),
{
    if field.pk_columns.len() == 0 {
        return Err(
            Error::new(
                cat3(
                    "\"",
                    &field.table_name,
                    "\" has no primary key, so it cannot be queried by key",
                ),
            ),
        );
    }
    let mut parts = no_texts();
    let mut i: usize = 0;
    while i < field.pk_columns.len()
        invariant
            i <= field.pk_columns.len(),
            key_conditions(*field, *names, args@, 0, Seq::empty(), jsons(old(values)@))
                == key_conditions(
                *field,
                *names,
                args@,
                i as nat,
                texts(parts@),
                jsons(values@),
            ),
            field.pk_columns@.len() > 0,
        decreases field.pk_columns.len() - i,
    {
        let column = &field.pk_columns[i].0;
        let name = exposed_name(names, &field.schema_name, &field.table_name, column);
        match args.get(name) {
            None => {
                return Err(
                    Error::new(cat3("missing required primary key argument \"", name, "\"")),
                );
            },
            Some(value) => {
                push_text(
                    &mut parts,
                    cat5(
                        &escape_ident(column),
                        " = $",
                        &decimal_text(i as u128 + 1),
                        "::",
                        &field.pk_columns[i].1,
                    ),
                );
                let given = value.copy();
                proof {
                    assert(jsons(values@.push(given)) =~= jsons(values@).push(given@));
                }
                values.push(given);
            },
        }
        i += 1;
    }
    Ok(cat2(" WHERE ", &join(&parts, " AND ")))
}

// ---------------------------------------------------------------------------
// Reading rows
// ---------------------------------------------------------------------------

/// The most rows a field may return: what was asked for, what the server is
/// configured for and what the permission allows, whichever is lowest. A
/// by-key field is at most one row.
pub open spec fn read_limit(field: ReadField, caller: Caller, requested: Option<i64>) -> Option<i64> {
    if field.is_by_pk {
        Some(1)
    } else {
        lower(
            requested,
            lower(
                field.max_rows,
                caller.ruled(field.schema_name@, field.table_name@, Verb::Select).limit,
            ),
        )
    }
}

fn limit_of(field: &ReadField, caller: &Caller, requested: Option<i64>) -> (r: Option<i64>)
    ensures
        r == read_limit(*field, *caller, requested),
{
    if field.is_by_pk {
        Some(1)
    } else {
        let granted = permission_limit(caller, &field.schema_name, &field.table_name);
        lower_ceiling(requested, lower_ceiling(field.max_rows, granted))
    }
}

/// How a column of a field's rows is referred to.
pub open spec fn source_reference(field: ReadField) -> Seq<char> {
    match field.call {
        None => ident(READ_ROW@),
        Some(_) => ident(field.table_name@),
    }
}

/// The prefix that keeps one row of each group, and the ordering. A by-key
/// field has neither.
pub open spec fn read_order(
    field: ReadField,
    src: Sources<'_>,
    args: JsonV,
    selection: Selected,
) -> Result<(Seq<char>, Seq<char>), ErrorV> {
    let ordered = if field.is_by_pk {
        Ok((Seq::<char>::empty(), Seq::<Seq<char>>::empty()))
    } else {
        match order_by_clause(
            args.get("order_by"@),
            src,
            field.schema_name@,
            field.table_name@,
            field.typename@,
            source_reference(field),
        ) {
            Err(e) => Err(e),
            Ok(order) => match distinct_on(
                args.get("distinct_on"@),
                src,
                field.schema_name@,
                field.table_name@,
                None,
            ) {
                Err(e) => Err(e),
                Ok(columns) => Ok((order, columns)),
            },
        }
    };
    match ordered {
        Err(e) => Err(e),
        Ok((order, columns)) => match distinct_clause(
            columns,
            stripped_prefix(order, " ORDER BY "@),
        ) {
            Err(e) => Err(
                ErrorV {
                    path: Some(
                        "$.selectionSet."@ + crate::embed::answered_as(selection) + ".args"@,
                    ),
                    ..e
                },
            ),
            Ok((distinct, Some(order))) => Ok((distinct, " ORDER BY "@ + order)),
            Ok((distinct, None)) => Ok((distinct, Seq::empty())),
        },
    }
}

fn read_order_sql(field: &ReadField, src: Sources<'_>, args: &Json, selection: &Selected) -> (r:
    Result<(String, String), Error>)
    ensures
        (match r {
            Ok((distinct, order)) => Ok((distinct@, order@)),
            Err(e) => Err(e@),
        }) == read_order(*field, src, args@, *selection),
{
    let mut order = String::new();
    let mut columns = no_texts();
    if !field.is_by_pk {
        let reference = match &field.call {
            None => escape_ident(READ_ROW),
            Some(_) => escape_ident(&field.table_name),
        };
        match build_order_by_clause(
            args.get("order_by"),
            src,
            &field.schema_name,
            &field.table_name,
            &field.typename,
            &reference,
        ) {
            Ok(sql) => {
                order = sql;
            },
            Err(e) => return Err(e),
        }
        match build_distinct_on(
            args.get("distinct_on"),
            src,
            &field.schema_name,
            &field.table_name,
            None,
        ) {
            Ok(found) => {
                columns = found;
            },
            Err(e) => return Err(e),
        }
    }
    match distinct_on_clause(&columns, strip_prefix(&order, " ORDER BY ")) {
        Err(e) => {
            let name: &str = match &selection.alias {
                Some(alias) => alias.as_str(),
                None => selection.name.as_str(),
            };
            Err(at_path(e, &cat3("$.selectionSet.", name, ".args")))
        },
        Ok((distinct, Some(order))) => Ok((distinct, cat2(" ORDER BY ", &order))),
        Ok((distinct, None)) => Ok((distinct, String::new())),
    }
}

/// The computed fields and relationships of a row, and the values bound for
/// them after those already bound. Computed fields come first.
pub open spec fn row_extras(
    table: Option<Table>,
    src: Sources<'_>,
    caller: Caller,
    typename: Seq<char>,
    fields: Seq<Selected>,
    max_rows: Option<i64>,
    bound: Seq<JsonV>,
) -> Result<
    (Seq<Seq<char>>, Seq<EmbedV>, Seq<JsonV>),
    (ErrorV, Seq<JsonV>),
> {
    let computed = match table {
        Some(t) => computed_fields(
            t,
            fields,
            0,
            "src"@,
            *src.names,
            Seq::empty(),
            bound_after(bound),
        ),
        None => Ok((Seq::empty(), bound_after(bound))),
    };
    match computed {
        Err((e, end)) => Err((e, end.values)),
        Ok((parts, mid)) => match embedded(
            src,
            caller,
            typename,
            "src"@,
            fields,
            max_rows,
            CursorV { binds: bound_after(mid.values), aliases: 0 },
        ) {
            Err((e, end)) => Err((e, end.binds.values)),
            Ok((embeds, end)) => Ok((parts, embeds, end.binds.values)),
        },
    }
}

/// The computed fields and relationships of a row.
pub fn build_extras<'a>(
    table: Option<&Table>,
    src: Sources<'a>,
    caller: &Caller,
    typename: &str,
    fields: &Vec<Selected>,
    max_rows: Option<i64>,
    values: &mut Vec<Json>,
) -> (r: Result<(Vec<String>, Vec<Embed<'a>>), Error>)
    ensures
        (match r {
            Ok((parts, embeds)) => Ok(
                (texts(parts@), embeds_of(embeds@), jsons(final(values)@)),
            ),
            Err(e) => Err((e@, jsons(final(values)@))),
        }) == row_extras(
            deref_opt(table),
            src,
            *caller,
            typename@,
            fields@,
            max_rows,
            jsons(old(values)@),
        ),
{
    let mut param_idx: usize = number_after(1, values.len());
    let parts = match table {
        Some(t) => match computed_projections(
            t,
            fields,
            "src",
            src.names,
            &mut param_idx,
            values,
        ) {
            Ok(parts) => parts,
            Err(e) => return Err(e),
        },
        None => no_texts(),
    };
    let mut next: usize = number_after(1, values.len());
    let mut aliases: usize = 0;
    match build_embed_expressions(
        src,
        caller,
        typename,
        "src",
        fields,
        max_rows,
        &mut aliases,
        &mut next,
        values,
    ) {
        Ok(embeds) => Ok((parts, embeds)),
        Err(e) => Err(e),
    }
}

/// The rows of a subquery with what goes beside their columns; the subquery
/// itself where nothing does.
pub open spec fn rows_with_extras(
    inner: Seq<char>,
    renamed: Option<Seq<char>>,
    computed: Seq<Seq<char>>,
    embeds: Seq<EmbedV>,
) -> Seq<FragmentV> {
    if embeds.len() == 0 && computed.len() == 0 && renamed is None {
        seq![FragmentV::Text(inner)]
    } else {
        framed(
            "SELECT "@,
            projected(head_of(renamed), computed, embeds),
            " FROM ("@ + inner + ") AS src"@,
        )
    }
}

/// The statement that reads a field's rows. Ordering and paging belong inside
/// the subquery, so that they decide which rows there are; what is a function
/// of the row goes outside it, where the row is still the table's own.
pub open spec fn read_of(
    field: ReadField,
    src: Sources<'_>,
    caller: Caller,
    args: JsonV,
    selection: Selected,
) -> Result<QueryV, ErrorV> {
    let limit = read_limit(field, caller, integer_argument(args, "limit"@));
    let offset = integer_argument(args, "offset"@);
    match rows_source(field, args, Some(READ_ROW@)) {
        Err(e) => Err(e),
        Ok((source, sourced)) => {
            let keyed = if field.is_by_pk {
                key_filter(field, *src.names, args, sourced.values)
            } else {
                Ok((Seq::empty(), sourced.values))
            };
            match keyed {
                Err(e) => Err(e),
                Ok((key_sql, key_values)) => match read_filter(
                    field,
                    src,
                    caller,
                    if field.is_by_pk {
                        None
                    } else {
                        args.get("where"@)
                    },
                    Some(READ_ROW@),
                    key_values,
                ) {
                    Err(e) => Err(e),
                    Ok((filter, filtered)) => {
                        let where_sql = match filter {
                            None => key_sql,
                            Some(sql) => if key_sql.len() == 0 {
                                " WHERE "@ + sql
                            } else {
                                key_sql + " AND ("@ + sql + ")"@
                            },
                        };
                        match read_order(field, src, args, selection) {
                            Err(e) => Err(e),
                            Ok((distinct, order)) => {
                                let table = src.cache.table(
                                    field.schema_name@,
                                    field.table_name@,
                                );
                                match row_extras(
                                    table,
                                    src,
                                    caller,
                                    field.typename@,
                                    selection.fields@,
                                    field.max_rows,
                                    filtered,
                                ) {
                                    Err((e, _)) => Err(e),
                                    Ok((computed, embeds, values)) => {
                                        let inner = "SELECT "@ + distinct + "* FROM "@ + source
                                            + where_sql + order + page(limit, offset);
                                        Ok(
                                            QueryV {
                                                sql: framed(
                                                    "SELECT "@ + row_as_json(
                                                        "t"@,
                                                        types_in(table, *src.names),
                                                    ) + " FROM ("@,
                                                    rows_with_extras(
                                                        inner,
                                                        renamed_in(table, *src.names),
                                                        computed,
                                                        embeds,
                                                    ),
                                                    ") t"@,
                                                ),
                                                values,
                                            },
                                        )
                                    },
                                }
                            },
                        }
                    },
                },
            }
        },
    }
}

fn with_extras<'a>(
    inner: String,
    renamed: Option<String>,
    computed: &Vec<String>,
    embeds: Vec<Embed<'a>>,
) -> (r: Vec<Fragment<'a>>)
    ensures
        fragments(r@) == rows_with_extras(
            inner@,
            text_opt(renamed),
            texts(computed@),
            embeds_of(embeds@),
        ),
{
    if embeds.len() == 0 && computed.len() == 0 && renamed.is_none() {
        let mut r: Vec<Fragment<'a>> = Vec::new();
        let ghost text = inner@;
        push_fragment(&mut r, Fragment::Text(inner));
        assert(fragments(r@) =~= seq![FragmentV::Text(text)]);
        return r;
    }
    let list = project(head_text(renamed), computed, embeds);
    frame(owned("SELECT "), list, cat3(" FROM (", &inner, ") AS src"))
}

fn copied(value: Option<&Json>) -> (r: Option<Json>)
    ensures
        json_opt(r) == json_ref(value),
{
    match value {
        Some(value) => Some(value.copy()),
        None => None,
    }
}

/// The statement that reads the rows a query field answers with.
pub fn read_query<'a>(
    field: &ReadField,
    src: Sources<'a>,
    caller: &Caller,
    args: &Json,
    selection: &Selected,
) -> (r: Result<Query<'a>, Error>)
    ensures
        query_outcome(r) == read_of(*field, src, *caller, args@, *selection),
{
    let limit = limit_of(field, caller, integer_of(args, "limit"));
    let offset = integer_of(args, "offset");
    let mut values: Vec<Json> = Vec::new();
    let source = match source_sql(field, args, Some(READ_ROW), &mut values) {
        Ok(source) => source,
        Err(e) => return Err(e),
    };
    let key_sql = if field.is_by_pk {
        match key_filter_sql(field, src.names, args, &mut values) {
            Ok(sql) => sql,
            Err(e) => return Err(e),
        }
    } else {
        String::new()
    };
    let requested = if field.is_by_pk {
        None
    } else {
        copied(args.get("where"))
    };
    let where_sql = match read_filter_sql(
        field,
        src,
        caller,
        requested,
        Some(READ_ROW),
        &mut values,
    ) {
        Err(e) => return Err(e),
        Ok(None) => key_sql,
        Ok(Some(sql)) => if key_sql.as_str().is_empty() {
            cat2(" WHERE ", &sql)
        } else {
            cat4(&key_sql, " AND (", &sql, ")")
        },
    };
    let (distinct, order) = match read_order_sql(field, src, args, selection) {
        Ok(ordered) => ordered,
        Err(e) => return Err(e),
    };
    let table = src.cache.get_table(&field.schema_name, &field.table_name);
    let (computed, embeds) = match build_extras(
        table,
        src,
        caller,
        &field.typename,
        &selection.fields,
        field.max_rows,
        &mut values,
    ) {
        Ok(extras) => extras,
        Err(e) => return Err(e),
    };
    let inner = cat7(
        "SELECT ",
        &distinct,
        "* FROM ",
        &source,
        &where_sql,
        &order,
        &page_sql(limit, offset),
    );
    let types = find_types(table, src.names);
    let rows = with_extras(inner, find_renamed(table, src.names), &computed, embeds);
    let sql = frame(
        cat3("SELECT ", &row_json("t", &types), " FROM ("),
        rows,
        owned(") t"),
    );
    Ok(Query { sql, values })
}

// ---------------------------------------------------------------------------
// Aggregates
// ---------------------------------------------------------------------------

/// What an aggregate field reads: the rows before paging, and the values
/// bound so far.
pub struct AggregateRows {
    pub rows: String,
    pub values: Vec<Json>,
    pub requested: Option<i64>,
    pub limit: Option<i64>,
    pub offset: Option<i64>,
}

/// What an [`AggregateRows`] holds.
#[verifier::ext_equal]
pub struct AggregateRowsV {
    pub rows: Seq<char>,
    pub values: Seq<JsonV>,
    pub requested: Option<i64>,
    pub limit: Option<i64>,
    pub offset: Option<i64>,
}

impl View for AggregateRows {
    type V = AggregateRowsV;

    open spec fn view(&self) -> AggregateRowsV {
        AggregateRowsV {
            rows: self.rows@,
            values: jsons(self.values@),
            requested: self.requested,
            limit: self.limit,
            offset: self.offset,
        }
    }
}

/// The rows an aggregate field is about. Counting rows is reading them, so
/// the permission narrows them as it narrows a read.
pub open spec fn aggregated_rows(
    field: ReadField,
    src: Sources<'_>,
    caller: Caller,
    args: JsonV,
) -> Result<AggregateRowsV, ErrorV> {
    match rows_source(field, args, None) {
        Err(e) => Err(e),
        Ok((source, sourced)) => match read_filter(
            field,
            src,
            caller,
            args.get("where"@),
            None,
            sourced.values,
        ) {
            Err(e) => Err(e),
            Ok((filter, values)) => match order_by_clause(
                args.get("order_by"@),
                src,
                field.schema_name@,
                field.table_name@,
                field.typename@,
                ident2(field.schema_name@, field.table_name@),
            ) {
                Err(e) => Err(e),
                Ok(order) => {
                    let requested = integer_argument(args, "limit"@);
                    Ok(
                        AggregateRowsV {
                            rows: "SELECT * FROM "@ + source + (match filter {
                                Some(sql) => " WHERE "@ + sql,
                                None => ""@,
                            }) + order,
                            values,
                            requested,
                            limit: lower(
                                requested,
                                lower(
                                    field.max_rows,
                                    caller.ruled(
                                        field.schema_name@,
                                        field.table_name@,
                                        Verb::Select,
                                    ).limit,
                                ),
                            ),
                            offset: integer_argument(args, "offset"@),
                        },
                    )
                },
            },
        },
    }
}

/// The rows an aggregate field is about.
pub fn aggregate_rows(field: &ReadField, src: Sources<'_>, caller: &Caller, args: &Json) -> (r:
    Result<AggregateRows, Error>)
    ensures
        (match r {
            Ok(rows) => Ok(rows@),
            Err(e) => Err(e@),
        }) == aggregated_rows(*field, src, *caller, args@),
{
    let mut values: Vec<Json> = Vec::new();
    let source = match source_sql(field, args, None, &mut values) {
        Ok(source) => source,
        Err(e) => return Err(e),
    };
    let where_sql = match read_filter_sql(
        field,
        src,
        caller,
        copied(args.get("where")),
        None,
        &mut values,
    ) {
        Err(e) => return Err(e),
        Ok(None) => owned(""),
        Ok(Some(sql)) => cat2(" WHERE ", &sql),
    };
    let reference = escape_ident2(&field.schema_name, &field.table_name);
    let order = match build_order_by_clause(
        args.get("order_by"),
        src,
        &field.schema_name,
        &field.table_name,
        &field.typename,
        &reference,
    ) {
        Ok(order) => order,
        Err(e) => return Err(e),
    };
    let requested = integer_of(args, "limit");
    let granted = permission_limit(caller, &field.schema_name, &field.table_name);
    Ok(
        AggregateRows {
            rows: cat4("SELECT * FROM ", &source, &where_sql, &order),
            values,
            requested,
            limit: lower_ceiling(requested, lower_ceiling(field.max_rows, granted)),
            offset: integer_of(args, "offset"),
        },
    )
}

/// The counts of every `aggregate` selected from the `i`th field on, after
/// those in `parts`.
pub open spec fn all_counts(
    fields: Seq<Selected>,
    i: nat,
    field: ReadField,
    names: NameOverrides,
    parts: Seq<Seq<char>>,
) -> Seq<Seq<char>>
    decreases fields.len() - i,
{
    if i >= fields.len() {
        parts
    } else {
        all_counts(
            fields,
            i + 1,
            field,
            names,
            if fields[i as int].name@ == "aggregate"@ {
                count_fields(
                    fields[i as int].fields@,
                    0,
                    field.schema_name@,
                    field.table_name@,
                    None,
                    names,
                    parts,
                )
            } else {
                parts
            },
        )
    }
}

/// The functions of every `aggregate` selected from the `i`th field on, with
/// those in `found`.
pub open spec fn all_functions(fields: Seq<Selected>, i: nat, found: Seq<Seq<char>>) -> Seq<
    Seq<char>,
>
    decreases fields.len() - i,
{
    if i >= fields.len() {
        found
    } else {
        all_functions(
            fields,
            i + 1,
            if fields[i as int].name@ == "aggregate"@ {
                functions_asked(fields[i as int].fields@, 0, None, found)
            } else {
                found
            },
        )
    }
}

/// The columns asked of one function by every `aggregate` selected from the
/// `i`th field on, after those in `found`.
pub open spec fn all_columns(
    fields: Seq<Selected>,
    i: nat,
    function: Seq<char>,
    found: Seq<Seq<char>>,
) -> Seq<Seq<char>>
    decreases fields.len() - i,
{
    if i >= fields.len() {
        found
    } else {
        all_columns(
            fields,
            i + 1,
            function,
            if fields[i as int].name@ == "aggregate"@ {
                columns_asked(fields[i as int].fields@, 0, function, found)
            } else {
                found
            },
        )
    }
}

/// Whether some `aggregate` counts under its own name.
pub open spec fn counted_plainly(fields: Seq<Selected>) -> bool {
    exists|i: int|
        0 <= i < fields.len() && (#[trigger] fields[i]).name@ == "aggregate"@ && counts_plainly(
            fields[i].fields@,
        )
}

/// The entries of the functions from the `i`th on that are asked of some
/// column, after those in `parts`. One that is not known is refused.
pub open spec fn number_entries(
    functions: Seq<Seq<char>>,
    i: nat,
    fields: Seq<Selected>,
    field: ReadField,
    src: Sources<'_>,
    parts: Seq<Seq<char>>,
) -> Result<Seq<Seq<char>>, ErrorV>
    decreases functions.len() - i,
{
    if i >= functions.len() {
        Ok(parts)
    } else {
        let columns = all_columns(fields, 0, functions[i as int], Seq::empty());
        if columns.len() == 0 {
            number_entries(functions, i + 1, fields, field, src, parts)
        } else if !has_text(texts(src.words.aggregates@), functions[i as int]) {
            Err(plain_refusal("unknown aggregate \""@ + functions[i as int] + "\""@))
        } else {
            number_entries(
                functions,
                i + 1,
                fields,
                field,
                src,
                parts.push(
                    function_entry(
                        columns,
                        functions[i as int],
                        None,
                        Some((field.schema_name@, field.table_name@)),
                        *src.names,
                    ),
                ),
            )
        }
    }
}

/// Whether any function from the `i`th on is asked of some column.
pub open spec fn asks_columns(functions: Seq<Seq<char>>, i: nat, fields: Seq<Selected>) -> bool
    decreases functions.len() - i,
{
    if i >= functions.len() {
        false
    } else if all_columns(fields, 0, functions[i as int], Seq::empty()).len() > 0 {
        true
    } else {
        asks_columns(functions, i + 1, fields)
    }
}

/// The statement that answers the numbers of an aggregate field, where any
/// were asked for. A count is not a page: the ceilings that bound how many
/// rows travel do not bound it, while what the request itself asked for does.
pub open spec fn numbers_of(
    field: ReadField,
    src: Sources<'_>,
    read: AggregateRowsV,
    fields: Seq<Selected>,
) -> Result<Option<Seq<char>>, ErrorV> {
    let counts = all_counts(fields, 0, field, *src.names, Seq::empty());
    let functions = all_functions(fields, 0, Seq::empty());
    if counts.len() == 0 && !asks_columns(functions, 0, fields) {
        Ok(None)
    } else {
        match number_entries(
            functions,
            0,
            fields,
            field,
            src,
            all_counts(
                fields,
                0,
                field,
                *src.names,
                leading_count(counted_plainly(fields)),
            ),
        ) {
            Err(e) => Err(e),
            Ok(parts) => Ok(
                Some(
                    "SELECT json_build_object("@ + joined(parts, ", "@) + ") FROM ("@ + (read.rows
                        + page(read.requested, read.offset)) + ") AS pgrst_agg"@,
                ),
            ),
        }
    }
}

fn add_all_counts(
    fields: &Vec<Selected>,
    field: &ReadField,
    names: &NameOverrides,
    parts: &mut Vec<String>,
)
    ensures
        texts(final(parts)@) == all_counts(fields@, 0, *field, *names, texts(old(parts)@)),
{
    let mut i: usize = 0;
    while i < fields.len()
        invariant
            i <= fields.len(),
            all_counts(fields@, 0, *field, *names, texts(old(parts)@)) == all_counts(
                fields@,
                i as nat,
                *field,
                *names,
                texts(parts@),
            ),
        decreases fields.len() - i,
    {
        if same(&fields[i].name, "aggregate") {
            add_counts(
                &fields[i].fields,
                &field.schema_name,
                &field.table_name,
                None,
                names,
                parts,
            );
        }
        i += 1;
    }
}

fn add_all_functions(fields: &Vec<Selected>, found: &mut Vec<String>)
    ensures
        texts(final(found)@) == all_functions(fields@, 0, texts(old(found)@)),
{
    let mut i: usize = 0;
    while i < fields.len()
        invariant
            i <= fields.len(),
            all_functions(fields@, 0, texts(old(found)@)) == all_functions(
                fields@,
                i as nat,
                texts(found@),
            ),
        decreases fields.len() - i,
    {
        if same(&fields[i].name, "aggregate") {
            add_functions(&fields[i].fields, None, found);
        }
        i += 1;
    }
}

fn add_all_columns(fields: &Vec<Selected>, function: &str, found: &mut Vec<String>)
    ensures
        texts(final(found)@) == all_columns(fields@, 0, function@, texts(old(found)@)),
{
    let mut i: usize = 0;
    while i < fields.len()
        invariant
            i <= fields.len(),
            all_columns(fields@, 0, function@, texts(old(found)@)) == all_columns(
                fields@,
                i as nat,
                function@,
                texts(found@),
            ),
        decreases fields.len() - i,
    {
        if same(&fields[i].name, "aggregate") {
            add_columns(&fields[i].fields, function, found);
        }
        i += 1;
    }
}

fn any_plain_count(fields: &Vec<Selected>) -> (r: bool)
    ensures
        r == counted_plainly(fields@),
{
    let mut i: usize = 0;
    while i < fields.len()
        invariant
            i <= fields.len(),
            forall|j: int|
                0 <= j < i ==> !((#[trigger] fields@[j]).name@ == "aggregate"@ && counts_plainly(
                    fields@[j].fields@,
                )),
        decreases fields.len() - i,
    {
        if same(&fields[i].name, "aggregate") && has_plain_count(&fields[i].fields) {
            assert(fields@[i as int].name@ == "aggregate"@);
            return true;
        }
        i += 1;
    }
    false
}

fn any_columns(functions: &Vec<String>, fields: &Vec<Selected>) -> (r: bool)
    ensures
        r == asks_columns(texts(functions@), 0, fields@),
{
    let mut i: usize = 0;
    while i < functions.len()
        invariant
            i <= functions.len(),
            asks_columns(texts(functions@), 0, fields@) == asks_columns(
                texts(functions@),
                i as nat,
                fields@,
            ),
        decreases functions.len() - i,
    {
        assert(texts(functions@)[i as int] == functions@[i as int]@);
        let mut columns = no_texts();
        add_all_columns(fields, &functions[i], &mut columns);
        if columns.len() > 0 {
            return true;
        }
        i += 1;
    }
    false
}

/// The statement that answers the numbers of an aggregate field, where any
/// were asked for.
pub fn aggregate_numbers(
    field: &ReadField,
    src: Sources<'_>,
    read: &AggregateRows,
    fields: &Vec<Selected>,
) -> (r: Result<Option<String>, Error>)
    ensures
        (match r {
            Ok(sql) => Ok(text_opt(sql)),
            Err(e) => Err(e@),
        }) == numbers_of(*field, src, read@, fields@),
{
    let mut counts = no_texts();
    add_all_counts(fields, field, src.names, &mut counts);
    let mut functions = no_texts();
    add_all_functions(fields, &mut functions);
    if counts.len() == 0 && !any_columns(&functions, fields) {
        return Ok(None);
    }
    let mut parts = start_with_count(any_plain_count(fields));
    add_all_counts(fields, field, src.names, &mut parts);
    let ghost start = texts(parts@);
    let mut i: usize = 0;
    while i < functions.len()
        invariant
            i <= functions.len(),
            numbers_of(*field, src, read@, fields@) == (match number_entries(
                texts(functions@),
                i as nat,
                fields@,
                *field,
                src,
                texts(parts@),
            ) {
                Err(e) => Err(e),
                Ok(parts) => Ok(
                    Some(
                        "SELECT json_build_object("@ + joined(parts, ", "@) + ") FROM ("@ + (
                        read@.rows + page(read@.requested, read@.offset)) + ") AS pgrst_agg"@,
                    ),
                ),
            }),
        decreases functions.len() - i,
    {
        assert(texts(functions@)[i as int] == functions@[i as int]@);
        let mut columns = no_texts();
        add_all_columns(fields, &functions[i], &mut columns);
        if columns.len() > 0 {
            if !contains_text(&src.words.aggregates, &functions[i]) {
                return Err(
                    Error::new(cat3("unknown aggregate \"", &functions[i], "\"")),
                );
            }
            let place = Some((field.schema_name.as_str(), field.table_name.as_str()));
            push_text(
                &mut parts,
                function_entry_sql(&columns, &functions[i], None, place, src.names),
            );
        }
        i += 1;
    }
    let counted = cat2(&read.rows, &page_sql(read.requested, read.offset));
    Ok(
        Some(
            cat5(
                "SELECT json_build_object(",
                &join(&parts, ", "),
                ") FROM (",
                &counted,
                ") AS pgrst_agg",
            ),
        ),
    )
}

/// The first field of a name from the `i`th on.
pub open spec fn selected_from(fields: Seq<Selected>, i: nat, name: Seq<char>) -> Option<Selected>
    decreases fields.len() - i,
{
    if i >= fields.len() {
        None
    } else if fields[i as int].name@ == name {
        Some(fields[i as int])
    } else {
        selected_from(fields, i + 1, name)
    }
}

/// The first field of a name.
pub fn find_selected<'s>(fields: &'s Vec<Selected>, name: &str) -> (r: Option<&'s Selected>)
    ensures
        deref_opt(r) == selected_from(fields@, 0, name@),
{
    let mut i: usize = 0;
    while i < fields.len()
        invariant
            i <= fields.len(),
            selected_from(fields@, 0, name@) == selected_from(fields@, i as nat, name@),
        decreases fields.len() - i,
    {
        if same(&fields[i].name, name) {
            return Some(&fields[i]);
        }
        i += 1;
    }
    None
}

/// The statement that reads the rows of an aggregate field, where they were
/// asked for: a page of the same rows the numbers are about.
pub open spec fn nodes_of(
    field: ReadField,
    src: Sources<'_>,
    caller: Caller,
    read: AggregateRowsV,
    fields: Seq<Selected>,
) -> Result<Option<QueryV>, ErrorV> {
    match selected_from(fields, 0, "nodes"@) {
        None => Ok(None),
        Some(nodes) => {
            let table = src.cache.table(field.schema_name@, field.table_name@);
            match row_extras(
                table,
                src,
                caller,
                field.typename@,
                nodes.fields@,
                field.max_rows,
                read.values,
            ) {
                Err((e, _)) => Err(e),
                Ok((computed, embeds, values)) => Ok(
                    Some(
                        QueryV {
                            sql: framed(
                                "SELECT "@ + row_as_json(
                                    "pgrst_nodes"@,
                                    types_in(table, *src.names),
                                ) + " FROM (SELECT "@,
                                projected(
                                    head_of(renamed_in(table, *src.names)),
                                    computed,
                                    embeds,
                                ),
                                " FROM ("@ + (read.rows + page(read.limit, read.offset))
                                    + ") AS src) AS pgrst_nodes"@,
                            ),
                            values,
                        },
                    ),
                ),
            }
        },
    }
}

/// A copy of a list of documents.
pub fn copy_jsons(values: &Vec<Json>) -> (r: Vec<Json>)
    ensures
        jsons(r@) == jsons(values@),
{
    let mut copied: Vec<Json> = Vec::new();
    let mut i: usize = 0;
    while i < values.len()
        invariant
            i <= values.len(),
            copied@.len() == i,
            forall|j: int| 0 <= j < i ==> copied@[j]@ == values@[j]@,
        decreases values.len() - i,
    {
        copied.push(values[i].copy());
        i += 1;
    }
    assert(jsons(copied@) =~= jsons(values@));
    copied
}

/// The statement that reads the rows of an aggregate field, where they were
/// asked for.
pub fn aggregate_nodes<'a>(
    field: &ReadField,
    src: Sources<'a>,
    caller: &Caller,
    read: &AggregateRows,
    fields: &Vec<Selected>,
) -> (r: Result<Option<Query<'a>>, Error>)
    ensures
        (match r {
            Ok(Some(query)) => Ok(Some(query@)),
            Ok(None) => Ok(None),
            Err(e) => Err(e@),
        }) == nodes_of(*field, src, *caller, read@, fields@),
{
    let nodes = match find_selected(fields, "nodes") {
        Some(nodes) => nodes,
        None => return Ok(None),
    };
    let table = src.cache.get_table(&field.schema_name, &field.table_name);
    let mut values = copy_jsons(&read.values);
    let (computed, embeds) = match build_extras(
        table,
        src,
        caller,
        &field.typename,
        &nodes.fields,
        field.max_rows,
        &mut values,
    ) {
        Ok(extras) => extras,
        Err(e) => return Err(e),
    };
    let list = project(head_text(find_renamed(table, src.names)), &computed, embeds);
    let types = find_types(table, src.names);
    let rows = cat2(&read.rows, &page_sql(read.limit, read.offset));
    let sql = frame(
        cat3("SELECT ", &row_json("pgrst_nodes", &types), " FROM (SELECT "),
        list,
        cat3(" FROM (", &rows, ") AS src) AS pgrst_nodes"),
    );
    Ok(Some(Query { sql, values }))
}

/// What an aggregate field answers: its numbers where they came back as an
/// object, and its rows where they were asked for.
pub open spec fn aggregate_answer(numbers: Option<JsonV>, nodes: Option<Seq<JsonV>>) -> JsonV {
    let first = match numbers {
        Some(JsonV::Object(entries)) => seq![("aggregate"@, JsonV::Object(entries))],
        _ => Seq::empty(),
    };
    JsonV::Object(
        match nodes {
            Some(rows) => first.push(("nodes"@, JsonV::Array(rows))),
            None => first,
        },
    )
}

/// What an aggregate field answers.
pub fn aggregate_value(numbers: Option<Json>, nodes: Option<Vec<Json>>) -> (r: Json)
    ensures
        r@ == aggregate_answer(
            json_opt(numbers),
            match nodes {
                Some(rows) => Some(jsons(rows@)),
                None => None,
            },
        ),
{
    let mut entries: Vec<(String, Json)> = Vec::new();
    let ghost first = match json_opt(numbers) {
        Some(JsonV::Object(entries)) => seq![("aggregate"@, JsonV::Object(entries))],
        _ => Seq::<(Seq<char>, JsonV)>::empty(),
    };
    if let Some(object) = numbers {
        if matches!(object, Json::Object(_)) {
            let ghost given = object@;
            entries.push((owned("aggregate"), object));
            assert(entries_view(entries@) =~= seq![("aggregate"@, given)]);
        }
    }
    assert(entries_view(entries@) =~= first);
    if let Some(rows) = nodes {
        let ghost given = jsons(rows@);
        proof {
            lemma_array_view(rows);
        }
        let ghost before = entries@;
        entries.push((owned("nodes"), Json::Array(rows)));
        assert(entries_view(entries@) =~= entries_view(before).push(
            ("nodes"@, JsonV::Array(given)),
        ));
    }
    proof {
        lemma_object_view(entries);
    }
    Json::Object(entries)
}

// ---------------------------------------------------------------------------
// What a write answers
// ---------------------------------------------------------------------------

/// A delete. Where something beside the plain columns is asked for, the
/// deleted rows are a table inside the one statement, since they are gone
/// after it.
pub open spec fn delete_of(
    schema: Seq<char>,
    table: Seq<char>,
    where_sql: Seq<char>,
    renamed: Option<Seq<char>>,
    computed: Seq<Seq<char>>,
    embeds: Seq<EmbedV>,
    types: Seq<(Seq<char>, Seq<char>)>,
) -> Seq<FragmentV> {
    let row = ident(crate::statement::WRITTEN_ROW@);
    let target = "DELETE FROM "@ + ident2(schema, table) + " AS "@ + row + " "@ + where_sql
        + " RETURNING "@;
    if computed.len() == 0 && embeds.len() == 0 && renamed is None {
        seq![FragmentV::Text(target + row_as_json(row, types))]
    } else {
        framed(
            "WITH pgrst_deleted AS ("@ + target + row + ".*) SELECT "@ + row_as_json(
                "pgrst_r"@,
                types,
            ) + " FROM (SELECT "@,
            projected(head_of(renamed), computed, embeds),
            " FROM pgrst_deleted AS src) AS pgrst_r"@,
        )
    }
}

/// The statement of a delete mutation, and the values it binds. What its
/// answer carries beside the plain columns is settled with it.
pub open spec fn delete_query_of(
    ws: crate::statement::WriteSources<'_>,
    schema: Seq<char>,
    table: Seq<char>,
    typename: Seq<char>,
    filter: Option<JsonV>,
    returning: Option<Seq<Selected>>,
    max_rows: Option<i64>,
) -> Result<QueryV, ErrorV> {
    match crate::statement::deleted_rows(ws, schema, table, typename, filter) {
        Err(e) => Err(e),
        Ok((where_sql, where_values)) => {
            let found = ws.src.cache.table(schema, table);
            let extras = match returning {
                None => Ok((Seq::empty(), Seq::empty(), where_values)),
                Some(fields) => deleted_extras(
                    found,
                    ws.src,
                    *ws.caller,
                    typename,
                    fields,
                    max_rows,
                    where_values,
                ),
            };
            match extras {
                Err(e) => Err(e),
                Ok((computed, embeds, values)) => Ok(
                    QueryV {
                        sql: delete_of(
                            schema,
                            table,
                            where_sql,
                            renamed_in(found, *ws.src.names),
                            computed,
                            embeds,
                            types_in(found, *ws.src.names),
                        ),
                        values,
                    },
                ),
            }
        },
    }
}

/// The computed fields and relationships of written rows, and the values
/// bound for them after those already bound. Relationships come first.
pub open spec fn deleted_extras(
    table: Option<Table>,
    src: Sources<'_>,
    caller: Caller,
    typename: Seq<char>,
    fields: Seq<Selected>,
    max_rows: Option<i64>,
    bound: Seq<JsonV>,
) -> Result<(Seq<Seq<char>>, Seq<EmbedV>, Seq<JsonV>), ErrorV> {
    match embedded(
        src,
        caller,
        typename,
        "src"@,
        fields,
        max_rows,
        CursorV { binds: bound_after(bound), aliases: 0 },
    ) {
        Err((e, _)) => Err(e),
        Ok((embeds, mid)) => match table {
            None => Ok((Seq::empty(), embeds, mid.binds.values)),
            Some(t) => match computed_fields(
                t,
                fields,
                0,
                "src"@,
                *src.names,
                Seq::empty(),
                mid.binds,
            ) {
                Err((e, _)) => Err(e),
                Ok((computed, end)) => Ok((computed, embeds, end.values)),
            },
        },
    }
}

fn build_deleted_extras<'a>(
    table: Option<&Table>,
    src: Sources<'a>,
    caller: &Caller,
    typename: &str,
    fields: &Vec<Selected>,
    max_rows: Option<i64>,
    param_idx: &mut usize,
    values: &mut Vec<Json>,
) -> (r: Result<(Vec<String>, Vec<Embed<'a>>), Error>)
    requires
        *old(param_idx) == numbered_after(1, old(values)@.len()),
    ensures
        (match r {
            Ok((parts, embeds)) => Ok(
                (texts(parts@), embeds_of(embeds@), jsons(final(values)@)),
            ),
            Err(e) => Err(e@),
        }) == deleted_extras(
            deref_opt(table),
            src,
            *caller,
            typename@,
            fields@,
            max_rows,
            jsons(old(values)@),
        ),
{
    let mut aliases: usize = 0;
    let embeds = match build_embed_expressions(
        src,
        caller,
        typename,
        "src",
        fields,
        max_rows,
        &mut aliases,
        param_idx,
        values,
    ) {
        Ok(embeds) => embeds,
        Err(e) => return Err(e),
    };
    let parts = match table {
        Some(t) => match computed_projections(t, fields, "src", src.names, param_idx, values) {
            Ok(parts) => parts,
            Err(e) => return Err(e),
        },
        None => no_texts(),
    };
    Ok((parts, embeds))
}

/// The statement of a delete mutation.
///
/// One that would remove every row is refused. A relationship or a computed
/// field asked of the rows cannot be read afterwards, so it is read in the
/// same statement.
pub fn delete_query<'a>(
    ws: crate::statement::WriteSources<'a>,
    schema_name: &str,
    table_name: &str,
    typename: &str,
    filter: Option<&Json>,
    returning: Option<&Vec<Selected>>,
    max_rows: Option<i64>,
) -> (r: Result<Query<'a>, Error>)
    ensures
        query_outcome(r) == delete_query_of(
            ws,
            schema_name@,
            table_name@,
            typename@,
            json_ref(filter),
            match returning {
                Some(fields) => Some(fields@),
                None => None,
            },
            max_rows,
        ),
{
    let (where_sql, found_values) = match crate::statement::delete_where(
        ws,
        schema_name,
        table_name,
        typename,
        filter,
    ) {
        Ok(clause) => clause,
        Err(e) => return Err(e),
    };
    let mut values = found_values;
    let table = ws.src.cache.get_table(schema_name, table_name);
    let mut computed = no_texts();
    let mut embeds: Vec<Embed<'a>> = Vec::new();
    assert(embeds_of(embeds@) =~= Seq::<EmbedV>::empty());
    if let Some(fields) = returning {
        let mut param_idx: usize = number_after(1, values.len());
        match build_deleted_extras(
            table,
            ws.src,
            ws.caller,
            typename,
            fields,
            max_rows,
            &mut param_idx,
            &mut values,
        ) {
            Ok((found_computed, found_embeds)) => {
                computed = found_computed;
                embeds = found_embeds;
            },
            Err(e) => return Err(e),
        }
    }
    let renamed = find_renamed(table, ws.src.names);
    let types = find_types(table, ws.src.names);
    let row = escape_ident(crate::statement::WRITTEN_ROW);
    let target = cat7(
        "DELETE FROM ",
        &escape_ident2(schema_name, table_name),
        " AS ",
        &row,
        " ",
        &where_sql,
        " RETURNING ",
    );
    if computed.len() == 0 && embeds.len() == 0 && renamed.is_none() {
        let mut sql: Vec<Fragment<'a>> = Vec::new();
        let text = cat2(&target, &row_json(&row, &types));
        let ghost written = text@;
        push_fragment(&mut sql, Fragment::Text(text));
        assert(fragments(sql@) =~= seq![FragmentV::Text(written)]);
        return Ok(Query { sql, values });
    }
    let list = project(head_text(renamed), &computed, embeds);
    let before = cat6(
        "WITH pgrst_deleted AS (",
        &target,
        &row,
        ".*) SELECT ",
        &row_json("pgrst_r", &types),
        " FROM (SELECT ",
    );
    let sql = frame(before, list, owned(" FROM pgrst_deleted AS src) AS pgrst_r"));
    Ok(Query { sql, values })
}

/// The conditions of one written row's key columns from the `i`th on, after
/// those in `parts`; none where the row lacks one of them.
pub open spec fn row_key(
    row: JsonV,
    columns: Seq<Seq<char>>,
    i: nat,
    parts: Seq<Seq<char>>,
    at: BindsV,
) -> Option<(Seq<Seq<char>>, BindsV)>
    decreases columns.len() - i,
{
    if i >= columns.len() {
        Some((parts, at))
    } else {
        match row.get(columns[i as int]) {
            None => None,
            Some(value) => row_key(
                row,
                columns,
                i + 1,
                parts.push(
                    ident(columns[i as int]) + " = "@ + crate::binds::placeholder(at),
                ),
                crate::binds::bound(at, value),
            ),
        }
    }
}

/// The conditions that name the written rows from the `i`th on by their keys,
/// after those in `parts`; none where one of them lacks its key.
pub open spec fn row_keys(
    rows: Seq<JsonV>,
    columns: Seq<Seq<char>>,
    i: nat,
    parts: Seq<Seq<char>>,
    at: BindsV,
) -> Option<(Seq<Seq<char>>, BindsV)>
    decreases rows.len() - i,
{
    if i >= rows.len() {
        Some((parts, at))
    } else {
        match row_key(rows[i as int], columns, 0, Seq::empty(), at) {
            None => None,
            Some((key, end)) => row_keys(
                rows,
                columns,
                i + 1,
                parts.push("("@ + joined(key, " AND "@) + ")"@),
                end,
            ),
        }
    }
}

/// The statement that reads written rows again by their keys, where their
/// answer needs more than the columns the write returned. None where it does
/// not, or where the rows cannot be named.
pub open spec fn reread_of(
    src: Sources<'_>,
    caller: Caller,
    schema: Seq<char>,
    table: Seq<char>,
    typename: Seq<char>,
    rows: Seq<JsonV>,
    fields: Seq<Selected>,
    max_rows: Option<i64>,
) -> Result<Option<QueryV>, ErrorV> {
    match src.cache.table(schema, table) {
        None => Ok(None),
        Some(found) => if found.pk_cols@.len() == 0 {
            Ok(None)
        } else {
            match embedded(
                src,
                caller,
                typename,
                "src"@,
                fields,
                max_rows,
                CursorV { binds: BindsV { next: 1, values: Seq::empty() }, aliases: 0 },
            ) {
                Err((e, _)) => Err(e),
                Ok((embeds, mid)) => match computed_fields(
                    found,
                    fields,
                    0,
                    "src"@,
                    *src.names,
                    Seq::empty(),
                    mid.binds,
                ) {
                    Err((e, _)) => Err(e),
                    Ok((computed, at)) => if embeds.len() == 0 && computed.len() == 0
                        && !src.names.renames(found.schema@, found.name@) {
                        Ok(None)
                    } else {
                        match row_keys(rows, texts(found.pk_cols@), 0, Seq::empty(), at) {
                            None => Ok(None),
                            Some((conditions, end)) => if conditions.len() == 0 {
                                Ok(None)
                            } else {
                                Ok(
                                    Some(
                                        QueryV {
                                            sql: framed(
                                                "SELECT "@ + row_as_json(
                                                    "pgrst_r"@,
                                                    exposed_types(found, *src.names),
                                                ) + " FROM (SELECT "@,
                                                projected(
                                                    head_of(
                                                        renaming(found, "src"@, *src.names),
                                                    ),
                                                    computed,
                                                    embeds,
                                                ),
                                                " FROM (SELECT * FROM "@ + ident2(schema, table)
                                                    + " WHERE "@ + joined(conditions, " OR "@)
                                                    + ") AS src) AS pgrst_r"@,
                                            ),
                                            values: end.values,
                                        },
                                    ),
                                )
                            },
                        }
                    },
                },
            }
        },
    }
}

fn bind_row_key(
    row: &Json,
    columns: &Vec<String>,
    param_idx: &mut usize,
    values: &mut Vec<Json>,
) -> (r: Option<Vec<String>>)
    ensures
        (match r {
            Some(parts) => Some((texts(parts@), binds(*final(param_idx), final(values)@))),
            None => None,
        }) == row_key(
            row@,
            texts(columns@),
            0,
            Seq::empty(),
            binds(*old(param_idx), old(values)@),
        ),
{
    let mut parts = no_texts();
    let mut i: usize = 0;
    while i < columns.len()
        invariant
            i <= columns.len(),
            row_key(
                row@,
                texts(columns@),
                0,
                Seq::empty(),
                binds(*old(param_idx), old(values)@),
            ) == row_key(
                row@,
                texts(columns@),
                i as nat,
                texts(parts@),
                binds(*param_idx, values@),
            ),
        decreases columns.len() - i,
    {
        assert(texts(columns@)[i as int] == columns@[i as int]@);
        match row.get(&columns[i]) {
            None => return None,
            Some(value) => {
                let text = crate::binds::bind(param_idx, values, value.copy());
                push_text(&mut parts, cat3(&escape_ident(&columns[i]), " = ", &text));
            },
        }
        i += 1;
    }
    Some(parts)
}

fn bind_row_keys(
    rows: &Vec<Json>,
    columns: &Vec<String>,
    param_idx: &mut usize,
    values: &mut Vec<Json>,
) -> (r: Option<Vec<String>>)
    ensures
        (match r {
            Some(parts) => Some((texts(parts@), binds(*final(param_idx), final(values)@))),
            None => None,
        }) == row_keys(
            jsons(rows@),
            texts(columns@),
            0,
            Seq::empty(),
            binds(*old(param_idx), old(values)@),
        ),
{
    let mut parts = no_texts();
    let mut i: usize = 0;
    while i < rows.len()
        invariant
            i <= rows.len(),
            row_keys(
                jsons(rows@),
                texts(columns@),
                0,
                Seq::empty(),
                binds(*old(param_idx), old(values)@),
            ) == row_keys(
                jsons(rows@),
                texts(columns@),
                i as nat,
                texts(parts@),
                binds(*param_idx, values@),
            ),
        decreases rows.len() - i,
    {
        assert(jsons(rows@)[i as int] == rows@[i as int]@);
        match bind_row_key(&rows[i], columns, param_idx, values) {
            None => return None,
            Some(key) => push_text(&mut parts, cat3("(", &join(&key, " AND "), ")")),
        }
        i += 1;
    }
    Some(parts)
}

/// The statement that reads written rows again, where the answer needs more
/// than the columns the write returned.
///
/// A write returns the table's own columns and nothing else, so relationships,
/// computed fields and renamed columns are read by the rows' keys through the
/// projection an ordinary query uses.
pub fn reread_query<'a>(
    src: Sources<'a>,
    caller: &Caller,
    schema_name: &str,
    table_name: &str,
    typename: &str,
    rows: &Vec<Json>,
    fields: &Vec<Selected>,
    max_rows: Option<i64>,
) -> (r: Result<Option<Query<'a>>, Error>)
    ensures
        (match r {
            Ok(Some(query)) => Ok(Some(query@)),
            Ok(None) => Ok(None),
            Err(e) => Err(e@),
        }) == reread_of(
            src,
            *caller,
            schema_name@,
            table_name@,
            typename@,
            jsons(rows@),
            fields@,
            max_rows,
        ),
{
    let table = match src.cache.get_table(schema_name, table_name) {
        Some(table) => table,
        None => return Ok(None),
    };
    if table.pk_cols.len() == 0 {
        return Ok(None);
    }
    let mut values: Vec<Json> = Vec::new();
    assert(jsons(values@) =~= Seq::<JsonV>::empty());
    let mut param_idx: usize = 1;
    let mut aliases: usize = 0;
    let embeds = match build_embed_expressions(
        src,
        caller,
        typename,
        "src",
        fields,
        max_rows,
        &mut aliases,
        &mut param_idx,
        &mut values,
    ) {
        Ok(embeds) => embeds,
        Err(e) => return Err(e),
    };
    let computed = match computed_projections(
        table,
        fields,
        "src",
        src.names,
        &mut param_idx,
        &mut values,
    ) {
        Ok(computed) => computed,
        Err(e) => return Err(e),
    };
    if embeds.len() == 0 && computed.len() == 0 && !src.names.renames_columns(
        &table.schema,
        &table.name,
    ) {
        return Ok(None);
    }
    let conditions = match bind_row_keys(rows, &table.pk_cols, &mut param_idx, &mut values) {
        Some(conditions) => conditions,
        None => return Ok(None),
    };
    if conditions.len() == 0 {
        return Ok(None);
    }
    let list = project(
        head_text(rename_projection(table, "src", src.names)),
        &computed,
        embeds,
    );
    let types = exposed_column_types(table, src.names);
    let sql = frame(
        cat3("SELECT ", &row_json("pgrst_r", &types), " FROM (SELECT "),
        list,
        cat5(
            " FROM (SELECT * FROM ",
            &escape_ident2(schema_name, table_name),
            " WHERE ",
            &join(&conditions, " OR "),
            ") AS src) AS pgrst_r",
        ),
    );
    Ok(Some(Query { sql, values }))
}

} // verus!

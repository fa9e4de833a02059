//! What reads and embeds are made of.

use crate::binds::BindsV;
use crate::catalog::{
    fields_of, keys_required, present_always, Cardinality, EmbedPlan, NameOverrides,
    RelationshipField, RelationshipKind, SchemaCache, Table, TypeRelationships,
};
use crate::comparison::Vocabulary;
use crate::computed::relationship_arguments;
use crate::condition::{alias_of, condition, CursorV};
use crate::embed::{
    aggregate_part, aggregate_select, computed_fields, count_fields, embed_of, embedded,
    embedded_field, function_entries, functions_asked, integer_argument, narrowing, nodes_part,
    plain_entries, plain_entry, row_select, EmbedV, FragmentV, NarrowingV, Selected,
};
use crate::error::ErrorV;
use crate::json::JsonV;
use crate::limits::lower;
use crate::lookup::named;
use crate::ordering::{
    aggregated_list, distinct_clause, distinct_on, embedded_ordering, order_by_clause,
};
use crate::projection::{exposed_types, renaming, row_as_json};
use crate::read::{
    aggregated_rows, framed, key_filter, nodes_of, page, projected, read_filter, read_limit,
    read_of, read_order, read_scope, reread_of, row_extras, row_keys, rows_source, rows_with_extras,
    selected_from, types_in, AggregateRowsV, QueryV, ReadField,
};
use crate::role::{both, filter_of, Caller, Verb};
use crate::scope::{ScopeV, Sources};
use crate::text::{decimal, ident, ident2, joined, texts};
use vstd::prelude::*;

verus! {

// ---------------------------------------------------------------------------
// Limits
// ---------------------------------------------------------------------------

/// Of two limits the lower holds, and of one that one.
pub proof fn law_the_lower_limit_holds(a: Option<i64>, b: Option<i64>)
    ensures
        (lower(a, b) is None) == (a is None && b is None),
        lower(a, b) is Some ==> (a is Some ==> lower(a, b)->0 <= a->0) && (b is Some ==> lower(
            a,
            b,
        )->0 <= b->0),
        lower(a, b) == a || lower(a, b) == b,
        lower(a, b) == lower(b, a),
{
}

/// A read is held to the lowest of the limits asked for, set for the field and
/// granted, and one by key to one row.
pub proof fn law_reads_are_held_to_every_limit(
    field: ReadField,
    caller: Caller,
    requested: Option<i64>,
)
    ensures
        ({
            let r = read_limit(field, caller, requested);
            let granted = caller.ruled(field.schema_name@, field.table_name@, Verb::Select).limit;
            &&& field.is_by_pk ==> r == Some(1i64)
            &&& !field.is_by_pk ==> {
                &&& r == requested || r == field.max_rows || r == granted
                &&& requested is Some ==> r is Some && r->0 <= requested->0
                &&& field.max_rows is Some ==> r is Some && r->0 <= field.max_rows->0
                &&& granted is Some ==> r is Some && r->0 <= granted->0
            }
        }),
{
}

// ---------------------------------------------------------------------------
// Scopes
// ---------------------------------------------------------------------------

/// A filter over a table speaks of it by its own name.
pub proof fn law_a_filter_is_over_its_table(
    schema: Seq<char>,
    table: Seq<char>,
    typename: Seq<char>,
    names: NameOverrides,
    words: Vocabulary,
    alias: Seq<char>,
)
    ensures
        ({
            let r = ScopeV::over(schema, table, typename, names, words);
            &&& r.qualified == (schema, table)
            &&& r.root_qualified == (schema, table)
            &&& r.sql_ref == ident2(schema, table)
            &&& r.root_ref == ident2(schema, table)
            &&& r.row_ref == ident(table)
            &&& r.typename == typename
            &&& r.names == names
            &&& r.words == words
            &&& r.resolution is None
            &&& r.caller is None
            &&& r.renamed(alias) == (ScopeV {
                sql_ref: ident(alias),
                row_ref: ident(alias),
                root_ref: ident(alias),
                ..r
            })
        }),
{
}

/// A filter over rows that go by another name speaks of them by that name, and
/// so does what it leads back to.
pub proof fn law_a_filter_is_over_its_alias(
    schema: Seq<char>,
    table: Seq<char>,
    alias: Seq<char>,
    typename: Seq<char>,
    cache: SchemaCache,
    relationships: Vec<TypeRelationships>,
    names: NameOverrides,
    words: Vocabulary,
)
    ensures
        ScopeV::over_alias(
            schema,
            table,
            alias,
            typename,
            cache,
            relationships,
            names,
            words,
        ) == (ScopeV {
            qualified: (schema, table),
            sql_ref: ident(alias),
            row_ref: ident(alias),
            typename,
            root_ref: ident(alias),
            root_qualified: (schema, table),
            names,
            words,
            resolution: Some((cache, relationships)),
            caller: None,
        }),
{
}

/// A read's filter is over the rows it reads, for the caller who reads them.
pub proof fn law_a_reads_filter_is_over_its_rows(
    field: ReadField,
    src: Sources<'_>,
    caller: Caller,
    alias: Seq<char>,
)
    ensures
        ({
            let over_rows = |name: Seq<char>|
                ScopeV {
                    qualified: (field.schema_name@, field.table_name@),
                    sql_ref: ident(name),
                    row_ref: ident(name),
                    typename: field.typename@,
                    root_ref: ident(name),
                    root_qualified: (field.schema_name@, field.table_name@),
                    names: *src.names,
                    words: *src.words,
                    resolution: Some((*src.cache, *src.relationships)),
                    caller: Some(caller),
                };
            &&& field.call is None ==> read_scope(field, src, caller, Some(alias)) == over_rows(
                alias,
            )
            &&& field.call is Some ==> read_scope(field, src, caller, Some(alias)) == over_rows(
                field.table_name@,
            )
            &&& field.call is None ==> read_scope(field, src, caller, None) == (ScopeV {
                sql_ref: ident2(field.schema_name@, field.table_name@),
                row_ref: ident(field.table_name@),
                root_ref: ident2(field.schema_name@, field.table_name@),
                ..over_rows(alias)
            })
        }),
{
}

/// The rows that are read are those of the table, under the alias where there is
/// one, or those of the function that is called.
pub proof fn law_rows_come_from_their_source(
    field: ReadField,
    args: JsonV,
    alias: Seq<char>,
)
    ensures
        field.call is None ==> rows_source(field, args, Some(alias)) == Ok::<
            (Seq<char>, BindsV),
            ErrorV,
        >(
            (
                ident2(field.schema_name@, field.table_name@) + " AS "@ + ident(alias),
                BindsV { next: 1, values: Seq::empty() },
            ),
        ),
        field.call is None ==> rows_source(field, args, None) == Ok::<
            (Seq<char>, BindsV),
            ErrorV,
        >(
            (
                ident2(field.schema_name@, field.table_name@),
                BindsV { next: 1, values: Seq::empty() },
            ),
        ),
        field.call is Some ==> rows_source(field, args, Some(alias)) == (
        match crate::read::function_rows(
            field.call->0,
            args.get("args"@),
            field.table_name@,
            BindsV { next: 1, values: Seq::empty() },
        ) {
            Ok(source) => Ok(source),
            Err((e, _)) => Err(e),
        }),
{
}

// ---------------------------------------------------------------------------
// Reads
// ---------------------------------------------------------------------------

/// A read holds its key and its filter together: both where there are both, and
/// either alone.
pub open spec fn held(key: Seq<char>, filter: Option<Seq<char>>) -> Seq<char> {
    match filter {
        None => key,
        Some(sql) => if key.len() == 0 {
            " WHERE "@ + sql
        } else {
            key + " AND ("@ + sql + ")"@
        },
    }
}

/// A read is of the rows of its source for which its key and its filter hold,
/// in its order and within its limits, with what else is asked of them.
pub proof fn law_a_read_is_put_together(
    field: ReadField,
    src: Sources<'_>,
    caller: Caller,
    args: JsonV,
    selection: Selected,
    source: Seq<char>,
    sourced: BindsV,
    key: Seq<char>,
    keyed: Seq<JsonV>,
    filter: Option<Seq<char>>,
    filtered: Seq<JsonV>,
    distinct: Seq<char>,
    order: Seq<char>,
    computed: Seq<Seq<char>>,
    embeds: Seq<EmbedV>,
    values: Seq<JsonV>,
)
    requires
        rows_source(field, args, Some("pgrst_src"@)) == Ok::<(Seq<char>, BindsV), ErrorV>(
            (source, sourced),
        ),
        field.is_by_pk ==> key_filter(field, *src.names, args, sourced.values) == Ok::<
            (Seq<char>, Seq<JsonV>),
            ErrorV,
        >((key, keyed)),
        !field.is_by_pk ==> key.len() == 0 && keyed == sourced.values,
        read_filter(
            field,
            src,
            caller,
            if field.is_by_pk {
                None
            } else {
                args.get("where"@)
            },
            Some("pgrst_src"@),
            keyed,
        ) == Ok::<(Option<Seq<char>>, Seq<JsonV>), ErrorV>((filter, filtered)),
        read_order(field, src, args, selection) == Ok::<(Seq<char>, Seq<char>), ErrorV>(
            (distinct, order),
        ),
        row_extras(
            src.cache.table(field.schema_name@, field.table_name@),
            src,
            caller,
            field.typename@,
            selection.fields@,
            field.max_rows,
            filtered,
        ) == Ok::<(Seq<Seq<char>>, Seq<EmbedV>, Seq<JsonV>), (ErrorV, Seq<JsonV>)>(
            (computed, embeds, values),
        ),
    ensures
        ({
            let table = src.cache.table(field.schema_name@, field.table_name@);
            read_of(field, src, caller, args, selection) == Ok::<QueryV, ErrorV>(
                QueryV {
                    sql: framed(
                        "SELECT "@ + row_as_json("t"@, types_in(table, *src.names)) + " FROM ("@,
                        rows_with_extras(
                            "SELECT "@ + distinct + "* FROM "@ + source + held(key, filter) + order
                                + page(
                                read_limit(field, caller, integer_argument(args, "limit"@)),
                                integer_argument(args, "offset"@),
                            ),
                            match table {
                                Some(t) => renaming(t, "src"@, *src.names),
                                None => None,
                            },
                            computed,
                            embeds,
                        ),
                        ") t"@,
                    ),
                    values,
                },
            )
        }),
{
    if !field.is_by_pk {
        assert(key =~= Seq::<char>::empty());
    }
}

/// Numbers are of the rows of their source for which the filter holds, in the
/// order asked for, and of no more than any limit lets through.
pub proof fn law_numbers_are_put_together(
    field: ReadField,
    src: Sources<'_>,
    caller: Caller,
    args: JsonV,
    source: Seq<char>,
    sourced: BindsV,
    filter: Option<Seq<char>>,
    values: Seq<JsonV>,
    order: Seq<char>,
)
    requires
        rows_source(field, args, None) == Ok::<(Seq<char>, BindsV), ErrorV>((source, sourced)),
        read_filter(field, src, caller, args.get("where"@), None, sourced.values) == Ok::<
            (Option<Seq<char>>, Seq<JsonV>),
            ErrorV,
        >((filter, values)),
        order_by_clause(
            args.get("order_by"@),
            src,
            field.schema_name@,
            field.table_name@,
            field.typename@,
            ident2(field.schema_name@, field.table_name@),
        ) == Ok::<Seq<char>, ErrorV>(order),
    ensures
        ({
            let r = aggregated_rows(field, src, caller, args);
            let requested = integer_argument(args, "limit"@);
            let granted = caller.ruled(field.schema_name@, field.table_name@, Verb::Select).limit;
            let limit = (r->Ok_0).limit;
            &&& r is Ok
            &&& (r->Ok_0).rows == "SELECT * FROM "@ + source + (match filter {
                Some(sql) => " WHERE "@ + sql,
                None => ""@,
            }) + order
            &&& (r->Ok_0).values == values
            &&& (r->Ok_0).requested == requested
            &&& (r->Ok_0).offset == integer_argument(args, "offset"@)
            &&& limit == requested || limit == field.max_rows || limit == granted
            &&& requested is Some ==> limit is Some && limit->0 <= requested->0
            &&& field.max_rows is Some ==> limit is Some && limit->0 <= field.max_rows->0
            &&& granted is Some ==> limit is Some && limit->0 <= granted->0
        }),
{
}

/// The rows beside numbers are those the numbers are of, with what else is asked
/// of them.
pub proof fn law_rows_beside_numbers_are_put_together(
    field: ReadField,
    src: Sources<'_>,
    caller: Caller,
    read: AggregateRowsV,
    fields: Seq<Selected>,
    nodes: Selected,
    computed: Seq<Seq<char>>,
    embeds: Seq<EmbedV>,
    values: Seq<JsonV>,
)
    requires
        selected_from(fields, 0, "nodes"@) == Some(nodes),
        row_extras(
            src.cache.table(field.schema_name@, field.table_name@),
            src,
            caller,
            field.typename@,
            nodes.fields@,
            field.max_rows,
            read.values,
        ) == Ok::<(Seq<Seq<char>>, Seq<EmbedV>, Seq<JsonV>), (ErrorV, Seq<JsonV>)>(
            (computed, embeds, values),
        ),
    ensures
        ({
            let table = src.cache.table(field.schema_name@, field.table_name@);
            let renamed = match table {
                Some(t) => renaming(t, "src"@, *src.names),
                None => None,
            };
            nodes_of(field, src, caller, read, fields) == Ok::<Option<QueryV>, ErrorV>(
                Some(
                    QueryV {
                        sql: framed(
                            "SELECT "@ + row_as_json("pgrst_nodes"@, types_in(table, *src.names))
                                + " FROM (SELECT "@,
                            projected(
                                if renamed is Some {
                                    renamed->0
                                } else {
                                    "src.*"@
                                },
                                computed,
                                embeds,
                            ),
                            " FROM ("@ + (read.rows + page(read.limit, read.offset))
                                + ") AS src) AS pgrst_nodes"@,
                        ),
                        values,
                    },
                ),
            )
        }),
{
}

/// What else is asked of the rows of a read: the fields that are computed of
/// them, and the rows related to them, both by the name the rows go by.
pub proof fn law_more_is_asked_of_the_rows_read(
    table: Table,
    src: Sources<'_>,
    caller: Caller,
    typename: Seq<char>,
    fields: Seq<Selected>,
    max_rows: Option<i64>,
    bound: Seq<JsonV>,
    computed: Seq<Seq<char>>,
    mid: BindsV,
    embeds: Seq<EmbedV>,
    end: CursorV,
)
    requires
        bound.len() + 1 <= usize::MAX,
        mid.values.len() + 1 <= usize::MAX,
        computed_fields(
            table,
            fields,
            0,
            "src"@,
            *src.names,
            Seq::empty(),
            BindsV { next: (bound.len() + 1) as usize, values: bound },
        ) == Ok::<(Seq<Seq<char>>, BindsV), (ErrorV, BindsV)>((computed, mid)),
        embedded(
            src,
            caller,
            typename,
            "src"@,
            fields,
            max_rows,
            CursorV {
                binds: BindsV { next: (mid.values.len() + 1) as usize, values: mid.values },
                aliases: 0,
            },
        ) == Ok::<(Seq<EmbedV>, CursorV), (ErrorV, CursorV)>((embeds, end)),
    ensures
        row_extras(Some(table), src, caller, typename, fields, max_rows, bound) == Ok::<
            (Seq<Seq<char>>, Seq<EmbedV>, Seq<JsonV>),
            (ErrorV, Seq<JsonV>),
        >((computed, embeds, end.binds.values)),
{
}

/// Written rows are read again by their keys, for what their columns alone do not
/// answer.
pub proof fn law_written_rows_are_read_again(
    src: Sources<'_>,
    caller: Caller,
    schema: Seq<char>,
    table: Seq<char>,
    typename: Seq<char>,
    rows: Seq<JsonV>,
    fields: Seq<Selected>,
    max_rows: Option<i64>,
    found: Table,
    embeds: Seq<EmbedV>,
    mid: CursorV,
    computed: Seq<Seq<char>>,
    at: BindsV,
    conditions: Seq<Seq<char>>,
    end: BindsV,
)
    requires
        src.cache.table(schema, table) == Some(found),
        found.pk_cols@.len() > 0,
        embedded(
            src,
            caller,
            typename,
            "src"@,
            fields,
            max_rows,
            CursorV { binds: BindsV { next: 1, values: Seq::empty() }, aliases: 0 },
        ) == Ok::<(Seq<EmbedV>, CursorV), (ErrorV, CursorV)>((embeds, mid)),
        computed_fields(found, fields, 0, "src"@, *src.names, Seq::empty(), mid.binds) == Ok::<
            (Seq<Seq<char>>, BindsV),
            (ErrorV, BindsV),
        >((computed, at)),
        embeds.len() > 0 || computed.len() > 0 || src.names.renames(found.schema@, found.name@),
        row_keys(rows, texts(found.pk_cols@), 0, Seq::empty(), at) == Some((conditions, end)),
        conditions.len() > 0,
    ensures
        reread_of(src, caller, schema, table, typename, rows, fields, max_rows) == Ok::<
            Option<QueryV>,
            ErrorV,
        >(
            Some(
                QueryV {
                    sql: framed(
                        "SELECT "@ + row_as_json("pgrst_r"@, exposed_types(found, *src.names))
                            + " FROM (SELECT "@,
                        projected(
                            match renaming(found, "src"@, *src.names) {
                                Some(list) => list,
                                None => "src.*"@,
                            },
                            computed,
                            embeds,
                        ),
                        " FROM (SELECT * FROM "@ + ident2(schema, table) + " WHERE "@ + joined(
                            conditions,
                            " OR "@,
                        ) + ") AS src) AS pgrst_r"@,
                    ),
                    values: end.values,
                },
            ),
        ),
{
}

// ---------------------------------------------------------------------------
// Embeds
// ---------------------------------------------------------------------------

/// Related rows are narrowed by what is asked of them and what the caller may
/// see, ordered and kept one of each group as asked, and held to every limit.
pub proof fn law_related_rows_are_narrowed(
    arguments: JsonV,
    plan: EmbedPlan,
    src: Sources<'_>,
    caller: Caller,
    target_type: Seq<char>,
    alias: Seq<char>,
    max_rows: Option<i64>,
    at: BindsV,
    granted: Option<JsonV>,
    filter: Option<Seq<char>>,
    end: CursorV,
    order: Option<Seq<char>>,
    columns: Seq<Seq<char>>,
    distinct: Seq<char>,
    ordered: Option<Seq<char>>,
)
    requires
        filter_of(caller.ruled(plan.foreign_schema@, plan.foreign_table@, Verb::Select)) == Ok::<
            Option<JsonV>,
            ErrorV,
        >(granted),
        match both(arguments.present("where"@), granted) {
            None => filter is None && end == (CursorV { binds: at, aliases: 0 }),
            Some(expression) => condition(
                expression,
                ScopeV {
                    qualified: (plan.foreign_schema@, plan.foreign_table@),
                    sql_ref: ident(alias),
                    row_ref: ident(alias),
                    typename: target_type,
                    root_ref: ident(alias),
                    root_qualified: (plan.foreign_schema@, plan.foreign_table@),
                    names: *src.names,
                    words: *src.words,
                    resolution: Some((*src.cache, *src.relationships)),
                    caller: Some(caller),
                },
                CursorV { binds: at, aliases: 0 },
            ) == Ok::<(Option<Seq<char>>, CursorV), (ErrorV, CursorV)>((filter, end)),
        },
        match arguments.present("order_by"@) {
            None => order is None,
            Some(asked) => embedded_ordering(
                asked,
                src,
                plan.foreign_schema@,
                plan.foreign_table@,
                alias,
            ) == Ok::<Option<Seq<char>>, ErrorV>(order),
        },
        distinct_on(
            arguments.get("distinct_on"@),
            src,
            plan.foreign_schema@,
            plan.foreign_table@,
            Some(alias),
        ) == Ok::<Seq<Seq<char>>, ErrorV>(columns),
        distinct_clause(columns, order) == Ok::<(Seq<char>, Option<Seq<char>>), ErrorV>(
            (distinct, ordered),
        ),
    ensures
        ({
            let r = narrowing(
                arguments,
                plan,
                src,
                caller,
                target_type,
                alias,
                max_rows,
                at,
            );
            let rule = caller.ruled(plan.foreign_schema@, plan.foreign_table@, Verb::Select);
            let n = (r->Ok_0).0;
            let asked = integer_argument(arguments, "limit"@);
            &&& r is Ok
            &&& (r->Ok_0).1 == end.binds
            &&& n.filter == filter
            &&& n.order == ordered
            &&& n.distinct == distinct
            &&& n.offset == (match integer_argument(arguments, "offset"@) {
                Some(k) => k,
                None => 0,
            })
            &&& n.limit == asked || n.limit == max_rows || n.limit == rule.limit
            &&& asked is Some ==> n.limit is Some && n.limit->0 <= asked->0
            &&& max_rows is Some ==> n.limit is Some && n.limit->0 <= max_rows->0
            &&& rule.limit is Some ==> n.limit is Some && n.limit->0 <= rule.limit->0
        }),
{
}

/// An embed is of the relationship and the rows it was narrowed to, under the
/// name it is answered by.
pub proof fn law_an_embed_holds_what_it_was_made_of(
    src: Sources<'_>,
    rel: RelationshipField,
    plan: EmbedPlan,
    parent: Seq<char>,
    child: Seq<char>,
    aggregate: bool,
    field: Seq<char>,
    narrowed: NarrowingV,
    select: Seq<FragmentV>,
    arguments: JsonV,
    at: CursorV,
    call: Option<Seq<char>>,
    end: BindsV,
)
    requires
        relationship_arguments(
            rel.name@,
            rel.arguments@,
            plan,
            ident(parent),
            arguments.get("args"@),
            *src.cache,
            at.binds,
        ) == Ok::<(Option<Seq<char>>, BindsV), (ErrorV, BindsV)>((call, end)),
    ensures
        embed_of(
            src,
            rel,
            plan,
            parent,
            child,
            aggregate,
            field,
            narrowed,
            select,
            arguments,
            at,
        ) == Ok::<(Option<EmbedV>, CursorV), (ErrorV, CursorV)>(
            (
                Some(
                    EmbedV {
                        field,
                        plan,
                        parent_alias: parent,
                        child_alias: child,
                        aggregate,
                        distinct: narrowed.distinct,
                        select,
                        filter: narrowed.filter,
                        order: narrowed.order,
                        limit: narrowed.limit,
                        offset: narrowed.offset,
                        call,
                    },
                ),
                CursorV { binds: end, aliases: at.aliases },
            ),
        ),
{
}

/// A field that names a relationship is embedded under a fresh alias, with the
/// fields asked of its rows and what is embedded in them; one that names none is
/// no embed.
pub proof fn law_a_relationship_is_embedded(
    src: Sources<'_>,
    caller: Caller,
    available: Seq<RelationshipField>,
    parent: Seq<char>,
    field: Selected,
    max_rows: Option<i64>,
    at: CursorV,
    rel: RelationshipField,
    plan: EmbedPlan,
    nested: Seq<EmbedV>,
    inner: CursorV,
    narrowed: NarrowingV,
    mid: BindsV,
)
    requires
        at.aliases < usize::MAX,
        aggregated_list(available, field.name@) is None,
        named(available, field.name@) == Some(rel),
        rel.relationship.plan == Ok::<EmbedPlan, String>(plan),
        embedded(
            src,
            caller,
            rel.target_type@,
            alias_of("e"@, (at.aliases + 1) as usize),
            field.fields@,
            max_rows,
            CursorV { binds: at.binds, aliases: (at.aliases + 1) as usize },
        ) == Ok::<(Seq<EmbedV>, CursorV), (ErrorV, CursorV)>((nested, inner)),
        narrowing(
            field.arguments@,
            plan,
            src,
            caller,
            rel.target_type@,
            alias_of("e"@, (at.aliases + 1) as usize),
            max_rows,
            inner.binds,
        ) == Ok::<(NarrowingV, BindsV), (ErrorV, BindsV)>((narrowed, mid)),
    ensures
        alias_of("e"@, (at.aliases + 1) as usize) == "e"@ + decimal((at.aliases + 1) as nat),
        embedded_field(src, caller, available, parent, field, max_rows, at) == embed_of(
            src,
            rel,
            plan,
            parent,
            "e"@ + decimal((at.aliases + 1) as nat),
            false,
            rel.name@,
            narrowed,
            row_select(
                field.fields@,
                "e"@ + decimal((at.aliases + 1) as nat),
                match fields_of(src.relationships@, rel.target_type@) {
                    Some(fields) => Some(fields@),
                    None => None,
                },
                src.cache.table(plan.foreign_schema@, plan.foreign_table@),
                *src.names,
                nested,
            ),
            field.arguments@,
            CursorV { binds: mid, aliases: inner.aliases },
        ),
{
}

/// A field that names neither a relationship nor numbers of one embeds nothing,
/// and one that could not be planned is refused in the words it was given.
pub proof fn law_other_fields_are_not_embedded(
    src: Sources<'_>,
    caller: Caller,
    available: Seq<RelationshipField>,
    parent: Seq<char>,
    field: Selected,
    max_rows: Option<i64>,
    at: CursorV,
)
    requires
        aggregated_list(available, field.name@) is None,
    ensures
        named(available, field.name@) is None ==> embedded_field(
            src,
            caller,
            available,
            parent,
            field,
            max_rows,
            at,
        ) == Ok::<(Option<EmbedV>, CursorV), (ErrorV, CursorV)>((None, at)),
        named(available, field.name@) matches Some(rel) ==> (rel.relationship.plan matches Err(
            message,
        ) ==> embedded_field(src, caller, available, parent, field, max_rows, at) == Err::<
            (Option<EmbedV>, CursorV),
            (ErrorV, CursorV),
        >((ErrorV { message: message@, code: None, path: None }, at))),
{
}

/// The numbers of related rows are embedded under a fresh alias, with the numbers
/// and the rows that are asked for.
pub proof fn law_numbers_of_related_rows_are_embedded(
    src: Sources<'_>,
    caller: Caller,
    available: Seq<RelationshipField>,
    parent: Seq<char>,
    field: Selected,
    max_rows: Option<i64>,
    at: CursorV,
    rel: RelationshipField,
    plan: EmbedPlan,
    narrowed: NarrowingV,
    mid: BindsV,
    select: Seq<FragmentV>,
    selected: CursorV,
)
    requires
        at.aliases < usize::MAX,
        aggregated_list(available, field.name@) == Some(rel),
        rel.relationship.plan == Ok::<EmbedPlan, String>(plan),
        narrowing(
            field.arguments@,
            plan,
            src,
            caller,
            rel.target_type@,
            alias_of("a"@, (at.aliases + 1) as usize),
            max_rows,
            at.binds,
        ) == Ok::<(NarrowingV, BindsV), (ErrorV, BindsV)>((narrowed, mid)),
        aggregate_select(
            src,
            caller,
            field.fields@,
            0,
            alias_of("a"@, (at.aliases + 1) as usize),
            rel.target_type@,
            src.cache.table(plan.foreign_schema@, plan.foreign_table@),
            max_rows,
            Seq::empty(),
            CursorV { binds: mid, aliases: (at.aliases + 1) as usize },
        ) == Ok::<(Seq<FragmentV>, CursorV), (ErrorV, CursorV)>((select, selected)),
    ensures
        alias_of("a"@, (at.aliases + 1) as usize) == "a"@ + decimal((at.aliases + 1) as nat),
        embedded_field(src, caller, available, parent, field, max_rows, at) == embed_of(
            src,
            rel,
            plan,
            parent,
            "a"@ + decimal((at.aliases + 1) as nat),
            true,
            field.name@,
            narrowed,
            select,
            field.arguments@,
            selected,
        ),
{
}

/// What is selected of related rows taken together: the numbers asked for as one
/// document, the rows asked for as a list, and a count that nobody reads where
/// nothing is.
pub proof fn law_numbers_and_rows_are_selected(
    src: Sources<'_>,
    caller: Caller,
    field: Selected,
    alias: Seq<char>,
    target_type: Seq<char>,
    table: Option<Table>,
    max_rows: Option<i64>,
    at: CursorV,
)
    ensures
        ({
            let r = aggregate_select(
                src,
                caller,
                seq![field],
                0,
                alias,
                target_type,
                table,
                max_rows,
                Seq::empty(),
                at,
            );
            &&& field.name@ == "aggregate"@ ==> r == Ok::<
                (Seq<FragmentV>, CursorV),
                (ErrorV, CursorV),
            >((seq![FragmentV::Text(aggregate_part(field.fields@, alias, table, src))], at))
            &&& field.name@ == "nodes"@ ==> (match embedded(
                src,
                caller,
                target_type,
                alias,
                field.fields@,
                max_rows,
                at,
            ) {
                Err(e) => r == Err::<(Seq<FragmentV>, CursorV), (ErrorV, CursorV)>(e),
                Ok((embeds, mid)) => r == Ok::<(Seq<FragmentV>, CursorV), (ErrorV, CursorV)>(
                    (nodes_part(field.fields@, alias, table, *src.names, embeds), mid),
                ),
            })
            &&& field.name@ != "aggregate"@ && field.name@ != "nodes"@ ==> r == Ok::<
                (Seq<FragmentV>, CursorV),
                (ErrorV, CursorV),
            >((seq![FragmentV::Text("count(*) AS pgrst_empty"@)], at))
        }),
{
    let one = seq![field];
    assert(one[0] == field);
    let nothing = Seq::<FragmentV>::empty();
    reveal_strlit("aggregate");
    reveal_strlit("nodes");
    let part = seq![FragmentV::Text(aggregate_part(field.fields@, alias, table, src))];
    assert(aggregate_select(
        src,
        caller,
        one,
        1,
        alias,
        target_type,
        table,
        max_rows,
        part,
        at,
    ) == Ok::<(Seq<FragmentV>, CursorV), (ErrorV, CursorV)>((part, at)));
    assert(aggregate_select(
        src,
        caller,
        one,
        1,
        alias,
        target_type,
        table,
        max_rows,
        nothing,
        at,
    ) == Ok::<(Seq<FragmentV>, CursorV), (ErrorV, CursorV)>(
        (seq![FragmentV::Text("count(*) AS pgrst_empty"@)], at),
    ));
    match embedded(src, caller, target_type, alias, field.fields@, max_rows, at) {
        Err(_) => {},
        Ok((embeds, mid)) => {
            let nodes = nodes_part(field.fields@, alias, table, *src.names, embeds);
            assert(nodes.len() > 0);
            assert(aggregate_select(
                src,
                caller,
                one,
                1,
                alias,
                target_type,
                table,
                max_rows,
                nodes,
                mid,
            ) == Ok::<(Seq<FragmentV>, CursorV), (ErrorV, CursorV)>((nodes, mid)));
        },
    }
}

/// The numbers of related rows are one document of the counts and the functions
/// asked for, over the rows by the name they go by.
pub proof fn law_numbers_of_related_rows_are_one_document(
    fields: Seq<Selected>,
    alias: Seq<char>,
    table: Table,
    src: Sources<'_>,
)
    ensures
        aggregate_part(fields, alias, Some(table), src) == "json_build_object("@ + joined(
            function_entries(
                functions_asked(fields, 0, Some(texts(src.words.aggregates@)), Seq::empty()),
                0,
                fields,
                Some(alias),
                Some((table.schema@, table.name@)),
                *src.names,
                count_fields(
                    fields,
                    0,
                    table.schema@,
                    table.name@,
                    Some(alias),
                    *src.names,
                    crate::embed::leading_count(crate::embed::counts_plainly(fields)),
                ),
            ),
            ", "@,
        ) + ") AS "@ + ident("aggregate"@),
{
}

/// A field of an embedded row is read unless it names a relationship, in the
/// order the fields are asked for.
pub proof fn law_fields_of_embedded_rows_are_read(
    field: Selected,
    alias: Seq<char>,
    relationships: Option<Seq<RelationshipField>>,
    table: Option<Table>,
    names: NameOverrides,
    before: Seq<FragmentV>,
)
    ensures
        crate::embed::names_relationship(relationships, field.name@) ==> plain_entries(
            seq![field],
            0,
            alias,
            relationships,
            table,
            names,
            before,
        ) == before,
        !crate::embed::names_relationship(relationships, field.name@) ==> plain_entries(
            seq![field],
            0,
            alias,
            relationships,
            table,
            names,
            before,
        ) == (if before.len() == 0 {
            Seq::empty()
        } else {
            before + seq![FragmentV::Text(", "@)]
        }) + seq![FragmentV::Text(plain_entry(field.name@, alias, table, names))],
{
    let one = seq![field];
    assert(one[0] == field);
    assert(plain_entries(one, 1, alias, relationships, table, names, before) == before);
    let part = seq![FragmentV::Text(plain_entry(field.name@, alias, table, names))];
    let more = crate::embed::with_part(before, part);
    assert(plain_entries(one, 1, alias, relationships, table, names, more) == more);
    if before.len() == 0 {
        assert(Seq::<FragmentV>::empty() + part =~= part);
    } else {
        assert(before.push(FragmentV::Text(", "@)) =~= before + seq![FragmentV::Text(", "@)]);
    }
}

// ---------------------------------------------------------------------------
// Relationships
// ---------------------------------------------------------------------------

/// A related row is always there where the keys that lead to it are on this side
/// and may none of them be null.
pub proof fn law_required_keys_lead_to_a_row(
    columns: Vec<(String, String)>,
    is_parent: bool,
    table: Table,
)
    ensures
        keys_required(columns@, table) == (columns@.len() > 0 && forall|i: int|
            0 <= i < columns@.len() ==> (table.column((#[trigger] columns@[i]).0@) is Some
                && !table.column(columns@[i].0@)->0.nullable)),
        present_always(
            RelationshipKind::ForeignKey(Cardinality::ManyToOne { columns }),
            table,
        ) == keys_required(columns@, table),
        present_always(
            RelationshipKind::ForeignKey(Cardinality::OneToOne { columns, is_parent }),
            table,
        ) == (!is_parent && keys_required(columns@, table)),
        !present_always(
            RelationshipKind::ForeignKey(Cardinality::OneToMany { columns }),
            table,
        ),
        !present_always(
            RelationshipKind::ForeignKey(Cardinality::ManyToMany { columns }),
            table,
        ),
        !present_always(RelationshipKind::Computed, table),
{
    if keys_required(columns@, table) {
        assert forall|i: int| 0 <= i < columns@.len() implies (table.column(
            (#[trigger] columns@[i]).0@,
        ) is Some && !table.column(columns@[i].0@)->0.nullable) by {}
    }
}

} // verus!

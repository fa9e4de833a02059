//! What is embedded in a statement binds its values after those of the
//! statement.

use crate::binds::{bound, following, placeholder, BindsV};
use crate::catalog::{
    fields_of, ComputedColumn, EmbedPlan, FunctionArgument, NameOverrides, RelationshipField, Table,
};
use crate::computed::{
    arguments_from, computed_field_sql, given_for, leading_arguments, relationship_arguments,
    session_parameter,
};
use crate::condition::{alias_of, CursorV};
use crate::embed::{
    aggregate_part, aggregate_select, computed_fields, computed_in, embedded, embedded_field,
    embedded_from, narrowing, nodes_part, with_part, EmbedV, FragmentV, Selected,
};
use crate::json::JsonV;
use crate::laws::binding::{
    grown, law_condition_binds, lemma_grown_bound, lemma_grown_on, lemma_grown_start,
};
use crate::lookup::named;
use crate::ordering::aggregated_list;
use crate::role::{both, filter_of, Caller, Verb};
use crate::scope::{ScopeV, Sources};
use crate::text::{ident, text_opt};
use vstd::prelude::*;

verus! {

/// A call binds the arguments it is passed, each under the next number.
pub proof fn law_arguments_bind(
    who: Seq<char>,
    arguments: Seq<FunctionArgument>,
    given: Option<JsonV>,
    i: nat,
    passed: Seq<Seq<char>>,
    at: BindsV,
)
    ensures
        ({
            let r = arguments_from(who, arguments, given, i, passed, at);
            r is Ok ==> grown(at, (r->Ok_0).1)
        }),
    decreases arguments.len() - i,
{
    lemma_grown_start(at);
    if i < arguments.len() {
        let argument = arguments[i as int];
        match given_for(given, argument.name@) {
            None => {
                law_arguments_bind(who, arguments, given, i + 1, passed, at);
            },
            Some(value) => {
                let mid = bound(at, value);
                let more = passed.push(
                    ident(argument.name@) + " => "@ + placeholder(at) + "::"@ + argument.pg_type@,
                );
                lemma_grown_bound(at, at, value);
                law_arguments_bind(who, arguments, given, i + 1, more, mid);
                let r = arguments_from(who, arguments, given, i, passed, at);
                if r is Ok {
                    lemma_grown_on(at, mid, (r->Ok_0).1);
                }
            },
        }
    }
}

proof fn lemma_relationship_arguments(
    name: Seq<char>,
    arguments: Seq<FunctionArgument>,
    plan: EmbedPlan,
    parent_row: Seq<char>,
    given: Option<JsonV>,
    cache: crate::catalog::SchemaCache,
    at: BindsV,
)
    ensures
        ({
            let r = relationship_arguments(name, arguments, plan, parent_row, given, cache, at);
            r is Ok ==> grown(at, (r->Ok_0).1)
        }),
{
    lemma_grown_start(at);
    match (plan.function, plan.row_argument) {
        (Some(function), Some(row_argument)) => {
            let session = session_parameter(cache, function@);
            law_arguments_bind(
                name,
                arguments,
                given,
                0,
                leading_arguments(row_argument@, parent_row, session),
                at,
            );
        },
        _ => {},
    }
}

proof fn lemma_narrowing(
    arguments: JsonV,
    plan: EmbedPlan,
    src: Sources<'_>,
    caller: Caller,
    target_type: Seq<char>,
    child_alias: Seq<char>,
    max_rows: Option<i64>,
    at: BindsV,
)
    ensures
        ({
            let r = narrowing(
                arguments,
                plan,
                src,
                caller,
                target_type,
                child_alias,
                max_rows,
                at,
            );
            r is Ok ==> grown(at, (r->Ok_0).1)
        }),
{
    lemma_grown_start(at);
    let rule = caller.ruled(plan.foreign_schema@, plan.foreign_table@, Verb::Select);
    match filter_of(rule) {
        Err(_) => {},
        Ok(granted) => {
            match both(arguments.present("where"@), granted) {
                None => {},
                Some(expression) => {
                    law_condition_binds(
                        expression,
                        ScopeV {
                            caller: Some(caller),
                            ..ScopeV::over_alias(
                                plan.foreign_schema@,
                                plan.foreign_table@,
                                child_alias,
                                target_type,
                                *src.cache,
                                *src.relationships,
                                *src.names,
                                *src.words,
                            )
                        },
                        CursorV { binds: at, aliases: 0 },
                    );
                },
            }
        },
    }
}

proof fn lemma_computed_field(
    computed: ComputedColumn,
    row: Seq<char>,
    field: Seq<char>,
    given: Option<JsonV>,
    at: BindsV,
)
    ensures
        ({
            let r = computed_field_sql(computed, row, field, given, at);
            r is Ok ==> grown(at, (r->Ok_0).1)
        }),
{
    lemma_grown_start(at);
    if computed.row_argument is Some {
        law_arguments_bind(
            field,
            computed.arguments@,
            given,
            0,
            leading_arguments(
                computed.row_argument->0@,
                row,
                text_opt(computed.session_argument),
            ),
            at,
        );
    }
}

/// The computed fields that a selection asks for bind their arguments, each
/// under the next number.
pub proof fn law_computed_fields_bind(
    table: Table,
    fields: Seq<Selected>,
    i: nat,
    row: Seq<char>,
    names: NameOverrides,
    parts: Seq<Seq<char>>,
    at: BindsV,
)
    ensures
        ({
            let r = computed_fields(table, fields, i, row, names, parts, at);
            r is Ok ==> grown(at, (r->Ok_0).1)
        }),
    decreases fields.len() - i,
{
    lemma_grown_start(at);
    if i < fields.len() {
        let field = fields[i as int];
        match computed_in(Some(table), field.name@, names) {
            None => {
                law_computed_fields_bind(table, fields, i + 1, row, names, parts, at);
            },
            Some(computed) => {
                let given = if computed.arguments@.len() == 0 {
                    None
                } else {
                    field.arguments@.get("args"@)
                };
                lemma_computed_field(computed, row, field.name@, given, at);
                match computed_field_sql(computed, row, field.name@, given, at) {
                    Err(_) => {},
                    Ok((sql, mid)) => {
                        let more = parts.push(sql + " AS "@ + ident(field.name@));
                        law_computed_fields_bind(table, fields, i + 1, row, names, more, mid);
                        let r = computed_fields(table, fields, i, row, names, parts, at);
                        if r is Ok {
                            lemma_grown_on(at, mid, (r->Ok_0).1);
                        }
                    },
                }
            },
        }
    }
}

/// The relationships that a selection asks for, however deep, bind their
/// values after those that are bound already: what was bound stays, and each
/// new value takes the next number.
pub proof fn law_embeds_bind(
    src: Sources<'_>,
    caller: Caller,
    typename: Seq<char>,
    parent_alias: Seq<char>,
    fields: Seq<Selected>,
    max_rows: Option<i64>,
    at: CursorV,
)
    ensures
        ({
            let r = embedded(src, caller, typename, parent_alias, fields, max_rows, at);
            r is Ok ==> grown(at.binds, (r->Ok_0).1.binds)
        }),
    decreases fields, fields.len() + 1,
{
    lemma_grown_start(at.binds);
    match fields_of(src.relationships@, typename) {
        None => {},
        Some(available) => {
            lemma_embedded_from(
                src,
                caller,
                available@,
                parent_alias,
                fields,
                0,
                max_rows,
                Seq::empty(),
                at,
            );
        },
    }
}

proof fn lemma_embedded_from(
    src: Sources<'_>,
    caller: Caller,
    available: Seq<RelationshipField>,
    parent_alias: Seq<char>,
    fields: Seq<Selected>,
    i: nat,
    max_rows: Option<i64>,
    found: Seq<EmbedV>,
    at: CursorV,
)
    ensures
        ({
            let r = embedded_from(
                src,
                caller,
                available,
                parent_alias,
                fields,
                i,
                max_rows,
                found,
                at,
            );
            r is Ok ==> grown(at.binds, (r->Ok_0).1.binds)
        }),
    decreases fields, fields.len() - i,
{
    lemma_grown_start(at.binds);
    if i < fields.len() {
        let field = fields[i as int];
        lemma_embedded_field(src, caller, available, parent_alias, field, max_rows, at);
        match embedded_field(src, caller, available, parent_alias, field, max_rows, at) {
            Err(_) => {},
            Ok((embed, mid)) => {
                let more = match embed {
                    Some(embed) => found.push(embed),
                    None => found,
                };
                lemma_embedded_from(
                    src,
                    caller,
                    available,
                    parent_alias,
                    fields,
                    i + 1,
                    max_rows,
                    more,
                    mid,
                );
                let r = embedded_from(
                    src,
                    caller,
                    available,
                    parent_alias,
                    fields,
                    i,
                    max_rows,
                    found,
                    at,
                );
                if r is Ok {
                    lemma_grown_on(at.binds, mid.binds, (r->Ok_0).1.binds);
                }
            },
        }
    }
}

proof fn lemma_embedded_field(
    src: Sources<'_>,
    caller: Caller,
    available: Seq<RelationshipField>,
    parent_alias: Seq<char>,
    field: Selected,
    max_rows: Option<i64>,
    at: CursorV,
)
    ensures
        ({
            let r = embedded_field(src, caller, available, parent_alias, field, max_rows, at);
            r is Ok ==> grown(at.binds, (r->Ok_0).1.binds)
        }),
    decreases field, 0nat,
{
    lemma_grown_start(at.binds);
    let arguments = field.arguments@;
    let number = following(at.aliases);
    match aggregated_list(available, field.name@) {
        Some(rel) => {
            match rel.relationship.plan {
                Err(_) => {},
                Ok(plan) => {
                    let alias = alias_of("a"@, number);
                    lemma_narrowing(
                        arguments,
                        plan,
                        src,
                        caller,
                        rel.target_type@,
                        alias,
                        max_rows,
                        at.binds,
                    );
                    match narrowing(
                        arguments,
                        plan,
                        src,
                        caller,
                        rel.target_type@,
                        alias,
                        max_rows,
                        at.binds,
                    ) {
                        Err(_) => {},
                        Ok((_, mid)) => {
                            let table = src.cache.table(plan.foreign_schema@, plan.foreign_table@);
                            let start = CursorV { binds: mid, aliases: number };
                            lemma_aggregate_select(
                                src,
                                caller,
                                field.fields@,
                                0,
                                alias,
                                rel.target_type@,
                                table,
                                max_rows,
                                Seq::empty(),
                                start,
                            );
                            match aggregate_select(
                                src,
                                caller,
                                field.fields@,
                                0,
                                alias,
                                rel.target_type@,
                                table,
                                max_rows,
                                Seq::empty(),
                                start,
                            ) {
                                Err(_) => {},
                                Ok((_, selected)) => {
                                    lemma_grown_on(at.binds, mid, selected.binds);
                                    lemma_call(
                                        src,
                                        rel,
                                        plan,
                                        parent_alias,
                                        arguments,
                                        at.binds,
                                        selected.binds,
                                    );
                                },
                            }
                        },
                    }
                },
            }
        },
        None => {
            match named(available, field.name@) {
                None => {},
                Some(rel) => {
                    match rel.relationship.plan {
                        Err(_) => {},
                        Ok(plan) => {
                            let alias = alias_of("e"@, number);
                            let start = CursorV { binds: at.binds, aliases: number };
                            law_embeds_bind(
                                src,
                                caller,
                                rel.target_type@,
                                alias,
                                field.fields@,
                                max_rows,
                                start,
                            );
                            match embedded(
                                src,
                                caller,
                                rel.target_type@,
                                alias,
                                field.fields@,
                                max_rows,
                                start,
                            ) {
                                Err(_) => {},
                                Ok((_, inner)) => {
                                    lemma_narrowing(
                                        arguments,
                                        plan,
                                        src,
                                        caller,
                                        rel.target_type@,
                                        alias,
                                        max_rows,
                                        inner.binds,
                                    );
                                    match narrowing(
                                        arguments,
                                        plan,
                                        src,
                                        caller,
                                        rel.target_type@,
                                        alias,
                                        max_rows,
                                        inner.binds,
                                    ) {
                                        Err(_) => {},
                                        Ok((_, mid)) => {
                                            lemma_grown_on(at.binds, inner.binds, mid);
                                            lemma_call(
                                                src,
                                                rel,
                                                plan,
                                                parent_alias,
                                                arguments,
                                                at.binds,
                                                mid,
                                            );
                                        },
                                    }
                                },
                            }
                        },
                    }
                },
            }
        },
    }
}

proof fn lemma_call(
    src: Sources<'_>,
    rel: RelationshipField,
    plan: EmbedPlan,
    parent_alias: Seq<char>,
    arguments: JsonV,
    from: BindsV,
    at: BindsV,
)
    requires
        grown(from, at),
    ensures
        ({
            let r = relationship_arguments(
                rel.name@,
                rel.arguments@,
                plan,
                ident(parent_alias),
                arguments.get("args"@),
                *src.cache,
                at,
            );
            r is Ok ==> grown(from, (r->Ok_0).1)
        }),
{
    lemma_relationship_arguments(
        rel.name@,
        rel.arguments@,
        plan,
        ident(parent_alias),
        arguments.get("args"@),
        *src.cache,
        at,
    );
    let r = relationship_arguments(
        rel.name@,
        rel.arguments@,
        plan,
        ident(parent_alias),
        arguments.get("args"@),
        *src.cache,
        at,
    );
    if r is Ok {
        lemma_grown_on(from, at, (r->Ok_0).1);
    }
}

proof fn lemma_aggregate_select(
    src: Sources<'_>,
    caller: Caller,
    fields: Seq<Selected>,
    i: nat,
    child_alias: Seq<char>,
    target_type: Seq<char>,
    table: Option<Table>,
    max_rows: Option<i64>,
    list: Seq<FragmentV>,
    at: CursorV,
)
    ensures
        ({
            let r = aggregate_select(
                src,
                caller,
                fields,
                i,
                child_alias,
                target_type,
                table,
                max_rows,
                list,
                at,
            );
            r is Ok ==> grown(at.binds, (r->Ok_0).1.binds)
        }),
    decreases fields, fields.len() - i,
{
    lemma_grown_start(at.binds);
    if i < fields.len() {
        let field = fields[i as int];
        if field.name@ == "aggregate"@ {
            let part = aggregate_part(field.fields@, child_alias, table, src);
            lemma_aggregate_select(
                src,
                caller,
                fields,
                i + 1,
                child_alias,
                target_type,
                table,
                max_rows,
                with_part(list, seq![FragmentV::Text(part)]),
                at,
            );
        } else if field.name@ == "nodes"@ {
            law_embeds_bind(src, caller, target_type, child_alias, field.fields@, max_rows, at);
            match embedded(
                src,
                caller,
                target_type,
                child_alias,
                field.fields@,
                max_rows,
                at,
            ) {
                Err(_) => {},
                Ok((embeds, mid)) => {
                    let part = nodes_part(field.fields@, child_alias, table, *src.names, embeds);
                    lemma_aggregate_select(
                        src,
                        caller,
                        fields,
                        i + 1,
                        child_alias,
                        target_type,
                        table,
                        max_rows,
                        with_part(list, part),
                        mid,
                    );
                    let r = aggregate_select(
                        src,
                        caller,
                        fields,
                        i,
                        child_alias,
                        target_type,
                        table,
                        max_rows,
                        list,
                        at,
                    );
                    if r is Ok {
                        lemma_grown_on(at.binds, mid.binds, (r->Ok_0).1.binds);
                    }
                },
            }
        } else {
            lemma_aggregate_select(
                src,
                caller,
                fields,
                i + 1,
                child_alias,
                target_type,
                table,
                max_rows,
                list,
                at,
            );
        }
    }
}

} // verus!

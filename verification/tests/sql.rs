use postrust_graphql::binds::{bound_as, Bound};
use postrust_graphql::catalog::{
    Cardinality, Column, ComputedColumn, EmbedPlan, FunctionArgument, NameOverrides,
    QualifiedIdentifier, Relationship, RelationshipField, RelationshipKind, SchemaCache, Table,
    TableNames, TypeRelationships, UniqueConstraint,
};
use postrust_graphql::comparison::{comparison_sql, TreeOperator, Vocabulary};
use postrust_graphql::computed::{computed_column_call, SESSION_ARGUMENT};
use postrust_graphql::condition::{build_condition, build_where_clause};
use postrust_graphql::embed::{build_embed_expressions, Embed, Fragment, Selected};
use postrust_graphql::entity::{entity_query, entity_rows, EntityKeyColumn, EntityLookup};
use postrust_graphql::error::{database_error, Error};
use postrust_graphql::geojson::check_geojson;
use postrust_graphql::insert::{mutation_result, Insertion, Place, Step};
use postrust_graphql::json::Json;
use postrust_graphql::limits::lower_ceiling;
use postrust_graphql::live::{read_rows, Live, Turn};
use postrust_graphql::mutate::{plan_entry, plan_mutation, Mutation, MutationType};
use postrust_graphql::ordering::{build_order_by_clause, distinct_on_clause, order_terms_into};
use postrust_graphql::projection::{rename_projection, row_json};
use postrust_graphql::read::{
    aggregate_nodes, aggregate_numbers, aggregate_rows, aggregate_value, read_query, reread_query,
    FunctionCall, Query, ReadField,
};
use postrust_graphql::role::{Caller, Fault, Rule, TableRules};
use postrust_graphql::scope::{Sources, WhereScope};
use postrust_graphql::statement::{
    insert_statement, refuse_unchecked_rows, update_statement, Statement, TypeName, WriteSources,
};
use postrust_graphql::value::number_from;
use postrust_graphql::write::{array_literal, write_expression, write_operand};

// ============================================================================
// A database
// ============================================================================

fn document(value: &serde_json::Value) -> Json {
    match value {
        serde_json::Value::Null => Json::Null,
        serde_json::Value::Bool(b) => Json::Bool(*b),
        serde_json::Value::Number(n) => Json::Number(number_from(n.to_string())),
        serde_json::Value::String(s) => Json::String(s.clone()),
        serde_json::Value::Array(items) => Json::Array(items.iter().map(document).collect()),
        serde_json::Value::Object(map) => {
            Json::Object(map.iter().map(|(k, v)| (k.clone(), document(v))).collect())
        }
    }
}

fn json(text: &str) -> Json {
    document(&serde_json::from_str(text).expect("a document"))
}

fn entries(text: &str) -> Vec<(String, Json)> {
    match json(text) {
        Json::Object(entries) => entries,
        other => panic!("no object: {:?}", other),
    }
}

fn column(name: &str, nominal_type: &str) -> Column {
    Column {
        name: name.into(),
        description: None,
        nullable: name != "id" && name != "user_id",
        data_type: nominal_type.into(),
        nominal_type: nominal_type.into(),
        max_len: None,
        default: None,
        enum_values: vec![],
        is_pk: name == "id",
        position: 1,
        always_generated: false,
        domain_type: None,
    }
}

fn table(name: &str, columns: Vec<Column>) -> Table {
    Table {
        schema: "public".into(),
        name: name.into(),
        description: None,
        is_view: false,
        insertable: true,
        updatable: true,
        deletable: true,
        pk_cols: vec!["id".into()],
        unique_constraints: vec![UniqueConstraint {
            name: format!("{name}_pkey"),
            columns: vec!["id".into()],
        }],
        columns,
        computed_columns: vec![],
        is_partitioned: false,
    }
}

fn cache() -> SchemaCache {
    let mut users = table(
        "users",
        vec![
            column("id", "int4"),
            column("name", "text"),
            column("tags", "_text"),
            column("doc", "jsonb"),
            column("place", "geography"),
            column("price", "money"),
        ],
    );
    users.computed_columns.push(ComputedColumn {
        name: "full_name".into(),
        function: QualifiedIdentifier::new("public", "full_name"),
        session_argument: None,
        row_argument: None,
        arguments: vec![],
    });
    SchemaCache {
        tables: vec![
            users,
            table(
                "posts",
                vec![column("id", "int4"), column("user_id", "int4"), column("title", "text")],
            ),
        ],
        relationships: vec![],
        routines: vec![],
    }
}

fn related(
    name: &str,
    target: &str,
    list: bool,
    local: &str,
    foreign: &str,
) -> RelationshipField {
    let columns = vec![(local.to_string(), foreign.to_string())];
    let copied = columns.clone();
    RelationshipField {
        name: name.into(),
        target_type: target.into(),
        target_local_name: target.into(),
        description: None,
        is_list: list,
        arguments: vec![],
        relationship: Relationship {
            kind: RelationshipKind::ForeignKey(if list {
                Cardinality::OneToMany { columns: copied }
            } else {
                Cardinality::ManyToOne { columns: copied }
            }),
            plan: Ok(EmbedPlan {
                foreign_schema: "public".into(),
                foreign_table: target.into(),
                columns,
                local_column: local.into(),
                junction: false,
                function: None,
                row_argument: None,
            }),
        },
    }
}

fn relationships() -> Vec<TypeRelationships> {
    vec![
        TypeRelationships {
            typename: "users".into(),
            fields: vec![related("posts", "posts", true, "id", "user_id")],
        },
        TypeRelationships {
            typename: "posts".into(),
            fields: vec![related("author", "users", false, "user_id", "id")],
        },
    ]
}

fn words() -> Vocabulary {
    Vocabulary {
        spatial: vec![
            ("_st_contains".into(), "ST_Contains".into()),
            ("_st_d_within".into(), "ST_DWithin".into()),
        ],
        trees: vec![
            TreeOperator {
                name: "_ancestor".into(),
                operator: "@>".into(),
                cast: "ltree".into(),
            },
            TreeOperator {
                name: "_matches_any".into(),
                operator: "?".into(),
                cast: "lquery[]".into(),
            },
        ],
        directions: vec![
            ("asc".into(), "ASC".into()),
            ("asc_nulls_first".into(), "ASC NULLS FIRST".into()),
            ("desc_nulls_last".into(), "DESC NULLS LAST".into()),
        ],
        aggregates: vec!["avg".into(), "max".into()],
    }
}

fn no_names() -> NameOverrides {
    NameOverrides { tables: vec![] }
}

fn renamed() -> NameOverrides {
    NameOverrides {
        tables: vec![TableNames {
            schema: "public".into(),
            table: "users".into(),
            base_name: None,
            columns: vec![("name".into(), "label".into())],
            computed: vec![],
            relationships: vec![],
            column_types: vec![],
            declared: None,
        }],
    }
}

fn rule() -> Rule {
    Rule { filter: Ok(None), check: Ok(None), presets: Ok(vec![]), limit: None }
}

fn unrestricted() -> Caller {
    Caller { tables: vec![], otherwise: rule() }
}

/// A caller who sees and writes its own rows of `posts` and `users` alone.
fn owner() -> Caller {
    let own = |column: &str| json(&format!("{{\"{column}\": {{\"_eq\": 7}}}}"));
    let rules = |name: &str, column: &str| TableRules {
        schema: "public".into(),
        table: name.into(),
        select: Rule { filter: Ok(Some(own(column))), limit: Some(5), ..rule() },
        insert: Rule {
            check: Ok(Some(own(column))),
            presets: Ok(vec![(column.to_string(), json("7"))]),
            ..rule()
        },
        update: Rule {
            filter: Ok(Some(own(column))),
            check: Ok(Some(own(column))),
            presets: Ok(vec![("name".to_string(), json("\"preset\""))]),
            ..rule()
        },
        delete: Rule { filter: Ok(Some(own(column))), ..rule() },
    };
    Caller {
        tables: vec![rules("posts", "user_id"), rules("users", "id")],
        otherwise: Rule {
            filter: Err(Fault { code: "access-denied".into(), message: "not granted".into() }),
            ..rule()
        },
    }
}

fn types() -> Vec<TypeName> {
    vec![
        TypeName { schema: "public".into(), table: "users".into(), typename: "users".into() },
        TypeName { schema: "public".into(), table: "posts".into(), typename: "posts".into() },
    ]
}

fn selected(name: &str, fields: Vec<Selected>) -> Selected {
    Selected { name: name.into(), alias: None, arguments: json("{}"), fields }
}

fn rendered(parts: &[Fragment<'_>]) -> String {
    parts
        .iter()
        .map(|part| match part {
            Fragment::Text(text) => text.clone(),
            Fragment::Embed(embed) => placeholder(embed),
        })
        .collect()
}

fn placeholder(embed: &Embed<'_>) -> String {
    format!(
        "<{} {} of {}: {}>",
        if embed.aggregate { "aggregate" } else { "rows" },
        embed.child_alias,
        embed.parent_alias,
        rendered(&embed.select)
    )
}

struct World {
    cache: SchemaCache,
    relationships: Vec<TypeRelationships>,
    words: Vocabulary,
    names: NameOverrides,
    types: Vec<TypeName>,
    caller: Caller,
}

fn world(caller: Caller, names: NameOverrides) -> World {
    World {
        cache: cache(),
        relationships: relationships(),
        words: words(),
        names,
        types: types(),
        caller,
    }
}

impl World {
    fn sources(&self) -> Sources<'_> {
        Sources {
            names: &self.names,
            words: &self.words,
            cache: &self.cache,
            relationships: &self.relationships,
        }
    }

    fn writes(&self) -> WriteSources<'_> {
        WriteSources { src: self.sources(), type_names: &self.types, caller: &self.caller }
    }

    fn condition(&self, text: &str) -> Result<(Option<String>, Vec<Json>), Error> {
        let scope = WhereScope::table("public", "users", "users", &self.names, &self.words)
            .with_resolution(&self.cache, &self.relationships)
            .for_caller(&self.caller);
        let mut next = 1usize;
        let mut values = Vec::new();
        let mut aliases = 0usize;
        let sql = build_condition(&json(text), &scope, &mut next, &mut values, &mut aliases)?;
        assert_eq!(next, values.len() + 1);
        Ok((sql, values))
    }
}

fn compare(column_type: &str, op: &str, operand: &str) -> Result<(String, Vec<Json>), Error> {
    let words = words();
    let mut next = 1usize;
    let mut values = Vec::new();
    let sql = comparison_sql(
        &words,
        "\"c\"",
        "c",
        Some(column_type),
        op,
        &json(operand),
        &mut next,
        &mut values,
    )?;
    assert_eq!(next, values.len() + 1);
    Ok((sql, values))
}

fn field(name: &str) -> ReadField {
    ReadField {
        schema_name: "public".into(),
        table_name: name.into(),
        typename: name.into(),
        is_by_pk: false,
        pk_columns: vec![("id".into(), "int4".into())],
        max_rows: None,
        call: None,
    }
}

// ============================================================================
// Comparisons
// ============================================================================

#[test]
fn a_comparison_binds_its_operand() {
    assert_eq!(
        compare("text", "_eq", "\"a\"").unwrap(),
        ("\"c\" = $1::text".to_string(), vec![json("\"a\"")])
    );
    assert_eq!(compare("int4", "_gt", "3").unwrap().0, "\"c\" > $1");
    assert_eq!(compare("text", "_ilike", "\"a%\"").unwrap().0, "\"c\" ILIKE $1::text");
    assert_eq!(compare("text", "_is_null", "true").unwrap().0, "\"c\" IS NULL");
    assert_eq!(compare("text", "_is_null", "false").unwrap().0, "\"c\" IS NOT NULL");
}

#[test]
fn a_list_is_bound_item_by_item() {
    let (sql, values) = compare("int4", "_in", "[1, 2]").unwrap();
    assert_eq!(sql, "\"c\" IN ($1, $2)");
    assert_eq!(values, vec![json("1"), json("2")]);
    assert_eq!(compare("int4", "_in", "[]").unwrap().0, "false");
    assert_eq!(compare("int4", "_nin", "[]").unwrap().0, "true");
    assert_eq!(
        compare("jsonb", "_has_keys_any", "[\"a\", \"b\"]").unwrap().0,
        "\"c\" ?| ARRAY[$1, $2]::text[]"
    );
    assert_eq!(
        compare("int4", "_in", "1").unwrap_err().message,
        "the \"_in\" comparison on \"c\" requires a list of values"
    );
}

#[test]
fn a_comparison_nobody_knows_is_refused() {
    assert_eq!(
        compare("int4", "_near", "1").unwrap_err().message,
        "unsupported comparison \"_near\" on \"c\""
    );
}

#[test]
fn a_refused_comparison_leaves_what_was_bound() {
    let words = words();
    let mut next = 1usize;
    let mut values = Vec::new();
    let error = comparison_sql(
        &words,
        "t.id",
        "id",
        Some("int4"),
        "_bogus",
        &json("1"),
        &mut next,
        &mut values,
    )
    .unwrap_err();
    assert_eq!(error.message, "unsupported comparison \"_bogus\" on \"id\"");
    assert_eq!(next, 1);
    assert!(values.is_empty());
    // Of a cast, what came before the refusal is bound.
    let refused = json("{\"String\": {\"_eq\": \"a\", \"_zzz\": 1}}");
    let cast =
        comparison_sql(&words, "c", "c", None, "_cast", &refused, &mut next, &mut values);
    assert!(cast.is_err());
    assert_eq!(next, 2);
    assert_eq!(values, vec![json("\"a\"")]);
}

#[test]
fn a_tree_is_compared_as_its_own_type() {
    assert_eq!(compare("ltree", "_ancestor", "\"a.b\"").unwrap().0, "\"c\" @> $1::ltree");
    assert_eq!(
        compare("ltree", "_matches_any", "[\"a\"]").unwrap().0,
        "\"c\" ? ARRAY[$1]::lquery[]"
    );
    assert_eq!(
        compare("ltree", "_matches_any", "\"a\"").unwrap_err().message,
        "the \"_matches_any\" comparison on \"c\" takes a list"
    );
}

#[test]
fn a_shape_is_compared_by_the_function_its_word_names() {
    assert_eq!(
        compare("geometry", "_st_contains", "{\"type\": \"Point\"}").unwrap().0,
        "ST_Contains(\"c\", ST_GeomFromGeoJSON($1))"
    );
    let (sql, values) = compare(
        "geography",
        "_st_d_within",
        "{\"distance\": 5, \"from\": {\"type\": \"Point\"}, \"use_spheroid\": true}",
    )
    .unwrap();
    assert_eq!(
        sql,
        "ST_DWithin(\"c\", ST_GeomFromGeoJSON($1)::geography, $2::float8, $3::boolean)"
    );
    assert_eq!(values.len(), 3);
    assert_eq!(
        compare("geography", "_st_d_within", "{\"distance\": 5}").unwrap_err().message,
        "\"_st_d_within\" needs a shape to measure from"
    );
    assert_eq!(
        compare("geography", "_st_d_within", "{\"from\": 1}").unwrap_err().message,
        "\"_st_d_within\" needs a distance"
    );
    assert_eq!(
        compare("geography", "_st_d_within", "1").unwrap_err().message,
        "\"_st_d_within\" takes {distance, from}"
    );
}

#[test]
fn a_cast_compares_the_column_as_another_type() {
    assert_eq!(
        compare("jsonb", "_cast", "{\"String\": {\"_like\": \"a\"}}").unwrap().0,
        "\"c\"::text LIKE $1::text"
    );
    assert_eq!(
        compare("jsonb", "_cast", "1").unwrap_err().message,
        "_cast takes an object naming the type to compare as"
    );
    assert_eq!(
        compare("jsonb", "_cast", "{\"Moon\": {}}").unwrap_err().message,
        "cannot compare \"c\" as \"Moon\""
    );
}

// ============================================================================
// Conditions
// ============================================================================

#[test]
fn conditions_are_joined_and_numbered() {
    let w = world(unrestricted(), no_names());
    let (sql, values) = w
        .condition(
            "{\"_or\": [{\"id\": {\"_gt\": 1, \"_lt\": 9}}, {\"_not\": {\"name\": {\"_eq\": \"x\"}}}]}",
        )
        .unwrap();
    assert_eq!(
        sql.unwrap(),
        "(\"public\".\"users\".\"id\" > $1 AND \"public\".\"users\".\"id\" < $2 \
         OR NOT (\"public\".\"users\".\"name\" = $3::text))"
    );
    assert_eq!(values, vec![json("1"), json("9"), json("\"x\"")]);
    assert_eq!(w.condition("{}").unwrap().0, None);
    assert_eq!(w.condition("{\"_and\": []}").unwrap().0, None);
    assert_eq!(w.condition("{\"_or\": []}").unwrap().0.unwrap(), "false");
    assert_eq!(
        w.condition("{\"_or\": 1}").unwrap_err().message,
        "\"_or\" takes a list of expressions"
    );
}

#[test]
fn a_renamed_column_is_compared_under_its_own_name() {
    let w = world(unrestricted(), renamed());
    let (sql, _) = w.condition("{\"label\": {\"_eq\": \"x\"}}").unwrap();
    assert_eq!(sql.unwrap(), "\"public\".\"users\".\"name\" = $1::text");
}

#[test]
fn a_relationship_is_followed_by_a_subselect() {
    let w = world(unrestricted(), no_names());
    let (sql, _) = w.condition("{\"posts\": {\"title\": {\"_eq\": \"a\"}}}").unwrap();
    assert_eq!(
        sql.unwrap(),
        "EXISTS (SELECT 1 FROM \"public\".\"posts\" AS \"pgrst_rel_1\" WHERE \
         \"public\".\"users\".\"id\" = \"pgrst_rel_1\".\"user_id\" AND \
         (\"pgrst_rel_1\".\"title\" = $1::text))"
    );
}

#[test]
fn what_the_far_side_grants_narrows_the_subselect() {
    let w = world(owner(), no_names());
    let (sql, values) = w.condition("{\"posts\": {\"title\": {\"_eq\": \"a\"}}}").unwrap();
    assert_eq!(
        sql.unwrap(),
        "EXISTS (SELECT 1 FROM \"public\".\"posts\" AS \"pgrst_rel_1\" WHERE \
         \"public\".\"users\".\"id\" = \"pgrst_rel_1\".\"user_id\" AND \
         (\"pgrst_rel_1\".\"title\" = $1::text) AND (\"pgrst_rel_1\".\"user_id\" = $2))"
    );
    assert_eq!(values, vec![json("\"a\""), json("7")]);
}

#[test]
fn a_related_list_is_counted_where_it_is_asked_about() {
    let w = world(unrestricted(), no_names());
    let (sql, _) = w
        .condition("{\"posts_aggregate\": {\"count\": {\"predicate\": {\"_gt\": 2}}}}")
        .unwrap();
    assert_eq!(
        sql.unwrap(),
        "((SELECT count(*) FROM \"public\".\"posts\" AS \"pgrst_agg_1\" WHERE \
         \"public\".\"users\".\"id\" = \"pgrst_agg_1\".\"user_id\") > $1)"
    );
    let error = w.condition("{\"posts_aggregate\": {\"count\": {}}}").unwrap_err();
    assert_eq!(error.message, "\"count\" over \"posts\" needs a predicate");
    assert_eq!(error.code.as_deref(), Some("validation-failed"));
}

#[test]
fn no_operand_stands_in_the_sql() {
    let w = world(owner(), no_names());
    let asked = |a: &str, n: u32, b: &str| {
        w.condition(&format!(
            "{{\"name\": {{\"_eq\": \"{a}\", \"_in\": [\"{b}\", null]}}, \"id\": {n}, \
             \"doc\": {{\"_contains\": \"{a}\"}}, \
             \"posts\": {{\"title\": {{\"_like\": \"{b}\"}}}}}}"
        ))
        .unwrap()
    };
    let (sql, values) = asked("zebra", 41, "quagga");
    let (other, others) = asked("$1'; --", 9000, "");
    assert_eq!(sql, other);
    assert_eq!(values.len(), others.len());
    let sql = sql.unwrap();
    assert!(!sql.contains("zebra") && !sql.contains("quagga") && !sql.contains("41"), "{sql}");
    for k in 1..=values.len() {
        assert!(sql.contains(&format!("${k}")), "{sql}");
    }
    assert!(values.contains(&json("\"zebra\"")) && values.contains(&json("41")));
}

#[test]
fn an_expression_is_numbered_on_from_where_it_starts() {
    let w = world(unrestricted(), no_names());
    let scope = WhereScope::table("public", "users", "users", &w.names, &w.words);
    let asked = json("{\"name\": {\"_eq\": \"a\"}, \"id\": {\"_gt\": 1, \"_lt\": 9}}");
    let compiled = |start: usize, before: Vec<Json>| {
        let (mut next, mut values, mut aliases) = (start, before, 0usize);
        let sql =
            build_condition(&asked, &scope, &mut next, &mut values, &mut aliases).unwrap().unwrap();
        (sql, next, values)
    };
    let (first, next, values) = compiled(1, vec![]);
    assert_eq!((next, values.len()), (4, 3));
    let (later, next, values) = compiled(11, vec![json("true")]);
    assert_eq!((next, values.len()), (14, 4));
    assert_eq!(values[0], json("true"));
    assert_eq!(
        later,
        first.replace("$1", "$11").replace("$2", "$12").replace("$3", "$13")
    );
}

#[test]
fn a_refused_expression_keeps_what_it_bound_before() {
    let w = world(unrestricted(), no_names());
    let scope = WhereScope::table("public", "users", "users", &w.names, &w.words);
    let asked = Json::Object(vec![
        ("id".to_string(), json("{\"_eq\": 1}")),
        ("name".to_string(), json("{\"_zzz\": 2}")),
    ]);
    let (mut next, mut values, mut aliases) = (1usize, Vec::new(), 0usize);
    assert!(build_condition(&asked, &scope, &mut next, &mut values, &mut aliases).is_err());
    assert_eq!((next, values, aliases), (2, vec![json("1")], 0));
}

#[test]
fn no_expression_is_no_clause() {
    let w = world(unrestricted(), no_names());
    let scope = WhereScope::table("public", "users", "users", &w.names, &w.words);
    assert_eq!(build_where_clause(None, 1, &scope).unwrap(), (String::new(), vec![]));
    let (sql, values) = build_where_clause(Some(&json("{\"id\": 4}")), 3, &scope).unwrap();
    assert_eq!(sql, "WHERE \"public\".\"users\".\"id\" = $3");
    assert_eq!(values, vec![json("4")]);
    assert!(build_where_clause(Some(&json("{\"posts\": {}}")), 1, &scope).is_ok());
}

// ============================================================================
// Orderings
// ============================================================================

#[test]
fn rows_are_ordered_by_columns_and_by_what_they_are_related_to() {
    let w = world(unrestricted(), no_names());
    let order = |text: &str, name: &str| {
        build_order_by_clause(
            Some(&json(text)),
            w.sources(),
            "public",
            name,
            name,
            &format!("\"public\".\"{name}\""),
        )
    };
    assert_eq!(
        order("[{\"name\": \"asc\"}, {\"id\": \"desc_nulls_last\"}]", "users").unwrap(),
        " ORDER BY \"public\".\"users\".\"name\" ASC, \
         \"public\".\"users\".\"id\" DESC NULLS LAST"
    );
    assert_eq!(
        order("{\"author\": {\"name\": \"asc\"}}", "posts").unwrap(),
        " ORDER BY (SELECT \"pgrst_ord_1\".\"name\" FROM \"public\".\"users\" AS \"pgrst_ord_1\" \
         WHERE \"public\".\"posts\".\"user_id\" = \"pgrst_ord_1\".\"id\") ASC"
    );
    assert_eq!(
        order("{\"posts_aggregate\": {\"count\": \"asc\"}}", "users").unwrap(),
        " ORDER BY (SELECT count(*) FROM \"public\".\"posts\" AS \"pgrst_ord_1\" WHERE \
         \"public\".\"users\".\"id\" = \"pgrst_ord_1\".\"user_id\") ASC"
    );
    assert_eq!(
        order("{\"nothing\": \"asc\"}", "users").unwrap_err().message,
        "cannot order by unknown column \"nothing\" on \"users\""
    );
    assert!(order("{\"name\": \"sideways\"}", "users").is_err());
    assert_eq!(
        build_order_by_clause(None, w.sources(), "public", "users", "users", "u").unwrap(),
        ""
    );
}

#[test]
fn a_related_rows_column_stands_inside_and_its_direction_outside() {
    let w = world(unrestricted(), no_names());
    let posts = &w.cache.tables[1];
    let mut aliases = 0usize;
    let mut terms = vec!["before".to_string()];
    order_terms_into(
        &json("{\"author\": {\"name\": \"asc_nulls_first\"}}"),
        w.sources(),
        "posts",
        posts,
        "t",
        &mut aliases,
        &mut terms,
    )
    .unwrap();
    assert_eq!(
        terms,
        vec![
            "before".to_string(),
            "(SELECT \"pgrst_ord_1\".\"name\" FROM \"public\".\"users\" AS \"pgrst_ord_1\" \
             WHERE t.\"user_id\" = \"pgrst_ord_1\".\"id\") ASC NULLS FIRST"
                .to_string(),
        ]
    );
    assert_eq!(aliases, 1);
    // A related row's own aggregate is wrapped whole, its direction outside.
    let mut terms = Vec::new();
    order_terms_into(
        &json("{\"author\": {\"posts_aggregate\": {\"count\": \"desc_nulls_last\"}}}"),
        w.sources(),
        "posts",
        posts,
        "t",
        &mut aliases,
        &mut terms,
    )
    .unwrap();
    assert_eq!(terms.len(), 1);
    assert!(terms[0].starts_with("(SELECT (SELECT count(*) FROM "), "{}", terms[0]);
    assert!(terms[0].ends_with("\"pgrst_ord_2\".\"id\") DESC NULLS LAST"), "{}", terms[0]);
}

#[test]
fn a_refused_ordering_leaves_the_terms_before_it() {
    let w = world(unrestricted(), no_names());
    let mut aliases = 4usize;
    let mut terms = Vec::new();
    let asked = Json::Object(vec![
        ("id".to_string(), json("\"asc\"")),
        ("title".to_string(), json("\"sideways\"")),
    ]);
    let posts = &w.cache.tables[1];
    let r = order_terms_into(&asked, w.sources(), "posts", posts, "t", &mut aliases, &mut terms);
    assert!(r.is_err());
    assert_eq!(terms, vec!["t.\"id\" ASC".to_string()]);
    assert_eq!(aliases, 4);
}

#[test]
fn distinct_rows_begin_with_their_own_columns() {
    let on = vec!["\"a\"".to_string()];
    assert_eq!(
        distinct_on_clause(&on, None).unwrap(),
        ("DISTINCT ON (\"a\") ".to_string(), Some("\"a\"".to_string()))
    );
    assert_eq!(
        distinct_on_clause(&on, Some("\"a\" DESC, \"b\" ASC")).unwrap().1.as_deref(),
        Some("\"a\" DESC, \"b\" ASC")
    );
    let error = distinct_on_clause(&on, Some("\"b\" ASC")).unwrap_err();
    assert_eq!(
        error.message,
        "\"distinct_on\" columns must match initial \"order_by\" columns"
    );
    assert_eq!(distinct_on_clause(&vec![], None).unwrap(), (String::new(), None));
    // What ends a column is any white space, and nothing else.
    for space in ["\t", "\u{a0}", "\u{1680}", "\u{2028}", "\u{3000}"] {
        assert!(distinct_on_clause(&on, Some(&format!("\"a\"{space}DESC"))).is_ok());
    }
    assert!(distinct_on_clause(&on, Some("\"a\"\u{200b}DESC")).is_err());
}

// ============================================================================
// Rows and values
// ============================================================================

#[test]
fn shapes_are_answered_as_geojson_in_name_order() {
    assert_eq!(row_json("t", &vec![("id".into(), "int4".into())]), "row_to_json(t)");
    assert_eq!(
        row_json(
            "t",
            &vec![
                ("z".into(), "geometry".into()),
                ("a".into(), "geography".into()),
                ("n".into(), "text".into()),
            ],
        ),
        "(to_jsonb(t) || jsonb_build_object('a', ST_AsGeoJSON(t.\"a\", 9, 4)::jsonb, \
         'z', ST_AsGeoJSON(t.\"z\", 9, 4)::jsonb))"
    );
}

#[test]
fn a_renamed_column_is_projected_under_its_field() {
    let w = world(unrestricted(), renamed());
    let projected = rename_projection(&w.cache.tables[0], "src", &w.names).unwrap();
    assert!(projected.contains("\"src\".\"name\" AS \"label\""), "{projected}");
    assert_eq!(rename_projection(&w.cache.tables[0], "src", &no_names()), None);
}

#[test]
fn an_array_is_written_as_a_literal() {
    assert_eq!(array_literal(&json("[\"a\", \"b\"]")), "{\"a\",\"b\"}");
    assert_eq!(array_literal(&json("[\"a,\\\"b\", null]")), "{\"a,\\\"b\",NULL}");
    // A backslash survives in a document as it does in a text.
    assert_eq!(array_literal(&json(r#"["a\\b"]"#)), r#"{"a\\b"}"#);
    assert_eq!(
        array_literal(&json(r#"[{"k": "a\\b"}]"#)),
        r#"{"{\"k\":\"a\\\\b\"}"}"#
    );
    assert_eq!(array_literal(&json("[1, true]")), "{\"1\",\"true\"}");
}

#[test]
fn a_text_is_quoted_as_json_quotes_it() {
    let text = |s: &str| Json::String(s.to_string()).text();
    assert_eq!(text("a\"b\\c"), r#""a\"b\\c""#);
    assert_eq!(text("\u{8}\t\n\u{c}\r"), r#""\b\t\n\f\r""#);
    assert_eq!(text("\u{0}\u{1f}"), r#""\u0000\u001f""#);
    assert_eq!(text("\u{7f}\u{e9}\u{1f600}/"), "\"\u{7f}\u{e9}\u{1f600}/\"");
}

#[test]
fn the_order_of_keys_makes_no_other_document() {
    let one = Json::Object(vec![("a".into(), json("1")), ("b".into(), json("[{}, null]"))]);
    let two = Json::Object(vec![("b".into(), json("[{}, null]")), ("a".into(), json("1"))]);
    assert!(one.same_as(&two) && two.same_as(&one) && one.same_as(&one));
    assert!(!one.same_as(&Json::Object(vec![("a".into(), json("1"))])));
    assert!(!Json::Object(vec![("a".into(), json("1"))]).same_as(&one));
    assert!(!json("[1, 2]").same_as(&json("[2, 1]")));
    assert!(!json("{\"a\": 1}").same_as(&json("{\"a\": 2}")));
    assert!(!json("{\"a\": 1}").same_as(&json("{\"b\": 1}")));
}

#[test]
fn a_value_is_written_as_its_column_takes_it() {
    let types: Vec<(String, String)> = vec![
        ("tags".into(), "_text".into()),
        ("doc".into(), "jsonb".into()),
        ("place".into(), "geography".into()),
        ("price".into(), "money".into()),
        ("name".into(), "text".into()),
    ];
    assert_eq!(write_operand(&types, "tags", &json("[\"a\"]")), json("\"{\\\"a\\\"}\""));
    assert_eq!(write_operand(&types, "name", &json("\"a\"")), json("\"a\""));
    assert_eq!(
        write_expression(&types, "place", &json("{\"type\": \"Point\"}"), "$1"),
        "ST_GeomFromGeoJSON($1)::geography"
    );
    assert_eq!(write_expression(&types, "price", &json("5"), "$2"), "$2::numeric::money");
    assert_eq!(write_expression(&types, "unknown", &json("5"), "$3"), "$3");
}

#[test]
fn a_value_is_bound_in_the_form_its_kind_has() {
    assert!(matches!(bound_as(&json("null")), Bound::Null));
    assert!(matches!(bound_as(&json("true")), Bound::Bool(true)));
    assert!(matches!(bound_as(&json("-3")), Bound::Int(-3)));
    match bound_as(&json("1.50")) {
        Bound::Double(text) => assert_eq!(text, "1.5"),
        other => panic!("{:?}", other),
    }
    match bound_as(&json("1e999")) {
        Bound::Text(text) => assert_eq!(text.to_lowercase(), "1e+999"),
        other => panic!("{:?}", other),
    }
    match bound_as(&json("{\"a\": [1]}")) {
        Bound::Text(text) => assert_eq!(text, "{\"a\":[1]}"),
        other => panic!("{:?}", other),
    }
}

#[test]
fn a_shape_that_is_none_is_refused_before_it_is_written() {
    assert!(check_geojson(&json("{\"type\": \"Point\", \"coordinates\": [1, 2]}")).is_ok());
    let error = check_geojson(&json("{\"type\": \"Circle\", \"coordinates\": []}")).unwrap_err();
    assert_eq!(error.code.as_deref(), Some("parse-failed"));
    let open = "{\"type\": \"Polygon\", \"coordinates\": [[[0, 0], [1, 1], [2, 0], [5, 5]]]}";
    assert!(check_geojson(&json(open)).is_err());
}

#[test]
fn a_databases_refusal_is_told_by_its_state() {
    let error = database_error(Some("23505"), "duplicate key");
    assert_eq!(error.message, "Uniqueness violation. duplicate key");
    assert_eq!(error.code.as_deref(), Some("constraint-violation"));
    assert_eq!(database_error(Some("22P02"), "bad").code.as_deref(), Some("data-exception"));
    assert_eq!(database_error(Some("22025"), "bad").code.as_deref(), Some("bad-request"));
    assert_eq!(database_error(Some("42P01"), "bad").code, None);
    assert_eq!(database_error(None, "Uniqueness").code, None);
}

#[test]
fn the_lowest_ceiling_holds() {
    assert_eq!(lower_ceiling(Some(3), Some(2)), Some(2));
    assert_eq!(lower_ceiling(None, Some(2)), Some(2));
    assert_eq!(lower_ceiling(None, None), None);
}

// ============================================================================
// Writes
// ============================================================================

fn update(w: &World, operators: &str, filter: Option<&str>) -> Result<Option<Statement>, Error> {
    let filter = filter.map(json);
    update_statement(
        w.writes(),
        "public",
        "users",
        "users",
        &entries(operators),
        &vec![("id".into(), "int4".into()), ("name".into(), "text".into())],
        filter.as_ref(),
    )
}

#[test]
fn an_update_sets_what_it_names_where_it_says() {
    let w = world(unrestricted(), no_names());
    let statement = update(
        &w,
        "{\"_set\": {\"name\": \"x\"}, \"_inc\": {\"id\": 2}}",
        Some("{\"id\": {\"_eq\": 1}}"),
    )
    .unwrap()
    .unwrap();
    assert_eq!(
        statement.sql,
        "UPDATE \"public\".\"users\" AS \"pgrst_row\" SET \"id\" = \"id\" + $1::int4, \
         \"name\" = $2::text WHERE \"pgrst_row\".\"id\" = $3 \
         RETURNING row_to_json(\"pgrst_row\")"
    );
    assert_eq!(statement.values, vec![json("2"), json("\"x\""), json("1")]);
    assert!(!statement.checked);
}

#[test]
fn an_update_of_every_row_is_refused() {
    let w = world(unrestricted(), no_names());
    let message = "update on \"users\" requires a `where` argument with at least one recognised \
                   condition; refusing to update every row";
    assert_eq!(update(&w, "{\"_set\": {\"name\": \"x\"}}", None).unwrap_err().message, message);
    assert_eq!(
        update(&w, "{\"_set\": {\"name\": \"x\"}}", Some("{}")).unwrap_err().message,
        message
    );
    assert!(update(&w, "{\"_set\": {}}", None).unwrap().is_none());
}

#[test]
fn a_filter_that_asks_for_nothing_bounds_nothing() {
    let w = world(unrestricted(), no_names());
    for filter in ["{\"_and\": []}", "{\"id\": {}}", "{\"_and\": [{}, {\"name\": {}}]}"] {
        let refused = update(&w, "{\"_set\": {\"name\": \"x\"}}", Some(filter)).unwrap_err();
        assert!(refused.message.ends_with("refusing to update every row"), "{filter}");
        let args = format!("{{\"where\": {filter}}}");
        let refused = match mutation(&w, MutationType::Delete, &args) {
            Err(error) => error,
            Ok(_) => panic!("refused: {filter}"),
        };
        assert!(refused.message.starts_with("delete on \"users\" requires"), "{filter}");
    }
}

#[test]
fn a_column_is_written_once_by_one_operator() {
    let w = world(unrestricted(), no_names());
    assert_eq!(
        update(&w, "{\"_set\": {\"id\": 1}, \"_inc\": {\"id\": 1}}", Some("{\"id\": 1}"))
            .unwrap_err()
            .message,
        "\"id\" is written twice in one update; a column may be changed by one operator at a time"
    );
    assert_eq!(
        update(&w, "{\"_turn\": {\"id\": 1}}", Some("{\"id\": 1}")).unwrap_err().message,
        "unsupported update operator \"_turn\""
    );
    assert_eq!(
        update(&w, "{\"_set\": 1}", Some("{\"id\": 1}")).unwrap_err().message,
        "\"_set\" takes an object mapping columns to values"
    );
}

#[test]
fn a_preset_is_written_whatever_was_sent() {
    let w = world(owner(), no_names());
    let statement =
        update(&w, "{\"_set\": {\"name\": \"mine\"}}", Some("{\"id\": 1}")).unwrap().unwrap();
    assert_eq!(
        statement.sql,
        "UPDATE \"public\".\"users\" AS \"pgrst_row\" SET \"name\" = $1::text \
         WHERE \"pgrst_row\".\"id\" = $2 RETURNING row_to_json(\"pgrst_row\"), \
         (\"pgrst_row\".\"id\" = $3) AS \"pgrst_permission_check\""
    );
    assert_eq!(statement.values, vec![json("\"preset\""), json("1"), json("7")]);
    assert!(statement.checked);
}

#[test]
fn an_insert_writes_its_columns_and_its_presets() {
    let w = world(owner(), no_names());
    let mut columns = entries("{\"title\": \"a\", \"user_id\": 99}");
    let statement = insert_statement(
        w.writes(),
        &w.cache.tables[1],
        "public",
        "posts",
        &mut columns,
        None,
        "$",
    )
    .unwrap();
    assert_eq!(
        statement.sql,
        "INSERT INTO \"public\".\"posts\" AS \"pgrst_row\" (\"title\", \"user_id\") \
         VALUES ($1::text, $2::int4) RETURNING row_to_json(\"pgrst_row\"), \
         (\"pgrst_row\".\"user_id\" = $3) AS \"pgrst_permission_check\""
    );
    assert_eq!(statement.values, vec![json("\"a\""), json("7"), json("7")]);
}

#[test]
fn a_row_of_defaults_is_written_as_one() {
    let w = world(unrestricted(), no_names());
    let statement = insert_statement(
        w.writes(),
        &w.cache.tables[1],
        "public",
        "posts",
        &mut vec![],
        Some(&json("{\"constraint\": \"posts_pkey\", \"update_columns\": []}")),
        "$",
    )
    .unwrap();
    assert_eq!(
        statement.sql,
        "INSERT INTO \"public\".\"posts\" AS \"pgrst_row\" DEFAULT VALUES \
         ON CONFLICT ON CONSTRAINT \"posts_pkey\" DO NOTHING RETURNING row_to_json(\"pgrst_row\")"
    );
}

#[test]
fn every_written_row_has_to_pass() {
    assert!(refuse_unchecked_rows(&vec![true, true], true).is_ok());
    assert!(refuse_unchecked_rows(&vec![true, false], false).is_ok());
    let error = refuse_unchecked_rows(&vec![true, false], true).unwrap_err();
    assert_eq!(error.code.as_deref(), Some("permission-error"));
}

fn top() -> Place {
    Place {
        on_conflict: None,
        row: "$.objects[0]".into(),
        objects: "$.objects".into(),
        conflict: "$.on_conflict".into(),
    }
}

/// Runs an insert, answering each statement with the next of the rows.
fn run(w: &World, name: &str, object: &str, rows: &[&str]) -> Result<(Vec<String>, Json, usize), Error> {
    let mut state = Insertion::start(w.writes(), "public", name, &json(object), top())?;
    let mut statements = Vec::new();
    let mut rows = rows.iter();
    let mut step = state.advance()?;
    loop {
        step = match step {
            Step::Continue => state.advance()?,
            Step::Execute(statement) => {
                statements.push(statement.sql);
                state.answer(rows.next().map(|row| (json(row), true)))?
            }
            Step::Done(row) => return Ok((statements, row, state.written)),
        };
    }
}

#[test]
fn what_a_row_points_at_is_written_first_and_what_points_at_it_last() {
    let w = world(unrestricted(), no_names());
    let (statements, row, written) = run(
        &w,
        "users",
        "{\"name\": \"u\", \"posts\": {\"data\": [{\"title\": \"a\"}, {\"title\": \"b\"}]}}",
        &["{\"id\": 1}", "{\"id\": 10}", "{\"id\": 11}"],
    )
    .unwrap();
    assert_eq!(statements.len(), 3);
    assert!(statements[0].starts_with("INSERT INTO \"public\".\"users\""));
    assert!(statements[1].contains("(\"title\", \"user_id\")"), "{}", statements[1]);
    assert_eq!(row, json("{\"id\": 1}"));
    assert_eq!(written, 3);

    let (statements, row, written) = run(
        &w,
        "posts",
        "{\"title\": \"a\", \"author\": {\"data\": {\"name\": \"u\"}}}",
        &["{\"id\": 4}", "{\"id\": 9, \"user_id\": 4}"],
    )
    .unwrap();
    assert!(statements[0].starts_with("INSERT INTO \"public\".\"users\""));
    assert!(statements[1].contains("\"user_id\""), "{}", statements[1]);
    assert_eq!(row, json("{\"id\": 9, \"user_id\": 4}"));
    assert_eq!(written, 2);
}

#[test]
fn a_key_that_is_determined_is_not_written_too() {
    let w = world(unrestricted(), no_names());
    let error = run(
        &w,
        "posts",
        "{\"user_id\": 3, \"author\": {\"data\": {\"name\": \"u\"}}}",
        &[],
    )
    .unwrap_err();
    assert_eq!(
        error.message,
        "cannot insert object relationship \"author\" as \"user_id\" column values are already determined"
    );
    let error = run(
        &w,
        "users",
        "{\"posts\": {\"data\": [{\"user_id\": 3}]}}",
        &["{\"id\": 1}"],
    )
    .unwrap_err();
    assert_eq!(
        error.message,
        "cannot insert \"user_id\" columns as their values are already being determined by parent insert"
    );
}

#[test]
fn a_row_that_was_left_alone_is_not_counted() {
    let w = world(unrestricted(), no_names());
    let (statements, row, written) = run(&w, "users", "{\"name\": \"u\"}", &[]).unwrap();
    assert_eq!(statements.len(), 1);
    assert_eq!(row, Json::Null);
    assert_eq!(written, 0);
}

#[test]
fn a_failed_check_ends_the_insert() {
    let w = world(owner(), no_names());
    let object = json("{\"title\": \"a\"}");
    let mut state = Insertion::start(w.writes(), "public", "posts", &object, top()).unwrap();
    assert!(matches!(state.advance().unwrap(), Step::Execute(_)));
    let error = match state.answer(Some((json("{\"id\": 1}"), false))) {
        Err(error) => error,
        Ok(_) => panic!("the check failed"),
    };
    assert_eq!(error.code.as_deref(), Some("permission-error"));
    assert_eq!(error.path.as_deref(), Some("$.objects"));
    // The row that was refused is not taken in, and stays under way.
    assert_eq!((state.frames.len(), state.written), (1, 0));
    assert!(state.frames[0].row.is_none());
    assert!(matches!(state.advance().unwrap(), Step::Execute(_)));
}

#[test]
fn a_refused_step_changes_nothing() {
    let w = world(unrestricted(), no_names());
    let object = json("{\"user_id\": 3, \"author\": {\"data\": {\"name\": \"u\"}}}");
    let mut state = Insertion::start(w.writes(), "public", "posts", &object, top()).unwrap();
    assert!(state.advance().is_err());
    assert_eq!((state.frames.len(), state.written), (1, 0));
    assert!(state.advance().is_err());
}

#[test]
fn a_column_of_a_row_is_written_once() {
    let w = world(unrestricted(), renamed());
    let object = Json::Object(vec![
        ("label".to_string(), json("\"a\"")),
        ("id".to_string(), json("1")),
        ("label".to_string(), json("\"b\"")),
    ]);
    let state = Insertion::start(w.writes(), "public", "users", &object, top()).unwrap();
    assert_eq!(
        state.frames[0].columns,
        vec![("name".to_string(), json("\"b\"")), ("id".to_string(), json("1"))]
    );
}

#[test]
fn a_mutation_answers_with_its_rows_or_its_row() {
    let rows = || vec![json("{\"id\": 1}"), json("{\"id\": 2}")];
    assert_eq!(
        mutation_result(rows(), 2, false),
        Some(json("{\"affected_rows\": 2, \"returning\": [{\"id\": 1}, {\"id\": 2}]}"))
    );
    assert_eq!(mutation_result(rows(), 2, true), Some(json("{\"id\": 1}")));
    assert_eq!(mutation_result(vec![], 0, true), None);
}

fn mutation<'a>(w: &'a World, kind: MutationType, args: &str) -> Result<Mutation<'a>, Error> {
    plan_mutation(
        w.writes(),
        kind,
        "public",
        "users",
        &vec![("id".to_string(), "int4".to_string())],
        &json(args),
        &selected("mutation", vec![]),
        None,
    )
}

#[test]
fn a_mutation_is_decided_from_its_arguments() {
    let w = world(unrestricted(), no_names());
    match mutation(&w, MutationType::Insert, "{\"objects\": [{\"name\": \"a\"}]}").unwrap() {
        Mutation::Insert { rows, single, .. } => {
            assert_eq!(rows, vec![json("{\"name\": \"a\"}")]);
            assert!(!single);
        }
        _ => panic!("an insert"),
    }
    match mutation(&w, MutationType::Delete, "{\"where\": {\"id\": {\"_eq\": 1}}}").unwrap() {
        Mutation::Delete(query) => {
            assert!(rendered(&query.sql).starts_with("DELETE FROM \"public\".\"users\""));
            assert_eq!(query.values, vec![json("1")]);
        }
        _ => panic!("a delete"),
    }
    match mutation(
        &w,
        MutationType::UpdateByPk,
        "{\"pk_columns\": {\"id\": 3}, \"_set\": {\"name\": \"x\"}}",
    )
    .unwrap()
    {
        Mutation::Update(Some(statement)) => {
            assert!(statement.sql.contains("WHERE \"pgrst_row\".\"id\" = $2"), "{}", statement.sql);
        }
        _ => panic!("an update"),
    }
    let error = match mutation(&w, MutationType::Delete, "{\"where\": {}}") {
        Err(error) => error,
        Ok(_) => panic!("refused"),
    };
    assert!(error.message.starts_with("delete on \"users\" requires a `where`"));
    let error = match mutation(&w, MutationType::UpdateMany, "{\"updates\": 1}") {
        Err(error) => error,
        Ok(_) => panic!("refused"),
    };
    assert_eq!(error.message, "\"updates\" takes a list of {where, _set, \u{2026}} objects");
    assert!(matches!(
        mutation(&w, MutationType::UpdateMany, "{\"updates\": [{}]}").unwrap(),
        Mutation::UpdateEach(entries) if entries.len() == 1
    ));
    assert!(plan_entry(w.writes(), "public", "users", &json("1")).is_err());
}

#[test]
fn a_mutation_reaches_only_what_the_role_may() {
    let w = world(owner(), no_names());
    match mutation(&w, MutationType::DeleteByPk, "{\"id\": 1}").unwrap() {
        Mutation::Delete(query) => {
            let sql = rendered(&query.sql);
            assert!(
                sql.contains("(\"pgrst_row\".\"id\" = $1 AND \"pgrst_row\".\"id\" = $2)"),
                "{sql}"
            );
            assert_eq!(query.values, vec![json("1"), json("7")]);
        }
        _ => panic!("a delete"),
    }
}

#[test]
fn each_of_several_updates_is_narrowed_as_one_alone() {
    let w = world(owner(), no_names());
    let entry = "{\"where\": {\"id\": {\"_eq\": 1}}, \"_set\": {\"tags\": [\"a\"]}}";
    let many = plan_entry(w.writes(), "public", "users", &json(entry)).unwrap().unwrap();
    assert!(
        many.sql.contains("(\"pgrst_row\".\"id\" = $3 AND \"pgrst_row\".\"id\" = $4)"),
        "{}",
        many.sql
    );
    match mutation(&w, MutationType::Update, entry).unwrap() {
        Mutation::Update(Some(alone)) => {
            assert_eq!(alone.sql, many.sql);
            assert_eq!(alone.values, many.values);
        }
        _ => panic!("an update"),
    }
    // A table that is withheld is not reached.
    let refused = match plan_entry(w.writes(), "public", "others", &json(entry)) {
        Err(error) => error,
        Ok(_) => panic!("withheld"),
    };
    assert_eq!(refused.code.as_deref(), Some("access-denied"));
}

// ============================================================================
// Reads
// ============================================================================

fn read<'a>(w: &'a World, field: &ReadField, args: &str, fields: Vec<Selected>) -> Query<'a> {
    read_query(field, w.sources(), &w.caller, &json(args), &selected("users", fields)).unwrap()
}

#[test]
fn a_read_pages_inside_and_projects_outside() {
    let w = world(unrestricted(), no_names());
    let query = read(
        &w,
        &field("posts"),
        "{\"where\": {\"title\": {\"_eq\": \"a\"}}, \"order_by\": {\"id\": \"asc\"}, \
          \"limit\": 10, \"offset\": 5}",
        vec![selected("id", vec![])],
    );
    assert_eq!(
        rendered(&query.sql),
        "SELECT row_to_json(t) FROM (SELECT * FROM \"public\".\"posts\" AS \"pgrst_src\" \
         WHERE \"pgrst_src\".\"title\" = $1::text ORDER BY \"pgrst_src\".\"id\" ASC \
         LIMIT 10 OFFSET 5) t"
    );
    assert_eq!(query.values, vec![json("\"a\"")]);
}

#[test]
fn a_read_is_narrowed_and_bounded_by_the_role() {
    let w = world(owner(), no_names());
    let query = read(
        &w,
        &ReadField { max_rows: Some(50), ..field("posts") },
        "{\"where\": {\"title\": {\"_eq\": \"a\"}}, \"limit\": 10}",
        vec![],
    );
    assert_eq!(
        rendered(&query.sql),
        "SELECT row_to_json(t) FROM (SELECT * FROM \"public\".\"posts\" AS \"pgrst_src\" \
         WHERE (\"pgrst_src\".\"title\" = $1::text AND \"pgrst_src\".\"user_id\" = $2) LIMIT 5) t"
    );
    let error = read_query(
        &field("secrets"),
        w.sources(),
        &w.caller,
        &json("{}"),
        &selected("secrets", vec![]),
    );
    match error {
        Err(error) => {
            assert_eq!(error.message, "not granted");
            assert_eq!(error.code.as_deref(), Some("access-denied"));
        }
        Ok(_) => panic!("not granted"),
    }
}

#[test]
fn a_read_by_key_is_one_row() {
    let w = world(unrestricted(), no_names());
    let by_key = ReadField { is_by_pk: true, ..field("users") };
    let query = read(&w, &by_key, "{\"id\": 3}", vec![]);
    let sql = rendered(&query.sql);
    assert!(sql.contains("LIMIT 1"), "{sql}");
    assert!(sql.contains("\"id\" = $1"), "{sql}");
    assert_eq!(query.values, vec![json("3")]);
    let keyless = ReadField { is_by_pk: true, pk_columns: vec![], ..field("users") };
    let refused = read_query(
        &keyless,
        w.sources(),
        &w.caller,
        &json("{}"),
        &selected("users", vec![]),
    );
    match refused {
        Err(error) => assert_eq!(
            error.message,
            "\"users\" has no primary key, so it cannot be queried by key"
        ),
        Ok(_) => panic!("it has no key"),
    }
}

#[test]
fn relationships_are_embedded_in_the_order_they_were_asked_for() {
    let w = world(owner(), no_names());
    let fields = vec![
        selected("name", vec![]),
        selected("posts_aggregate", vec![selected(
            "aggregate",
            vec![selected("count", vec![])],
        )]),
        selected("posts", vec![selected("title", vec![])]),
    ];
    let mut aliases = 0usize;
    let mut next = 1usize;
    let mut values = Vec::new();
    let embeds = build_embed_expressions(
        w.sources(),
        &w.caller,
        "users",
        "src",
        &fields,
        Some(100),
        &mut aliases,
        &mut next,
        &mut values,
    )
    .unwrap();
    assert_eq!(embeds.len(), 2);
    assert_eq!(embeds[0].field, "posts_aggregate");
    assert!(embeds[0].aggregate);
    assert_eq!(embeds[1].field, "posts");
    assert_eq!(embeds[1].child_alias, "e2");
    assert_eq!(embeds[1].limit, Some(5));
    assert_eq!(embeds[1].filter.as_deref(), Some("\"e2\".\"user_id\" = $2"));
    assert_eq!(values, vec![json("7"), json("7")]);

    let query = read(&w, &field("users"), "{}", fields);
    let sql = rendered(&query.sql);
    assert!(sql.contains(" AS \"posts\""), "{sql}");
    assert!(sql.contains("<rows e2 of src:"), "{sql}");
}

#[test]
fn a_computed_field_is_a_call_of_its_function() {
    let w = world(unrestricted(), no_names());
    let query = read(&w, &field("users"), "{}", vec![selected("full_name", vec![])]);
    let sql = rendered(&query.sql);
    assert!(sql.contains("\"public\".\"full_name\"("), "{sql}");
    assert!(sql.contains("AS \"full_name\""), "{sql}");

    let computed = ComputedColumn {
        name: "ranked".into(),
        function: QualifiedIdentifier::new("public", "ranked"),
        session_argument: Some("session".into()),
        row_argument: Some("row".into()),
        arguments: vec![FunctionArgument {
            name: "depth".into(),
            pg_type: "int4".into(),
            required: true,
        }],
    };
    let mut next = 1usize;
    let mut values = Vec::new();
    let call = computed_column_call(
        &computed,
        "src",
        "ranked",
        Some(&json("{\"depth\": 2}")),
        &mut next,
        &mut values,
    )
    .unwrap();
    assert!(call.contains(SESSION_ARGUMENT), "{call}");
    assert!(call.contains("\"depth\" => $1::int4"), "{call}");
    assert!(computed_column_call(&computed, "src", "ranked", None, &mut next, &mut values).is_err());
}

#[test]
fn a_functions_rows_are_read_as_a_tables_are() {
    let w = world(unrestricted(), no_names());
    let search = ReadField {
        call: Some(FunctionCall {
            schema: "public".into(),
            name: "search".into(),
            arguments: vec![FunctionArgument {
                name: "term".into(),
                pg_type: "text".into(),
                required: true,
            }],
            session_argument: None,
        }),
        ..field("users")
    };
    let query = read(&w, &search, "{\"args\": {\"term\": \"x\"}, \"limit\": 2}", vec![]);
    let sql = rendered(&query.sql);
    assert!(sql.contains("\"public\".\"search\"(\"term\" => $1::text)"), "{sql}");
    assert_eq!(query.values, vec![json("\"x\"")]);
}

#[test]
fn numbers_are_about_every_row_and_nodes_are_a_page() {
    let w = world(owner(), no_names());
    let read = aggregate_rows(&field("posts"), w.sources(), &w.caller, &json("{}")).unwrap();
    assert_eq!(
        read.rows,
        "SELECT * FROM \"public\".\"posts\" WHERE \"public\".\"posts\".\"user_id\" = $1"
    );
    assert_eq!(read.requested, None);
    assert_eq!(read.limit, Some(5));
    let fields = vec![
        selected("aggregate", vec![
            selected("count", vec![]),
            selected("max", vec![selected("id", vec![])]),
        ]),
        selected("nodes", vec![selected("id", vec![])]),
    ];
    let numbers = aggregate_numbers(&field("posts"), w.sources(), &read, &fields).unwrap().unwrap();
    assert!(numbers.contains("count(*)"), "{numbers}");
    assert!(!numbers.contains("LIMIT"), "{numbers}");
    let nodes = aggregate_nodes(&field("posts"), w.sources(), &w.caller, &read, &fields)
        .unwrap()
        .unwrap();
    assert!(rendered(&nodes.sql).contains("LIMIT 5"), "{}", rendered(&nodes.sql));
    assert!(aggregate_numbers(&field("posts"), w.sources(), &read, &vec![]).unwrap().is_none());
    assert_eq!(
        aggregate_value(Some(json("{\"count\": 2}")), Some(vec![json("{\"id\": 1}")])),
        json("{\"aggregate\": {\"count\": 2}, \"nodes\": [{\"id\": 1}]}")
    );
}

#[test]
fn written_rows_are_read_again_for_what_returning_cannot_give() {
    let w = world(unrestricted(), no_names());
    let rows = vec![json("{\"id\": 1}"), json("{\"id\": 2}")];
    let again = |fields: Vec<Selected>| {
        reread_query(
            w.sources(),
            &w.caller,
            "public",
            "users",
            "users",
            &rows,
            &fields,
            None,
        )
        .map(|query| query.map(|query| rendered(&query.sql)))
        .unwrap()
    };
    assert_eq!(again(vec![selected("name", vec![])]), None);
    let sql = again(vec![selected("posts", vec![selected("title", vec![])])]).unwrap();
    assert!(sql.contains("<rows e1 of"), "{sql}");
}

// ============================================================================
// Entities
// ============================================================================

fn lookup() -> EntityLookup {
    EntityLookup {
        schema_name: "public".into(),
        table_name: "users".into(),
        typename: "users".into(),
        key_columns: vec![EntityKeyColumn {
            field_name: "id".into(),
            column_name: "id".into(),
            pg_type: "int4".into(),
            explicit_id: true,
        }],
        row_column_types: vec![],
    }
}

#[test]
fn entities_are_read_together_and_answered_apart() {
    let w = world(owner(), no_names());
    let list = vec![json("{\"id\": \"2\"}"), json("{\"id\": 1}")];
    let query =
        entity_query(&lookup(), w.sources(), &w.caller, &list, &vec![], None).unwrap().unwrap();
    let sql = rendered(&query.sql);
    assert!(sql.contains("\"pgrst_src\".\"id\" = $1::int4"), "{sql}");
    assert!(sql.contains("\"pgrst_src\".\"id\" = $2::int4"), "{sql}");
    assert_eq!(query.values, vec![json("2"), json("1"), json("7")]);
    let rows = vec![json("{\"id\": 1, \"name\": \"a\"}"), json("{\"id\": 2, \"name\": \"b\"}")];
    assert_eq!(
        entity_rows(&lookup(), &rows, &list).unwrap(),
        vec![json("{\"id\": 2, \"name\": \"b\"}"), json("{\"id\": 1, \"name\": \"a\"}")]
    );
    assert_eq!(
        entity_rows(&lookup(), &vec![], &list).unwrap_err().message,
        "entity \"users\" could not be resolved from its key"
    );
    assert_eq!(
        entity_rows(&lookup(), &vec![], &vec![json("{}")]).unwrap_err().message,
        "entity representation for \"users\" is missing key field \"id\""
    );
}

#[test]
fn no_representation_names_no_row() {
    let w = world(unrestricted(), no_names());
    let query = entity_query(&lookup(), w.sources(), &w.caller, &vec![], &vec![], None);
    assert!(matches!(query, Ok(None)));
    // Nothing is run, so nothing is refused either.
    let denied = Caller {
        tables: vec![],
        otherwise: Rule {
            filter: Err(Fault { code: "access-denied".into(), message: "not granted".into() }),
            ..rule()
        },
    };
    let query = entity_query(&lookup(), w.sources(), &denied, &vec![], &vec![], None);
    assert!(matches!(query, Ok(None)));
    let list = vec![json("{\"id\": 1}")];
    assert!(entity_query(&lookup(), w.sources(), &denied, &list, &vec![], None).is_err());
}

// ============================================================================
// Live queries
// ============================================================================

#[test]
fn an_answer_is_sent_first_and_whenever_it_changes() {
    let mut live = Live::new();
    assert!(!live.waits());
    let first = read_rows(vec![json("{\"id\": 1}")], false);
    assert!(matches!(live.observe(Ok(first)), Turn::Send(Json::Array(_))));
    assert!(live.waits());
    let again = read_rows(vec![json("{\"id\": 1}")], false);
    assert!(matches!(live.observe(Ok(again)), Turn::Wait));
    let changed = read_rows(vec![], false);
    assert!(matches!(live.observe(Ok(changed)), Turn::Send(_)));
    let by_key = read_rows(vec![json("{\"id\": 1}")], true);
    assert!(matches!(live.observe(Ok(by_key)), Turn::Send(Json::Object(_))));
    let pair = |first: &str, second: &str| {
        let entries = vec![(first.to_string(), json("1")), (second.to_string(), json("1"))];
        read_rows(vec![Json::Object(entries)], false)
    };
    assert!(matches!(live.observe(Ok(pair("a", "b"))), Turn::Send(_)));
    assert!(matches!(live.observe(Ok(pair("b", "a"))), Turn::Wait));
    let failed = live.observe(Err(Error::new("gone".to_string())));
    assert!(matches!(failed, Turn::End(error) if error.message == "gone"));
}

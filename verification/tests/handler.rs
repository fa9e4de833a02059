use async_graphql::parser::types::{FragmentDefinition, Selection, SelectionSet};
use postrust_graphql::catalog::{Column, NameOverrides, SchemaCache, Table, TypeRelationships};
use postrust_graphql::comparison::Vocabulary;
use postrust_graphql::condition::build_condition;
use postrust_graphql::entity::{
    entity_field_applicability, entity_groups, normalize_entity_key_value, normalize_graphql_id,
    place_entities, EntityKeyColumn, FragmentDef, Pick,
};
use postrust_graphql::generated::{leaf_scalar_name, GraphQLType};
use postrust_graphql::json::{Json, Number};
use postrust_graphql::json_path::{parse_json_path, walk_json_path, PathStep};
use postrust_graphql::schema_def::graphql_type_ref;
use postrust_graphql::scope::WhereScope;
use postrust_graphql::value::{json_to_value, number_from, plain_numbers, value_to_json, Value};

fn document(value: &serde_json::Value) -> Json {
    match value {
        serde_json::Value::Null => Json::Null,
        serde_json::Value::Bool(b) => Json::Bool(*b),
        serde_json::Value::Number(n) => Json::Number(number_from(n.to_string())),
        serde_json::Value::String(s) => Json::String(s.clone()),
        serde_json::Value::Array(items) => Json::Array(items.iter().map(document).collect()),
        serde_json::Value::Object(map) => {
            Json::Object(map.iter().map(|(k, v)| (k.clone(), document(v))).collect())
        }
    }
}

fn json(text: &str) -> Json {
    document(&serde_json::from_str(text).expect("a document"))
}

fn entity_key_column(pg_type: &str, explicit_id: bool) -> EntityKeyColumn {
    EntityKeyColumn {
        field_name: "id".to_string(),
        column_name: "id".to_string(),
        pg_type: pg_type.to_string(),
        explicit_id,
    }
}

#[test]
fn federation_integer_keys_reject_strings() {
    let column = entity_key_column("int4", false);

    assert_eq!(
        normalize_entity_key_value("users", &column, &json("2")).unwrap(),
        json("2")
    );
    let error = normalize_entity_key_value("users", &column, &json("\"2\""))
        .expect_err("a GraphQL Int cannot be a string");
    assert_eq!(
        error.message,
        "entity representation for \"users\" has invalid key field \"id\": expected a value compatible with PostgreSQL type \"int4\", found a string"
    );
}

#[test]
fn federation_integer_backed_ids_have_one_normal_form() {
    let column = entity_key_column("int4", true);

    let number = normalize_entity_key_value("users", &column, &json("2")).unwrap();
    let string = normalize_entity_key_value("users", &column, &json("\"2\"")).unwrap();
    assert_eq!(number, json("2"));
    assert_eq!(string, number);
    assert!(normalize_entity_key_value("users", &column, &json("\"two\"")).is_err());
}

#[test]
fn federation_text_backed_ids_normalize_integer_input_to_text() {
    let column = entity_key_column("text", true);

    let number = normalize_entity_key_value("users", &column, &json("2")).unwrap();
    let string = normalize_entity_key_value("users", &column, &json("\"2\"")).unwrap();
    assert_eq!(number, json("\"2\""));
    assert_eq!(string, number);
}

#[test]
fn a_text_backed_id_is_any_whole_number_with_its_digits() {
    let column = entity_key_column("text", true);
    for digits in ["18446744073709551615", "9223372036854775808", "-9223372036854775808", "-0"] {
        assert_eq!(
            normalize_entity_key_value("users", &column, &json(digits)).unwrap(),
            Json::String(digits.to_string())
        );
    }
    assert!(normalize_entity_key_value("users", &column, &json("1.0")).is_err());
    assert!(normalize_entity_key_value("users", &column, &json("18446744073709551616")).is_err());
}

#[test]
fn an_id_in_its_normal_form_stays_there() {
    for (pg_type, given) in [
        ("int8", "\"007\""),
        ("text", "7"),
        ("uuid", "\"550E8400E29B41D4A716446655440000\""),
    ] {
        let once = normalize_graphql_id(&json(given), pg_type).expect(given);
        assert_eq!(normalize_graphql_id(&once, pg_type), Some(once));
    }
}

#[test]
fn federation_uuid_backed_ids_are_validated_and_canonicalized() {
    let column = entity_key_column("uuid", true);

    assert_eq!(
        normalize_entity_key_value(
            "users",
            &column,
            &json("\"550E8400-E29B-41D4-A716-446655440000\"")
        )
        .unwrap(),
        json("\"550e8400-e29b-41d4-a716-446655440000\"")
    );
    assert!(normalize_entity_key_value("users", &column, &json("\"not-a-uuid\"")).is_err());
}

#[test]
fn an_integer_key_is_held_to_the_range_of_its_type() {
    let small = entity_key_column(" INT2 ", true);
    assert_eq!(
        normalize_entity_key_value("users", &small, &json("\"32767\"")).unwrap(),
        json("32767")
    );
    let error = normalize_entity_key_value("users", &small, &json("32768")).unwrap_err();
    assert_eq!(
        error.message,
        "entity representation for \"users\" has invalid key field \"id\": expected an ID compatible with PostgreSQL type \" INT2 \", found a number"
    );
}

#[test]
fn a_floating_point_key_is_put_in_one_spelling() {
    let column = entity_key_column("float8", false);
    let one = normalize_entity_key_value("users", &column, &json("1")).unwrap();
    assert_eq!(one, Json::Number(Number::Other("1.0".to_string())));
    assert_eq!(
        normalize_entity_key_value("users", &column, &json("1.00")).unwrap(),
        one
    );
}

#[test]
fn representations_are_answered_in_the_order_they_came() {
    let list = vec![
        json("{\"__typename\": \"a\", \"id\": 1}"),
        json("{\"__typename\": \"b\", \"id\": 2}"),
        json("{\"__typename\": \"a\", \"id\": 3}"),
    ];
    let (types, groups) = entity_groups(&list).unwrap();
    assert_eq!(types, vec!["a", "b", "a"]);
    assert_eq!(groups.len(), 2);
    assert_eq!(groups[0].0, "a");
    assert_eq!(groups[0].1.len(), 2);
    let answers = vec![
        ("b".to_string(), vec![json("\"two\"")]),
        ("a".to_string(), vec![json("\"one\""), json("\"three\"")]),
    ];
    assert_eq!(
        place_entities(&types, &answers),
        Some(vec![json("\"one\""), json("\"two\""), json("\"three\"")])
    );
    assert_eq!(place_entities(&types, &vec![]), None);
    assert_eq!(
        entity_groups(&vec![json("{\"id\": 1}")]).unwrap_err().message,
        "entity representation is missing __typename"
    );
    assert_eq!(
        entity_groups(&vec![json("1")]).unwrap_err().message,
        "entity representation must be an object"
    );
}

fn picks(set: &SelectionSet) -> Vec<Pick> {
    set.items
        .iter()
        .map(|item| match &item.node {
            Selection::Field(_) => Pick::Field,
            Selection::FragmentSpread(spread) => {
                Pick::Spread(spread.node.fragment_name.node.to_string())
            }
            Selection::InlineFragment(inline) => Pick::Inline {
                on: inline
                    .node
                    .type_condition
                    .as_ref()
                    .map(|on| on.node.on.node.to_string()),
                items: picks(&inline.node.selection_set.node),
            },
        })
        .collect()
}

fn fragment(name: &str, definition: &FragmentDefinition) -> FragmentDef {
    FragmentDef {
        name: name.to_string(),
        on: definition.type_condition.node.on.node.to_string(),
        items: picks(&definition.selection_set.node),
    }
}

#[test]
fn federation_entity_selections_respect_fragment_type_conditions() {
    let document = async_graphql::parser::parse_query(
        r#"
        query {
          _entities(representations: []) {
            __typename
            ... on authors { id items { title } }
            ...ShopFields
            ... { common }
            ...EntityName
          }
        }
        fragment ShopFields on shops { id items { sku } }
        fragment EntityName on _Entity { __typename }
        "#,
    )
    .expect("query parses");
    let (_, operation) = document.operations.iter().next().expect("one operation");
    let entity = operation
        .node
        .selection_set
        .node
        .items
        .iter()
        .find_map(|selection| match &selection.node {
            Selection::Field(field) if field.node.name.node == "_entities" => Some(&field.node),
            _ => None,
        })
        .expect("_entities field");
    let items = picks(&entity.selection_set.node);
    let fragments: Vec<FragmentDef> = document
        .fragments
        .iter()
        .map(|(name, definition)| fragment(name.as_str(), &definition.node))
        .collect();

    assert_eq!(
        entity_field_applicability(&items, &fragments, "authors"),
        vec![true, true, true, false, false, true, true]
    );
    assert_eq!(
        entity_field_applicability(&items, &fragments, "shops"),
        vec![true, false, false, true, true, true, true]
    );
}

// ============================================================================
// Type references
// ============================================================================

#[test]
fn test_graphql_type_ref_simple() {
    let type_ref = graphql_type_ref("String");
    assert_eq!(type_ref.name, "String");
    assert!(!type_ref.list && !type_ref.item_required && !type_ref.required);
}

#[test]
fn test_graphql_type_ref_non_null() {
    let type_ref = graphql_type_ref("String!");
    assert_eq!(type_ref.name, "String");
    assert!(!type_ref.list && !type_ref.item_required && type_ref.required);
}

#[test]
fn test_graphql_type_ref_list() {
    let type_ref = graphql_type_ref("[String]");
    assert_eq!(type_ref.name, "String");
    assert!(type_ref.list && !type_ref.item_required && !type_ref.required);
}

#[test]
fn test_graphql_type_ref_list_non_null() {
    let type_ref = graphql_type_ref("[String!]!");
    assert_eq!(type_ref.name, "String");
    assert!(type_ref.list && type_ref.item_required && type_ref.required);
}

#[test]
fn the_leaf_of_an_array_is_its_scalar() {
    let list = GraphQLType::List(Box::new(GraphQLType::String));
    assert_eq!(leaf_scalar_name(&list), "String");
    assert_eq!(list.text(), "[String]");
    assert_eq!(GraphQLType::Json.text(), "jsonb");
    assert_eq!(leaf_scalar_name(&GraphQLType::Custom("colors_enum".into())), "colors_enum");
}

// ============================================================================
// Values
// ============================================================================

#[test]
fn test_value_to_json_null() {
    let value = Value::Null;
    let json = value_to_json(&value);
    assert_eq!(json, Json::Null);
}

#[test]
fn test_value_to_json_boolean() {
    let value = Value::Boolean(true);
    let json = value_to_json(&value);
    assert_eq!(json, Json::Bool(true));
}

#[test]
fn test_value_to_json_number() {
    let value = Value::Number(Number::PosInt(42));
    assert_eq!(value_to_json(&value), json("42"));
}

#[test]
fn test_value_to_json_string() {
    let value = Value::String("hello".to_string());
    let json = value_to_json(&value);
    assert_eq!(json, Json::String("hello".to_string()));
}

#[test]
fn test_value_to_json_list() {
    let value = Value::List(vec![
        Value::Number(Number::PosInt(1)),
        Value::Number(Number::PosInt(2)),
    ]);
    assert_eq!(value_to_json(&value), json("[1, 2]"));
}

#[test]
fn test_json_to_value_null() {
    let value = json_to_value(&Json::Null);
    assert!(matches!(value, Value::Null));
}

#[test]
fn test_json_to_value_boolean() {
    let value = json_to_value(&Json::Bool(false));
    assert!(matches!(value, Value::Boolean(false)));
}

#[test]
fn test_json_to_value_number() {
    let value = json_to_value(&json("123"));
    assert!(matches!(value, Value::Number(_)));
}

#[test]
fn test_json_to_value_string() {
    let value = json_to_value(&Json::String("test".to_string()));
    assert!(matches!(value, Value::String(_)));
}

#[test]
fn test_json_to_value_array() {
    let value = json_to_value(&json("[1, 2, 3]"));
    assert!(matches!(value, Value::List(_)));
}

#[test]
fn test_json_to_value_object() {
    let value = json_to_value(&json("{\"key\": \"value\"}"));
    assert!(matches!(value, Value::Object(_)));
}

#[test]
fn bytes_are_answered_as_base64_and_members_by_name() {
    assert_eq!(
        value_to_json(&Value::Binary(vec![1, 2, 3, 250])),
        Json::String("AQID+g==".to_string())
    );
    assert_eq!(
        value_to_json(&Value::Enum("asc".to_string())),
        Json::String("asc".to_string())
    );
}

#[test]
fn a_document_of_whole_numbers_survives_being_a_value() {
    let given = json("{\"a\": [1, -2, null], \"b\": {\"c\": \"d\", \"e\": true}}");
    assert_eq!(value_to_json(&json_to_value(&given)), given);
}

#[test]
fn a_number_kept_as_text_is_a_number_with_every_digit() {
    let kept = Json::Object(vec![(
        "$serde_json::private::Number".to_string(),
        Json::String("12.500".to_string()),
    )]);
    assert_eq!(
        plain_numbers(&Json::Array(vec![kept])),
        Json::Array(vec![Json::Number(Number::Other("12.500".to_string()))])
    );
    let whole = Json::Object(vec![(
        "$serde_json::private::Number".to_string(),
        Json::String("-7".to_string()),
    )]);
    assert_eq!(plain_numbers(&whole), Json::Number(Number::NegInt(-7)));
    let nought = Json::Object(vec![(
        "$serde_json::private::Number".to_string(),
        Json::String("-0".to_string()),
    )]);
    assert_eq!(plain_numbers(&nought), Json::Number(Number::Other("-0".to_string())));
    let other = Json::Object(vec![(
        "$serde_json::private::Number".to_string(),
        Json::String("no number".to_string()),
    )]);
    assert!(matches!(plain_numbers(&other), Json::Object(_)));
}

#[test]
fn a_number_is_an_integer_only_where_its_text_is() {
    let most = "18446744073709551615";
    assert_eq!(number_from(most.to_string()), Number::PosInt(u64::MAX));
    assert_eq!(number_from("9223372036854775808".to_string()), Number::PosInt(1 << 63));
    assert_eq!(number_from("-9223372036854775808".to_string()), Number::NegInt(i64::MIN));
    for kept in ["-0", "1.0", "1e3", "18446744073709551616", "-9223372036854775809"] {
        assert_eq!(number_from(kept.to_string()), Number::Other(kept.to_string()));
    }
    assert_eq!(json("-0").as_i64(), Some(0));
    assert_eq!(json(most).as_i64(), None);
}

// ============================================================================
// Paths
// ============================================================================

fn steps(path: &str) -> Vec<PathStep> {
    parse_json_path(path).expect("the path parses")
}

fn key(name: &str) -> PathStep {
    PathStep::Key(name.to_string())
}

#[test]
fn the_document_itself_has_no_steps() {
    assert_eq!(steps("$"), vec![]);
    assert_eq!(steps(""), vec![]);
}

#[test]
fn a_key_is_written_bare_or_after_a_dot() {
    assert_eq!(steps("a"), vec![key("a")]);
    assert_eq!(steps(".obj.c1"), vec![key("obj"), key("c1")]);
    assert_eq!(steps("._underscore"), vec![key("_underscore")]);
}

#[test]
fn a_bracket_holds_an_index_or_a_quoted_key() {
    assert_eq!(steps("arr[0]"), vec![key("arr"), PathStep::Index(0)]);
    assert_eq!(steps("['!@#$%^']"), vec![key("!@#$%^")]);
    assert_eq!(
        steps("translations['hello world!']"),
        vec![key("translations"), key("hello world!")]
    );
}

#[test]
fn a_dot_before_a_bracket_changes_nothing() {
    let expected = vec![key("objs"), PathStep::Index(0), key("\u{4f60}\u{597d}")];
    for spelling in [
        "objs[0]['\u{4f60}\u{597d}']",
        "objs[0][\"\u{4f60}\u{597d}\"]",
        "objs[0].[\"\u{4f60}\u{597d}\"]",
        "objs.[0].[\"\u{4f60}\u{597d}\"]",
    ] {
        assert_eq!(steps(spelling), expected, "{}", spelling);
    }
}

#[test]
fn a_bracket_that_never_closes_is_refused() {
    assert!(parse_json_path("arr[0").is_err());
    assert!(parse_json_path("['key'").is_err());
    let error = parse_json_path("arr[0").unwrap_err();
    assert_eq!(error.message, "\"arr[0\" is not a JSON path: a bracket is never closed");
    assert_eq!(error.code.as_deref(), Some("validation-failed"));
}

#[test]
fn a_step_the_document_does_not_have_reads_null() {
    let document = json("{\"obj\": {\"c1\": \"c2\"}, \"arr\": [1, 2, 3]}");
    let at = |path| walk_json_path(&document, path).expect("the path parses");
    assert_eq!(at(".obj.c1"), Json::String("c2".to_string()));
    assert_eq!(at("arr[1]"), Json::Number(Number::PosInt(2)));
    assert_eq!(at("arr[9]"), Json::Null);
    assert_eq!(at(".obj.nothing"), Json::Null);
    assert_eq!(at("obj[0]"), Json::Null);
    assert_eq!(at("arr.first"), Json::Null);
}

// ============================================================================
// Another table
// ============================================================================

fn column(name: &str, data_type: &str, nominal_type: &str, position: i32) -> Column {
    Column {
        name: name.into(),
        description: None,
        nullable: false,
        data_type: data_type.into(),
        nominal_type: nominal_type.into(),
        max_len: None,
        default: None,
        enum_values: vec![],
        is_pk: name == "id",
        position,
        always_generated: false,
        domain_type: None,
    }
}

fn create_test_schema_cache() -> SchemaCache {
    SchemaCache {
        tables: vec![Table {
            schema: "public".into(),
            name: "users".into(),
            description: None,
            is_view: false,
            insertable: true,
            updatable: true,
            deletable: true,
            pk_cols: vec!["id".into()],
            unique_constraints: Vec::new(),
            columns: vec![
                column("id", "integer", "int4", 1),
                column("name", "text", "text", 2),
            ],
            computed_columns: vec![],
            is_partitioned: false,
        }],
        relationships: vec![],
        routines: vec![],
    }
}

fn no_words() -> Vocabulary {
    Vocabulary { spatial: vec![], trees: vec![], directions: vec![], aggregates: vec![] }
}

#[test]
fn exists_is_a_subselect_over_another_table() {
    let cache = create_test_schema_cache();
    let names = NameOverrides { tables: vec![] };
    let words = no_words();
    let relationships: Vec<TypeRelationships> = vec![];
    let scope = WhereScope::table("public", "users", "users", &names, &words)
        .with_resolution(&cache, &relationships);

    let mut param_idx = 1usize;
    let mut values: Vec<Json> = Vec::new();
    let mut aliases = 0usize;
    let sql = build_condition(
        &json("{\"_exists\": {\"_table\": \"users\", \"_where\": {\"name\": {\"_eq\": \"Ann\"}}}}"),
        &scope,
        &mut param_idx,
        &mut values,
        &mut aliases,
    )
    .expect("compiles")
    .expect("constrains something");

    assert_eq!(
        sql,
        "EXISTS (SELECT 1 FROM \"public\".\"users\" AS \"pgrst_exists_1\" \
         WHERE \"pgrst_exists_1\".\"name\" = $1::text)"
    );
    assert_eq!(values, vec![json("\"Ann\"")]);
}

#[test]
fn exists_names_a_table_the_server_has() {
    let cache = create_test_schema_cache();
    let names = NameOverrides { tables: vec![] };
    let words = no_words();
    let relationships: Vec<TypeRelationships> = vec![];
    let scope = WhereScope::table("public", "users", "users", &names, &words)
        .with_resolution(&cache, &relationships);
    let error = build_condition(
        &json("{\"_exists\": {\"_table\": \"nowhere\", \"_where\": {}}}"),
        &scope,
        &mut 1,
        &mut Vec::new(),
        &mut 0,
    )
    .expect_err("a table that is not there is an error");
    assert!(error.message.contains("public.nowhere"), "{}", error.message);
}

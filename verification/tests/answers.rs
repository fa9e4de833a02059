use postrust_graphql::answer::field_answer;
use postrust_graphql::catalog::{
    FunctionArgument, NameOverrides, SchemaCache, Table, TableNames, TypeRelationships,
};
use postrust_graphql::comparison::Vocabulary;
use postrust_graphql::entity::{entity_lookup, entity_lookups};
use postrust_graphql::generated::{
    type_names_of, FederationEntity, FunctionField, GeneratedSchema, GraphQLField, GraphQLType,
    QueryField, TableObjectType,
};
use postrust_graphql::input::filter::{
    combine_with_and, negate_tree, BooleanFilterInput, IntFilterInput,
};
use postrust_graphql::insert::{Batch, Place, Step};
use postrust_graphql::json::{Json, Number};
use postrust_graphql::mutate::{reads_again, rows_read_again, MutationType};
use postrust_graphql::read::ReadField;
use postrust_graphql::request::{LogicOperator, LogicTree};
use postrust_graphql::resolver::query::{FieldFilter, TableFilter};
use postrust_graphql::role::{Caller, Rule};
use postrust_graphql::schema_def::Source;
use postrust_graphql::scope::Sources;
use postrust_graphql::statement::WriteSources;
use postrust_graphql::text::{decimal_int_text, escape_ident, parse_i64};

fn whole(n: u64) -> Json {
    Json::Number(Number::PosInt(n))
}

fn text(s: &str) -> Json {
    Json::String(s.to_string())
}

fn object(entries: Vec<(&str, Json)>) -> Json {
    Json::Object(entries.into_iter().map(|(k, v)| (k.to_string(), v)).collect())
}

// ============================================================================
// Fields of a parent
// ============================================================================

fn parent() -> Json {
    object(vec![
        ("name", text("a")),
        ("gone", Json::Null),
        ("doc", object(vec![("k", Json::Array(vec![whole(1), Json::Null]))])),
        ("rows", Json::Array(vec![whole(1)])),
        ("n", whole(4)),
        ("count", whole(2)),
    ])
}

fn answer(source: Source, name: &str, alias: Option<&str>, path: Option<&str>) -> Option<Json> {
    field_answer(source, name, alias, path, &parent()).expect("the path parses")
}

#[test]
fn a_column_answers_its_value_and_null_answers_nothing() {
    let column = Source::Column { path: false };
    assert_eq!(answer(column, "name", None, None), Some(text("a")));
    assert_eq!(answer(column, "gone", None, None), None);
    assert_eq!(answer(column, "absent", None, None), None);
}

#[test]
fn a_part_of_a_document_is_answered_by_its_path() {
    let document = Source::Column { path: true };
    assert_eq!(answer(document, "doc", None, Some("k[0]")), Some(whole(1)));
    assert_eq!(answer(document, "doc", None, Some("k[1]")), None);
    assert_eq!(answer(document, "doc", None, Some("k[7]")), None);
    let refused = field_answer(document, "doc", None, Some("k[0"), &parent()).unwrap_err();
    assert_eq!(refused.code.as_deref(), Some("validation-failed"));
    let plain = Source::Column { path: false };
    assert_eq!(answer(plain, "n", None, Some("k[0")), Some(whole(4)));
}

#[test]
fn a_row_that_points_at_nothing_has_no_related_row() {
    assert_eq!(answer(Source::Related { list: false }, "gone", None, None), None);
    assert_eq!(answer(Source::Related { list: true }, "gone", None, None), Some(Json::Null));
    assert_eq!(answer(Source::RelatedNumbers, "absent", None, None), Some(Json::Null));
}

#[test]
fn a_count_is_read_under_the_name_it_was_asked_for() {
    assert_eq!(answer(Source::Count, "count", None, None), Some(whole(2)));
    assert_eq!(answer(Source::Count, "count", Some("n"), None), Some(whole(4)));
    assert_eq!(answer(Source::Count, "count", Some("absent"), None), Some(whole(0)));
}

#[test]
fn what_a_write_answers_is_never_missing() {
    assert_eq!(answer(Source::AffectedRows, "affected_rows", None, None), Some(whole(0)));
    assert_eq!(answer(Source::Returning, "returning", None, None), Some(Json::Array(vec![])));
    assert_eq!(answer(Source::Nodes, "rows", None, None), Some(Json::Array(vec![whole(1)])));
    assert_eq!(answer(Source::Numbers, "gone", None, None), None);
    assert_eq!(answer(Source::FunctionNumbers, "n", None, None), Some(whole(4)));
    assert_eq!(answer(Source::ColumnNumber, "gone", None, None), Some(Json::Null));
    assert_eq!(answer(Source::Nothing, "n", None, None), None);
}

// ============================================================================
// Root fields
// ============================================================================

fn table(name: &str) -> Table {
    Table {
        schema: "public".into(),
        name: name.into(),
        description: None,
        is_view: false,
        insertable: true,
        updatable: true,
        deletable: true,
        pk_cols: vec!["id".into()],
        unique_constraints: vec![],
        columns: vec![],
        computed_columns: vec![],
        is_partitioned: false,
    }
}

#[test]
fn a_root_field_reads_its_own_table() {
    let field = QueryField {
        name: "users_by_pk".into(),
        schema_name: "public".into(),
        table_name: "users".into(),
        typename: "users".into(),
        local_typename: "users".into(),
        is_by_pk: true,
        pk_columns: vec![("id".into(), "int4".into())],
        return_type: "users".into(),
        description: None,
        rows: true,
        aggregates: false,
        aggregate_name: None,
        aggregate_description: None,
    };
    let read = ReadField::of_query(&field, Some(9));
    assert_eq!(read.table_name, "users");
    assert!(read.is_by_pk);
    assert_eq!(read.pk_columns, vec![("id".to_string(), "int4".to_string())]);
    assert_eq!(read.max_rows, Some(9));
    assert!(read.call.is_none());
}

#[test]
fn a_functions_field_reads_the_table_it_answers_with() {
    let function = FunctionField {
        name: "search".into(),
        schema_name: "api".into(),
        function_name: "find".into(),
        arguments: vec![FunctionArgument {
            name: "term".into(),
            pg_type: "text".into(),
            required: true,
        }],
        session_argument: Some("session".into()),
        returns_schema: "public".into(),
        returns_table: "users".into(),
        returns: "users".into(),
        local_returns: "users".into(),
        description: None,
        volatile: false,
    };
    let read = ReadField::of_function(&function, None);
    assert_eq!(read.schema_name, "public");
    assert_eq!(read.table_name, "users");
    let call = read.call.expect("a call");
    assert_eq!((call.schema.as_str(), call.name.as_str()), ("api", "find"));
    assert_eq!(call.arguments.len(), 1);
    assert_eq!(call.arguments[0].name, "term");
    assert_eq!(call.session_argument.as_deref(), Some("session"));
}

fn entity_schema() -> GeneratedSchema {
    let mut users = table("users");
    users.columns.push(postrust_graphql::catalog::Column {
        name: "id".into(),
        description: None,
        nullable: false,
        data_type: "integer".into(),
        nominal_type: "int4".into(),
        max_len: None,
        default: None,
        enum_values: vec![],
        is_pk: true,
        position: 1,
        always_generated: false,
        domain_type: None,
    });
    GeneratedSchema {
        object_types: vec![TableObjectType {
            name: "people".into(),
            local_name: "people".into(),
            description: None,
            table: users,
            fields: vec![GraphQLField {
                name: "id".into(),
                graphql_type: GraphQLType::Int,
                type_string: "Int!".into(),
                description: None,
                is_pk: true,
                incrementable: true,
                arguments: vec![],
            }],
            writable_fields: vec![],
            insert_columns: None,
            update_columns: None,
            insertable: true,
            updatable: true,
            aggregates: vec![],
        }],
        relationship_fields: vec![],
        query_fields: vec![],
        mutation_fields: vec![],
        function_fields: vec![],
        enum_types: vec![],
        federation_entities: vec![FederationEntity {
            typename: "people".into(),
            key_fields: vec!["id".into()],
            shared: false,
        }],
        enable_federation: true,
        pg_types: vec![],
        filter_scalars: vec![],
    }
}

#[test]
fn a_tables_type_is_not_always_its_name() {
    let names = type_names_of(&entity_schema());
    assert_eq!(names.len(), 1);
    assert_eq!(names[0].table, "users");
    assert_eq!(names[0].typename, "people");
}

#[test]
fn an_entity_is_looked_up_by_the_columns_behind_its_key() {
    let lookups = entity_lookups(&entity_schema(), &NameOverrides { tables: vec![] });
    let found = entity_lookup(&lookups, "people").expect("it is an entity");
    assert_eq!(found.table_name, "users");
    assert_eq!(found.key_columns.len(), 1);
    assert_eq!(found.key_columns[0].column_name, "id");
    assert!(!found.key_columns[0].explicit_id);
    match entity_lookup(&lookups, "ghosts") {
        Err(error) => assert_eq!(error.message, "unknown federation entity \"ghosts\""),
        Ok(_) => panic!("nobody knows it"),
    }
}

// ============================================================================
// Several rows
// ============================================================================

#[test]
fn rows_are_inserted_one_after_another() {
    let caller = Caller {
        tables: vec![],
        otherwise: Rule { filter: Ok(None), check: Ok(None), presets: Ok(vec![]), limit: None },
    };
    let names = NameOverrides { tables: Vec::<TableNames>::new() };
    let words =
        Vocabulary { spatial: vec![], trees: vec![], directions: vec![], aggregates: vec![] };
    let cache = SchemaCache { tables: vec![table("users")], relationships: vec![], routines: vec![] };
    let relationships: Vec<TypeRelationships> = vec![];
    let types = vec![];
    let writes = WriteSources {
        src: Sources { names: &names, words: &words, cache: &cache, relationships: &relationships },
        type_names: &types,
        caller: &caller,
    };
    let place = Place {
        on_conflict: None,
        row: String::new(),
        objects: "$.objects".into(),
        conflict: "$.on_conflict".into(),
    };
    let rows = vec![
        object(vec![("name", text("a"))]),
        object(vec![("name", text("b"))]),
        whole(3),
    ];
    let mut batch = Batch::new(writes, "public", "users", rows, place, false);
    let answers = [Some(object(vec![("id", whole(1))])), None];
    for answer in answers {
        let mut row = batch.begin().expect("it begins").expect("a row is left");
        assert!(matches!(row.advance().expect("it goes on"), Step::Execute(_)));
        let gone = row.refused(postrust_graphql::error::Error::new("gone".into()));
        assert_eq!(gone.path.as_deref(), Some("$.objects"));
        let mut step = row.answer(answer.map(|row| (row, false))).expect("it goes on");
        let done = loop {
            step = match step {
                Step::Done(done) => break done,
                _ => row.advance().expect("it goes on"),
            };
        };
        let written = row.written;
        batch.take(done, written);
    }
    assert_eq!(batch.inserted, vec![object(vec![("id", whole(1))])]);
    assert_eq!(batch.written, 1);
    match batch.begin() {
        Err(error) => assert_eq!(error.message, "each object to insert is an object"),
        Ok(_) => panic!("it is no object"),
    }
    let unknown = Batch::new(
        writes,
        "public",
        "nowhere",
        vec![object(vec![])],
        Place {
            on_conflict: None,
            row: String::new(),
            objects: String::new(),
            conflict: String::new(),
        },
        true,
    );
    match unknown.begin() {
        Err(error) => assert_eq!(error.message, "unknown table \"nowhere\""),
        Ok(_) => panic!("it is not there"),
    }
}

#[test]
fn what_was_deleted_is_not_read_again() {
    assert!(reads_again(MutationType::Update, true, 1));
    assert!(!reads_again(MutationType::Update, true, 0));
    assert!(!reads_again(MutationType::Update, false, 1));
    assert!(!reads_again(MutationType::Delete, true, 1));
    assert!(!reads_again(MutationType::DeleteByPk, true, 1));
    assert_eq!(rows_read_again(vec![whole(1)], vec![whole(2)]), vec![whole(2)]);
    assert_eq!(rows_read_again(vec![whole(1)], vec![]), vec![whole(1)]);
}

// ============================================================================
// Trees, names and numbers
// ============================================================================

fn is_deleted() -> TableFilter {
    TableFilter::new().with_field(
        "deleted",
        FieldFilter::boolean(BooleanFilterInput { eq: Some(true), ..Default::default() }),
    )
}

#[test]
fn negating_twice_gives_the_tree_back() {
    let negated = |tree: &LogicTree| match tree {
        LogicTree::Expr { negated, .. } => *negated,
        LogicTree::Stmt(filter) => filter.op_expr.negated,
    };
    let tree = is_deleted().to_logic_tree().expect("it asks something");
    assert!(!negated(&tree));
    let once = negate_tree(tree);
    assert!(negated(&once));
    assert!(!negated(&negate_tree(once)));
    assert!(combine_with_and(vec![]).is_none());
}

#[test]
fn alternatives_are_an_expression_even_where_there_is_one() {
    let tree = TableFilter::new().with_or(vec![is_deleted()]).to_logic_tree();
    match tree {
        Some(LogicTree::Expr { negated, op, children }) => {
            assert!(!negated);
            assert_eq!(op, LogicOperator::Or);
            assert_eq!(children.len(), 1);
        }
        _ => panic!("an expression"),
    }
    assert!(TableFilter::new().with_or(vec![TableFilter::new()]).to_logic_tree().is_none());
}

#[test]
fn a_filter_that_must_not_hold_comes_out_negated() {
    let both = TableFilter::new()
        .with_field("a", FieldFilter::integer(IntFilterInput { eq: Some(1), ..Default::default() }))
        .with_field("b", FieldFilter::integer(IntFilterInput { eq: Some(2), ..Default::default() }));
    match TableFilter::new().with_not(both).to_logic_tree() {
        Some(LogicTree::Expr { negated, children, .. }) => {
            assert!(negated);
            assert_eq!(children.len(), 2);
        }
        _ => panic!("an expression"),
    }
}

#[test]
fn two_filters_that_must_not_hold_cancel() {
    let age = || {
        TableFilter::new().with_field(
            "age",
            FieldFilter::integer(IntFilterInput {
                gte: Some(18),
                lte: Some(65),
                ..Default::default()
            }),
        )
    };
    let once = TableFilter::new().with_not(age());
    match TableFilter::new().with_not(once).to_logic_tree() {
        Some(LogicTree::Expr { negated, op, children }) => {
            assert!(!negated);
            assert_eq!(op, LogicOperator::And);
            let stated: Vec<String> = children
                .iter()
                .map(|child| match child {
                    LogicTree::Stmt(filter) => {
                        assert_eq!(filter.field.name, "age");
                        assert!(!filter.op_expr.negated);
                        format!("{:?}", filter.op_expr.operation)
                    }
                    _ => panic!("a statement"),
                })
                .collect();
            assert_eq!(stated.len(), 2);
            assert!(stated[0].contains("GreaterThanEqual") && stated[0].contains("\"18\""));
            assert!(stated[1].contains("LessThanEqual") && stated[1].contains("\"65\""));
        }
        _ => panic!("an expression"),
    }
    let thrice = TableFilter::new().with_not(TableFilter::new().with_not(
        TableFilter::new().with_not(age()),
    ));
    assert!(matches!(thrice.to_logic_tree(), Some(LogicTree::Expr { negated: true, .. })));
}

#[test]
fn a_column_keeps_the_last_filter_it_was_given() {
    let filter = TableFilter::new()
        .with_field("a", FieldFilter::integer(IntFilterInput { eq: Some(1), ..Default::default() }))
        .with_field("a", FieldFilter::integer(IntFilterInput { eq: Some(2), ..Default::default() }));
    assert_eq!(filter.fields.len(), 1);
    match filter.to_logic_tree() {
        Some(LogicTree::Stmt(filter)) => {
            assert!(format!("{:?}", filter.op_expr.operation).contains("\"2\""));
        }
        _ => panic!("a statement"),
    }
}

#[test]
fn names_are_quoted_apart() {
    assert_eq!(escape_ident("a\"b"), "\"a\"\"b\"");
    assert_ne!(escape_ident("a\"\"b"), escape_ident("a\"b"));
}

#[test]
fn an_integer_is_read_back_from_its_text() {
    for n in [0, 7, -1, i64::MAX, i64::MIN] {
        assert_eq!(parse_i64(&decimal_int_text(n)), Some(n));
    }
    assert_eq!(parse_i64("+5"), Some(5));
    assert_eq!(parse_i64(""), None);
    assert_eq!(parse_i64("9223372036854775808"), None);
}

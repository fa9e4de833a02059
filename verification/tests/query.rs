use postrust_graphql::catalog::{Column, Table};
use postrust_graphql::input::filter::{BooleanFilterInput, IntFilterInput, StringFilterInput};
use postrust_graphql::input::order::OrderByField;
use postrust_graphql::request::{LogicOperator, LogicTree};
use postrust_graphql::resolver::query::{
    build_order_terms, build_read_plan, build_select_fields, build_where_clauses, FieldFilter,
    QueryArgs, TableFilter,
};

fn column(name: &str, data_type: &str, nominal_type: &str, nullable: bool, position: i32) -> Column {
    Column {
        name: name.into(),
        description: None,
        nullable,
        data_type: data_type.into(),
        nominal_type: nominal_type.into(),
        max_len: None,
        default: if name == "id" {
            Some("nextval('users_id_seq')".into())
        } else {
            None
        },
        enum_values: vec![],
        is_pk: name == "id",
        position,
        always_generated: false,
        domain_type: None,
    }
}

fn create_test_table() -> Table {
    Table {
        schema: "public".into(),
        name: "users".into(),
        description: None,
        is_view: false,
        insertable: true,
        updatable: true,
        deletable: true,
        pk_cols: vec!["id".into()],
        unique_constraints: vec![],
        columns: vec![
            column("id", "integer", "int4", false, 1),
            column("name", "text", "text", false, 2),
            column("email", "text", "text", true, 3),
            column("age", "integer", "int4", true, 4),
        ],
        computed_columns: vec![],
        is_partitioned: false,
    }
}

// ============================================================================
// QueryArgs Tests
// ============================================================================

#[test]
fn test_query_args_default() {
    let args = QueryArgs::new();
    assert!(!args.has_select());
    assert!(!args.has_filter());
    assert!(!args.has_order_by());
    assert!(!args.has_pagination());
}

#[test]
fn test_query_args_with_select() {
    let args = QueryArgs::new().with_select(vec!["id".to_string(), "name".to_string()]);
    assert!(args.has_select());
    assert_eq!(args.select.len(), 2);
}

#[test]
fn test_query_args_with_filter() {
    let filter = TableFilter::new().with_field(
        "name",
        FieldFilter::string(StringFilterInput {
            eq: Some("test".to_string()),
            ..Default::default()
        }),
    );
    let args = QueryArgs::new().with_filter(filter);
    assert!(args.has_filter());
}

#[test]
fn test_query_args_with_order_by() {
    let args = QueryArgs::new().with_order_by(vec![OrderByField::desc("created_at")]);
    assert!(args.has_order_by());
    assert_eq!(args.order_by.len(), 1);
}

#[test]
fn test_query_args_with_pagination() {
    let args = QueryArgs::new().with_limit(10).with_offset(20);
    assert!(args.has_pagination());
    assert_eq!(args.limit, Some(10));
    assert_eq!(args.offset, Some(20));
}

#[test]
fn test_query_args_to_range() {
    let args = QueryArgs::new().with_limit(10).with_offset(5);
    let range = args.to_range();
    assert_eq!(range.offset, 5);
    assert_eq!(range.limit, Some(10));
}

#[test]
fn test_query_args_with_relation() {
    let child_args = QueryArgs::new().with_limit(5);
    let args = QueryArgs::new().with_relation("orders".to_string(), child_args);
    assert!(args.relations.iter().any(|(name, _)| name == "orders"));
}

// ============================================================================
// TableFilter Tests
// ============================================================================

#[test]
fn test_table_filter_empty() {
    let filter = TableFilter::new();
    assert!(filter.is_empty());
    assert!(filter.to_logic_tree().is_none());
}

#[test]
fn test_table_filter_single_field() {
    let filter = TableFilter::new().with_field(
        "name",
        FieldFilter::string(StringFilterInput {
            eq: Some("Alice".to_string()),
            ..Default::default()
        }),
    );
    assert!(!filter.is_empty());
    assert!(filter.to_logic_tree().is_some());
}

#[test]
fn test_table_filter_multiple_fields() {
    let filter = TableFilter::new()
        .with_field(
            "name",
            FieldFilter::string(StringFilterInput {
                eq: Some("Alice".to_string()),
                ..Default::default()
            }),
        )
        .with_field(
            "age",
            FieldFilter::integer(IntFilterInput {
                gt: Some(18),
                ..Default::default()
            }),
        );

    let tree = filter.to_logic_tree().unwrap();
    match tree {
        LogicTree::Expr { children, .. } => {
            assert_eq!(children.len(), 2);
        }
        _ => panic!("Expected Expr for multiple fields"),
    }
}

#[test]
fn test_table_filter_with_and() {
    let filter1 = TableFilter::new().with_field(
        "a",
        FieldFilter::integer(IntFilterInput {
            eq: Some(1),
            ..Default::default()
        }),
    );
    let filter2 = TableFilter::new().with_field(
        "b",
        FieldFilter::integer(IntFilterInput {
            eq: Some(2),
            ..Default::default()
        }),
    );

    let combined = TableFilter::new().with_and(vec![filter1, filter2]);
    let tree = combined.to_logic_tree().unwrap();
    assert!(matches!(tree, LogicTree::Expr { .. }));
}

#[test]
fn test_table_filter_with_or() {
    let filter1 = TableFilter::new().with_field(
        "status",
        FieldFilter::string(StringFilterInput {
            eq: Some("active".to_string()),
            ..Default::default()
        }),
    );
    let filter2 = TableFilter::new().with_field(
        "status",
        FieldFilter::string(StringFilterInput {
            eq: Some("pending".to_string()),
            ..Default::default()
        }),
    );

    let combined = TableFilter::new().with_or(vec![filter1, filter2]);
    let tree = combined.to_logic_tree().unwrap();

    match tree {
        LogicTree::Expr {
            op: LogicOperator::Or,
            ..
        } => {}
        _ => panic!("Expected OR expression"),
    }
}

#[test]
fn test_table_filter_with_not() {
    let inner = TableFilter::new().with_field(
        "deleted",
        FieldFilter::boolean(BooleanFilterInput {
            eq: Some(true),
            ..Default::default()
        }),
    );

    let filter = TableFilter::new().with_not(inner);
    let tree = filter.to_logic_tree().unwrap();

    match tree {
        LogicTree::Expr { negated: true, .. } | LogicTree::Stmt(_) => {}
        _ => panic!("Expected negated expression"),
    }
}

// ============================================================================
// FieldFilter Tests
// ============================================================================

#[test]
fn test_field_filter_string() {
    let filter = FieldFilter::string(StringFilterInput {
        eq: Some("test".to_string()),
        ..Default::default()
    });
    let filters = filter.to_filters("name");
    assert_eq!(filters.len(), 1);
}

#[test]
fn test_field_filter_int() {
    let filter = FieldFilter::integer(IntFilterInput {
        gte: Some(18),
        lte: Some(65),
        ..Default::default()
    });
    let filters = filter.to_filters("age");
    assert_eq!(filters.len(), 2); // gte and lte
}

#[test]
fn test_field_filter_boolean() {
    let filter = FieldFilter::boolean(BooleanFilterInput {
        eq: Some(true),
        ..Default::default()
    });
    let filters = filter.to_filters("active");
    assert_eq!(filters.len(), 1);
}

// ============================================================================
// Build Functions Tests
// ============================================================================

#[test]
fn test_build_select_fields_empty() {
    let table = create_test_table();
    let fields = build_select_fields(&vec![], &table);
    assert_eq!(fields.len(), 4); // All columns
}

#[test]
fn test_build_select_fields_specific() {
    let table = create_test_table();
    let fields = build_select_fields(&vec!["id".to_string(), "name".to_string()], &table);
    assert_eq!(fields.len(), 2);
}

#[test]
fn test_build_select_fields_invalid_column() {
    let table = create_test_table();
    let fields = build_select_fields(&vec!["nonexistent".to_string()], &table);
    assert_eq!(fields.len(), 0); // Invalid columns are skipped
}

#[test]
fn test_build_order_terms() {
    let table = create_test_table();
    let order_by = vec![OrderByField::desc("name"), OrderByField::asc("id")];
    let terms = build_order_terms(&order_by, &table);
    assert_eq!(terms.len(), 2);
}

#[test]
fn test_build_order_terms_invalid_column() {
    let table = create_test_table();
    let order_by = vec![OrderByField::desc("nonexistent")];
    let terms = build_order_terms(&order_by, &table);
    assert_eq!(terms.len(), 0); // Invalid columns are skipped
}

#[test]
fn test_build_where_clauses_none() {
    let table = create_test_table();
    let clauses = build_where_clauses(&None, &table);
    assert!(clauses.is_empty());
}

#[test]
fn test_build_where_clauses_with_filter() {
    let table = create_test_table();
    let filter = TableFilter::new().with_field(
        "name",
        FieldFilter::string(StringFilterInput {
            eq: Some("test".to_string()),
            ..Default::default()
        }),
    );
    let clauses = build_where_clauses(&Some(filter), &table);
    assert_eq!(clauses.len(), 1);
}

// ============================================================================
// ReadPlan Building Tests
// ============================================================================

#[test]
fn test_build_read_plan_basic() {
    let table = create_test_table();
    let args = QueryArgs::new();
    let plan = build_read_plan(&args, &table);

    assert_eq!(plan.from.name, "users");
    assert_eq!(plan.select.len(), 4); // All columns
    assert!(plan.where_clauses.is_empty());
    assert!(plan.order.is_empty());
}

#[test]
fn test_build_read_plan_with_select() {
    let table = create_test_table();
    let args = QueryArgs::new().with_select(vec!["id".to_string(), "name".to_string()]);
    let plan = build_read_plan(&args, &table);

    assert_eq!(plan.select.len(), 2);
}

#[test]
fn test_build_read_plan_with_filter() {
    let table = create_test_table();
    let filter = TableFilter::new().with_field(
        "age",
        FieldFilter::integer(IntFilterInput {
            gte: Some(18),
            ..Default::default()
        }),
    );
    let args = QueryArgs::new().with_filter(filter);
    let plan = build_read_plan(&args, &table);

    assert!(!plan.where_clauses.is_empty());
}

#[test]
fn test_build_read_plan_with_order() {
    let table = create_test_table();
    let args = QueryArgs::new().with_order_by(vec![OrderByField::desc("name")]);
    let plan = build_read_plan(&args, &table);

    assert_eq!(plan.order.len(), 1);
}

#[test]
fn test_build_read_plan_with_pagination() {
    let table = create_test_table();
    let args = QueryArgs::new().with_limit(10).with_offset(20);
    let plan = build_read_plan(&args, &table);

    assert_eq!(plan.range.limit, Some(10));
    assert_eq!(plan.range.offset, 20);
}

#[test]
fn test_build_read_plan_full() {
    let table = create_test_table();
    let filter = TableFilter::new()
        .with_field(
            "name",
            FieldFilter::string(StringFilterInput {
                like: Some("%John%".to_string()),
                ..Default::default()
            }),
        )
        .with_field(
            "age",
            FieldFilter::integer(IntFilterInput {
                gte: Some(21),
                ..Default::default()
            }),
        );

    let args = QueryArgs::new()
        .with_select(vec![
            "id".to_string(),
            "name".to_string(),
            "email".to_string(),
        ])
        .with_filter(filter)
        .with_order_by(vec![OrderByField::asc("name")])
        .with_limit(50)
        .with_offset(0);

    let plan = build_read_plan(&args, &table);

    assert_eq!(plan.select.len(), 3);
    assert!(!plan.where_clauses.is_empty());
    assert_eq!(plan.order.len(), 1);
    assert_eq!(plan.range.limit, Some(50));
    assert_eq!(plan.range.offset, 0);
}

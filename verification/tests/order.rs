use postrust_graphql::input::order::{
    make_order_enum, parse_order_enum, NullsOrder, OrderAndPagination, OrderByField,
    OrderDirection, PaginationInput,
};
use postrust_graphql::request::{Direction, OrderNulls, OrderTerm};

// ============================================================================
// OrderDirection Tests
// ============================================================================

#[test]
fn test_order_direction_default() {
    let dir = OrderDirection::default();
    assert_eq!(dir, OrderDirection::Asc);
}

#[test]
fn test_order_direction_to_core() {
    let asc: Direction = OrderDirection::Asc.into();
    assert!(matches!(asc, Direction::Asc));

    let desc: Direction = OrderDirection::Desc.into();
    assert!(matches!(desc, Direction::Desc));
}

// ============================================================================
// NullsOrder Tests
// ============================================================================

#[test]
fn test_nulls_order_to_core() {
    let first: OrderNulls = NullsOrder::First.into();
    assert!(matches!(first, OrderNulls::First));

    let last: OrderNulls = NullsOrder::Last.into();
    assert!(matches!(last, OrderNulls::Last));
}

// ============================================================================
// OrderByField Tests
// ============================================================================

#[test]
fn test_order_by_field_asc() {
    let field = OrderByField::asc("name");
    assert_eq!(field.field, "name");
    assert_eq!(field.direction, OrderDirection::Asc);
    assert!(field.nulls.is_none());
}

#[test]
fn test_order_by_field_desc() {
    let field = OrderByField::desc("created_at");
    assert_eq!(field.field, "created_at");
    assert_eq!(field.direction, OrderDirection::Desc);
}

#[test]
fn test_order_by_field_with_nulls() {
    let field = OrderByField::desc("name").with_nulls(NullsOrder::Last);
    assert_eq!(field.nulls, Some(NullsOrder::Last));
}

#[test]
fn test_order_by_field_to_order_term() {
    let field = OrderByField::desc("name").with_nulls(NullsOrder::First);
    let term = field.to_order_term();

    match term {
        OrderTerm::Field {
            field,
            direction,
            nulls,
        } => {
            assert_eq!(field.name, "name");
            assert!(matches!(direction, Some(Direction::Desc)));
            assert!(matches!(nulls, Some(OrderNulls::First)));
        }
        _ => panic!("Expected Field order term"),
    }
}

// ============================================================================
// PaginationInput Tests
// ============================================================================

#[test]
fn test_pagination_default() {
    let pagination = PaginationInput::default();
    assert!(pagination.limit.is_none());
    assert!(pagination.offset.is_none());
    assert!(pagination.is_empty());
}

#[test]
fn test_pagination_with_limit() {
    let pagination = PaginationInput::with_limit(10);
    assert_eq!(pagination.limit, Some(10));
    assert!(pagination.offset.is_none());
    assert!(!pagination.is_empty());
}

#[test]
fn test_pagination_with_offset() {
    let pagination = PaginationInput::with_offset(10, 20);
    assert_eq!(pagination.limit, Some(10));
    assert_eq!(pagination.offset, Some(20));
    assert!(!pagination.is_empty());
}

#[test]
fn test_pagination_offset_or_default() {
    let pagination = PaginationInput::default();
    assert_eq!(pagination.offset_or_default(), 0);

    let pagination = PaginationInput::with_offset(10, 5);
    assert_eq!(pagination.offset_or_default(), 5);
}

// ============================================================================
// OrderAndPagination Tests
// ============================================================================

#[test]
fn test_order_and_pagination_default() {
    let oap = OrderAndPagination::default();
    assert!(oap.order_by.is_empty());
    assert!(oap.pagination.is_empty());
}

#[test]
fn test_order_and_pagination_new() {
    let oap = OrderAndPagination::new(
        vec![OrderByField::desc("created_at")],
        PaginationInput::with_limit(10),
    );

    assert_eq!(oap.order_by.len(), 1);
    assert_eq!(oap.pagination.limit, Some(10));
}

#[test]
fn test_order_and_pagination_to_order_terms() {
    let oap = OrderAndPagination::new(
        vec![OrderByField::desc("created_at"), OrderByField::asc("name")],
        PaginationInput::default(),
    );

    let terms = oap.to_order_terms();
    assert_eq!(terms.len(), 2);
}

// ============================================================================
// Order Enum Parsing Tests
// ============================================================================

#[test]
fn test_parse_order_enum_asc() {
    let field = parse_order_enum("name_ASC").unwrap();
    assert_eq!(field.field, "name");
    assert_eq!(field.direction, OrderDirection::Asc);
}

#[test]
fn test_parse_order_enum_desc() {
    let field = parse_order_enum("created_at_DESC").unwrap();
    assert_eq!(field.field, "created_at");
    assert_eq!(field.direction, OrderDirection::Desc);
}

#[test]
fn test_parse_order_enum_underscore_field() {
    let field = parse_order_enum("created_at_ASC").unwrap();
    assert_eq!(field.field, "created_at");
    assert_eq!(field.direction, OrderDirection::Asc);
}

#[test]
fn test_parse_order_enum_invalid() {
    assert!(parse_order_enum("name").is_none());
    assert!(parse_order_enum("name_INVALID").is_none());
}

#[test]
fn test_make_order_enum() {
    assert_eq!(make_order_enum("id", OrderDirection::Asc), "id_ASC");
    assert_eq!(make_order_enum("name", OrderDirection::Desc), "name_DESC");
    assert_eq!(
        make_order_enum("created_at", OrderDirection::Asc),
        "created_at_ASC"
    );
}

#[test]
fn test_order_enum_roundtrip() {
    let original = OrderByField::desc("user_id");
    let enum_value = make_order_enum(&original.field, original.direction);
    let parsed = parse_order_enum(&enum_value).unwrap();

    assert_eq!(parsed.field, original.field);
    assert_eq!(parsed.direction, original.direction);
}

#[test]
fn an_ordering_that_was_read_is_spelled_the_same_again() {
    for name in ["name_ASC", "created_at_DESC", "_ASC", "a_ASC_DESC"] {
        let read = parse_order_enum(name).unwrap();
        assert_eq!(make_order_enum(&read.field, read.direction), name);
    }
}

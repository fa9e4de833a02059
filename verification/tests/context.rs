use postrust_graphql::context::{
    hasura_session_document, role_statement, session_settings_for, settings_statement, AuthResult,
    GraphQLContext,
};
use postrust_graphql::json::{Json, Number};

fn create_test_auth() -> AuthResult {
    AuthResult {
        role: "authenticated".into(),
        claims: vec![
            ("user_id".into(), Json::Number(Number::PosInt(123))),
            ("role".into(), Json::String("admin".into())),
        ],
    }
}

fn session(pairs: &[(&str, &str)]) -> Vec<(String, String)> {
    pairs
        .iter()
        .map(|(name, value)| (name.to_string(), value.to_string()))
        .collect()
}

fn setting<'a>(settings: &'a [(String, String)], name: &str) -> Option<&'a str> {
    settings
        .iter()
        .find(|(key, _)| key == name)
        .map(|(_, value)| value.as_str())
}

fn text(value: &str) -> Json {
    Json::String(value.to_string())
}

#[test]
fn test_context_role() {
    let ctx = GraphQLContext::new(create_test_auth());
    assert_eq!(ctx.auth.role, "authenticated");
    assert_eq!(ctx.role(), "authenticated");
}

#[test]
fn test_context_claim() {
    let ctx = GraphQLContext::new(create_test_auth());
    assert_eq!(ctx.claim("user_id"), Some(&Json::Number(Number::PosInt(123))));
    assert_eq!(ctx.claim("absent"), None);
}

#[test]
fn the_session_document_says_which_role_is_asking() {
    let document = hasura_session_document(&session(&[("user_id", "1")]), "user");
    assert_eq!(document.get("x-hasura-role"), Some(&text("user")));
    assert_eq!(document.get("x-hasura-user-id"), Some(&text("1")));
}

#[test]
fn a_session_name_gets_its_dashes_back_in_the_document() {
    let document = hasura_session_document(&session(&[("infant_name", "Bittu")]), "infant");
    assert_eq!(document.get("x-hasura-infant-name"), Some(&text("Bittu")));
}

#[test]
fn the_role_is_a_setting_of_its_own_beside_the_document() {
    let settings = session_settings_for(&session(&[("user_id", "1")]), "Artist");
    assert_eq!(setting(&settings, "hasura.role"), Some("Artist"));
    assert_eq!(setting(&settings, "hasura.user_id"), Some("1"));
    let document: serde_json::Value =
        serde_json::from_str(setting(&settings, "hasura.session").unwrap()).unwrap();
    assert_eq!(document["x-hasura-role"], "Artist");
}

#[test]
fn graphql_transactions_receive_the_verified_jwt_claims_document() {
    let ctx = GraphQLContext::new(create_test_auth());

    let settings = ctx.session_settings();
    let claims: serde_json::Value =
        serde_json::from_str(setting(&settings, "request.jwt.claims").unwrap()).unwrap();

    assert_eq!(claims["user_id"], 123);
    assert_eq!(claims["role"], "authenticated");
}

#[test]
fn a_name_that_could_not_be_a_setting_is_dropped_rather_than_written() {
    let settings = session_settings_for(
        &session(&[("user_id", "1"), ("bad'; drop table t; --", "x")]),
        "user",
    );
    assert!(setting(&settings, "hasura.user_id").is_some());
    assert!(settings
        .iter()
        .all(|(name, _)| !name.contains("drop table")));
}

#[test]
fn an_empty_name_is_no_setting() {
    let settings = session_settings_for(&session(&[("", "1")]), "user");
    assert_eq!(settings.len(), 2);
}

#[test]
fn the_role_is_not_the_sessions_to_choose() {
    let document = hasura_session_document(&session(&[("role", "admin")]), "user");
    assert_eq!(document.get("x-hasura-role"), Some(&text("user")));
    assert_eq!(document.text(), "{\"x-hasura-role\":\"user\"}");
}

#[test]
fn a_value_is_quoted_in_the_document() {
    let settings = session_settings_for(&session(&[("name", "a\"b\\c\n")]), "user");
    assert_eq!(
        setting(&settings, "hasura.session"),
        Some("{\"x-hasura-name\":\"a\\\"b\\\\c\\n\",\"x-hasura-role\":\"user\"}")
    );
}

#[test]
fn the_named_role_speaks_and_the_database_role_runs() {
    let ctx = GraphQLContext::new(create_test_auth());
    assert_eq!(ctx.acting_role(), "authenticated");
    assert_eq!(ctx.caller().role, None);
    let ctx = ctx
        .with_identity(Some("Artist".into()), true)
        .with_session(session(&[("user_id", "7")]));
    assert_eq!(ctx.acting_role(), "Artist");
    assert_eq!(ctx.caller().role, Some("Artist"));
    assert_eq!(ctx.caller().session.len(), 1);
    assert!(ctx.elevated);
    assert_eq!(ctx.role(), "authenticated");
    assert_eq!(ctx.hasura_session().get("x-hasura-role"), Some(&text("Artist")));
}

#[test]
fn every_setting_is_made_by_one_statement() {
    assert!(settings_statement(&vec![]).is_none());
    let (sql, values) = settings_statement(&session(&[("a", "1"), ("b", "2")])).unwrap();
    assert_eq!(sql, "SELECT set_config($1, $2, true), set_config($3, $4, true)");
    assert_eq!(values, vec!["a", "1", "b", "2"]);
}

#[test]
fn a_role_is_taken_on_under_its_quoted_name() {
    assert_eq!(role_statement("web\"anon"), "SET LOCAL ROLE \"web\"\"anon\"");
}

use tento_server::auth::claims::Claims;
use tento_server::auth::middleware::{authenticated_user, bearer_token};
use tento_server::errors::AppError;
use tento_server::logging::generate_correlation_id;
use tento_server::middleware::csrf::{csrf_protector, CsrfConfig};
use tento_server::middleware::rate_limiter::{rate_limiter, RateLimitConfig};
use tento_server::middleware::store::KeyedStore;
use tento_server::models::domain::user::UserRole;
use tento_server::services::model_service::{
    cap_page_text, fetch_tool_reply, fetched_page_reply, next_tool_attempt, preview_tool_reply,
    tool_action, ToolAction, ToolCall,
};

#[test]
fn bearer_tokens_are_extracted() {
    assert_eq!(bearer_token(Some("Bearer abc.def")).unwrap(), "abc.def");
    assert!(matches!(bearer_token(None), Err(AppError::Unauthorized(m)) if m == "Missing authorization header"));
    assert!(matches!(bearer_token(Some("Basic xyz")), Err(AppError::Unauthorized(m)) if m == "Invalid authorization header format"));
    assert!(matches!(bearer_token(Some("Bear")), Err(AppError::Unauthorized(_))));
}

#[test]
fn requests_without_claims_are_not_authenticated() {
    assert!(matches!(authenticated_user(None), Err(AppError::Unauthorized(m)) if m == "Not authenticated"));
    let claims = Claims {
        sub: "u".to_string(),
        username: "u".to_string(),
        email: "u@x.io".to_string(),
        role: UserRole::User,
        iat: 0,
        exp: 1,
    };
    assert_eq!(authenticated_user(Some(claims)).unwrap().0.sub, "u");
}

#[test]
fn csrf_tokens_expire_and_can_be_withdrawn() {
    let mut state = csrf_protector(CsrfConfig::default());
    let token = state.create_token(0);
    assert_eq!(token.len(), 36);
    assert!(state.validate_token(&token, 3_599_999_999).is_ok());
    assert!(matches!(state.validate_token(&token, 3_600_000_000), Err(AppError::BadRequest(m)) if m == "Invalid or expired CSRF token"));
    assert!(state.validate_token("unknown", 0).is_err());
    state.invalidate_token(&token);
    assert!(state.validate_token(&token, 1).is_err());
}

#[test]
fn rate_limit_allows_a_burst_then_refills() {
    let mut limiter = rate_limiter(RateLimitConfig::default());
    for _ in 0..3 {
        assert!(limiter.check_rate_limit("client", 0).is_ok());
    }
    assert_eq!(limiter.check_rate_limit("client", 0), Err("Rate limit exceeded".to_string()));
    // five requests per minute: one request's worth comes back every 12 s
    assert!(limiter.check_rate_limit("client", 11_999_999).is_err());
    assert!(limiter.check_rate_limit("client", 12_000_000 + 11_999_999).is_ok());
    assert!(limiter.check_rate_limit("other", 0).is_ok());
}

#[test]
fn keyed_store_maps_keys_to_values() {
    let mut store: KeyedStore<u32> = KeyedStore::new();
    store.insert("a".to_string(), 1);
    store.insert("b".to_string(), 2);
    store.insert("a".to_string(), 3);
    assert_eq!(store.get("a"), Some(&3));
    store.remove("a");
    assert_eq!(store.get("a"), None);
    assert_eq!(store.get("b"), Some(&2));
}

#[test]
fn correlation_ids_are_fresh() {
    let a = generate_correlation_id();
    assert_eq!(a.len(), 36);
    assert_ne!(a, generate_correlation_id());
}

#[test]
fn tool_loop_gives_up_after_six_attempts() {
    assert_eq!(next_tool_attempt(0), Ok(1));
    assert_eq!(next_tool_attempt(5), Ok(6));
    assert_eq!(next_tool_attempt(6), Err("Tool loop exceeded maximum attempts".to_string()));
}

#[test]
fn tool_calls_are_dispatched() {
    let a = tool_action(ToolCall::Function { id: "1".to_string(), name: "fetch_webpage".to_string(), arguments: "{}".to_string() });
    assert!(matches!(a, ToolAction::FetchWebpage { .. }));
    let b = tool_action(ToolCall::Function { id: "2".to_string(), name: "dance".to_string(), arguments: "{}".to_string() });
    match b {
        ToolAction::Reply { call_id, content } => {
            assert_eq!(call_id, "2");
            assert_eq!(content, r#"{"error":"Unsupported tool: dance"}"#);
        }
        other => panic!("unexpected {:?}", other),
    }
    let c = tool_action(ToolCall::Custom { id: "3".to_string(), name: "x".to_string() });
    assert!(matches!(c, ToolAction::Reply { content, .. } if content == "Unsupported custom tool: x"));
}

#[test]
fn tool_replies_are_json_with_sorted_keys() {
    assert_eq!(fetch_tool_reply("u", "q", "c\""), r#"{"content":"c\"","query":"q","url":"u"}"#);
    assert_eq!(preview_tool_reply("u", "c"), r#"{"content":"c","url":"u"}"#);
}

#[test]
fn page_text_is_cleaned_and_capped() {
    assert_eq!(fetched_page_reply("<p>Hi   there</p>", true, "200 OK", "q"), "Query: q\nHi there");
    assert_eq!(
        fetched_page_reply("<b>gone</b>", false, "404 Not Found", "q"),
        "Failed to fetch URL. Status: 404 Not Found. Body (truncated): gone"
    );
    let long = "é".repeat(10_001);
    let capped = cap_page_text(&long);
    assert_eq!(capped, format!("{}\n[TRUNCATED]", "é".repeat(10_000)));
    assert_eq!(cap_page_text("short"), "short");
}

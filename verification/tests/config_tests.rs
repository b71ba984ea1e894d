use tento_server::config::Config;
use tento_server::errors::AppError;
use tento_server::handlers::auth_handler::{
    auth_response, check_stored_refresh_token, full_name, github_email, logout_outcome,
    oauth_access_token, role_name, validate_and_select_redirect_uri,
};
use tento_server::json::{JsonMap, JsonValue};
use tento_server::models::domain::refresh_token::RefreshToken;
use tento_server::models::domain::user::{User, UserRole};

#[test]
fn test_test_config() {
    let config = Config::test_config();

    assert_eq!(config.mongo_conn_string, "mongodb://localhost:27017");
    assert_eq!(config.mongo_db_name, "tento-test");
    assert_eq!(config.users_collection, "users");
}

#[test]
fn test_get_users_collection() {
    let config = Config::test_config();
    assert_eq!(config.users_collection, "users");
}

#[test]
fn config_from_values_falls_back_to_defaults() {
    let config = Config::from_values(None, None, None, None, None);
    assert_eq!(config.mongo_conn_string, "mongodb://localhost:27017");
    assert_eq!(config.mongo_db_name, "tento-local");
    assert_eq!(config.users_collection, "users");
    assert_eq!(config.web_server_host, "localhost");
    assert_eq!(config.allowed_redirect_origins, vec!["http://localhost:5173".to_string()]);
}

#[test]
fn config_from_values_keeps_given_settings() {
    let config = Config::from_values(
        Some("mongodb://db:27017".to_string()),
        Some("prod".to_string()),
        Some("people".to_string()),
        Some("0.0.0.0".to_string()),
        Some("HTTPS://App.Example.com:443/, nonsense ,http://localhost:3000".to_string()),
    );
    assert_eq!(config.mongo_db_name, "prod");
    assert_eq!(config.users_collection, "people");
    assert_eq!(
        config.allowed_redirect_origins,
        vec!["https://app.example.com".to_string(), "http://localhost:3000".to_string()]
    );
}

#[test]
fn canonicalize_origin_lowers_and_drops_default_port() {
    assert_eq!(
        Config::canonicalize_origin("  HTTP://Example.COM:80/path?q=1 "),
        Some("http://example.com".to_string())
    );
    assert_eq!(
        Config::canonicalize_origin("https://app.test:8443/some/path"),
        Some("https://app.test:8443".to_string())
    );
    assert_eq!(Config::canonicalize_origin("example.com"), None);
    assert_eq!(Config::canonicalize_origin("https:///path"), None);
    assert_eq!(Config::canonicalize_origin("://host"), None);
}

#[test]
fn allowed_provided_redirect_is_accepted() {
    let allowed = vec![
        "http://example.com".to_string(),
        "https://app.test:8443".to_string(),
    ];
    let provided = Some("https://app.test:8443/some/path?q=1");

    let result = validate_and_select_redirect_uri(&allowed, provided).unwrap();
    assert_eq!(result, "https://app.test:8443/some/path?q=1");
}

#[test]
fn disallowed_provided_redirect_is_rejected() {
    let allowed = vec!["http://example.com".to_string()];
    let provided = Some("https://evil.com/callback");

    let result = validate_and_select_redirect_uri(&allowed, provided);
    assert!(result.is_err());
}

#[test]
fn no_provided_redirect_uses_first_allowed() {
    let allowed = vec![
        "http://localhost:5173".to_string(),
        "http://localhost:3000".to_string(),
    ];

    let result = validate_and_select_redirect_uri(&allowed, None).unwrap();
    assert_eq!(result, "http://localhost:5173/auth/callback");
}

#[test]
fn redirect_without_origin_or_allowlist_is_refused() {
    let allowed = vec!["http://example.com".to_string()];
    assert!(matches!(
        validate_and_select_redirect_uri(&allowed, Some("not a url")),
        Err(AppError::BadRequest(_))
    ));
    let none: Vec<String> = vec![];
    assert!(matches!(
        validate_and_select_redirect_uri(&none, None),
        Err(AppError::InternalError(_))
    ));
}

fn object(entries: Vec<(&str, &str)>) -> JsonValue {
    let mut m = JsonMap::new();
    for (k, v) in entries {
        m.insert(k.to_string(), JsonValue::Str(v.to_string()));
    }
    JsonValue::Object(m)
}

#[test]
fn oauth_answer_gives_the_access_token() {
    let answer = object(vec![("access_token", "gho_abc"), ("scope", "")]);
    assert_eq!(oauth_access_token(&answer).unwrap(), "gho_abc");
}

#[test]
fn oauth_error_answer_is_reported() {
    let answer = object(vec![("error", "bad_verification_code"), ("error_description", "expired")]);
    match oauth_access_token(&answer) {
        Err(AppError::InternalError(m)) => assert_eq!(m, "GitHub OAuth error: bad_verification_code - expired"),
        other => panic!("unexpected {:?}", other),
    }
    let bare = object(vec![("error", "x")]);
    match oauth_access_token(&bare) {
        Err(AppError::InternalError(m)) => assert_eq!(m, "GitHub OAuth error: x - Unknown error"),
        other => panic!("unexpected {:?}", other),
    }
    match oauth_access_token(&JsonValue::Null) {
        Err(AppError::InternalError(m)) => assert_eq!(m, "Invalid OAuth response format"),
        other => panic!("unexpected {:?}", other),
    }
    assert!(oauth_access_token(&object(vec![])).is_err());
}

#[test]
fn github_profile_details() {
    assert_eq!(github_email("octo", None), "octo@users.noreply.github.com");
    assert_eq!(github_email("octo", Some("o@x.io".to_string())), "o@x.io");
    assert_eq!(full_name("Ada", ""), Some("Ada".to_string()));
    assert_eq!(full_name("", ""), None);
    assert_eq!(full_name("Ada", "Lovelace"), Some("Ada Lovelace".to_string()));
    assert_eq!(role_name(UserRole::Admin), "admin");
    assert_eq!(role_name(UserRole::User), "user");
}

#[test]
fn auth_response_uses_subject_and_role() {
    let user = User::new("Ada", "Lovelace", "ada", "ada@example.com");
    let r = auth_response("t".to_string(), "r".to_string(), &user);
    assert_eq!(r.id, "ada");
    assert_eq!(r.role, "user");
    assert_eq!(r.full_name, Some("Ada Lovelace".to_string()));
}

#[test]
fn stored_refresh_tokens_are_checked() {
    let live = RefreshToken::made_at("u".to_string(), "h".to_string(), 2_000, 1_000);
    assert!(check_stored_refresh_token(Some(live), 1_500).is_ok());
    let expired = RefreshToken::made_at("u".to_string(), "h".to_string(), 2_000, 1_000);
    match check_stored_refresh_token(Some(expired), 2_000) {
        Err(AppError::Unauthorized(m)) => assert_eq!(m, "Refresh token has expired or been revoked"),
        other => panic!("unexpected {:?}", other),
    }
    match check_stored_refresh_token(None, 0) {
        Err(AppError::Unauthorized(m)) => assert_eq!(m, "Refresh token not found or has been revoked"),
        other => panic!("unexpected {:?}", other),
    }
}

#[test]
fn logout_of_unknown_token_succeeds() {
    assert!(logout_outcome(Ok(())).is_ok());
    assert!(logout_outcome(Err(AppError::NotFound("x".to_string()))).is_ok());
    assert!(logout_outcome(Err(AppError::InternalError("db".to_string()))).is_err());
}

#[test]
fn test_json_map_remove_takes_out_only_that_key() {
    let mut m = JsonMap::new();
    m.insert("a".to_string(), JsonValue::Bool(true));
    m.insert("b".to_string(), JsonValue::Null);
    m.remove("a");
    assert_eq!(m.len(), 1);
    assert!(m.get("a").is_none());
    assert!(matches!(m.get("b"), Some(JsonValue::Null)));
    m.remove("missing");
    assert_eq!(m.len(), 1);
}

#[test]
fn test_strip_prefix() {
    assert_eq!(tento_server::text::strip_prefix("#/$defs/Name", "#/$defs/"), Some("Name".to_string()));
    assert_eq!(tento_server::text::strip_prefix("#/$def", "#/$defs/"), None);
    assert_eq!(tento_server::text::strip_prefix("x#/$defs/A", "#/$defs/"), None);
    assert_eq!(tento_server::text::strip_prefix("abc", ""), Some("abc".to_string()));
}

#[test]
fn test_canonical_origin_canonicalizes_to_itself() {
    for raw in ["HTTPS://App.Example.com:443/callback?x=1", "http://LocalHost:5173", "  https://example.com  "] {
        let once = Config::canonicalize_origin(raw).expect("has an origin");
        let twice = Config::canonicalize_origin(&once).expect("still has an origin");
        assert_eq!(once, twice);
    }
    // The default port goes once per canonicalization.
    assert_eq!(Config::canonicalize_origin("http://x:80:80").as_deref(), Some("http://x:80"));
    assert_eq!(Config::canonicalize_origin("http://x:80").as_deref(), Some("http://x"));
}

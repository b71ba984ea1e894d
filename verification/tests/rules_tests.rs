use tento_server::graphql::helpers::parse_id;
use tento_server::auth::claims::{Claims, RefreshClaims};
use tento_server::auth::jwt::signed_token;
use tento_server::auth::utils::require_user_owner;
use tento_server::errors::AppError;
use tento_server::handlers::auth_handler::{check_stored_refresh_token, oauth_token_of_answer};
use tento_server::json::{JsonMap, JsonValue};
use tento_server::models::domain::refresh_token::RefreshToken;
use tento_server::models::domain::user::{User, UserRole};
use tento_server::models::dto::request::{CreateUserRequestDto, UpdateUserRequestDto};
use tento_server::services::agent_orchestrator_service::JobStep;
use tento_server::services::model_service::{
    checked_response_schema, collapse_whitespace, final_answer, tool_arguments, tool_arguments_of_value,
};
use tento_server::services::quiz_attempt_service::QuizAttemptService;

fn claims_of(sub: &str, role: UserRole) -> Claims {
    Claims {
        sub: sub.to_string(),
        username: "johndoe".to_string(),
        email: "john@example.com".to_string(),
        role,
        exp: 0,
        iat: 0,
    }
}

#[test]
fn test_user_owner_by_stored_id() {
    let claims = claims_of("64f0c0ffee", UserRole::User);
    assert!(require_user_owner(&claims, "johndoe", Some("64f0c0ffee")).is_ok());
    match require_user_owner(&claims, "johndoe", Some("another-id")) {
        Err(AppError::Unauthorized(m)) => assert_eq!(m, "You can only access your own resources"),
        _ => panic!("Expected Unauthorized error"),
    }
    assert!(require_user_owner(&claims, "johndoe", None).is_err());
}

#[test]
fn test_user_owner_by_username_and_admin() {
    let by_name = claims_of("johndoe", UserRole::User);
    assert!(require_user_owner(&by_name, "johndoe", None).is_ok());
    assert!(require_user_owner(&by_name, "johndoe", Some("64f0c0ffee")).is_ok());
    let admin = claims_of("root", UserRole::Admin);
    assert!(require_user_owner(&admin, "johndoe", Some("64f0c0ffee")).is_ok());
}

#[test]
fn test_oauth_token_answers() {
    assert_eq!(oauth_token_of_answer("{\"access_token\":\"gho_abc\",\"scope\":\"\"}").unwrap(), "gho_abc");
    match oauth_token_of_answer("{\"scope\":\"user\"}") {
        Err(AppError::InternalError(m)) => assert_eq!(
            m,
            "No access_token in GitHub response. Possible issues: invalid code, or GitHub credentials misconfigured"
        ),
        _ => panic!("Expected internal error"),
    }
    match oauth_token_of_answer("{\"error\":\"bad_verification_code\"}") {
        Err(AppError::InternalError(m)) => assert_eq!(m, "GitHub OAuth error: bad_verification_code - Unknown error"),
        _ => panic!("Expected internal error"),
    }
    match oauth_token_of_answer("not json") {
        Err(AppError::InternalError(m)) => {
            assert!(m.starts_with("Failed to parse token response: "));
            assert!(m.ends_with(" | Response: not json"));
        }
        _ => panic!("Expected internal error"),
    }
}

#[test]
fn test_tool_arguments() {
    let (url, query) = tool_arguments("{\"url\":\"https://example.com\",\"query\":\"rust\"}", true).unwrap();
    assert_eq!(url, "https://example.com");
    assert_eq!(query, Some("rust".to_string()));
    let (url, query) = tool_arguments("{\"url\":\"https://example.com\"}", false).unwrap();
    assert_eq!(url, "https://example.com");
    assert_eq!(query, None);
    assert_eq!(tool_arguments("{\"url\":\"https://example.com\"}", true).unwrap_err(), "missing field `query`");
    assert_eq!(tool_arguments("{\"query\":\"rust\"}", true).unwrap_err(), "missing field `url`");
    assert_eq!(tool_arguments("{\"url\":5}", false).unwrap_err(), "invalid type for field `url`");
    assert!(tool_arguments("{", false).is_err());
}

#[test]
fn test_final_answer() {
    assert!(matches!(final_answer(None), Ok(None)));
    match final_answer(Some("{\"title\":\"Quiz\"}")) {
        Ok(Some(JsonValue::Object(m))) => assert!(matches!(m.get("title"), Some(JsonValue::Str(t)) if t == "Quiz")),
        _ => panic!("Expected an object"),
    }
    assert!(final_answer(Some("not json")).is_err());
}

fn reference(name: &str) -> JsonValue {
    let mut m = JsonMap::new();
    m.insert("$ref".to_string(), JsonValue::Str(format!("#/$defs/{}", name)));
    JsonValue::Object(m)
}

#[test]
fn test_checked_response_schema() {
    let mut defs = JsonMap::new();
    let mut option = JsonMap::new();
    option.insert("type".to_string(), JsonValue::Str("string".to_string()));
    defs.insert("Option".to_string(), JsonValue::Object(option));
    let mut schema = JsonMap::new();
    schema.insert("items".to_string(), reference("Option"));
    schema.insert("$defs".to_string(), JsonValue::Object(defs));
    match checked_response_schema(&JsonValue::Object(schema), 8) {
        Some(JsonValue::Object(m)) => {
            assert!(m.get("$defs").is_none());
            match m.get("items") {
                Some(JsonValue::Object(items)) => {
                    assert!(matches!(items.get("type"), Some(JsonValue::Str(t)) if t == "string"));
                    assert!(items.get("$ref").is_none());
                }
                _ => panic!("Expected the definition inlined"),
            }
        }
        _ => panic!("Expected a schema"),
    }

    let mut next = JsonMap::new();
    next.insert("next".to_string(), reference("Node"));
    let mut node = JsonMap::new();
    node.insert("properties".to_string(), JsonValue::Object(next));
    let mut looping = JsonMap::new();
    looping.insert("Node".to_string(), JsonValue::Object(node));
    let mut schema = JsonMap::new();
    schema.insert("items".to_string(), reference("Node"));
    schema.insert("$defs".to_string(), JsonValue::Object(looping));
    assert!(checked_response_schema(&JsonValue::Object(schema), 8).is_none());
}

#[test]
fn test_collapse_whitespace_shape_and_idempotence() {
    let once = collapse_whitespace("  a \n\t b  ");
    assert_eq!(once, "a b");
    assert_eq!(collapse_whitespace(&once), once);
    let text = collapse_whitespace("\u{00a0}one\u{2003}\u{2003}two\r\nthree ");
    assert_eq!(text, "one two three");
    assert_eq!(collapse_whitespace(&text), text);
}

fn is_uuid_v4(s: &str) -> bool {
    let c: Vec<char> = s.chars().collect();
    c.len() == 36
        && c.iter().enumerate().all(|(i, ch)| {
            if [8, 13, 18, 23].contains(&i) {
                *ch == '-'
            } else {
                ch.is_ascii_digit() || ('a'..='f').contains(ch)
            }
        })
        && c[14] == '4'
        && ['8', '9', 'a', 'b'].contains(&c[19])
}

#[test]
fn test_fresh_ids_are_uuid_v4() {
    let attempt = QuizAttemptService::create_attempt("user-1", "quiz-1", 2, 3, 1, 2, Vec::new());
    assert!(is_uuid_v4(&attempt.id));
    assert!(attempt.passed);
    assert!(is_uuid_v4(&JobStep::new("create_quiz").id));
}

#[test]
fn test_refresh_token_is_single_use() {
    let record = RefreshToken::made_at("johndoe".to_string(), "hash".to_string(), 2_000, 1_000);
    let mut record = check_stored_refresh_token(Some(record), 1_500).unwrap();
    assert_eq!(record.token_hash, "hash");
    record.revoke();
    assert!(record.revoked);
    assert_eq!(record.expires_at, 2_000);
    match check_stored_refresh_token(Some(record), 1_500) {
        Err(AppError::Unauthorized(m)) => assert_eq!(m, "Refresh token has expired or been revoked"),
        _ => panic!("Expected Unauthorized error"),
    }
}

#[test]
fn test_token_lifetimes_are_exact() {
    let user = User::new("John", "Doe", "johndoe", "john@example.com");
    let claims = Claims::new(&user, 24);
    assert_eq!(claims.exp - claims.iat, 24 * 3600);
    let refresh = RefreshClaims::new("johndoe", 168);
    assert_eq!(refresh.exp - refresh.iat, 168 * 3600);
}

#[test]
fn test_email_without_at_is_refused() {
    let create = CreateUserRequestDto {
        first_name: "John".to_string(),
        last_name: "Doe".to_string(),
        username: "johndoe".to_string(),
        email: "invalid-email".to_string(),
    };
    assert_eq!(create.validate().unwrap_err(), vec!["email".to_string()]);
    let update = UpdateUserRequestDto { first_name: None, last_name: None, email: Some("invalid-email".to_string()) };
    assert_eq!(update.validate().unwrap_err(), vec!["email".to_string()]);
}

#[test]
fn test_uuid_forms_accepted_as_ids() {
    assert!(parse_id("550e8400-e29b-41d4-a716-446655440000").is_ok());
    assert!(parse_id("550E8400E29B41D4A716446655440000").is_ok());
    assert!(parse_id("{550e8400-e29b-41d4-a716-446655440000}").is_ok());
    assert!(parse_id("URN:uuid:550e8400-e29b-41d4-a716-446655440000").is_ok());
    match parse_id("550e8400-e29b-41d4-a716-44665544000g") {
        Err(AppError::ValidationError(m)) => assert_eq!(m, "Invalid id format; expected UUID or 24-char ObjectId hex"),
        _ => panic!("Expected validation error"),
    }
    assert!(parse_id("[550e8400-e29b-41d4-a716-446655440000]").is_err());
}

#[test]
fn test_signing_failure_is_reported() {
    assert_eq!(signed_token(Ok("a.b.c".to_string()), "Failed to create JWT: ").unwrap(), "a.b.c");
    match signed_token(Err("InvalidKeyFormat".to_string()), "Failed to create JWT: ") {
        Err(AppError::InternalError(m)) => assert_eq!(m, "Failed to create JWT: InvalidKeyFormat"),
        _ => panic!("Expected internal error"),
    }
}

#[test]
fn test_tool_arguments_of_value() {
    let mut m = JsonMap::new();
    m.insert("url".to_string(), JsonValue::Str("https://example.com".to_string()));
    let v = JsonValue::Object(m);
    assert_eq!(tool_arguments_of_value(&v, false).unwrap(), ("https://example.com".to_string(), None));
    assert_eq!(tool_arguments_of_value(&v, true).unwrap_err(), "missing field `query`");
    assert_eq!(tool_arguments_of_value(&JsonValue::Null, false).unwrap_err(), "missing field `url`");
}

#[test]
fn test_collapse_keeps_every_word_character() {
    let input = " \tquiz\u{00a0}\u{00a0}about  Rust\n ";
    let out = collapse_whitespace(input);
    let words = |s: &str| s.chars().filter(|c| !c.is_whitespace()).collect::<String>();
    assert_eq!(words(&out), words(input));
    assert_eq!(out, "quiz about Rust");
}

#[test]
fn test_issued_tokens_read_back_their_claims() {
    let svc = tento_server::auth::jwt::JwtService::new("round-trip-secret", 2, 168);
    let user = User::new("Jane", "Roe", "janeroe", "jane@example.com");
    let token = svc.create_token(&user).unwrap();
    let claims = svc.validate_token(&token).unwrap();
    assert_eq!(claims.sub, "janeroe");
    assert_eq!(claims.username, "janeroe");
    assert_eq!(claims.email, "jane@example.com");
    assert_eq!(claims.role, UserRole::User);
    assert_eq!(claims.exp - claims.iat, 2 * 3600);
    let refresh = svc.create_refresh_token("janeroe").unwrap();
    let rc = svc.validate_refresh_token(&refresh).unwrap();
    assert_eq!(rc.sub, "janeroe");
    assert_eq!(rc.token_type, "refresh");
    assert_eq!(rc.exp - rc.iat, 168 * 3600);
}

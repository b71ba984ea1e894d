use tento_server::auth::jwt::{claims_of_decoded, refresh_claims_of, JwtFailure, JwtService};
use tento_server::json::{JsonMap, JsonValue};
use tento_server::auth::claims::{Claims, RefreshClaims};
use tento_server::auth::utils::{
    can_view_quiz_attempt, can_view_quiz_results, require_admin, require_owner_or_admin,
    require_quiz_owner,
};
use tento_server::errors::AppError;
use tento_server::models::domain::user::{User, UserRole};

fn create_test_claims(username: &str, role: UserRole) -> Claims {
    Claims {
        sub: username.to_string(),
        username: username.to_string(),
        email: format!("{}@example.com", username),
        role,
        iat: 0,
        exp: 9999999999,
    }
}

#[test]
fn test_claims_creation() {
    let user = User::new("John", "Doe", "johndoe", "john@example.com");
    let claims = Claims::new(&user, 24);

    assert_eq!(claims.sub, "johndoe");
    assert_eq!(claims.username, "johndoe");
    assert_eq!(claims.email, "john@example.com");
    assert!(claims.exp > claims.iat);
}

#[test]
fn test_refresh_claims_creation() {
    let refresh_claims = RefreshClaims::new("johndoe", 168);

    assert_eq!(refresh_claims.sub, "johndoe");
    assert_eq!(refresh_claims.token_type, "refresh");
    assert!(refresh_claims.exp > refresh_claims.iat);
}

#[test]
fn claims_issued_at_a_given_second_expire_hours_later() {
    let user = User::new("John", "Doe", "johndoe", "john@example.com");
    let claims = Claims::issued_at(&user, 2, 1_700_000_000);
    assert_eq!(claims.iat, 1_700_000_000);
    assert_eq!(claims.exp, 1_700_000_000 + 2 * 3600);
}

#[test]
fn refresh_claims_of_another_kind_are_refused() {
    let mut claims = RefreshClaims::new("johndoe", 1);
    assert!(claims.check_refresh_type().is_ok());
    claims.token_type = "access".to_string();
    assert!(matches!(claims.check_refresh_type(), Err(AppError::Unauthorized(_))));
}

#[test]
fn test_require_admin_success() {
    let claims = create_test_claims("admin", UserRole::Admin);
    assert!(require_admin(&claims).is_ok());
}

#[test]
fn test_require_admin_failure() {
    let claims = create_test_claims("user", UserRole::User);
    assert!(require_admin(&claims).is_err());
}

#[test]
fn test_require_owner_or_admin_as_owner() {
    let claims = create_test_claims("john", UserRole::User);
    assert!(require_owner_or_admin(&claims, "john").is_ok());
}

#[test]
fn test_require_owner_or_admin_as_admin() {
    let claims = create_test_claims("admin", UserRole::Admin);
    assert!(require_owner_or_admin(&claims, "other_user").is_ok());
}

#[test]
fn test_require_owner_or_admin_failure() {
    let claims = create_test_claims("john", UserRole::User);
    assert!(require_owner_or_admin(&claims, "jane").is_err());
}

#[test]
fn test_can_view_quiz_results_as_creator() {
    let user_id = "550e8400-e29b-41d4-a716-446655440000";
    assert!(can_view_quiz_results(user_id, user_id, false).is_ok());
}

#[test]
fn test_can_view_quiz_results_after_attempt() {
    let user_id = "550e8400-e29b-41d4-a716-446655440000";
    let quiz_creator = "550e8400-e29b-41d4-a716-446655440001";
    assert!(can_view_quiz_results(user_id, quiz_creator, true).is_ok());
}

#[test]
fn test_can_view_quiz_results_forbidden() {
    let user_id = "550e8400-e29b-41d4-a716-446655440000";
    let quiz_creator = "550e8400-e29b-41d4-a716-446655440001";
    assert!(can_view_quiz_results(user_id, quiz_creator, false).is_err());
}

#[test]
fn test_can_view_quiz_attempt_as_owner() {
    let user_id = "550e8400-e29b-41d4-a716-446655440000";
    assert!(can_view_quiz_attempt(user_id, user_id).is_ok());
}

#[test]
fn test_can_view_quiz_attempt_forbidden() {
    let user_id = "550e8400-e29b-41d4-a716-446655440000";
    let attempt_user_id = "550e8400-e29b-41d4-a716-446655440001";
    assert!(can_view_quiz_attempt(user_id, attempt_user_id).is_err());
}

#[test]
fn require_quiz_owner_allows_owner() {
    let claims = Claims {
        sub: "user-1".to_string(),
        username: "user1".to_string(),
        email: "u1@example.com".to_string(),
        role: UserRole::User,
        iat: 0,
        exp: 9999999999,
    };

    assert!(require_quiz_owner(&claims, "user-1").is_ok());
}

#[test]
fn require_quiz_owner_denies_other() {
    let claims = Claims {
        sub: "user-2".to_string(),
        username: "user2".to_string(),
        email: "u2@example.com".to_string(),
        role: UserRole::User,
        iat: 0,
        exp: 9999999999,
    };

    assert!(require_quiz_owner(&claims, "user-1").is_err());
}

#[test]
fn require_owner_or_admin_allows_admin() {
    let claims = Claims {
        sub: "admin-1".to_string(),
        username: "admin".to_string(),
        email: "admin@example.com".to_string(),
        role: UserRole::Admin,
        iat: 0,
        exp: 9999999999,
    };

    assert!(require_owner_or_admin(&claims, "some-other").is_ok());
}

#[test]
fn require_quiz_owner_refusal_names_the_rule() {
    let claims = create_test_claims("john", UserRole::User);
    match require_quiz_owner(&claims, "jane") {
        Err(AppError::Forbidden(m)) => assert_eq!(m, "Only the quiz owner can perform this action"),
        other => panic!("unexpected {:?}", other),
    }
}

const TEST_SECRET: &str = "test-jwt-secret";

#[test]
fn test_jwt_create_and_validate() {
    let jwt_service = JwtService::new(TEST_SECRET, 1, 168);

    let user = User::new("John", "Doe", "johndoe", "john@example.com");
    let token = jwt_service.create_token(&user).unwrap();

    assert!(!token.is_empty());

    let claims = jwt_service.validate_token(&token).unwrap();
    assert_eq!(claims.sub, "johndoe");
    assert_eq!(claims.email, "john@example.com");
}

#[test]
fn test_jwt_invalid_token() {
    let jwt_service = JwtService::new(TEST_SECRET, 1, 168);

    let result = jwt_service.validate_token("invalid.token.here");
    assert!(result.is_err());
}

#[test]
fn test_refresh_token_create_and_validate() {
    let jwt_service = JwtService::new(TEST_SECRET, 1, 168);

    let refresh_token = jwt_service.create_refresh_token("johndoe").unwrap();
    assert!(!refresh_token.is_empty());

    let claims = jwt_service.validate_refresh_token(&refresh_token).unwrap();
    assert_eq!(claims.sub, "johndoe");
    assert_eq!(claims.token_type, "refresh");
}

#[test]
fn test_refresh_token_invalid() {
    let jwt_service = JwtService::new(TEST_SECRET, 1, 168);

    let result = jwt_service.validate_refresh_token("invalid.token.here");
    assert!(result.is_err());

    match result {
        Err(AppError::Unauthorized(msg)) => {
            assert!(msg.contains("refresh token") || msg.contains("Refresh token"));
        }
        _ => panic!("Expected Unauthorized error"),
    }
}

#[test]
fn test_token_signed_with_another_secret_is_refused() {
    let issuer = JwtService::new("one-secret", 1, 168);
    let checker = JwtService::new("another-secret", 1, 168);
    let token = issuer.create_refresh_token("johndoe").unwrap();
    match checker.validate_refresh_token(&token) {
        Err(AppError::Unauthorized(msg)) => assert_eq!(msg, "Refresh token signature is invalid"),
        _ => panic!("Expected Unauthorized error"),
    }
    let access = issuer.create_token(&User::new("John", "Doe", "johndoe", "john@example.com")).unwrap();
    match checker.validate_token(&access) {
        Err(AppError::Unauthorized(msg)) => assert_eq!(msg, "Invalid token: InvalidSignature"),
        _ => panic!("Expected Unauthorized error"),
    }
}

#[test]
fn test_expired_refresh_token_is_refused() {
    let jwt_service = JwtService::new(TEST_SECRET, 1, -2);
    let token = jwt_service.create_refresh_token("johndoe").unwrap();
    match jwt_service.validate_refresh_token(&token) {
        Err(AppError::Unauthorized(msg)) => assert_eq!(msg, "Refresh token has expired"),
        _ => panic!("Expected Unauthorized error"),
    }
}

#[test]
fn test_access_token_is_not_a_refresh_token() {
    let jwt_service = JwtService::new(TEST_SECRET, 1, 168);
    let user = User::new("John", "Doe", "johndoe", "john@example.com");
    let access = jwt_service.create_token(&user).unwrap();
    match jwt_service.validate_refresh_token(&access) {
        Err(AppError::Unauthorized(msg)) => {
            assert_eq!(msg, "Refresh token validation failed: JSON error: missing field `token_type`")
        }
        _ => panic!("Expected Unauthorized error"),
    }
    let claims = jwt_service.validate_token(&access).unwrap();
    assert_eq!(claims.role, UserRole::User);
    assert_eq!(claims.exp - claims.iat, 3600);
}

#[test]
fn test_decoded_refresh_claims_of_another_type_are_refused() {
    let mut m = JsonMap::new();
    m.insert("sub".to_string(), JsonValue::Str("johndoe".to_string()));
    m.insert("token_type".to_string(), JsonValue::Str("access".to_string()));
    m.insert("exp".to_string(), JsonValue::Number("20".to_string()));
    m.insert("iat".to_string(), JsonValue::Number("10".to_string()));
    match refresh_claims_of(Ok(JsonValue::Object(m))) {
        Err(AppError::Unauthorized(msg)) => assert_eq!(msg, "Token is not a refresh token"),
        _ => panic!("Expected Unauthorized error"),
    }
    match refresh_claims_of(Err(JwtFailure::InvalidToken)) {
        Err(AppError::Unauthorized(msg)) => assert_eq!(msg, "Invalid refresh token format"),
        _ => panic!("Expected Unauthorized error"),
    }
    match refresh_claims_of(Err(JwtFailure::Other("Base64 error: x".to_string()))) {
        Err(AppError::Unauthorized(msg)) => assert_eq!(msg, "Refresh token validation failed: Base64 error: x"),
        _ => panic!("Expected Unauthorized error"),
    }
    match claims_of_decoded(Err(JwtFailure::ExpiredSignature)) {
        Err(AppError::Unauthorized(msg)) => assert_eq!(msg, "Invalid token: ExpiredSignature"),
        _ => panic!("Expected Unauthorized error"),
    }
}

#[test]
fn test_decoded_refresh_claims_are_read() {
    let mut m = JsonMap::new();
    m.insert("sub".to_string(), JsonValue::Str("johndoe".to_string()));
    m.insert("token_type".to_string(), JsonValue::Str("refresh".to_string()));
    m.insert("exp".to_string(), JsonValue::Number("1700000000".to_string()));
    m.insert("iat".to_string(), JsonValue::Number("1699999000".to_string()));
    let c = refresh_claims_of(Ok(JsonValue::Object(m))).unwrap();
    assert_eq!(c.sub, "johndoe");
    assert_eq!(c.exp, 1_700_000_000);
    assert_eq!(c.iat, 1_699_999_000);
}

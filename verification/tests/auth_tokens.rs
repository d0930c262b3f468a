use rust_axum_layered_rest_api::common::auth::extractor::authenticate;
use rust_axum_layered_rest_api::common::auth::jwt::{
    claims_from_json, claims_to_json, Claims, JwtConfig, DEFAULT_ACCESS_TOKEN_EXPIRES,
};
use rust_axum_layered_rest_api::common::auth::refresh_token::{
    delete_refresh_token, find_refresh_token, generate_account_refresh_key, generate_refresh_key,
    generate_refresh_token, hash_refresh_token, refresh_lookup_key, rotate_refresh_token,
    save_refresh_token, RedisCommand, REFRESH_TOKEN_BYTES, REFRESH_TOKEN_EXPIRES_IN_SECONDS,
};
use rust_axum_layered_rest_api::common::auth::role::AccountRole;
use rust_axum_layered_rest_api::common::error::AppError;
use rust_axum_layered_rest_api::common::security::password::{hash_password, verify_password};

fn test_config() -> JwtConfig {
    JwtConfig::new("test-secret-key-for-unit-test-only", 3600)
}

fn internal_text<T>(r: Result<T, AppError>) -> String {
    match r {
        Err(AppError::Internal(m)) => m,
        _ => panic!("expected an internal error"),
    }
}

// ----- access tokens -----

#[test]
fn create_and_verify_success() {
    let config = test_config();
    let token = config
        .create_access_token(42, vec![AccountRole::Customer, AccountRole::Employee])
        .expect("토큰 생성 실패");
    assert!(!token.is_empty());
    let claims = config.verify_access_token(&token).expect("토큰 검증 실패");
    assert_eq!(claims.sub, 42);
    assert_eq!(claims.roles, vec![AccountRole::Customer, AccountRole::Employee,]);
    assert!(claims.exp > claims.iat);
}

#[test]
fn verify_invalid_token_fails() {
    let config = test_config();
    let result = config.verify_access_token("invalid.jwt.token");
    assert!(result.is_err());
}

#[test]
fn verify_wrong_secret_fails() {
    let config = test_config();
    let token = config.create_access_token(42, vec![AccountRole::Customer]).unwrap();
    let wrong_config = JwtConfig::new("completely-different-secret", 3600);
    let result = wrong_config.verify_access_token(&token);
    assert!(result.is_err());
}

#[test]
fn different_account_ids_produce_different_tokens() {
    let config = test_config();
    let token1 = config.create_access_token(1, vec![AccountRole::Customer]).unwrap();
    let token2 = config.create_access_token(2, vec![AccountRole::Customer]).unwrap();
    assert_ne!(token1, token2);
}

#[test]
fn expired_token_rejected_by_verify_but_accepted_by_verify_expired() {
    let config = JwtConfig::new("test-secret-key-for-unit-test-only", -120);
    let token = config.create_access_token(1, vec![AccountRole::Customer]).expect("토큰 생성 실패");
    assert!(config.verify_access_token(&token).is_err());
    let claims = config.verify_expired_access_token(&token).expect("만료 토큰 검증(exp 무시) 실패");
    assert_eq!(claims.sub, 1);
}

#[test]
fn issued_token_carries_the_clock_reading() {
    let config = test_config();
    let token = config
        .issue_access_token(-5, vec![AccountRole::Admin], 1_700_000_000, 500)
        .unwrap();
    let claims = config.verify_expired_access_token(&token).unwrap();
    assert_eq!(claims.sub, -5);
    assert_eq!(claims.iat, 1_700_000_000);
    assert_eq!(claims.exp, 1_700_003_600);
    assert_eq!(claims.roles, vec![AccountRole::Admin]);
    // the same claims signed under the same key give the same token
    let again = config
        .issue_access_token(-5, vec![AccountRole::Admin], 1_700_000_000, 999)
        .unwrap();
    assert_eq!(token, again);
    // and an old token is refused once its expiry is checked
    assert!(matches!(config.verify_access_token(&token), Err(AppError::Unauthorized)));
}

#[test]
fn lifetime_out_of_range_is_refused() {
    let config = JwtConfig::new("k", i64::MAX);
    let r = config.create_access_token(1, vec![AccountRole::Customer]);
    assert_eq!(internal_text(r), "JWT 만료 시간 설정 범위를 초과했습니다.");
    let config = JwtConfig::new("k", 9_223_372_036_854_775);
    let r = config.issue_access_token(1, vec![AccountRole::Customer], 1_700_000_000, 0);
    assert_eq!(internal_text(r), "JWT 만료 시간 계산에 실패했습니다.");
}

#[test]
fn tampered_token_is_refused() {
    let config = test_config();
    let token = config.create_access_token(3, vec![AccountRole::Customer]).unwrap();
    let mut bytes = token.into_bytes();
    let last = bytes.len() - 1;
    bytes[last] = if bytes[last] == b'A' { b'B' } else { b'A' };
    let tampered = String::from_utf8(bytes).unwrap();
    assert!(matches!(config.verify_expired_access_token(&tampered), Err(AppError::Unauthorized)));
}

#[test]
fn settings_are_checked() {
    assert_eq!(
        internal_text(JwtConfig::from_settings(None, None)),
        "JWT_SECRET 환경변수가 설정되지 않았습니다."
    );
    assert_eq!(
        internal_text(JwtConfig::from_settings(Some(""), None)),
        "JWT_SECRET은 비어 있을 수 없습니다."
    );
    assert_eq!(
        internal_text(JwtConfig::from_settings(Some("s"), Some("15m"))),
        "JWT_ACCESS_TOKEN_EXPIRES_IN_SECONDS는 올바른 정수여야 합니다."
    );
    assert_eq!(
        internal_text(JwtConfig::from_settings(Some("s"), Some(" 60"))),
        "JWT_ACCESS_TOKEN_EXPIRES_IN_SECONDS는 올바른 정수여야 합니다."
    );
    assert_eq!(
        internal_text(JwtConfig::from_settings(Some("s"), Some("0"))),
        "JWT Access Token 만료 시간은 0보다 커야 합니다."
    );
    assert_eq!(
        internal_text(JwtConfig::from_settings(Some("s"), Some("-3"))),
        "JWT Access Token 만료 시간은 0보다 커야 합니다."
    );
    assert_eq!(DEFAULT_ACCESS_TOKEN_EXPIRES, 900);
    let config = JwtConfig::from_settings(Some("s"), None).unwrap();
    let token = config.issue_access_token(1, vec![AccountRole::Customer], 1000, 0).unwrap();
    assert_eq!(config.verify_expired_access_token(&token).unwrap().exp, 1900);
    let config = JwtConfig::from_settings(Some("s"), Some("+60")).unwrap();
    let token = config.issue_access_token(1, vec![AccountRole::Customer], 1000, 0).unwrap();
    assert_eq!(config.verify_expired_access_token(&token).unwrap().exp, 1060);
}

#[test]
fn claims_json_text_and_reading() {
    let claims = Claims {
        sub: -42,
        exp: 1900,
        iat: 1000,
        roles: vec![AccountRole::Admin, AccountRole::Customer, AccountRole::Employee],
    };
    let text = claims_to_json(&claims);
    assert_eq!(
        text,
        "{\"sub\":-42,\"exp\":1900,\"iat\":1000,\"roles\":[\"ADMIN\",\"CUSTOMER\",\"EMPLOYEE\"]}"
    );
    let back = claims_from_json(&text).unwrap();
    assert_eq!(back.sub, -42);
    assert_eq!(back.exp, 1900);
    assert_eq!(back.iat, 1000);
    assert_eq!(back.roles, claims.roles);
    let none = Claims { sub: 0, exp: 0, iat: 0, roles: vec![] };
    assert_eq!(claims_to_json(&none), "{\"sub\":0,\"exp\":0,\"iat\":0,\"roles\":[]}");
    assert!(claims_from_json("{\"sub\":0,\"exp\":0,\"iat\":0,\"roles\":[]}").unwrap().roles.is_empty());
    assert!(claims_from_json("{\"sub\":1,\"exp\":2,\"iat\":3,\"roles\":[\"admin\"]}").is_none());
    assert!(claims_from_json("{\"sub\":01,\"exp\":2,\"iat\":3,\"roles\":[]}").is_none());
    assert!(claims_from_json("{\"sub\":1,\"exp\":2,\"iat\":3,\"roles\":[]} ").is_none());
    assert!(claims_from_json("").is_none());
}

// ----- Authorization header -----

#[test]
fn missing_header_fails() {
    let result = authenticate(None, &test_config());
    assert!(result.is_err());
}

#[test]
fn missing_bearer_prefix_fails() {
    let result = authenticate(Some("sometoken".as_bytes()), &test_config());
    assert!(result.is_err());
}

#[test]
fn empty_bearer_token_fails() {
    let result = authenticate(Some("Bearer ".as_bytes()), &test_config());
    assert!(result.is_err());
}

#[test]
fn invalid_jwt_fails() {
    let result = authenticate(Some("Bearer invalid.jwt.token".as_bytes()), &test_config());
    assert!(result.is_err());
}

#[test]
fn valid_jwt_succeeds() {
    let jwt = test_config();
    let token = jwt.create_access_token(7, vec![AccountRole::Customer]).unwrap();
    let header_value = format!("Bearer {token}");
    let user = authenticate(Some(header_value.as_bytes()), &jwt).expect("인증 성공해야 함");
    assert_eq!(user.account_id, 7);
    assert_eq!(user.roles, vec![AccountRole::Customer]);
}

#[test]
fn valid_jwt_with_employee_role_succeeds() {
    let jwt = test_config();
    let token = jwt.create_access_token(100, vec![AccountRole::Employee]).unwrap();
    let header_value = format!("Bearer {token}");
    let user = authenticate(Some(header_value.as_bytes()), &jwt).expect("인증 성공해야 함");
    assert_eq!(user.account_id, 100);
    assert_eq!(user.roles, vec![AccountRole::Employee]);
}

#[test]
fn valid_jwt_with_admin_role_succeeds() {
    let jwt = test_config();
    let token = jwt.create_access_token(99, vec![AccountRole::Admin]).unwrap();
    let header_value = format!("Bearer {token}");
    let user = authenticate(Some(header_value.as_bytes()), &jwt).expect("인증 성공해야 함");
    assert_eq!(user.account_id, 99);
    assert_eq!(user.roles, vec![AccountRole::Admin]);
}

#[test]
fn header_must_be_visible_text_and_exact_scheme() {
    let jwt = test_config();
    let token = jwt.create_access_token(5, vec![AccountRole::Customer]).unwrap();
    let mut raw = format!("Bearer {token}").into_bytes();
    raw.push(0x80);
    assert!(matches!(authenticate(Some(&raw), &jwt), Err(AppError::Unauthorized)));
    let lower = format!("bearer {token}");
    assert!(matches!(authenticate(Some(lower.as_bytes()), &jwt), Err(AppError::Unauthorized)));
    let expired = JwtConfig::new("test-secret-key-for-unit-test-only", -120)
        .create_access_token(5, vec![AccountRole::Customer])
        .unwrap();
    let header = format!("Bearer {expired}");
    assert!(matches!(authenticate(Some(header.as_bytes()), &jwt), Err(AppError::Unauthorized)));
}

// ----- refresh tokens -----

#[test]
fn generated_refresh_token_is_not_empty() {
    let token = generate_refresh_token().expect("Refresh Token 생성 실패");
    assert!(!token.is_empty());
    assert_eq!(token.len(), REFRESH_TOKEN_BYTES * 2);
}

#[test]
fn generated_refresh_tokens_are_different() {
    let token1 = generate_refresh_token().expect("Refresh Token 생성 실패");
    let token2 = generate_refresh_token().expect("Refresh Token 생성 실패");
    assert_ne!(token1, token2);
}

#[test]
fn same_token_produces_same_hash() {
    let token = "test-refresh-token";
    let hash1 = hash_refresh_token(token);
    let hash2 = hash_refresh_token(token);
    assert_eq!(hash1, hash2);
}

#[test]
fn different_tokens_produce_different_hashes() {
    let hash1 = hash_refresh_token("token-a");
    let hash2 = hash_refresh_token("token-b");
    assert_ne!(hash1, hash2);
}

#[test]
fn refresh_token_hash_is_hex_sha256() {
    assert_eq!(
        hash_refresh_token("abc"),
        "ba7816bf8f01cfea414140de5dae2223b00361a396177a9cb410ff61f20015ad"
    );
    assert_eq!(
        hash_refresh_token(""),
        "e3b0c44298fc1c149afbf4c8996fb92427ae41e4649b934ca495991b7852b855"
    );
}

// ----- passwords -----

const TEST_PASSWORD: &str = "password123!";

#[test]
fn hash_and_verify_success() {
    let hash = hash_password(TEST_PASSWORD).expect("비밀번호 해싱 실패");
    assert_ne!(hash, TEST_PASSWORD);
    assert!(hash.starts_with("$argon2id$"));
    let verified = verify_password(TEST_PASSWORD, &hash).expect("비밀번호 검증 실패");
    assert!(verified);
}

#[test]
fn verify_wrong_password_failed() {
    let hash = hash_password(TEST_PASSWORD).expect("비밀번호 해싱 실패");
    let verified = verify_password("틀린 비번", &hash).expect("비밀번호 검증 실패");
    assert!(!verified);
}

#[test]
fn same_password_generates_different_hash() {
    let hash1 = hash_password(TEST_PASSWORD).expect("비밀번호 해싱 실패");
    let hash2 = hash_password(TEST_PASSWORD).expect("비밀번호 해싱 실패");
    assert_ne!(hash1, hash2);
}

#[test]
fn malformed_hash_is_an_internal_error() {
    assert_eq!(
        internal_text(verify_password(TEST_PASSWORD, "not-a-phc-string")),
        "비밀번호 해시 형식이 올바르지 않습니다."
    );
}

// ----- refresh sessions -----

fn key_of(c: &RedisCommand) -> &str {
    match c {
        RedisCommand::Del(k) => k,
        RedisCommand::SetEx(k, _, _) => k,
    }
}

#[test]
fn session_keys() {
    assert_eq!(generate_refresh_key("abc"), "refresh:abc");
    assert_eq!(generate_account_refresh_key(-12), "account:-12:refresh");
    assert_eq!(refresh_lookup_key("t"), format!("refresh:{}", hash_refresh_token("t")));
    assert_eq!(REFRESH_TOKEN_EXPIRES_IN_SECONDS, 259200);
}

#[test]
fn saving_a_session_replaces_the_previous_one() {
    let first = save_refresh_token("t1", 5, None);
    assert_eq!(first.len(), 2);
    match &first[0] {
        RedisCommand::SetEx(k, v, ttl) => {
            assert_eq!(k, &format!("refresh:{}", hash_refresh_token("t1")));
            assert_eq!(v, "5");
            assert_eq!(*ttl, REFRESH_TOKEN_EXPIRES_IN_SECONDS);
        },
        _ => panic!("expected a set"),
    }
    match &first[1] {
        RedisCommand::SetEx(k, v, _) => {
            assert_eq!(k, "account:5:refresh");
            assert_eq!(v, &hash_refresh_token("t1"));
        },
        _ => panic!("expected a set"),
    }
    let second = save_refresh_token("t2", 5, Some(hash_refresh_token("t1")));
    assert_eq!(second.len(), 3);
    assert!(matches!(&second[0], RedisCommand::Del(k) if *k == format!("refresh:{}", hash_refresh_token("t1"))));
}

#[test]
fn reading_a_session_record() {
    assert_eq!(find_refresh_token(None).unwrap(), None);
    assert_eq!(find_refresh_token(Some("12".to_string())).unwrap(), Some(12));
    assert_eq!(find_refresh_token(Some("-3".to_string())).unwrap(), Some(-3));
    assert!(matches!(find_refresh_token(Some("12a".to_string())), Err(AppError::Internal(_))));
    assert!(matches!(find_refresh_token(Some("".to_string())), Err(AppError::Internal(_))));
}

#[test]
fn rotation_needs_the_current_session() {
    let current = Some(hash_refresh_token("old"));
    let cmds = rotate_refresh_token("old", "new", 9, current).unwrap();
    assert_eq!(cmds.len(), 3);
    assert_eq!(key_of(&cmds[0]), format!("refresh:{}", hash_refresh_token("old")));
    assert_eq!(key_of(&cmds[1]), format!("refresh:{}", hash_refresh_token("new")));
    assert_eq!(key_of(&cmds[2]), "account:9:refresh");
    assert!(matches!(rotate_refresh_token("old", "new", 9, None), Err(AppError::Unauthorized)));
    let other = Some(hash_refresh_token("other"));
    assert!(matches!(rotate_refresh_token("old", "new", 9, other), Err(AppError::Unauthorized)));
}

#[test]
fn logout_deletes_both_records() {
    let cmds = delete_refresh_token("t", 4);
    assert_eq!(cmds.len(), 2);
    assert!(matches!(&cmds[0], RedisCommand::Del(k) if *k == format!("refresh:{}", hash_refresh_token("t"))));
    assert!(matches!(&cmds[1], RedisCommand::Del(k) if k == "account:4:refresh"));
}

#[test]
fn issuing_succeeds_inside_chronos_dates() {
    let config = test_config();
    let a = config.issue_access_token(1, vec![AccountRole::Customer], 1_700_000_000, 0).unwrap();
    let b = config.issue_access_token(2, vec![AccountRole::Customer], 1_700_000_000, 0).unwrap();
    assert_ne!(a, b);
    let far = config.issue_access_token(1, vec![AccountRole::Customer], -7_999_999_999_999, 0);
    assert!(far.is_ok());
}

//! Token verification, the admin gate and the password flows.

use shop_core::claims::Claims;
use shop_core::data::{LoginRequest, TempUser, User};
use shop_core::errors::ApiError;
use shop_core::orders::update_order_status;
use shop_core::store::Store;
use shop_core::users::{login, registration, update_password};

const ADMIN: &str = "ADMIN";
const SECRET: &str = "test-secret";

fn hs512_token(sub: i32, role: Option<&str>, exp: u64, secret: &str) -> String {
    let mut payload = serde_json::Map::new();
    payload.insert("exp".to_string(), serde_json::Value::from(exp));
    payload.insert("sub".to_string(), serde_json::Value::from(sub));
    payload.insert(
        "role".to_string(),
        match role {
            Some(r) => serde_json::Value::from(r.to_string()),
            None => serde_json::Value::Null,
        },
    );
    jsonwebtoken::encode(
        &jsonwebtoken::Header::new(jsonwebtoken::Algorithm::HS512),
        &serde_json::Value::Object(payload),
        &jsonwebtoken::EncodingKey::from_secret(secret.as_bytes()),
    )
    .expect("encoding should succeed")
}

fn store_with_admin() -> Store {
    let mut s = Store::new();
    s.users.push(User {
        id: 1,
        username: "boss".to_string(),
        email: "boss@example.com".to_string(),
        password_hash: "unused".to_string(),
        first_name: None,
        last_name: None,
        phone_number: None,
        address: None,
        role: Some(ADMIN.to_string()),
    });
    s.next_user_id = 2;
    s
}

fn temp_user(username: &str, email: &str, password: &str) -> TempUser {
    TempUser {
        username: username.to_string(),
        email: email.to_string(),
        password: Some(password.to_string()),
        first_name: None,
        last_name: None,
        phone_number: None,
        role: None,
        address: None,
    }
}

#[test]
fn expired_token_is_rejected_despite_valid_signature() {
    let token = hs512_token(1, Some(ADMIN), 100, SECRET);
    let header = format!("Bearer {token}");
    let r = Claims::from_bearer(&header, SECRET, 100);
    assert!(matches!(r, Err(ApiError::Unauthorized)));
    let r = Claims::from_bearer(&header, SECRET, 5000);
    assert!(matches!(r, Err(ApiError::Unauthorized)));
}

#[test]
fn live_token_round_trips() {
    let token = hs512_token(7, Some("USER"), 10_000, SECRET);
    let header = format!("Bearer {token}");
    let claims = Claims::from_bearer(&header, SECRET, 9_999).expect("token should verify");
    assert_eq!(claims.sub, 7);
    assert_eq!(claims.role.as_deref(), Some("USER"));
    assert_eq!(claims.exp, 10_000);
}

#[test]
fn tampered_or_foreign_tokens_are_rejected() {
    let token = hs512_token(7, None, 10_000, "other-secret");
    let header = format!("Bearer {token}");
    assert!(matches!(Claims::from_bearer(&header, SECRET, 1), Err(ApiError::Unauthorized)));
    let header = format!("Bearer {}", "not.a.token");
    assert!(matches!(Claims::from_bearer(&header, SECRET, 1), Err(ApiError::Unauthorized)));
}

#[test]
fn missing_bearer_prefix_is_rejected() {
    let token = hs512_token(7, None, 10_000, SECRET);
    assert!(matches!(Claims::from_bearer(&token, SECRET, 1), Err(ApiError::Unauthorized)));
    let header = format!("bearer {token}");
    assert!(matches!(Claims::from_bearer(&header, SECRET, 1), Err(ApiError::Unauthorized)));
}

#[test]
fn stale_admin_token_is_rejected_after_downgrade() {
    let mut s = store_with_admin();
    // A token issued while the user was an administrator.
    let claims = Claims { exp: u64::MAX, sub: 1, role: Some(ADMIN.to_string()) };
    assert!(Claims::check_admin(&s, claims, ADMIN).is_ok());
    // The stored role is downgraded afterwards.
    s.users[0].role = Some("USER".to_string());
    let stale = Claims { exp: u64::MAX, sub: 1, role: Some(ADMIN.to_string()) };
    assert!(matches!(Claims::check_admin(&s, stale, ADMIN), Err(ApiError::Unauthorized)));
    // Any admin-gated endpoint refuses the stale token as well.
    let stale = Claims { exp: u64::MAX, sub: 1, role: Some(ADMIN.to_string()) };
    let r = update_order_status(&mut s, stale, ADMIN, 1, Some("sent".to_string()), 900);
    assert!(matches!(r, Err(ApiError::Unauthorized)));
}

#[test]
fn gate_fails_closed_for_unknown_subjects() {
    let s = store_with_admin();
    let claims = Claims { exp: u64::MAX, sub: 404, role: Some(ADMIN.to_string()) };
    assert!(matches!(Claims::check_admin(&s, claims, ADMIN), Err(ApiError::Unauthorized)));
}

#[test]
fn registration_login_and_token_round_trip() {
    let mut s = store_with_admin();
    registration(&mut s, temp_user("ann", "ann@example.com", "hunter2"))
        .expect("registration should succeed");
    let request = LoginRequest {
        email: "ann@example.com".to_string(),
        password: "hunter2".to_string(),
    };
    let response = login(&s, request, SECRET, 500).expect("login should succeed");
    assert_eq!(response.email, "ann@example.com");
    assert_eq!(response.username, "ann");
    // The issued token verifies and names the same subject.
    let header = format!("Bearer {}", response.token);
    let claims = Claims::from_bearer(&header, SECRET, 0).expect("fresh token should verify");
    assert_eq!(claims.sub, response.id);
    assert_eq!(claims.role.as_deref(), Some("USER"));
    assert_eq!(claims.exp, 500 + 86_400);
}

#[test]
fn login_with_wrong_password_is_unauthorized() {
    let mut s = store_with_admin();
    registration(&mut s, temp_user("ann", "ann@example.com", "hunter2")).unwrap();
    let request = LoginRequest {
        email: "ann@example.com".to_string(),
        password: "wrong".to_string(),
    };
    assert!(matches!(login(&s, request, SECRET, 500), Err(ApiError::Unauthorized)));
}

#[test]
fn login_with_unknown_email_is_not_found() {
    let s = store_with_admin();
    let request = LoginRequest {
        email: "nobody@example.com".to_string(),
        password: "x".to_string(),
    };
    assert!(matches!(login(&s, request, SECRET, 500), Err(ApiError::NotFound)));
}

#[test]
fn login_with_malformed_stored_hash_is_an_internal_error() {
    let s = store_with_admin();
    let request = LoginRequest {
        email: "boss@example.com".to_string(),
        password: "x".to_string(),
    };
    assert!(matches!(login(&s, request, SECRET, 500), Err(ApiError::InternalServerError)));
}

#[test]
fn password_change_requires_the_old_password() {
    let mut s = store_with_admin();
    registration(&mut s, temp_user("ann", "ann@example.com", "hunter2")).unwrap();
    let ann = s.users.last().unwrap().id;
    let claims = |role: Option<String>| Claims { exp: u64::MAX, sub: ann, role };
    let r = update_password(&mut s, claims(None), None, Some("next".to_string()));
    assert!(matches!(r, Err(ApiError::BadRequest)));
    let r = update_password(
        &mut s,
        claims(None),
        Some("wrong".to_string()),
        Some("next".to_string()),
    );
    assert!(matches!(r, Err(ApiError::Unauthorized)));
    update_password(&mut s, claims(None), Some("hunter2".to_string()), Some("next".to_string()))
        .expect("password change should succeed");
    let request = LoginRequest {
        email: "ann@example.com".to_string(),
        password: "next".to_string(),
    };
    assert!(login(&s, request, SECRET, 500).is_ok());
    let request = LoginRequest {
        email: "ann@example.com".to_string(),
        password: "hunter2".to_string(),
    };
    assert!(matches!(login(&s, request, SECRET, 500), Err(ApiError::Unauthorized)));
}

#[test]
fn issued_claims_carry_subject_role_and_expiry() {
    let c = Claims::new(12, Some("USER".to_string()), 1_000);
    assert_eq!(c.sub, 12);
    assert_eq!(c.role.as_deref(), Some("USER"));
    assert_eq!(c.exp, 1_000 + 86_400);
    let late = Claims::new(12, None, u64::MAX - 10);
    assert_eq!(late.exp, u64::MAX);
}

//! The plain records of the request layer: constructors set every field.

use ledger::auth::JWTClaim;
use ledger::errors::ErrorResponse;
use ledger::user_types::{
    AuthResponse, UserLoginRequest, UserLoginResponse, UserRegisterRequest, UserRegisterResponse,
};

#[test]
fn auth_response_holds_token() {
    let r = AuthResponse::new("tok".to_string());
    assert_eq!(r.token, "tok");
}

#[test]
fn register_request_holds_credentials() {
    let r = UserRegisterRequest::new("alice".to_string(), "pw".to_string());
    assert_eq!(r.username, "alice");
    assert_eq!(r.password, "pw");
}

#[test]
fn login_request_holds_credentials() {
    let r = UserLoginRequest::new("bob".to_string(), "pw2".to_string());
    assert_eq!(r.username, "bob");
    assert_eq!(r.password, "pw2");
}

#[test]
fn register_response_holds_identity() {
    let r = UserRegisterResponse::new(3, "alice".to_string(), "tok".to_string());
    assert_eq!(r.user_id, 3);
    assert_eq!(r.username, "alice");
    assert_eq!(r.token, "tok");
}

#[test]
fn login_response_holds_identity() {
    let r = UserLoginResponse::new(4, "bob".to_string(), "tok2".to_string());
    assert_eq!(r.user_id, 4);
    assert_eq!(r.username, "bob");
    assert_eq!(r.token, "tok2");
}

#[test]
fn jwt_claim_carries_user_id() {
    let c = JWTClaim::new(12);
    assert_eq!(c.id(), 12);
}

#[test]
fn error_response_holds_fields() {
    let r = ErrorResponse::new("Ledger".to_string(), "no funds".to_string(), 400);
    assert_eq!(r.cause, "Ledger");
    assert_eq!(r.description, "no funds");
    assert_eq!(r.status_code, 400);
}

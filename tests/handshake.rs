use babelbye::handshake::{
    admit_verified, bearer_token, extract_ws_user, find_jwk, parse_user_id, signing_key, Admission,
    AuthError, Claims, Jwk, KeyChoice,
};
use babelbye::ids::UserId;

const ID: &str = "67e55044-10b1-426f-9247-bb680e5fe0c8";
const ID_BITS: u128 = 0x67e5504410b1426f9247bb680e5fe0c8;

#[test]
fn bearer_token_strips_the_scheme() {
    assert_eq!(bearer_token("Bearer abc.def"), Some("abc.def".to_string()));
    assert_eq!(bearer_token("Bearer "), Some(String::new()));
    assert_eq!(bearer_token("Basic abc"), None);
    assert_eq!(bearer_token("bearer abc"), None);
    assert_eq!(bearer_token("Bearer"), None);
}

#[test]
fn bare_subject_is_parsed() {
    assert_eq!(parse_user_id(ID), Some(UserId(ID_BITS)));
    assert_eq!(UserId::parse(ID), Some(UserId(ID_BITS)));
}

#[test]
fn federated_subject_uses_last_segment() {
    assert_eq!(parse_user_id(&format!("auth0|{}", ID)), Some(UserId(ID_BITS)));
    assert_eq!(parse_user_id(&format!("a|b|{}", ID)), Some(UserId(ID_BITS)));
}

#[test]
fn malformed_subject_is_refused() {
    assert_eq!(parse_user_id("dev|bypass"), None);
    assert_eq!(parse_user_id(""), None);
    assert_eq!(parse_user_id(&format!("{}|x", ID)), None);
}

#[test]
fn bypass_admits_query_identity() {
    let u = UserId(42);
    assert_eq!(
        extract_ws_user(true, Some(u), Some(ID), Some("tok"), None),
        Admission::Admit(u)
    );
}

#[test]
fn bypass_admits_header_identity() {
    assert_eq!(
        extract_ws_user(true, None, Some(ID), None, Some("Bearer t")),
        Admission::Admit(UserId(ID_BITS))
    );
}

#[test]
fn bypass_with_bad_header_falls_back_to_credential() {
    assert_eq!(
        extract_ws_user(true, None, Some("nope"), None, Some("Bearer t")),
        Admission::Verify("t".to_string())
    );
}

#[test]
fn without_bypass_identity_is_ignored() {
    assert_eq!(
        extract_ws_user(false, Some(UserId(1)), Some(ID), None, None),
        Admission::Reject
    );
}

#[test]
fn query_credential_comes_before_header() {
    assert_eq!(
        extract_ws_user(false, None, None, Some("q"), Some("Bearer h")),
        Admission::Verify("q".to_string())
    );
    assert_eq!(
        extract_ws_user(false, None, None, None, Some("Bearer h")),
        Admission::Verify("h".to_string())
    );
    assert_eq!(extract_ws_user(false, None, None, None, Some("Token h")), Admission::Reject);
}

#[test]
fn verified_subject_admits_its_user() {
    let claims = Claims { sub: format!("auth0|{}", ID), exp: 10 };
    assert_eq!(admit_verified(Ok(claims)), Some(UserId(ID_BITS)));
    assert_eq!(admit_verified(Err(AuthError::InvalidToken)), None);
    assert_eq!(admit_verified(Err(AuthError::Unavailable)), None);
}

#[test]
fn bypass_claims_name_nobody() {
    let claims = Claims::bypass();
    assert_eq!(claims.sub, "dev|bypass");
    assert_eq!(claims.exp, 0);
    assert_eq!(admit_verified(Ok(claims)), None);
}

const TOKEN_K2: &str = "eyJhbGciOiJSUzI1NiIsInR5cCI6IkpXVCIsImtpZCI6ImsyIn0.e30.c2ln";
const TOKEN_NO_KID: &str = "eyJhbGciOiJSUzI1NiIsInR5cCI6IkpXVCJ9.e30.c2ln";

fn keys(ids: &[&str]) -> Vec<Jwk> {
    ids.iter()
        .map(|id| Jwk { kid: id.to_string(), n: format!("n-{}", id), e: "AQAB".to_string() })
        .collect()
}

#[test]
fn signing_key_is_found_by_kid() {
    assert_eq!(signing_key(TOKEN_K2, &keys(&["k1", "k2", "k2"])), KeyChoice::Key(1));
    assert_eq!(find_jwk(&keys(&["k1", "k2"]), "k1"), Some(0));
    assert_eq!(find_jwk(&keys(&[]), "k1"), None);
}

#[test]
fn unknown_kid_asks_for_fresh_keys() {
    assert_eq!(signing_key(TOKEN_K2, &keys(&["k1"])), KeyChoice::Unknown);
    assert_eq!(signing_key(TOKEN_K2, &keys(&[])), KeyChoice::Unknown);
}

#[test]
fn unreadable_token_is_invalid() {
    assert_eq!(signing_key(TOKEN_NO_KID, &keys(&["k1"])), KeyChoice::Invalid);
    assert_eq!(signing_key("not a token", &keys(&["k1"])), KeyChoice::Invalid);
}

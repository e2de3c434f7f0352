use carlink::auth::{
    issue_and_validate_session, issue_challenge, issue_session, validate_and_refresh_at,
    verify_challenge, verify_session, TokenError, REFRESH_LEAD_SECONDS, SESSION_LIFETIME_SECONDS,
};

const SECRET: &str = "test-signing-secret";
const NOW: i64 = 1_700_000_000;

fn email() -> String {
    "a@b.com".to_string()
}

#[test]
fn session_round_trip_keeps_claims_and_issues_no_refresh() {
    let token = issue_session(&email(), NOW - 50, NOW, SECRET);
    let st = validate_and_refresh_at(&token, SECRET, NOW).unwrap();
    assert_eq!(st.claims.email, "a@b.com");
    assert_eq!(st.claims.signin_date, NOW - 50);
    assert_eq!(st.claims.iat, NOW);
    assert_eq!(st.claims.exp, NOW + SESSION_LIFETIME_SECONDS);
    assert!(st.refresh_token.is_none());
}

#[test]
fn issue_and_validate_helper_round_trips() {
    let st = issue_and_validate_session(&email(), NOW - 7, NOW, SECRET);
    assert_eq!(st.claims.email, "a@b.com");
    assert_eq!(st.claims.signin_date, NOW - 7);
    assert!(st.refresh_token.is_none());
}

#[test]
fn near_expiry_session_is_refreshed() {
    let token = issue_session(&email(), NOW, NOW, SECRET);
    // Validate when exactly the refresh lead is left: a new token is owed.
    let later = NOW + SESSION_LIFETIME_SECONDS - REFRESH_LEAD_SECONDS;
    let st = validate_and_refresh_at(&token, SECRET, later).unwrap();
    assert_eq!(st.claims.email, "a@b.com");
    let refreshed = st.refresh_token.expect("a replacement token is owed inside the lead");

    // The replacement keeps email and signin date and expires a full
    // lifetime after the refresh moment.
    let st2 = validate_and_refresh_at(&refreshed, SECRET, later).unwrap();
    assert_eq!(st2.claims.email, "a@b.com");
    assert_eq!(st2.claims.signin_date, NOW);
    assert_eq!(st2.claims.iat, later);
    assert_eq!(st2.claims.exp, later + SESSION_LIFETIME_SECONDS);
    assert!(st2.refresh_token.is_none());
}

#[test]
fn just_above_lead_is_not_refreshed() {
    let token = issue_session(&email(), NOW, NOW, SECRET);
    let later = NOW + SESSION_LIFETIME_SECONDS - REFRESH_LEAD_SECONDS - 1;
    let st = validate_and_refresh_at(&token, SECRET, later).unwrap();
    assert!(st.refresh_token.is_none());
}

#[test]
fn expired_session_is_rejected() {
    let token = issue_session(&email(), NOW, NOW, SECRET);
    let later = NOW + SESSION_LIFETIME_SECONDS + 1;
    let r = validate_and_refresh_at(&token, SECRET, later);
    assert_eq!(r.unwrap_err(), TokenError::BadToken);
}

#[test]
fn expiry_moment_is_still_valid_and_refreshed() {
    let token = issue_session(&email(), NOW, NOW, SECRET);
    let later = NOW + SESSION_LIFETIME_SECONDS;
    let st = validate_and_refresh_at(&token, SECRET, later).unwrap();
    assert!(st.refresh_token.is_some());
}

#[test]
fn garbage_token_is_rejected() {
    let r = validate_and_refresh_at(&"not.a.token".to_string(), SECRET, NOW);
    assert_eq!(r.unwrap_err(), TokenError::BadToken);
}

#[test]
fn wrong_secret_is_rejected() {
    let token = issue_session(&email(), NOW, NOW, SECRET);
    let r = verify_session(&token, "another-secret");
    assert_eq!(r.unwrap_err(), TokenError::BadToken);
}

#[test]
fn challenge_token_round_trips() {
    let token = issue_challenge(&email(), NOW, SECRET);
    let claims = verify_challenge(&token, SECRET).unwrap();
    assert_eq!(claims.email, "a@b.com");
    assert_eq!(claims.iat, NOW);
    assert_eq!(claims.exp, NOW + 900);
}

#[test]
fn challenge_token_is_not_a_session_token() {
    let token = issue_challenge(&email(), NOW, SECRET);
    let r = verify_session(&token, SECRET);
    assert_eq!(r.unwrap_err(), TokenError::BadToken);
}

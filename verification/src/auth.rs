//! The token authority: issuing, verifying and sliding-refreshing the two
//! signed token kinds.
//!
//! Tokens are HS256 JSON web tokens. What `jsonwebtoken` produces for given
//! claims and secret is named by the uninterpreted functions
//! `session_token_of` and `challenge_token_of`; verification proves a token
//! authentic by re-encoding the decoded claims and comparing the strings, so
//! only the round-trip property of the outside crate is trusted. Signing
//! with an HMAC secret cannot fail, so issuing always succeeds and
//! validation fails only on a bad or expired token.

use vstd::prelude::*;
use crate::jwt_claims::{AuthJwt, EmailAuthStartJwt};

verus! {

/// Seconds a freshly issued or refreshed session token lives.
pub const SESSION_LIFETIME_SECONDS: i64 = 3600;

/// Seconds a challenge token (and its one-time code) lives.
pub const CHALLENGE_LIFETIME_SECONDS: i64 = 900;

/// A session with at most this many seconds left is reissued on validation.
pub const REFRESH_LEAD_SECONDS: i64 = 300;

#[derive(Debug, Clone, PartialEq, Eq)]
pub enum TokenError {
    /// The token is malformed, carries a bad signature, or has expired.
    BadToken,
    /// The clock reading was unusable; fatal to the request, not the process.
    ServerError,
}

/// The signed session token that `jsonwebtoken` builds for these claims and
/// this secret.
pub uninterp spec fn session_token_of(
    secret: Seq<char>,
    email: Seq<char>,
    signin_date: int,
    iat: int,
    exp: int,
) -> Seq<char>;

/// The signed challenge token that `jsonwebtoken` builds for these claims
/// and this secret.
pub uninterp spec fn challenge_token_of(
    secret: Seq<char>,
    email: Seq<char>,
    iat: int,
    exp: int,
) -> Seq<char>;

pub open spec fn fits_i64(x: int) -> bool {
    i64::MIN <= x <= i64::MAX
}

/// `token` is the session token signed under `secret` for exactly these
/// claims. The expiry must be representable and non-negative: `exp` is an
/// unsigned count of seconds on the wire, and the decoder accepts no other.
pub open spec fn session_token_matches(
    token: Seq<char>,
    secret: Seq<char>,
    email: Seq<char>,
    signin_date: int,
    iat: int,
    exp: int,
) -> bool {
    &&& fits_i64(signin_date)
    &&& fits_i64(iat)
    &&& 0 <= exp <= i64::MAX
    &&& token == session_token_of(secret, email, signin_date, iat, exp)
}

/// `token` is the challenge token signed under `secret` for exactly these
/// claims; bounds as in `session_token_matches`.
pub open spec fn challenge_token_matches(
    token: Seq<char>,
    secret: Seq<char>,
    email: Seq<char>,
    iat: int,
    exp: int,
) -> bool {
    &&& fits_i64(iat)
    &&& 0 <= exp <= i64::MAX
    &&& token == challenge_token_of(secret, email, iat, exp)
}

/// A verified session token together with its replacement, when the sliding
/// refresh policy minted one.
#[derive(Debug)]
pub struct AuthState {
    pub claims: AuthJwt,
    pub refresh_token: Option<String>,
}

/// Relies on jsonwebtoken::encode with the default HS256 header: the token
/// built is a function of the claims and the signing secret alone, and
/// signing cannot fail — the key family matches the header, and a map of
/// string and integer claims serializes infallibly — so the fallback arm is
/// dead.
#[verifier::external_body]
fn encode_session_claims(claims: &AuthJwt, secret: &str) -> (r: String)
    ensures
        r@ == session_token_of(
            secret@,
            claims.email@,
            claims.signin_date as int,
            claims.iat as int,
            claims.exp as int,
        ),
{
    let mut m = serde_json::Map::new();
    m.insert("email".to_string(), serde_json::Value::from(claims.email.clone()));
    m.insert("signin_date".to_string(), serde_json::Value::from(claims.signin_date));
    m.insert("iat".to_string(), serde_json::Value::from(claims.iat));
    m.insert("exp".to_string(), serde_json::Value::from(claims.exp));
    jsonwebtoken::encode(
        &jsonwebtoken::Header::default(),
        &serde_json::Value::Object(m),
        &jsonwebtoken::EncodingKey::from_secret(secret.as_bytes()),
    )
        .unwrap_or_default()
}

/// Relies on jsonwebtoken::decode: a token that `jsonwebtoken::encode` built
/// from these claims under the same secret decodes back to them, provided
/// the expiry is non-negative — the decoder reads `exp` as an unsigned
/// number and rejects a payload whose `exp` it cannot read, whatever the
/// signature. A returned expiry is therefore never negative. Expiry is
/// deliberately not compared to a clock here; callers check it themselves.
#[verifier::external_body]
fn decode_session_claims(token: &String, secret: &str) -> (r: Option<AuthJwt>)
    ensures
        r is None ==> forall|e: Seq<char>, sd: int, ia: int, ex: int|
            !session_token_matches(token@, secret@, e, sd, ia, ex),
        r matches Some(c) ==> c.exp >= 0,
        r matches Some(c) ==> forall|e: Seq<char>, sd: int, ia: int, ex: int|
            session_token_matches(token@, secret@, e, sd, ia, ex) ==> c.email@ == e
                && c.signin_date == sd && c.iat == ia && c.exp == ex,
{
    let mut validation = jsonwebtoken::Validation::default();
    validation.validate_exp = false;
    let data = jsonwebtoken::decode::<serde_json::Value>(
        token,
        &jsonwebtoken::DecodingKey::from_secret(secret.as_bytes()),
        &validation,
    ).ok()?;
    Some(AuthJwt {
        email: data.claims.get("email")?.as_str()?.to_string(),
        signin_date: data.claims.get("signin_date")?.as_i64()?,
        iat: data.claims.get("iat")?.as_i64()?,
        exp: data.claims.get("exp")?.as_i64()?,
    })
}

/// Relies on jsonwebtoken::encode, as `encode_session_claims` does, for the
/// challenge claims.
#[verifier::external_body]
fn encode_challenge_claims(claims: &EmailAuthStartJwt, secret: &str) -> (r: String)
    ensures
        r@ == challenge_token_of(secret@, claims.email@, claims.iat as int, claims.exp as int),
{
    let mut m = serde_json::Map::new();
    m.insert("email".to_string(), serde_json::Value::from(claims.email.clone()));
    m.insert("iat".to_string(), serde_json::Value::from(claims.iat));
    m.insert("exp".to_string(), serde_json::Value::from(claims.exp));
    jsonwebtoken::encode(
        &jsonwebtoken::Header::default(),
        &serde_json::Value::Object(m),
        &jsonwebtoken::EncodingKey::from_secret(secret.as_bytes()),
    )
        .unwrap_or_default()
}

/// Relies on jsonwebtoken::decode, as `decode_session_claims` does (the
/// same unsigned reading of `exp` included), for the challenge claims.
#[verifier::external_body]
fn decode_challenge_claims(token: &String, secret: &str) -> (r: Option<EmailAuthStartJwt>)
    ensures
        r is None ==> forall|e: Seq<char>, ia: int, ex: int|
            !challenge_token_matches(token@, secret@, e, ia, ex),
        r matches Some(c) ==> c.exp >= 0,
        r matches Some(c) ==> forall|e: Seq<char>, ia: int, ex: int|
            challenge_token_matches(token@, secret@, e, ia, ex) ==> c.email@ == e && c.iat == ia
                && c.exp == ex,
{
    let mut validation = jsonwebtoken::Validation::default();
    validation.validate_exp = false;
    let data = jsonwebtoken::decode::<serde_json::Value>(
        token,
        &jsonwebtoken::DecodingKey::from_secret(secret.as_bytes()),
        &validation,
    ).ok()?;
    Some(EmailAuthStartJwt {
        email: data.claims.get("email")?.as_str()?.to_string(),
        iat: data.claims.get("iat")?.as_i64()?,
        exp: data.claims.get("exp")?.as_i64()?,
    })
}

/// Relies on chrono::Utc::now for the current unix timestamp.
#[verifier::external_body]
fn current_unix_time() -> (r: i64) {
    chrono::Utc::now().timestamp()
}

/// Issues a session token for `email` at time `now`: valid for
/// `SESSION_LIFETIME_SECONDS`, carrying `signin_date` unchanged. Signing
/// cannot fail.
pub fn issue_session(email: &String, signin_date: i64, now: i64, secret: &str) -> (r: String)
    requires
        0 <= now <= i64::MAX - SESSION_LIFETIME_SECONDS,
    ensures
        r@ == session_token_of(
            secret@,
            email@,
            signin_date as int,
            now as int,
            now + SESSION_LIFETIME_SECONDS,
        ),
        session_token_matches(
            r@,
            secret@,
            email@,
            signin_date as int,
            now as int,
            now + SESSION_LIFETIME_SECONDS,
        ),
{
    let claims = AuthJwt {
        email: email.clone(),
        signin_date,
        iat: now,
        exp: now + SESSION_LIFETIME_SECONDS,
    };
    encode_session_claims(&claims, secret)
}

/// Issues a challenge token for `email` at time `now`, valid for
/// `CHALLENGE_LIFETIME_SECONDS`. Signing cannot fail.
pub fn issue_challenge(email: &String, now: i64, secret: &str) -> (r: String)
    requires
        0 <= now <= i64::MAX - CHALLENGE_LIFETIME_SECONDS,
    ensures
        r@ == challenge_token_of(secret@, email@, now as int, now + CHALLENGE_LIFETIME_SECONDS),
        challenge_token_matches(
            r@,
            secret@,
            email@,
            now as int,
            now + CHALLENGE_LIFETIME_SECONDS,
        ),
{
    let claims = EmailAuthStartJwt { email: email.clone(), iat: now, exp: now
        + CHALLENGE_LIFETIME_SECONDS };
    encode_challenge_claims(&claims, secret)
}

/// Checks a session token's signature and hands back its claims. A returned
/// claim set is authentic (the token is exactly what the authority signs
/// for those claims); an authentic token is always accepted, with its
/// claims; anything else is rejected as `BadToken`, the only error. Expiry
/// is the caller's to check.
pub fn verify_session(token: &String, secret: &str) -> (r: Result<AuthJwt, TokenError>)
    ensures
        r matches Ok(c) ==> session_token_matches(
            token@,
            secret@,
            c.email@,
            c.signin_date as int,
            c.iat as int,
            c.exp as int,
        ),
        forall|e: Seq<char>, sd: int, ia: int, ex: int|
            session_token_matches(token@, secret@, e, sd, ia, ex) ==> (r matches Ok(c)
                && c.email@ == e && c.signin_date == sd && c.iat == ia && c.exp == ex),
        r == Err::<AuthJwt, TokenError>(TokenError::BadToken) <==> (forall|
            e: Seq<char>,
            sd: int,
            ia: int,
            ex: int,
        | !session_token_matches(token@, secret@, e, sd, ia, ex)),
        r is Err ==> r == Err::<AuthJwt, TokenError>(TokenError::BadToken),
{
    let claims = match decode_session_claims(token, secret) {
        Some(c) => c,
        None => {
            return Err(TokenError::BadToken);
        },
    };
    let reencoded = encode_session_claims(&claims, secret);
    if reencoded == *token {
        proof {
            assert(session_token_matches(
                token@,
                secret@,
                claims.email@,
                claims.signin_date as int,
                claims.iat as int,
                claims.exp as int,
            ));
        }
        Ok(claims)
    } else {
        proof {
            assert forall|e: Seq<char>, sd: int, ia: int, ex: int|
                !session_token_matches(token@, secret@, e, sd, ia, ex) by {
                if session_token_matches(token@, secret@, e, sd, ia, ex) {
                    assert(claims.email@ == e && claims.signin_date == sd && claims.iat == ia
                        && claims.exp == ex);
                    assert(reencoded@ == token@);
                }
            }
        }
        Err(TokenError::BadToken)
    }
}

/// Checks a challenge token's signature, as `verify_session` does for
/// session tokens.
pub fn verify_challenge(token: &String, secret: &str) -> (r: Result<EmailAuthStartJwt, TokenError>)
    ensures
        r matches Ok(c) ==> challenge_token_matches(
            token@,
            secret@,
            c.email@,
            c.iat as int,
            c.exp as int,
        ),
        forall|e: Seq<char>, ia: int, ex: int|
            challenge_token_matches(token@, secret@, e, ia, ex) ==> (r matches Ok(c)
                && c.email@ == e && c.iat == ia && c.exp == ex),
        r == Err::<EmailAuthStartJwt, TokenError>(TokenError::BadToken) <==> (forall|
            e: Seq<char>,
            ia: int,
            ex: int,
        | !challenge_token_matches(token@, secret@, e, ia, ex)),
        r is Err ==> r == Err::<EmailAuthStartJwt, TokenError>(TokenError::BadToken),
{
    let claims = match decode_challenge_claims(token, secret) {
        Some(c) => c,
        None => {
            return Err(TokenError::BadToken);
        },
    };
    let reencoded = encode_challenge_claims(&claims, secret);
    if reencoded == *token {
        proof {
            assert(challenge_token_matches(
                token@,
                secret@,
                claims.email@,
                claims.iat as int,
                claims.exp as int,
            ));
        }
        Ok(claims)
    } else {
        proof {
            assert forall|e: Seq<char>, ia: int, ex: int|
                !challenge_token_matches(token@, secret@, e, ia, ex) by {
                if challenge_token_matches(token@, secret@, e, ia, ex) {
                    assert(claims.email@ == e && claims.iat == ia && claims.exp == ex);
                    assert(reencoded@ == token@);
                }
            }
        }
        Err(TokenError::BadToken)
    }
}

/// Validates a session token at time `now` and applies the sliding refresh
/// policy: an expired token is rejected outright; an authentic one with
/// more than `REFRESH_LEAD_SECONDS` left is accepted unchanged with no new
/// token; one inside the lead (but not expired) is accepted together with a
/// replacement token that keeps the email and signin date and expires a
/// full lifetime after `now`. `BadToken` is the only error, and it comes
/// exactly when no unexpired claims are signed into the token.
pub fn validate_and_refresh_at(token: &String, secret: &str, now: i64) -> (r: Result<
    AuthState,
    TokenError,
>)
    requires
        0 <= now <= i64::MAX - SESSION_LIFETIME_SECONDS,
    ensures
        r matches Ok(st) ==> session_token_matches(
            token@,
            secret@,
            st.claims.email@,
            st.claims.signin_date as int,
            st.claims.iat as int,
            st.claims.exp as int,
        ) && st.claims.exp >= now,
        r matches Ok(st) ==> (st.claims.exp - now > REFRESH_LEAD_SECONDS ==> st.refresh_token
            is None),
        r matches Ok(st) ==> (st.claims.exp - now <= REFRESH_LEAD_SECONDS ==> (st.refresh_token
            matches Some(t) && t@ == session_token_of(
            secret@,
            st.claims.email@,
            st.claims.signin_date as int,
            now as int,
            now + SESSION_LIFETIME_SECONDS,
        ))),
        forall|e: Seq<char>, sd: int, ia: int, ex: int|
            session_token_matches(token@, secret@, e, sd, ia, ex) && ex >= now ==> (r matches
            Ok(st) && st.claims.email@ == e && st.claims.signin_date == sd && st.claims.iat == ia
                && st.claims.exp == ex),
        r matches Ok(st) ==> forall|e: Seq<char>, sd: int, ia: int, ex: int|
            session_token_matches(token@, secret@, e, sd, ia, ex) ==> e == st.claims.email@ && sd
                == st.claims.signin_date && ia == st.claims.iat && ex == st.claims.exp,
        r == Err::<AuthState, TokenError>(TokenError::BadToken) <==> (forall|
            e: Seq<char>,
            sd: int,
            ia: int,
            ex: int,
        | session_token_matches(token@, secret@, e, sd, ia, ex) ==> ex < now),
        r is Err ==> r == Err::<AuthState, TokenError>(TokenError::BadToken),
{
    let claims = match verify_session(token, secret) {
        Ok(c) => c,
        Err(_) => {
            return Err(TokenError::BadToken);
        },
    };
    if claims.exp < now {
        return Err(TokenError::BadToken);
    }
    proof {
        assert(session_token_matches(
            token@,
            secret@,
            claims.email@,
            claims.signin_date as int,
            claims.iat as int,
            claims.exp as int,
        ));
    }
    if claims.exp <= now + REFRESH_LEAD_SECONDS {
        let refreshed = issue_session(&claims.email, claims.signin_date, now, secret);
        Ok(AuthState { claims, refresh_token: Some(refreshed) })
    } else {
        Ok(AuthState { claims, refresh_token: None })
    }
}

/// Validates a session token against the real clock; the policy itself is
/// stated on `validate_and_refresh_at`. `ServerError` comes only from an
/// unusable clock reading.
pub fn validate_and_refresh(token: &String, secret: &str) -> (r: Result<AuthState, TokenError>)
    ensures
        r matches Ok(st) ==> token@ == session_token_of(
            secret@,
            st.claims.email@,
            st.claims.signin_date as int,
            st.claims.iat as int,
            st.claims.exp as int,
        ),
        r is Err ==> r == Err::<AuthState, TokenError>(TokenError::BadToken) || r == Err::<
            AuthState,
            TokenError,
        >(TokenError::ServerError),
{
    let now = current_unix_time();
    if now < 0 || now > i64::MAX - SESSION_LIFETIME_SECONDS {
        return Err(TokenError::ServerError);
    }
    validate_and_refresh_at(token, secret, now)
}

/// Round trip: issuing a session token and validating it at the same moment
/// always succeeds and yields the issued email and signin date unchanged,
/// and no replacement token, since a fresh token is outside the refresh
/// lead.
pub fn issue_and_validate_session(email: &String, signin_date: i64, now: i64, secret: &str) -> (r:
    AuthState)
    requires
        0 <= now <= i64::MAX - SESSION_LIFETIME_SECONDS,
    ensures
        r.claims.email@ == email@,
        r.claims.signin_date == signin_date,
        r.claims.iat == now,
        r.claims.exp == now + SESSION_LIFETIME_SECONDS,
        r.refresh_token is None,
{
    let token = issue_session(email, signin_date, now, secret);
    match validate_and_refresh_at(&token, secret, now) {
        Ok(st) => st,
        Err(_) => {
            // Unreachable: a freshly issued token is authentic and unexpired,
            // so validation is bound to accept it.
            proof {
                assert(false);
            }
            AuthState {
                claims: AuthJwt {
                    email: email.clone(),
                    signin_date,
                    iat: now,
                    exp: now + SESSION_LIFETIME_SECONDS,
                },
                refresh_token: None,
            }
        },
    }
}

} // verus!

//! The session lifecycle facade: the login flow and the device use cases,
//! written once against the gateway interface so they behave identically
//! over any conforming backend.
//!
//! Each use case states its outcome twice over the token names: once
//! existentially (the token is authentic, and this is what changed) and
//! once universally (for every claim set the token is signed for — there is
//! at most one — this is what the caller may conclude), so a caller who
//! issued the token can tie every effect to its own email.

use vstd::prelude::*;
use crate::auth::{
    challenge_token_matches, challenge_token_of, issue_challenge, issue_session,
    session_token_matches, session_token_of, validate_and_refresh_at, verify_challenge,
    CHALLENGE_LIFETIME_SECONDS, REFRESH_LEAD_SECONDS, SESSION_LIFETIME_SECONDS,
};
use crate::database::{at_device_quota, cars_listing_ok, CarFull, CarRec, CodeRec, DataBase};
use crate::json::{CreateCarReturn, GetCars};

verus! {

/// The longest device name a registration accepts, in bytes.
pub const MAX_CAR_NAME_LENGTH: usize = 250;

/// How many fresh identifiers a registration draws before giving up on
/// finding an unused one.
pub const UUID_RETRY_LIMIT: usize = 16;

#[derive(Debug, Clone, PartialEq, Eq)]
pub enum SessionError {
    /// The submitted email address is not syntactically valid.
    InvalidEmail,
    /// A token is malformed, carries a bad signature, or has expired.
    BadToken,
    /// No live one-time code exists for the challenged email.
    NoSuchChallenge,
    /// The submitted one-time code differs from the stored one.
    CodeMismatch,
    /// The referenced device does not exist.
    NotFound,
    /// The device belongs to another account.
    NotOwner,
    /// The account already holds its full quota of devices.
    TooManyCars,
    /// The requested device name is too long.
    NameTooLong,
    /// A backend failure; fatal to the request only.
    ServerError,
}

/// Whether a string is a syntactically valid email address; what
/// `email_address` accepts is a function of the string alone.
pub uninterp spec fn is_valid_email(s: Seq<char>) -> bool;

/// Relies on email_address::EmailAddress::is_valid for the email grammar.
#[verifier::external_body]
fn email_is_valid(s: &String) -> (r: bool)
    ensures
        r == is_valid_email(s@),
{
    email_address::EmailAddress::is_valid(s)
}

/// Relies on rand's thread-local generator: one digit drawn uniformly from
/// the full ten-symbol range.
#[verifier::external_body]
fn random_digit() -> (r: u8)
    ensures
        r <= 9,
{
    rand::Rng::gen_range(&mut rand::thread_rng(), 0..10)
}

pub open spec fn is_alphanumeric_byte(b: u8) -> bool {
    (48 <= b <= 57) || (65 <= b <= 90) || (97 <= b <= 122)
}

/// Relies on rand's Alphanumeric distribution: one ASCII letter or digit.
#[verifier::external_body]
fn random_alphanumeric_byte() -> (r: u8)
    ensures
        is_alphanumeric_byte(r),
{
    rand::Rng::sample(&mut rand::thread_rng(), rand::distributions::Alphanumeric)
}

/// Relies on rand: the length drawn for a fresh API key.
#[verifier::external_body]
fn random_key_length() -> (r: usize)
    ensures
        24 <= r < 64,
{
    rand::Rng::gen_range(&mut rand::thread_rng(), 24..64)
}

/// Relies on bcrypt::hash with its default cost. The salt is drawn at
/// random, so nothing is stated of the result.
#[verifier::external_body]
fn bcrypt_hash(key: &String) -> (r: Option<String>) {
    bcrypt::hash(key, bcrypt::DEFAULT_COST).ok()
}

/// Relies on uuid::Uuid::new_v4: a fresh random identifier in its
/// 36-character hyphenated form.
#[verifier::external_body]
fn generate_uuid() -> (r: String)
    ensures
        r@.len() == 36,
{
    uuid::Uuid::new_v4().to_string()
}

/// Relies on String::from_utf8: ASCII bytes become the string of exactly
/// those characters, one per byte.
#[verifier::external_body]
fn ascii_string_from_bytes(bytes: Vec<u8>) -> (r: String)
    requires
        forall|i: int| 0 <= i < bytes@.len() ==> bytes@[i] < 128,
    ensures
        r@.len() == bytes@.len(),
        forall|i: int| 0 <= i < bytes@.len() ==> r@[i] == bytes@[i] as char,
{
    match String::from_utf8(bytes) {
        Ok(s) => s,
        Err(_) => String::new(),
    }
}

/// A well-formed one-time code: five characters, each a decimal digit.
pub open spec fn is_auth_code(s: Seq<char>) -> bool {
    s.len() == 5 && forall|i: int| 0 <= i < 5 ==> 48 <= #[trigger] s[i] as u8 <= 57
}

/// Builds a five-digit one-time code, each digit drawn independently from
/// the full 0-9 range.
pub fn generate_auth_code() -> (r: String)
    ensures
        is_auth_code(r@),
{
    let mut bytes: Vec<u8> = Vec::new();
    for i in 0..5usize
        invariant
            bytes@.len() == i,
            forall|j: int| 0 <= j < i ==> 48 <= #[trigger] bytes@[j] <= 57,
    {
        let d = random_digit();
        bytes.push(48 + d);
    }
    let r = ascii_string_from_bytes(bytes);
    proof {
        assert forall|i: int| 0 <= i < 5 implies 48 <= #[trigger] r@[i] as u8 <= 57 by {
            assert(48 <= bytes@[i] <= 57);
        }
    }
    r
}

/// Builds a fresh plaintext API key: ASCII letters and digits only, of
/// random length.
pub fn generate_api_key() -> (r: String)
    ensures
        24 <= r@.len() < 64,
        forall|i: int| 0 <= i < r@.len() ==> is_alphanumeric_byte(#[trigger] r@[i] as u8),
{
    let len = random_key_length();
    let mut bytes: Vec<u8> = Vec::new();
    for i in 0..len
        invariant
            bytes@.len() == i,
            forall|j: int| 0 <= j < i ==> is_alphanumeric_byte(#[trigger] bytes@[j]),
            24 <= len < 64,
    {
        bytes.push(random_alphanumeric_byte());
    }
    let r = ascii_string_from_bytes(bytes);
    proof {
        assert forall|i: int| 0 <= i < r@.len() implies is_alphanumeric_byte(
            #[trigger] r@[i] as u8,
        ) by {
            assert(is_alphanumeric_byte(bytes@[i]));
        }
    }
    r
}

/// Starts a login with a caller-supplied one-time code: validates the email,
/// stores the code (superseding any live one for that email), and issues the
/// challenge token. `start_login` is the entry point that draws the code.
pub fn start_login_with_code<G: DataBase>(
    db: &mut G,
    email: &String,
    code: &String,
    now: i64,
    secret: &str,
) -> (r: Result<String, SessionError>)
    requires
        old(db).wf(),
        0 <= now <= i64::MAX - CHALLENGE_LIFETIME_SECONDS,
    ensures
        final(db).wf(),
        r matches Ok(t) ==> is_valid_email(email@) && final(db).codes() == old(db).codes().insert(
            email@,
            CodeRec { code: code@, created: now },
        ) && final(db).accounts() == old(db).accounts() && final(db).cars() == old(db).cars()
            && final(db).presence() == old(db).presence() && t@ == challenge_token_of(
            secret@,
            email@,
            now as int,
            now + CHALLENGE_LIFETIME_SECONDS,
        ),
        r == Err::<String, SessionError>(SessionError::InvalidEmail) <==> !is_valid_email(email@),
        r == Err::<String, SessionError>(SessionError::InvalidEmail) ==> *final(db) == *old(db),
        r == Err::<String, SessionError>(SessionError::ServerError) ==> *final(db) == *old(db),
        r is Err ==> r == Err::<String, SessionError>(SessionError::InvalidEmail) || r == Err::<
            String,
            SessionError,
        >(SessionError::ServerError),
{
    if !email_is_valid(email) {
        return Err(SessionError::InvalidEmail);
    }
    match db.create_user_auth(email, code, now) {
        Ok(()) => (),
        Err(_) => {
            return Err(SessionError::ServerError);
        },
    }
    Ok(issue_challenge(email, now, secret))
}

/// Starts a login: draws a fresh five-digit code, stores it, and returns
/// the challenge token together with the code for out-of-band dispatch.
pub fn start_login<G: DataBase>(db: &mut G, email: &String, now: i64, secret: &str) -> (r: Result<
    (String, String),
    SessionError,
>)
    requires
        old(db).wf(),
        0 <= now <= i64::MAX - CHALLENGE_LIFETIME_SECONDS,
    ensures
        final(db).wf(),
        r matches Ok(p) ==> is_valid_email(email@) && is_auth_code(p.1@) && final(db).codes()
            == old(db).codes().insert(email@, CodeRec { code: p.1@, created: now }) && final(db).accounts() == old(db).accounts() && final(db).cars() == old(db).cars() && final(db).presence() == old(db).presence() && p.0@ == challenge_token_of(
            secret@,
            email@,
            now as int,
            now + CHALLENGE_LIFETIME_SECONDS,
        ),
        r == Err::<(String, String), SessionError>(SessionError::InvalidEmail) <==> !is_valid_email(
            email@,
        ),
        r is Err ==> *final(db) == *old(db),
        r is Err ==> r == Err::<(String, String), SessionError>(SessionError::InvalidEmail) || r
            == Err::<(String, String), SessionError>(SessionError::ServerError),
{
    let code = generate_auth_code();
    match start_login_with_code(db, email, &code, now, secret) {
        Ok(t) => Ok((t, code)),
        Err(e) => Err(e),
    }
}

/// Completes a login: verifies the challenge token, compares the submitted
/// code byte for byte with the stored one, consumes the code exactly once,
/// records the login, and issues the session token with the sign-in date
/// fixed at `now`.
pub fn verify_login<G: DataBase>(
    db: &mut G,
    jwt: &String,
    auth_code: &String,
    now: i64,
    secret: &str,
) -> (r: Result<String, SessionError>)
    requires
        old(db).wf(),
        0 <= now <= i64::MAX - SESSION_LIFETIME_SECONDS,
    ensures
        final(db).wf(),
        r matches Ok(t) ==> exists|e: Seq<char>, ia: int, ex: int|
            #[trigger] challenge_token_matches(jwt@, secret@, e, ia, ex) && ex >= now && old(db).codes().contains_key(e) && old(db).codes()[e].code == auth_code@ && final(db).codes()
                == old(db).codes().remove(e) && final(db).accounts() == old(db).accounts().insert(e, now) && final(db).cars() == old(db).cars() && final(db).presence() == old(db).presence() && t@ == session_token_of(
                secret@,
                e,
                now as int,
                now as int,
                now + SESSION_LIFETIME_SECONDS,
            ),
        r matches Ok(t) ==> forall|e: Seq<char>, ia: int, ex: int|
            #[trigger] challenge_token_matches(jwt@, secret@, e, ia, ex) ==> ex >= now && old(db).codes().contains_key(e) && old(db).codes()[e].code == auth_code@ && final(db).codes()
                == old(db).codes().remove(e) && final(db).accounts() == old(db).accounts().insert(e, now) && t@ == session_token_of(
                secret@,
                e,
                now as int,
                now as int,
                now + SESSION_LIFETIME_SECONDS,
            ),
        r == Err::<String, SessionError>(SessionError::BadToken) <==> (forall|
            e: Seq<char>,
            ia: int,
            ex: int,
        | #[trigger] challenge_token_matches(jwt@, secret@, e, ia, ex) ==> ex < now),
        r == Err::<String, SessionError>(SessionError::BadToken) ==> *final(db) == *old(db),
        r == Err::<String, SessionError>(SessionError::NoSuchChallenge) ==> (exists|
            e: Seq<char>,
            ia: int,
            ex: int,
        |
            #[trigger] challenge_token_matches(jwt@, secret@, e, ia, ex) && ex >= now && !old(db).codes().contains_key(e)) && *final(db) == *old(db),
        r == Err::<String, SessionError>(SessionError::NoSuchChallenge) ==> forall|
            e: Seq<char>,
            ia: int,
            ex: int,
        |
            #[trigger] challenge_token_matches(jwt@, secret@, e, ia, ex) ==> !old(db).codes().contains_key(e),
        r == Err::<String, SessionError>(SessionError::CodeMismatch) ==> (exists|
            e: Seq<char>,
            ia: int,
            ex: int,
        |
            #[trigger] challenge_token_matches(jwt@, secret@, e, ia, ex) && ex >= now && old(db).codes().contains_key(e) && old(db).codes()[e].code != auth_code@) && *final(db)
            == *old(db),
        r == Err::<String, SessionError>(SessionError::CodeMismatch) ==> forall|
            e: Seq<char>,
            ia: int,
            ex: int,
        |
            #[trigger] challenge_token_matches(jwt@, secret@, e, ia, ex) ==> old(db).codes().contains_key(e) && old(db).codes()[e].code != auth_code@,
        r is Err ==> r == Err::<String, SessionError>(SessionError::BadToken) || r == Err::<
            String,
            SessionError,
        >(SessionError::NoSuchChallenge) || r == Err::<String, SessionError>(
            SessionError::CodeMismatch,
        ) || r == Err::<String, SessionError>(SessionError::ServerError),
        forall|e: Seq<char>, ia: int, ex: int|
            #[trigger] challenge_token_matches(jwt@, secret@, e, ia, ex) && ex >= now && old(db).codes().contains_key(e) && old(db).codes()[e].code == auth_code@ ==> r is Ok || r
                == Err::<String, SessionError>(SessionError::ServerError),
{
    let claims = match verify_challenge(jwt, secret) {
        Ok(c) => c,
        Err(_) => {
            return Err(SessionError::BadToken);
        },
    };
    proof {
        // Every claim set the token matches is the decoded one.
        assert forall|e: Seq<char>, ia: int, ex: int| #[trigger]
            challenge_token_matches(jwt@, secret@, e, ia, ex) implies e == claims.email@ && ia
            == claims.iat && ex == claims.exp by {}
    }
    if claims.exp < now {
        return Err(SessionError::BadToken);
    }
    let stored = match db.fetch_user_auth(&claims.email) {
        Ok(o) => o,
        Err(_) => {
            return Err(SessionError::ServerError);
        },
    };
    let stored = match stored {
        Some(ua) => ua,
        None => {
            return Err(SessionError::NoSuchChallenge);
        },
    };
    if stored.code != *auth_code {
        return Err(SessionError::CodeMismatch);
    }
    match db.delete_user_auth(&claims.email) {
        Ok(()) => (),
        Err(_) => {
            return Err(SessionError::ServerError);
        },
    }
    match db.user_login(&claims.email, now) {
        Ok(()) => (),
        Err(_) => {
            return Err(SessionError::ServerError);
        },
    }
    Ok(issue_session(&claims.email, now, now, secret))
}

/// Lists the caller's devices with their derived status, refreshing the
/// session token when it is inside the refresh lead.
pub fn get_cars<G: DataBase>(db: &G, token: &String, now: i64, secret: &str) -> (r: Result<
    (GetCars, Option<String>),
    SessionError,
>)
    requires
        db.wf(),
        0 <= now <= i64::MAX - SESSION_LIFETIME_SECONDS,
    ensures
        r matches Ok(p) ==> exists|e: Seq<char>, sd: int, ia: int, ex: int|
            #[trigger] session_token_matches(token@, secret@, e, sd, ia, ex) && ex >= now
                && cars_listing_ok(db.cars(), db.presence(), e, now, p.0.cars@),
        r matches Ok(p) ==> forall|e: Seq<char>, sd: int, ia: int, ex: int|
            #[trigger] session_token_matches(token@, secret@, e, sd, ia, ex) ==> ex >= now
                && cars_listing_ok(db.cars(), db.presence(), e, now, p.0.cars@) && (ex - now
                > REFRESH_LEAD_SECONDS ==> p.1 is None) && (ex - now <= REFRESH_LEAD_SECONDS ==> (
            p.1 matches Some(t) && t@ == session_token_of(
                secret@,
                e,
                sd,
                now as int,
                now + SESSION_LIFETIME_SECONDS,
            ))),
        r == Err::<(GetCars, Option<String>), SessionError>(SessionError::BadToken) <==> (forall|
            e: Seq<char>,
            sd: int,
            ia: int,
            ex: int,
        | #[trigger] session_token_matches(token@, secret@, e, sd, ia, ex) ==> ex < now),
        r is Err ==> r == Err::<(GetCars, Option<String>), SessionError>(SessionError::BadToken)
            || r == Err::<(GetCars, Option<String>), SessionError>(SessionError::ServerError),
{
    let st = match validate_and_refresh_at(token, secret, now) {
        Ok(st) => st,
        Err(_) => {
            return Err(SessionError::BadToken);
        },
    };
    proof {
        assert(session_token_matches(
            token@,
            secret@,
            st.claims.email@,
            st.claims.signin_date as int,
            st.claims.iat as int,
            st.claims.exp as int,
        ));
        assert(st.claims.exp >= now);
        assert forall|e: Seq<char>, sd: int, ia: int, ex: int| #[trigger]
            session_token_matches(token@, secret@, e, sd, ia, ex) implies e == st.claims.email@
            && sd == st.claims.signin_date && ia == st.claims.iat && ex == st.claims.exp by {}
    }
    let cars = match db.fetch_cars_by_user(&st.claims.email, now) {
        Ok(c) => c,
        Err(_) => {
            return Err(SessionError::ServerError);
        },
    };
    Ok((GetCars { cars }, st.refresh_token))
}

/// Registers a device under the caller's account: enforces the two-device
/// quota and the name bound, draws a fresh key and identifier, stores the
/// hashed key, and returns the plaintext key exactly once.
#[verifier::rlimit(60)]
pub fn add_car<G: DataBase>(db: &mut G, token: &String, name: &String, now: i64, secret: &str) -> (r:
    Result<(CreateCarReturn, Option<String>), SessionError>)
    requires
        old(db).wf(),
        0 <= now <= i64::MAX - SESSION_LIFETIME_SECONDS,
    ensures
        final(db).wf(),
        r matches Ok(p) ==> exists|e: Seq<char>, sd: int, ia: int, ex: int|
            #[trigger] session_token_matches(token@, secret@, e, sd, ia, ex) && ex >= now
                && !at_device_quota(old(db).cars(), e) && vstd::utf8::encode_utf8(name@).len()
                <= MAX_CAR_NAME_LENGTH && !old(db).cars().contains_key(p.0.uuid@) && (exists|
                h: Seq<char>,
            |
                final(db).cars() == old(db).cars().insert(
                    p.0.uuid@,
                    (CarRec { name: name@, secret: h, username: e, last_updated: now }),
                )) && final(db).presence() == old(db).presence().remove(p.0.uuid@) && final(db).accounts() == old(db).accounts() && final(db).codes() == old(db).codes() && p.0.name@
                == name@ && 24 <= p.0.api_key@.len() < 64,
        r matches Ok(p) ==> forall|e: Seq<char>, sd: int, ia: int, ex: int|
            #[trigger] session_token_matches(token@, secret@, e, sd, ia, ex) ==> ex >= now
                && !at_device_quota(old(db).cars(), e) && final(db).cars().contains_key(p.0.uuid@)
                && final(db).cars()[p.0.uuid@].username == e && final(db).cars()[p.0.uuid@].name
                == name@ && (ex - now > REFRESH_LEAD_SECONDS ==> p.1 is None) && (ex - now
                <= REFRESH_LEAD_SECONDS ==> (p.1 matches Some(t) && t@ == session_token_of(
                secret@,
                e,
                sd,
                now as int,
                now + SESSION_LIFETIME_SECONDS,
            ))),
        r == Err::<(CreateCarReturn, Option<String>), SessionError>(SessionError::TooManyCars)
            ==> (exists|e: Seq<char>, sd: int, ia: int, ex: int|
            #[trigger] session_token_matches(token@, secret@, e, sd, ia, ex) && ex >= now
                && at_device_quota(old(db).cars(), e)) && *final(db) == *old(db),
        r == Err::<(CreateCarReturn, Option<String>), SessionError>(SessionError::TooManyCars)
            ==> forall|e: Seq<char>, sd: int, ia: int, ex: int|
            #[trigger] session_token_matches(token@, secret@, e, sd, ia, ex) ==> ex >= now
                && at_device_quota(old(db).cars(), e),
        r == Err::<(CreateCarReturn, Option<String>), SessionError>(SessionError::NameTooLong)
            ==> vstd::utf8::encode_utf8(name@).len() > MAX_CAR_NAME_LENGTH && *final(db) == *old(db),
        r == Err::<(CreateCarReturn, Option<String>), SessionError>(SessionError::BadToken) <==> (
        forall|e: Seq<char>, sd: int, ia: int, ex: int|
            #[trigger] session_token_matches(token@, secret@, e, sd, ia, ex) ==> ex < now),
        r == Err::<(CreateCarReturn, Option<String>), SessionError>(SessionError::BadToken)
            ==> *final(db) == *old(db),
        r == Err::<(CreateCarReturn, Option<String>), SessionError>(SessionError::ServerError)
            ==> *final(db) == *old(db),
        r is Err ==> r == Err::<(CreateCarReturn, Option<String>), SessionError>(
            SessionError::TooManyCars,
        ) || r == Err::<(CreateCarReturn, Option<String>), SessionError>(SessionError::NameTooLong)
            || r == Err::<(CreateCarReturn, Option<String>), SessionError>(SessionError::BadToken)
            || r == Err::<(CreateCarReturn, Option<String>), SessionError>(
            SessionError::ServerError,
        ),
{
    let st = match validate_and_refresh_at(token, secret, now) {
        Ok(st) => st,
        Err(_) => {
            return Err(SessionError::BadToken);
        },
    };
    proof {
        assert(session_token_matches(
            token@,
            secret@,
            st.claims.email@,
            st.claims.signin_date as int,
            st.claims.iat as int,
            st.claims.exp as int,
        ));
        assert(st.claims.exp >= now);
        assert forall|e: Seq<char>, sd: int, ia: int, ex: int| #[trigger]
            session_token_matches(token@, secret@, e, sd, ia, ex) implies e == st.claims.email@
            && sd == st.claims.signin_date && ia == st.claims.iat && ex == st.claims.exp by {}
    }
    let cars = match db.fetch_cars_by_user(&st.claims.email, now) {
        Ok(c) => c,
        Err(_) => {
            return Err(SessionError::ServerError);
        },
    };
    if cars.len() >= 2 {
        proof {
            assert(cars@[0].uuid@ != cars@[1].uuid@);
            assert(at_device_quota(db.cars(), st.claims.email@));
        }
        return Err(SessionError::TooManyCars);
    }
    proof {
        if at_device_quota(db.cars(), st.claims.email@) {
            let (u1, u2) = choose|u1: Seq<char>, u2: Seq<char>|
                u1 != u2 && db.cars().dom().contains(u1) && db.cars().dom().contains(u2)
                    && db.cars()[u1].username == st.claims.email@ && db.cars()[u2].username
                    == st.claims.email@;
            let i1 = choose|i: int| 0 <= i < cars@.len() && cars@[i].uuid@ == u1;
            let i2 = choose|i: int| 0 <= i < cars@.len() && cars@[i].uuid@ == u2;
            assert(i1 != i2);
            assert(false);
        }
    }
    if name.as_str().as_bytes().len() > MAX_CAR_NAME_LENGTH {
        return Err(SessionError::NameTooLong);
    }
    let key = generate_api_key();
    let key_hash = match bcrypt_hash(&key) {
        Some(h) => h,
        None => {
            return Err(SessionError::ServerError);
        },
    };
    let mut uuid = generate_uuid();
    let mut free = false;
    for _attempt in 0..UUID_RETRY_LIMIT
        invariant
            db.wf(),
            free ==> !db.cars().contains_key(uuid@),
            st.claims.exp >= now,
            session_token_matches(
                token@,
                secret@,
                st.claims.email@,
                st.claims.signin_date as int,
                st.claims.iat as int,
                st.claims.exp as int,
            ),
    {
        match db.fetch_car(&uuid) {
            Ok(None) => {
                free = true;
                break ;
            },
            Ok(Some(_)) => {
                uuid = generate_uuid();
            },
            Err(_) => {
                return Err(SessionError::ServerError);
            },
        }
    }
    if !free {
        return Err(SessionError::ServerError);
    }
    let car = CarFull {
        uuid: uuid.clone(),
        name: name.clone(),
        secret: key_hash,
        username: st.claims.email.clone(),
        last_updated: now,
        last_ping: None,
    };
    match db.put_car(&car) {
        Ok(()) => (),
        Err(_) => {
            return Err(SessionError::ServerError);
        },
    }
    let created = CreateCarReturn { name: name.clone(), uuid, api_key: key };
    proof {
        let e = st.claims.email@;
        let sd = st.claims.signin_date as int;
        let ia = st.claims.iat as int;
        let ex = st.claims.exp as int;
        assert(session_token_matches(token@, secret@, e, sd, ia, ex));
        assert(car.uuid@ == created.uuid@);
        assert(db.cars() == old(db).cars().insert(
            created.uuid@,
            (CarRec { name: name@, secret: car.secret@, username: e, last_updated: now }),
        ));
        assert(exists|h: Seq<char>|
            db.cars() == old(db).cars().insert(
                created.uuid@,
                (CarRec { name: name@, secret: h, username: e, last_updated: now }),
            ));
    }
    Ok((created, st.refresh_token))
}

/// Deregisters a device: only its owning account may remove it; the reply
/// carries the owner's updated device list.
pub fn remove_car<G: DataBase>(
    db: &mut G,
    token: &String,
    car_uuid: &String,
    now: i64,
    secret: &str,
) -> (r: Result<(GetCars, Option<String>), SessionError>)
    requires
        old(db).wf(),
        0 <= now <= i64::MAX - SESSION_LIFETIME_SECONDS,
    ensures
        final(db).wf(),
        r matches Ok(p) ==> exists|e: Seq<char>, sd: int, ia: int, ex: int|
            #[trigger] session_token_matches(token@, secret@, e, sd, ia, ex) && ex >= now && old(db).cars().contains_key(car_uuid@) && old(db).cars()[car_uuid@].username == e && final(db).cars() == old(db).cars().remove(car_uuid@) && final(db).presence() == old(db).presence().remove(car_uuid@) && final(db).accounts() == old(db).accounts() && final(db).codes() == old(db).codes(),
        r matches Ok(p) ==> forall|e: Seq<char>, sd: int, ia: int, ex: int|
            #[trigger] session_token_matches(token@, secret@, e, sd, ia, ex) ==> ex >= now && old(db).cars()[car_uuid@].username == e && cars_listing_ok(
                final(db).cars(),
                final(db).presence(),
                e,
                now,
                p.0.cars@,
            ) && (ex - now > REFRESH_LEAD_SECONDS ==> p.1 is None) && (ex - now
                <= REFRESH_LEAD_SECONDS ==> (p.1 matches Some(t) && t@ == session_token_of(
                secret@,
                e,
                sd,
                now as int,
                now + SESSION_LIFETIME_SECONDS,
            ))),
        r == Err::<(GetCars, Option<String>), SessionError>(SessionError::NotFound) ==> !old(db).cars().contains_key(car_uuid@) && *final(db) == *old(db),
        r == Err::<(GetCars, Option<String>), SessionError>(SessionError::NotOwner) ==> (exists|
            e: Seq<char>,
            sd: int,
            ia: int,
            ex: int,
        |
            #[trigger] session_token_matches(token@, secret@, e, sd, ia, ex) && ex >= now && old(db).cars().contains_key(car_uuid@) && old(db).cars()[car_uuid@].username != e) && *final(db) == *old(db),
        r == Err::<(GetCars, Option<String>), SessionError>(SessionError::NotOwner) ==> forall|
            e: Seq<char>,
            sd: int,
            ia: int,
            ex: int,
        |
            #[trigger] session_token_matches(token@, secret@, e, sd, ia, ex) ==> old(db).cars().contains_key(car_uuid@) && old(db).cars()[car_uuid@].username != e,
        r == Err::<(GetCars, Option<String>), SessionError>(SessionError::BadToken) <==> (forall|
            e: Seq<char>,
            sd: int,
            ia: int,
            ex: int,
        | #[trigger] session_token_matches(token@, secret@, e, sd, ia, ex) ==> ex < now),
        r == Err::<(GetCars, Option<String>), SessionError>(SessionError::BadToken) ==> *final(db)
            == *old(db),
        r is Err ==> r == Err::<(GetCars, Option<String>), SessionError>(SessionError::NotFound)
            || r == Err::<(GetCars, Option<String>), SessionError>(SessionError::NotOwner) || r
            == Err::<(GetCars, Option<String>), SessionError>(SessionError::BadToken) || r
            == Err::<(GetCars, Option<String>), SessionError>(SessionError::ServerError),
        forall|e: Seq<char>, sd: int, ia: int, ex: int|
            #[trigger] session_token_matches(token@, secret@, e, sd, ia, ex) && ex >= now && old(db).cars().contains_key(car_uuid@) && old(db).cars()[car_uuid@].username == e ==> r
                is Ok || r == Err::<(GetCars, Option<String>), SessionError>(
                SessionError::ServerError,
            ),
{
    let st = match validate_and_refresh_at(token, secret, now) {
        Ok(st) => st,
        Err(_) => {
            return Err(SessionError::BadToken);
        },
    };
    proof {
        assert(session_token_matches(
            token@,
            secret@,
            st.claims.email@,
            st.claims.signin_date as int,
            st.claims.iat as int,
            st.claims.exp as int,
        ));
        assert(st.claims.exp >= now);
        assert forall|e: Seq<char>, sd: int, ia: int, ex: int| #[trigger]
            session_token_matches(token@, secret@, e, sd, ia, ex) implies e == st.claims.email@
            && sd == st.claims.signin_date && ia == st.claims.iat && ex == st.claims.exp by {}
    }
    let car = match db.fetch_car(car_uuid) {
        Ok(c) => c,
        Err(_) => {
            return Err(SessionError::ServerError);
        },
    };
    let car = match car {
        Some(c) => c,
        None => {
            return Err(SessionError::NotFound);
        },
    };
    if car.username != st.claims.email {
        return Err(SessionError::NotOwner);
    }
    match db.delete_car(car_uuid) {
        Ok(()) => (),
        Err(_) => {
            return Err(SessionError::ServerError);
        },
    }
    let cars = match db.fetch_cars_by_user(&st.claims.email, now) {
        Ok(c) => c,
        Err(_) => {
            return Err(SessionError::ServerError);
        },
    };
    Ok((GetCars { cars }, st.refresh_token))
}

/// Starting login twice before verifying leaves exactly one live code for
/// the email: the second write supersedes the first, and every other
/// email's record is untouched.
pub proof fn lemma_code_supersession(
    codes: Map<Seq<char>, CodeRec>,
    email: Seq<char>,
    r1: CodeRec,
    r2: CodeRec,
)
    ensures
        codes.insert(email, r1).insert(email, r2) =~= codes.insert(email, r2),
        codes.insert(email, r1).insert(email, r2)[email] == r2,
{
}

/// A superseded code cannot verify: when the second code differs from the
/// first, the store holds a code that mismatches the first, so submitting
/// the first fails with CodeMismatch — or NoSuchChallenge once the record
/// is consumed or swept.
pub proof fn lemma_stale_code_rejected(
    codes: Map<Seq<char>, CodeRec>,
    email: Seq<char>,
    r1: CodeRec,
    r2: CodeRec,
)
    requires
        r1.code != r2.code,
    ensures
        codes.insert(email, r1).insert(email, r2)[email].code != r1.code,
{
}

/// A one-time code is single-use: consuming it removes its record, and a
/// second verification for the same email finds no live code.
pub proof fn lemma_code_single_use(codes: Map<Seq<char>, CodeRec>, email: Seq<char>)
    ensures
        !codes.remove(email).contains_key(email),
{
}

/// Two distinct registered devices put their owner at the quota, whatever
/// else the table holds: a third registration is refused, whichever
/// gateway implementation is in use.
pub proof fn lemma_two_devices_reach_quota(
    cars: Map<Seq<char>, CarRec>,
    owner: Seq<char>,
    u1: Seq<char>,
    u2: Seq<char>,
)
    requires
        u1 != u2,
        cars.dom().contains(u1),
        cars.dom().contains(u2),
        cars[u1].username == owner,
        cars[u2].username == owner,
    ensures
        at_device_quota(cars, owner),
{
}

} // verus!

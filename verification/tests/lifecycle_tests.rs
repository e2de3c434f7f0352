use carlink::auth::{issue_session, validate_and_refresh_at};
use carlink::database::{DataBase, DatabaseError};
use carlink::hybrid::HybridDatabase;
use carlink::json::CarState;
use carlink::lifecycle::{
    add_car, generate_api_key, generate_auth_code, get_cars, remove_car, start_login,
    start_login_with_code, verify_login, SessionError,
};
use carlink::memory::MemoryDatabase;
use carlink::presence::classify;

const SECRET: &str = "lifecycle-test-secret";
const NOW: i64 = 1_700_000_000;

fn email() -> String {
    "a@b.com".to_string()
}

fn login_scenario<G: DataBase>(db: &mut G) {
    // Start a login; the code is chosen by the caller here so the scenario
    // is deterministic.
    let token = start_login_with_code(db, &email(), &"04821".to_string(), NOW, SECRET).unwrap();

    // Submitting the right code succeeds and yields a session token with
    // the sign-in date fixed at the moment of verification.
    let session = verify_login(db, &token, &"04821".to_string(), NOW + 5, SECRET).unwrap();
    let st = validate_and_refresh_at(&session, SECRET, NOW + 5).unwrap();
    assert_eq!(st.claims.email, "a@b.com");
    assert_eq!(st.claims.signin_date, NOW + 5);
    assert!(st.refresh_token.is_none());

    // The one-time code is single-use: the same challenge again fails.
    let again = verify_login(db, &token, &"04821".to_string(), NOW + 6, SECRET);
    assert_eq!(again.unwrap_err(), SessionError::NoSuchChallenge);
}

#[test]
fn login_scenario_memory_backend() {
    login_scenario(&mut MemoryDatabase::new());
}

#[test]
fn login_scenario_hybrid_backend() {
    login_scenario(&mut HybridDatabase::new());
}

fn supersession_scenario<G: DataBase>(db: &mut G) {
    let t1 = start_login_with_code(db, &email(), &"11111".to_string(), NOW, SECRET).unwrap();
    let _t2 = start_login_with_code(db, &email(), &"22222".to_string(), NOW + 1, SECRET).unwrap();

    // The first code was superseded: submitting it fails.
    let r = verify_login(db, &t1, &"11111".to_string(), NOW + 2, SECRET);
    assert_eq!(r.unwrap_err(), SessionError::CodeMismatch);

    // The second code is the live one, even under the first challenge token.
    let r = verify_login(db, &t1, &"22222".to_string(), NOW + 3, SECRET);
    assert!(r.is_ok());
}

#[test]
fn second_code_supersedes_first_memory_backend() {
    supersession_scenario(&mut MemoryDatabase::new());
}

#[test]
fn second_code_supersedes_first_hybrid_backend() {
    supersession_scenario(&mut HybridDatabase::new());
}

#[test]
fn start_login_rejects_bad_email() {
    let mut db = MemoryDatabase::new();
    let r = start_login(&mut db, &"not-an-email".to_string(), NOW, SECRET);
    assert_eq!(r.unwrap_err(), SessionError::InvalidEmail);
}

#[test]
fn start_login_generates_five_digit_code() {
    let mut db = MemoryDatabase::new();
    let (_token, code) = start_login(&mut db, &email(), NOW, SECRET).unwrap();
    assert_eq!(code.len(), 5);
    assert!(code.chars().all(|c| c.is_ascii_digit()));
}

#[test]
fn verify_login_rejects_wrong_code() {
    let mut db = MemoryDatabase::new();
    let token = start_login_with_code(&mut db, &email(), &"04821".to_string(), NOW, SECRET)
        .unwrap();
    let r = verify_login(&mut db, &token, &"04822".to_string(), NOW, SECRET);
    assert_eq!(r.unwrap_err(), SessionError::CodeMismatch);
    // A failed comparison does not consume the code.
    let r = verify_login(&mut db, &token, &"04821".to_string(), NOW, SECRET);
    assert!(r.is_ok());
}

#[test]
fn verify_login_rejects_expired_challenge() {
    let mut db = MemoryDatabase::new();
    let token = start_login_with_code(&mut db, &email(), &"04821".to_string(), NOW, SECRET)
        .unwrap();
    let r = verify_login(&mut db, &token, &"04821".to_string(), NOW + 901, SECRET);
    assert_eq!(r.unwrap_err(), SessionError::BadToken);
}

#[test]
fn verify_login_rejects_garbage_token() {
    let mut db = MemoryDatabase::new();
    let r = verify_login(&mut db, &"nonsense".to_string(), &"04821".to_string(), NOW, SECRET);
    assert_eq!(r.unwrap_err(), SessionError::BadToken);
}

fn session_token() -> String {
    issue_session(&email(), NOW, NOW, SECRET)
}

fn quota_scenario<G: DataBase>(db: &mut G) {
    let token = session_token();
    let first = add_car(db, &token, &"car one".to_string(), NOW, SECRET).unwrap();
    assert_eq!(first.0.name, "car one");
    assert_eq!(first.0.uuid.len(), 36);
    assert!(first.0.api_key.len() >= 24);

    let second = add_car(db, &token, &"car two".to_string(), NOW, SECRET).unwrap();
    assert_ne!(first.0.uuid, second.0.uuid);

    // The quota is two live devices: a third registration fails.
    let third = add_car(db, &token, &"car three".to_string(), NOW, SECRET);
    assert_eq!(third.unwrap_err(), SessionError::TooManyCars);

    // Deleting one frees a slot again.
    let (list, _) = remove_car(db, &token, &first.0.uuid, NOW, SECRET).unwrap();
    assert_eq!(list.cars.len(), 1);
    let fourth = add_car(db, &token, &"car four".to_string(), NOW, SECRET);
    assert!(fourth.is_ok());
}

#[test]
fn device_quota_memory_backend() {
    quota_scenario(&mut MemoryDatabase::new());
}

#[test]
fn device_quota_hybrid_backend() {
    quota_scenario(&mut HybridDatabase::new());
}

#[test]
fn add_car_rejects_long_name() {
    let mut db = MemoryDatabase::new();
    let token = session_token();
    let long_name: String = "x".repeat(251);
    let r = add_car(&mut db, &token, &long_name, NOW, SECRET);
    assert_eq!(r.unwrap_err(), SessionError::NameTooLong);
    let ok_name: String = "x".repeat(250);
    assert!(add_car(&mut db, &token, &ok_name, NOW, SECRET).is_ok());
}

#[test]
fn add_car_rejects_expired_session() {
    let mut db = MemoryDatabase::new();
    let token = session_token();
    let r = add_car(&mut db, &token, &"car".to_string(), NOW + 3601, SECRET);
    assert_eq!(r.unwrap_err(), SessionError::BadToken);
}

fn presence_scenario<G: DataBase>(db: &mut G) {
    let token = session_token();
    let (created, _) = add_car(db, &token, &"rover".to_string(), NOW, SECRET).unwrap();

    // Never heartbeated: offline.
    let (list, refreshed) = get_cars(db, &token, NOW, SECRET).unwrap();
    assert!(refreshed.is_none());
    assert_eq!(list.cars.len(), 1);
    assert_eq!(list.cars[0].uuid, created.uuid);
    assert_eq!(list.cars[0].name, "rover");
    assert!(matches!(list.cars[0].status, CarState::Offline));

    // Heartbeat, then list within the window: online.
    db.ping_car_state(&created.uuid, NOW + 10).unwrap();
    let (list, _) = get_cars(db, &token, NOW + 70, SECRET).unwrap();
    assert!(matches!(list.cars[0].status, CarState::Online));

    // Exactly at the window boundary: still online.
    let (list, _) = get_cars(db, &token, NOW + 130, SECRET).unwrap();
    assert!(matches!(list.cars[0].status, CarState::Online));

    // One second past the window: offline again.
    let (list, _) = get_cars(db, &token, NOW + 131, SECRET).unwrap();
    assert!(matches!(list.cars[0].status, CarState::Offline));

    // A heartbeat for an unregistered device is an error.
    let r = db.ping_car_state(&"no-such-uuid".to_string(), NOW);
    assert_eq!(r.unwrap_err(), DatabaseError::DoesNotExist);
}

#[test]
fn presence_memory_backend() {
    presence_scenario(&mut MemoryDatabase::new());
}

#[test]
fn presence_hybrid_backend() {
    presence_scenario(&mut HybridDatabase::new());
}

#[test]
fn classify_cases() {
    assert!(matches!(classify(None, NOW, 120), CarState::Offline));
    assert!(matches!(classify(Some(NOW - 60), NOW, 120), CarState::Online));
    assert!(matches!(classify(Some(NOW - 120), NOW, 120), CarState::Online));
    assert!(matches!(classify(Some(NOW - 121), NOW, 120), CarState::Offline));
}

fn remove_car_checks<G: DataBase>(db: &mut G) {
    let token = session_token();
    let (created, _) = add_car(db, &token, &"rover".to_string(), NOW, SECRET).unwrap();

    let r = remove_car(db, &token, &"missing-uuid".to_string(), NOW, SECRET);
    assert_eq!(r.unwrap_err(), SessionError::NotFound);

    // Another account cannot remove it.
    let other = issue_session(&"other@b.com".to_string(), NOW, NOW, SECRET);
    let r = remove_car(db, &other, &created.uuid, NOW, SECRET);
    assert_eq!(r.unwrap_err(), SessionError::NotOwner);

    // The owner can, and the reply carries the updated list.
    let (list, _) = remove_car(db, &token, &created.uuid, NOW, SECRET).unwrap();
    assert!(list.cars.is_empty());
    // Deleting an already-absent device now reports NotFound.
    let r = remove_car(db, &token, &created.uuid, NOW, SECRET);
    assert_eq!(r.unwrap_err(), SessionError::NotFound);
}

#[test]
fn remove_car_memory_backend() {
    remove_car_checks(&mut MemoryDatabase::new());
}

#[test]
fn remove_car_hybrid_backend() {
    remove_car_checks(&mut HybridDatabase::new());
}

#[test]
fn record_login_upserts_account() {
    let mut db = MemoryDatabase::new();
    assert!(db.fetch_user(&email()).unwrap().is_none());
    db.user_login(&email(), NOW).unwrap();
    let u = db.fetch_user(&email()).unwrap().unwrap();
    assert_eq!(u.username, "a@b.com");
    assert_eq!(u.last_login, NOW);
    db.user_login(&email(), NOW + 9).unwrap();
    let u = db.fetch_user(&email()).unwrap().unwrap();
    assert_eq!(u.last_login, NOW + 9);
}

#[test]
fn hybrid_sweep_evicts_stale_codes() {
    let mut db = HybridDatabase::new();
    let token = start_login_with_code(&mut db, &email(), &"04821".to_string(), NOW, SECRET)
        .unwrap();
    // The sweep at 900 seconds keeps the code (age equals the bound)...
    db.sweep_auth_codes(NOW + 900);
    assert!(db.fetch_user_auth(&email()).unwrap().is_some());
    // ...and one second later evicts it, so verification finds nothing.
    db.sweep_auth_codes(NOW + 901);
    assert!(db.fetch_user_auth(&email()).unwrap().is_none());
    let r = verify_login(&mut db, &token, &"04821".to_string(), NOW + 500, SECRET);
    assert_eq!(r.unwrap_err(), SessionError::NoSuchChallenge);
}

#[test]
fn hybrid_sweep_evicts_stale_presence() {
    let mut db = HybridDatabase::new();
    let token = session_token();
    let (created, _) = add_car(&mut db, &token, &"rover".to_string(), NOW, SECRET).unwrap();
    db.ping_car_state(&created.uuid, NOW).unwrap();
    db.sweep_presence(NOW + 31);
    // The record is gone; the device reads offline even within the window.
    let (list, _) = get_cars(&db, &token, NOW + 31, SECRET).unwrap();
    assert!(matches!(list.cars[0].status, CarState::Offline));
}

#[test]
fn generated_code_and_key_shapes() {
    let code = generate_auth_code();
    assert_eq!(code.len(), 5);
    assert!(code.chars().all(|c| c.is_ascii_digit()));
    let key = generate_api_key();
    assert!(24 <= key.len() && key.len() < 64);
    assert!(key.chars().all(|c| c.is_ascii_alphanumeric()));
}

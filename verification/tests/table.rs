//! Table-level behaviour: listing, uniqueness constraints, error paths, and
//! the rendering of identifiers.

use user_service::http::{login_error_message, login_status, register_error_message,
    register_status, update_error_message, update_status};
use user_service::store::{LoginError, RegisterError, UpdateError, UserStore, DEFAULT_COST};
use user_service::user_model::{LoginRequest, NewUser, UpdateUser};
use user_service::uuid_text::{format_uuid, parse_uuid};

const TEST_COST: u32 = 4;

fn new_user(name: &str, phone: &str, password: &str) -> NewUser {
    NewUser { name: name.to_string(), phone: phone.to_string(), password: password.to_string() }
}

fn login(phone: &str, password: &str) -> LoginRequest {
    LoginRequest { phone: phone.to_string(), password: password.to_string() }
}

#[test]
fn listing_matches_registrations() {
    let mut store = UserStore::with_cost(TEST_COST);
    let a = store.register_user(&new_user("Ada", "+15550000001", "pw-a")).unwrap();
    let b = store.register_user(&new_user("Grace", "+15550000002", "pw-b")).unwrap();
    let c = store.register_user(&new_user("Edsger", "+15550000003", "pw-c")).unwrap();
    let rows = store.get_users();
    assert_eq!(rows.len(), 3);
    assert_eq!(rows[0].id, a.id);
    assert_eq!(rows[1].id, b.id);
    assert_eq!(rows[2].id, c.id);
    assert_eq!(rows[1].name, "Grace");
}

#[test]
fn duplicate_phone_rejected() {
    let mut store = UserStore::with_cost(TEST_COST);
    store.register_user(&new_user("Ada", "+15551234567", "lovelace")).unwrap();
    let r = store.register_user(&new_user("Imposter", "+15551234567", "other"));
    assert!(matches!(r, Err(RegisterError::DuplicatePhone)));
    assert_eq!(register_status(&r), 500);
    assert_eq!(register_error_message(&RegisterError::DuplicatePhone), "Phone already registered");
    assert_eq!(store.get_users().len(), 1);
}

#[test]
fn unknown_phone_not_found() {
    let store = UserStore::with_cost(TEST_COST);
    let r = store.login_user(&login("+15559999999", "whatever"));
    assert!(matches!(r, Err(LoginError::UserNotFound)));
    assert_eq!(login_status(&r), 404);
    assert_eq!(login_error_message(&LoginError::UserNotFound), "User not found");
}

#[test]
fn unknown_id_update_rejected_without_mutation() {
    let mut store = UserStore::with_cost(TEST_COST);
    let user = store.register_user(&new_user("Ada", "+15551234567", "lovelace")).unwrap();
    let other_id = user.id.wrapping_add(1);
    let patch = UpdateUser { name: Some("X".to_string()), phone: None, password: None };
    let r = store.update_user(other_id, &patch);
    assert!(matches!(r, Err(UpdateError::UserNotFound)));
    assert_eq!(update_status(&r), 404);
    assert_eq!(update_error_message(&UpdateError::UserNotFound), "User not found");
    let rows = store.get_users();
    assert_eq!(rows.len(), 1);
    assert_eq!(rows[0].name, "Ada");
}

#[test]
fn phone_update_conflict_rejected() {
    let mut store = UserStore::with_cost(TEST_COST);
    store.register_user(&new_user("Ada", "+15550000001", "pw-a")).unwrap();
    let b = store.register_user(&new_user("Grace", "+15550000002", "pw-b")).unwrap();
    let patch = UpdateUser { name: None, phone: Some("+15550000001".to_string()), password: None };
    let r = store.update_user(b.id, &patch);
    assert!(matches!(r, Err(UpdateError::PhoneTaken)));
    assert_eq!(update_error_message(&UpdateError::PhoneTaken), "Failed to update user");
    assert_eq!(store.get_users()[1].phone, "+15550000002");
}

#[test]
fn rehash_same_cleartext_differs() {
    let mut store = UserStore::with_cost(TEST_COST);
    let a = store.register_user(&new_user("Ada", "+15550000001", "lovelace")).unwrap();
    let b = store.register_user(&new_user("AdaToo", "+15550000002", "lovelace")).unwrap();
    // Fresh salt: the same cleartext never yields the same digest.
    assert_ne!(a.password, b.password);
    assert_ne!(a.password, "lovelace");
    assert_ne!(b.password, "lovelace");
}

#[test]
fn invalid_cost_register_is_hash_failure() {
    // bcrypt accepts costs 4 through 31 only.
    let mut store = UserStore::with_cost(2);
    let r = store.register_user(&new_user("Ada", "+15551234567", "lovelace"));
    assert!(matches!(r, Err(RegisterError::HashFailure)));
    assert_eq!(register_status(&r), 500);
    assert_eq!(store.get_users().len(), 0);
}

#[test]
fn invalid_cost_update_is_hash_failure() {
    let mut store = UserStore::with_cost(2);
    let digest = bcrypt::hash("lovelace", 4).unwrap();
    let user = store
        .apply_registration(7, "Ada".to_string(), "+15551234567".to_string(), digest)
        .unwrap();
    let patch = UpdateUser { name: None, phone: None, password: Some("newpw".to_string()) };
    let r = store.update_user(user.id, &patch);
    assert!(matches!(r, Err(UpdateError::HashFailure)));
    assert_eq!(update_error_message(&UpdateError::HashFailure), "Failed to hash password");
    assert_eq!(store.get_users()[0].password, user.password);
}

#[test]
fn id_collision_rejected() {
    let mut store = UserStore::with_cost(TEST_COST);
    let digest_a = bcrypt::hash("pw-a", 4).unwrap();
    let digest_b = bcrypt::hash("pw-b", 4).unwrap();
    store
        .apply_registration(42, "Ada".to_string(), "+15550000001".to_string(), digest_a)
        .unwrap();
    let r = store.apply_registration(42, "Grace".to_string(), "+15550000002".to_string(), digest_b);
    assert!(matches!(r, Err(RegisterError::IdTaken)));
    assert_eq!(register_error_message(&RegisterError::IdTaken), "User id already exists");
    assert_eq!(store.get_users().len(), 1);
}

#[test]
fn corrupt_stored_digest_is_verify_failure() {
    let mut store = UserStore::with_cost(TEST_COST);
    // Digest-shaped (60 bytes, "$2"-prefixed) but not parseable by bcrypt.
    let corrupt = format!("$2{}", "x".repeat(58));
    assert_eq!(corrupt.len(), 60);
    store
        .apply_registration(9, "Ada".to_string(), "+15551234567".to_string(), corrupt)
        .unwrap();
    let r = store.login_user(&login("+15551234567", "lovelace"));
    assert!(matches!(r, Err(LoginError::VerifyFailure)));
    assert_eq!(login_status(&r), 500);
    assert_eq!(login_error_message(&LoginError::VerifyFailure), "Failed to verify password");
}

#[test]
fn cost_defaults() {
    assert_eq!(UserStore::new().cost(), DEFAULT_COST);
    assert_eq!(UserStore::new().cost(), 12);
    assert_eq!(UserStore::with_cost(4).cost(), 4);
}

#[test]
fn uuid_rendering_exact() {
    let rendered = format_uuid(0x00112233445566778899aabbccddeeff);
    assert_eq!(rendered, b"00112233-4455-6677-8899-aabbccddeeff".to_vec());
    let zero = format_uuid(0);
    assert_eq!(zero, b"00000000-0000-0000-0000-000000000000".to_vec());
    let max = format_uuid(u128::MAX);
    assert_eq!(max, b"ffffffff-ffff-ffff-ffff-ffffffffffff".to_vec());
}

#[test]
fn uuid_parsing_exact() {
    assert_eq!(
        parse_uuid(b"00112233-4455-6677-8899-aabbccddeeff"),
        Some(0x00112233445566778899aabbccddeeff),
    );
    assert_eq!(parse_uuid(b"00000000-0000-0000-0000-000000000000"), Some(0));
    // Only the canonical lower-case hyphenated form parses.
    assert_eq!(parse_uuid(b"00112233-4455-6677-8899-aabbccddee"), None);
    assert_eq!(parse_uuid(b"00112233-4455-6677-8899-AABBCCDDEEFF"), None);
    assert_eq!(parse_uuid(b"00112233x4455-6677-8899-aabbccddeeff"), None);
    assert_eq!(parse_uuid(b""), None);
}

#[test]
fn uuid_render_parse_round_trip() {
    let ids: Vec<u128> = vec![0, 1, u128::MAX, 0xdeadbeef_0123_4567_89ab_cdef_5555_7777];
    for id in ids {
        assert_eq!(parse_uuid(&format_uuid(id)), Some(id));
    }
}

//! End-to-end scenarios over the user table: register, login, update, delete.

use user_service::http::{
    delete_status, delete_success_message, login_error_message, login_status, update_status,
    update_success_message,
};
use user_service::store::{LoginError, UserStore};
use user_service::user_model::{LoginRequest, NewUser, UpdateUser};
use user_service::uuid_text::format_uuid;

// The smallest cost bcrypt accepts, so the scenarios stay fast.
const TEST_COST: u32 = 4;

fn new_user(name: &str, phone: &str, password: &str) -> NewUser {
    NewUser { name: name.to_string(), phone: phone.to_string(), password: password.to_string() }
}

fn login(phone: &str, password: &str) -> LoginRequest {
    LoginRequest { phone: phone.to_string(), password: password.to_string() }
}

fn empty_update() -> UpdateUser {
    UpdateUser { name: None, phone: None, password: None }
}

#[test]
fn register_ada() {
    let mut store = UserStore::with_cost(TEST_COST);
    let user = store
        .register_user(&new_user("Ada", "+15551234567", "lovelace"))
        .expect("registration should succeed on an empty table");
    assert_eq!(user.name, "Ada");
    assert_eq!(user.phone, "+15551234567");
    // The stored credential is a bcrypt digest, never the cleartext.
    assert_eq!(user.password.len(), 60);
    assert!(user.password.starts_with("$2"));
    assert_ne!(user.password, "lovelace");
    // The id renders as the canonical 36-char hyphenated form.
    let rendered = format_uuid(user.id);
    assert_eq!(rendered.len(), 36);
    for (i, b) in rendered.iter().enumerate() {
        if i == 8 || i == 13 || i == 18 || i == 23 {
            assert_eq!(*b, b'-');
        } else {
            assert!(b.is_ascii_hexdigit());
        }
    }
    // The id came from the version-4 generator.
    assert_eq!((user.id >> 76) & 0xf, 4);
}

#[test]
fn login_roundtrip() {
    let mut store = UserStore::with_cost(TEST_COST);
    let user = store.register_user(&new_user("Ada", "+15551234567", "lovelace")).unwrap();
    let r = store.login_user(&login("+15551234567", "lovelace"));
    let row = r.expect("login with the original cleartext should succeed");
    assert_eq!(row.id, user.id);
    assert_eq!(row.name, "Ada");
    assert_eq!(row.phone, "+15551234567");
    assert_eq!(row.password, user.password);
    assert_eq!(login_status(&Ok(row)), 200);
}

#[test]
fn wrong_password_unauthorized() {
    let mut store = UserStore::with_cost(TEST_COST);
    store.register_user(&new_user("Ada", "+15551234567", "lovelace")).unwrap();
    let r = store.login_user(&login("+15551234567", "wrong"));
    assert!(matches!(r, Err(LoginError::InvalidPassword)));
    assert_eq!(login_status(&r), 401);
    assert_eq!(login_error_message(&LoginError::InvalidPassword), "Invalid password");
}

#[test]
fn update_name_only() {
    let mut store = UserStore::with_cost(TEST_COST);
    let user = store.register_user(&new_user("Ada", "+15551234567", "lovelace")).unwrap();
    let patch = UpdateUser { name: Some("Ada L.".to_string()), phone: None, password: None };
    let r = store.update_user(user.id, &patch);
    assert!(r.is_ok());
    assert_eq!(update_status(&r), 200);
    assert_eq!(update_success_message(), "User updated successfully");
    let rows = store.get_users();
    assert_eq!(rows.len(), 1);
    assert_eq!(rows[0].id, user.id);
    assert_eq!(rows[0].name, "Ada L.");
    assert_eq!(rows[0].phone, "+15551234567");
    assert_eq!(rows[0].password, user.password);
}

#[test]
fn update_password_then_login() {
    let mut store = UserStore::with_cost(TEST_COST);
    let user = store.register_user(&new_user("Ada", "+15551234567", "lovelace")).unwrap();
    let patch = UpdateUser { name: None, phone: None, password: Some("newpw".to_string()) };
    store.update_user(user.id, &patch).unwrap();
    let old = store.login_user(&login("+15551234567", "lovelace"));
    assert!(matches!(old, Err(LoginError::InvalidPassword)));
    let new = store.login_user(&login("+15551234567", "newpw"));
    assert!(new.is_ok());
}

#[test]
fn empty_update_keeps_row_identical() {
    let mut store = UserStore::with_cost(TEST_COST);
    let user = store.register_user(&new_user("Ada", "+15551234567", "lovelace")).unwrap();
    store.update_user(user.id, &empty_update()).unwrap();
    let rows = store.get_users();
    assert_eq!(rows.len(), 1);
    assert_eq!(rows[0].id, user.id);
    assert_eq!(rows[0].name, user.name);
    assert_eq!(rows[0].phone, user.phone);
    assert_eq!(rows[0].password, user.password);
}

#[test]
fn delete_then_login() {
    let mut store = UserStore::with_cost(TEST_COST);
    let user = store.register_user(&new_user("Ada", "+15551234567", "lovelace")).unwrap();
    store.delete_user(user.id);
    assert_eq!(delete_status(), 200);
    assert_eq!(delete_success_message(), "User deleted");
    let r = store.login_user(&login("+15551234567", "lovelace"));
    assert!(matches!(r, Err(LoginError::UserNotFound)));
    // Deleting again succeeds and changes nothing.
    store.delete_user(user.id);
    assert_eq!(store.get_users().len(), 0);
}

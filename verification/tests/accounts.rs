use session_auth::store::{StoreError, UserTable};
use session_auth::user::User;

fn user(id: i64, email: &str, password_hash: &str) -> User {
    User { id, password_hash: password_hash.to_string(), email: email.to_string() }
}

#[test]
fn user_getters() {
    let u = user(42, "a@b.com", "secret");
    assert_eq!(u.get_id(), 42);
    assert_eq!(u.get_password_hash(), b"secret".to_vec());
    assert!(u.accepts(&"secret".to_string()));
    assert!(!u.accepts(&"Secret".to_string()));
    assert!(!u.accepts(&"secret ".to_string()));
    assert!(!u.accepts(&"".to_string()));
}

#[test]
fn password_hash_bytes_are_utf8() {
    let u = user(1, "a@b.com", "p\u{e4}ss");
    assert_eq!(u.get_password_hash(), vec![b'p', 0xc3, 0xa4, b's', b's']);
}

#[test]
fn user_default_and_clone() {
    let d = User::default();
    assert_eq!(d.id, 0);
    assert_eq!(d.email, "");
    assert_eq!(d.password_hash, "");
    let u = user(42, "a@b.com", "secret");
    let c = u.clone();
    assert_eq!(c.id, 42);
    assert_eq!(c.email, "a@b.com");
    assert_eq!(c.password_hash, "secret");
}

#[test]
fn table_finds_by_email_and_by_id() {
    let mut table = UserTable::new();
    assert_eq!(table.len(), 0);
    assert!(table.insert(user(1, "a@b.com", "secret")));
    assert!(table.insert(user(2, "c@d.com", "hunter2")));
    assert_eq!(table.len(), 2);
    let found = table.find_by_email(&"c@d.com".to_string()).unwrap();
    assert_eq!(found.id, 2);
    assert_eq!(found.password_hash, "hunter2");
    let found = table.find_by_id(1).unwrap();
    assert_eq!(found.email, "a@b.com");
}

#[test]
fn table_reports_not_found() {
    let mut table = UserTable::new();
    assert!(matches!(table.find_by_id(1), Err(StoreError::NotFound)));
    assert!(table.insert(user(1, "a@b.com", "secret")));
    assert!(matches!(table.find_by_email(&"A@b.com".to_string()), Err(StoreError::NotFound)));
    assert!(matches!(table.find_by_email(&"".to_string()), Err(StoreError::NotFound)));
    assert!(matches!(table.find_by_id(2), Err(StoreError::NotFound)));
    assert!(matches!(table.find_by_id(-1), Err(StoreError::NotFound)));
}

#[test]
fn table_refuses_a_taken_key() {
    let mut table = UserTable::new();
    assert!(table.insert(user(1, "a@b.com", "secret")));
    assert!(!table.insert(user(1, "other@b.com", "x")));
    assert!(!table.insert(user(2, "a@b.com", "x")));
    assert_eq!(table.len(), 1);
    assert_eq!(table.find_by_id(1).unwrap().password_hash, "secret");
    assert!(matches!(table.find_by_email(&"other@b.com".to_string()), Err(StoreError::NotFound)));
}

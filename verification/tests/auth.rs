use humphrey::auth::{AuthError, AuthProvider, User};

#[test]
fn integration_test() {
    let mut provider: AuthProvider<Vec<User>> = AuthProvider::default();

    let user = provider.create("hunter42").unwrap();

    assert!(provider.user_exists(&user.uid));
    assert!(provider.verify(user.uid.as_str(), "hunter42"));
    assert!(!provider.verify(user.uid.as_str(), "hunter43"));

    provider.remove(user.uid.as_str()).unwrap();

    assert!(!provider.user_exists(&user.uid));
}

#[test]
fn removing_an_unknown_user_fails() {
    let mut provider: AuthProvider<Vec<User>> = AuthProvider::default();
    assert_eq!(provider.remove("nobody"), Err(AuthError::UserNotFound));
    assert!(!provider.user_exists("nobody"));
    assert!(!provider.verify("nobody", "hunter42"));
}

#[test]
fn a_user_is_enrolled_once_under_an_identifier() {
    let mut provider: AuthProvider<Vec<User>> = AuthProvider::new(Vec::new());
    let first = provider.enrol("u-1".to_string(), Some("hash-1".to_string())).unwrap();
    assert_eq!(first.uid, "u-1");
    assert_eq!(first.password_hash, "hash-1");
    assert!(provider.user_exists("u-1"));
    assert_eq!(
        provider.enrol("u-1".to_string(), Some("hash-2".to_string())).err(),
        Some(AuthError::UserAlreadyExists)
    );
    assert_eq!(provider.enrol("u-2".to_string(), None).err(), Some(AuthError::GenericError));
    assert!(!provider.user_exists("u-2"));
    assert!(!provider.verify("u-1", "hash-1"));
    assert_eq!(provider.remove("u-1"), Ok(()));
    assert_eq!(provider.remove("u-1"), Err(AuthError::UserNotFound));
}

#[test]
fn every_user_gets_an_identifier_and_a_salt_of_its_own() {
    let mut provider: AuthProvider<Vec<User>> = AuthProvider::default();
    let a = provider.create("same password").unwrap();
    let b = provider.create("same password").unwrap();
    assert_ne!(a.uid, b.uid);
    assert_ne!(a.password_hash, b.password_hash);
    assert!(a.password_hash.starts_with("$argon2"));
    assert_eq!(a.uid.len(), 36);
    assert!(provider.verify(&b.uid, "same password"));
    assert!(!provider.verify(&b.uid, ""));
    provider.remove(&a.uid).unwrap();
    assert!(provider.user_exists(&b.uid));
    assert!(!provider.user_exists(&a.uid));
}

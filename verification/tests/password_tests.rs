use registration::password::{hash_password, verify_password};

#[test]
fn hashing_twice_differs_and_both_verify() {
    let first = hash_password("s3cret").unwrap();
    let second = hash_password("s3cret").unwrap();
    assert_ne!(first, second);
    assert!(verify_password(&first, "s3cret").unwrap());
    assert!(verify_password(&second, "s3cret").unwrap());
}

#[test]
fn wrong_password_does_not_verify() {
    let encoded = hash_password("s3cret").unwrap();
    assert!(!verify_password(&encoded, "other").unwrap());
}

#[test]
fn hash_is_self_describing() {
    let encoded = hash_password("pw").unwrap();
    assert!(encoded.starts_with("$argon2id$v=19$m=19456,t=2,p=1$"));
    assert!(encoded.len() > 31);
}

#[test]
fn empty_password_hashes_and_verifies() {
    let encoded = hash_password("").unwrap();
    assert!(verify_password(&encoded, "").unwrap());
    assert!(!verify_password(&encoded, "x").unwrap());
}

#[test]
fn garbage_credential_reports_an_error() {
    assert!(verify_password("not an encoded hash", "pw").is_err());
}

use argon2::PasswordHasher;
use runtime::ib::{infiniband_vendor_id, probe_target, IBInfo};

fn expected_digest(secret: &str) -> String {
    let salt = argon2::password_hash::phc::Salt::from_b64("GolemNetwork").unwrap();
    let h = argon2::Argon2::default().hash_password_with_salt(secret.as_bytes(), &salt).unwrap();
    h.hash.unwrap().to_string()
}

#[test]
fn probe_is_skipped_when_unset_or_disabled() {
    assert_eq!(probe_target(None), None);
    assert_eq!(probe_target(Some("no")), None);
    assert_eq!(probe_target(Some("1017")), Some(String::from("1017")));
    assert_eq!(probe_target(Some("")), Some(String::new()));
}

#[test]
fn vendor_is_fixed() {
    assert_eq!(infiniband_vendor_id(), "1077");
}

#[test]
fn identity_without_adapter_or_secret_is_none() {
    assert_eq!(IBInfo::try_new(None, Some("s3cret")).unwrap().id, "None");
    assert_eq!(IBInfo::try_new(Some("None"), Some("s3cret")).unwrap().id, "None");
    assert_eq!(IBInfo::try_new(Some("ConnectX"), None).unwrap().id, "None");
    assert_eq!(IBInfo::absent().id, "None");
}

#[test]
fn identity_is_the_salted_digest_of_the_secret() {
    let id = IBInfo::try_new(Some("ConnectX"), Some("cluster-secret")).unwrap().id;
    assert_ne!(id, "cluster-secret");
    assert_eq!(id, expected_digest("cluster-secret"));
    assert_eq!(id.len(), 43);
    assert!(id.chars().all(|c| c.is_ascii_alphanumeric() || c == '+' || c == '/'));
    let again = IBInfo::try_new(Some("0000:3b:00.0"), Some("cluster-secret")).unwrap().id;
    assert_eq!(id, again);
    let other = IBInfo::try_new(Some("ConnectX"), Some("another")).unwrap().id;
    assert_ne!(id, other);
}

#[test]
fn identity_from_digest_outcome() {
    assert_eq!(IBInfo::from_digest(Some(String::from("abc"))).unwrap().id, "abc");
    assert!(IBInfo::from_digest(None).is_err());
}

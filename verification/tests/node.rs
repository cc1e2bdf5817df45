use coresplitter::node::identity::{derive_public_key, Identity, KEY_LEN};

const SHA256_OF_32_ZEROS: &str = "66687aadf862bd776c8fc18b8e9f8e20089714856ee233b3902a591d0d5f2925";

fn hex(bytes: &[u8]) -> String {
    bytes.iter().map(|b| format!("{:02x}", b)).collect()
}

#[test]
fn new_identity_is_blank() {
    let id = Identity::new("proxy".to_string());
    assert!(!id.is_initialized());
    assert_eq!(id.seed, [0u8; KEY_LEN]);
    assert_eq!(id.public_key, [0u8; KEY_LEN]);
    assert_eq!(id.name, "proxy");
}

#[test]
fn public_key_is_the_sha256_of_the_seed() {
    assert_eq!(hex(&derive_public_key(&[0u8; 32])), SHA256_OF_32_ZEROS);
}

#[test]
fn generated_identity_is_initialized_with_derived_key() {
    let mut id = Identity::new("proxy".to_string());
    id.generate();
    assert!(id.is_initialized());
    assert_eq!(id.public_key, derive_public_key(&id.seed));
    assert_eq!(id.name, "proxy");
    let mut other = Identity::new("proxy".to_string());
    other.generate();
    assert_ne!(id.seed, other.seed);
}

#[test]
fn loading_without_a_seed_changes_nothing() {
    let mut id = Identity::new("n".to_string());
    assert!(!id.load_from_db(None, Some(vec![1; 32])));
    assert!(!id.load_from_db(Some(vec![1; 31]), None));
    assert!(!id.is_initialized());
    assert_eq!(id.seed, [0u8; 32]);
}

#[test]
fn loading_takes_the_stored_key() {
    let mut id = Identity::new("n".to_string());
    let mut seed = vec![3u8; 32];
    seed.extend_from_slice(&[9, 9]);
    assert!(id.load_from_db(Some(seed), Some(vec![4u8; 40])));
    assert!(id.is_initialized());
    assert_eq!(id.seed, [3u8; 32]);
    assert_eq!(id.public_key, [4u8; 32]);
}

#[test]
fn loading_derives_a_missing_or_short_key() {
    let mut id = Identity::new("n".to_string());
    assert!(id.load_from_db(Some(vec![0u8; 32]), Some(vec![4u8; 10])));
    assert_eq!(hex(&id.public_key), SHA256_OF_32_ZEROS);
    let mut id = Identity::new("n".to_string());
    assert!(id.load_from_db(Some(vec![0u8; 32]), None));
    assert_eq!(hex(&id.public_key), SHA256_OF_32_ZEROS);
}

#[test]
fn saved_identity_loads_back_into_another() {
    let mut a = Identity::new("first".to_string());
    a.generate();
    let mut b = Identity::new("second".to_string());
    assert!(b.load_from_db(Some(a.seed.to_vec()), Some(a.public_key.to_vec())));
    assert_eq!(b.seed, a.seed);
    assert_eq!(b.public_key, a.public_key);
    assert_eq!(b.name, "second");
    assert!(b.is_initialized());
    // a failed load leaves it initialized
    assert!(!b.load_from_db(None, None));
    assert!(b.is_initialized());
}

use trusty_ipc::store::{filename, is_secret_file, SecureStore};

const KEY1: &[u8] = b"bogus key 1";
const KEY2: &[u8] = b"bogus key 2";
const SECRET1: &[u8] = b"bogus secret 1";
const SECRET2: &[u8] = b"bogus secret 2";

#[test]
fn test_secretkeeper_store() {
    let mut store = SecureStore::default();

    // Ensure consistent state before.
    store.delete(KEY1).unwrap();
    store.delete(KEY2).unwrap();

    store.store(KEY1, SECRET1).unwrap();
    assert_eq!(store.get(KEY1), Ok(Some(SECRET1.to_vec())));
    assert_eq!(store.get(KEY2), Ok(None));
    store.store(KEY1, SECRET2).unwrap();
    assert_eq!(store.get(KEY1), Ok(Some(SECRET2.to_vec())));
    assert_eq!(store.get(KEY2), Ok(None));
    store.store(KEY1, SECRET1).unwrap();
    assert_eq!(store.get(KEY1), Ok(Some(SECRET1.to_vec())));
    assert_eq!(store.get(KEY2), Ok(None));
    store.store(KEY2, SECRET1).unwrap();
    assert_eq!(store.get(KEY1), Ok(Some(SECRET1.to_vec())));
    assert_eq!(store.get(KEY2), Ok(Some(SECRET1.to_vec())));
    store.delete(KEY1).unwrap();
    assert_eq!(store.get(KEY1), Ok(None));
    assert_eq!(store.get(KEY2), Ok(Some(SECRET1.to_vec())));
    store.delete(KEY2).unwrap();
    assert_eq!(store.get(KEY1), Ok(None));
    assert_eq!(store.get(KEY2), Ok(None));

    // Ensure consistent state after.
    store.delete(KEY1).unwrap();
    store.delete(KEY2).unwrap();
}

#[test]
fn filename_is_prefix_and_hex() {
    assert_eq!(filename(&[]), "v1_");
    assert_eq!(filename(&[0x00, 0x0f, 0xa5, 0xff]), "v1_000fa5ff");
    assert_eq!(filename(b"k1"), "v1_6b31");
}

#[test]
fn secret_files_are_known_by_their_prefix() {
    assert!(is_secret_file("v1_"));
    assert!(is_secret_file("v1_00"));
    assert!(!is_secret_file("v1"));
    assert!(!is_secret_file("v2_00"));
    assert!(!is_secret_file("xv1_00"));
    assert!(!is_secret_file(""));
}

#[test]
fn delete_all_forgets_every_secret() {
    let mut store = SecureStore::default();
    store.store(KEY1, SECRET1).unwrap();
    store.store(KEY2, SECRET2).unwrap();
    store.store(b"", b"empty key").unwrap();
    store.delete_all().unwrap();
    assert_eq!(store.get(KEY1), Ok(None));
    assert_eq!(store.get(KEY2), Ok(None));
    assert_eq!(store.get(b""), Ok(None));
    store.delete_all().unwrap();
}

#[test]
fn empty_secret_is_a_secret() {
    let mut store = SecureStore::default();
    store.store(KEY1, b"").unwrap();
    assert_eq!(store.get(KEY1), Ok(Some(vec![])));
}

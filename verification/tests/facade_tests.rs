use notea::facade::Store;
use notea::facade::StoreError;
use notea::facade::StoreUserError;

const TEST_VALUE: [u8; 16] = [
    0u8, 1u8, 2u8, 3u8, 4u8, 5u8, 6u8, 7u8, 8u8, 9u8, 10u8, 11u8, 12u8, 13u8, 14u8, 15u8,
];

fn gen_store_path() -> String {
    format!("/tmp/notea_test_{}", rand::random::<u64>())
}

fn fresh_store() -> (Store, sled::Db) {
    let db = sled::open(gen_store_path()).unwrap();
    let db2 = db.clone();
    (Store::init_from_db(db), db2)
}

#[test]
fn test_store_set_new_value() {
    let (mut store, db) = fresh_store();
    store.set("test_key", &TEST_VALUE, None, "new_hash").unwrap();

    let stored_hash = db.get("test_key_hash").unwrap();
    let stored_blob = db.get("test_key_blob").unwrap();

    assert_eq!(Some(sled::IVec::from("new_hash".as_bytes())), stored_hash);
    assert_eq!(Some(sled::IVec::from(TEST_VALUE.to_vec())), stored_blob);

    db.clear().unwrap();
}

#[test]
fn test_store_update_value() {
    let (mut store, db) = fresh_store();
    let key = "test_key";
    store.set(key, "test_value_1".as_bytes(), None, "hash1").unwrap();
    store.set(key, &TEST_VALUE, Some("hash1"), "hash2").unwrap();

    let stored_hash = db.get("test_key_hash").unwrap();
    let stored_blob = db.get("test_key_blob").unwrap();

    assert_eq!(Some(sled::IVec::from("hash2".as_bytes())), stored_hash);
    assert_eq!(Some(sled::IVec::from(TEST_VALUE.to_vec())), stored_blob);

    db.clear().unwrap();
}

#[test]
fn new_value_with_wrong_hash() {
    let (mut store, db) = fresh_store();
    let r = store.set("test_key", &TEST_VALUE, Some("wanna_be_nothing"), "new_hash");

    let stored_hash = db.get("test_key_hash").unwrap();
    let stored_blob = db.get("test_key_blob").unwrap();

    assert_eq!(None, stored_hash);
    assert_eq!(None, stored_blob);

    let err = r.unwrap_err();

    assert_eq!(StoreError::User(StoreUserError::InvalidHash), err);

    db.clear().unwrap();
}

#[test]
fn update_value_with_wrong_hash() {
    let (mut store, db) = fresh_store();
    store.set("test_key", &TEST_VALUE, None, "hash1").unwrap();
    let r = store.set("test_key", "some-val".as_bytes(), Some("wrong_hash"), "hash2");

    let stored_hash = db.get("test_key_hash").unwrap();
    let stored_blob = db.get("test_key_blob").unwrap();

    assert_eq!(Some(sled::IVec::from("hash1".as_bytes())), stored_hash);
    assert_eq!(Some(sled::IVec::from(TEST_VALUE.to_vec())), stored_blob);

    let err = r.unwrap_err();

    assert_eq!(StoreError::User(StoreUserError::InvalidHash), err);

    db.clear().unwrap();
}

#[test]
fn get_value() {
    let (mut store, db) = fresh_store();
    let key = "test_key";

    store.set(key, &TEST_VALUE, None, "hash").unwrap();

    let res = store.get(key).unwrap();

    assert_eq!(Some(TEST_VALUE.to_vec()), res);

    db.clear().unwrap();
}

#[test]
fn hash_token_cas_scenario() {
    let (mut store, db) = fresh_store();
    assert_eq!(Ok(()), store.set("k", b"v1", None, "h1"));
    // a second fresh-key write must be rejected: a token is now stored
    assert_eq!(
        Err(StoreError::User(StoreUserError::InvalidHash)),
        store.set("k", b"v1b", None, "h2")
    );
    assert_eq!(Ok(Some(b"v1".to_vec())), store.get("k"));
    // presenting the stored token succeeds and replaces the payload
    assert_eq!(Ok(()), store.set("k", b"v2", Some("h1"), "h2"));
    assert_eq!(Ok(Some(b"v2".to_vec())), store.get("k"));
    db.clear().unwrap();
}

#[test]
fn get_missing_key_is_not_an_error() {
    let (store, db) = fresh_store();
    assert_eq!(Ok(None), store.get("nothing_here"));
    db.clear().unwrap();
}

use notea::store::StoreError;
use notea::Store;
use notea::StoreUserError;

const TEST_VALUE: [u8; 16] = [
    0u8, 1u8, 2u8, 3u8, 4u8, 5u8, 6u8, 7u8, 8u8, 9u8, 10u8, 11u8, 12u8, 13u8, 14u8, 15u8,
];

fn gen_store_path() -> String {
    format!("/tmp/notea_test_{}", rand::random::<u64>())
}

fn fresh_store() -> (Store, sled::Db) {
    let db = sled::open(gen_store_path()).unwrap();
    let db2 = db.clone();
    (Store::init_from_db(db), db2)
}

#[test]
fn set_new_value() {
    let (mut store, db) = fresh_store();

    store.set("test_key", &TEST_VALUE, 0, None).unwrap();

    let stored = db.get("blob_test_key").unwrap();

    assert_eq!(Some(sled::IVec::from(TEST_VALUE.to_vec())), stored);

    db.clear().unwrap();
}

#[test]
fn update_value() {
    let (mut store, db) = fresh_store();
    let key = "test_key";
    store.set(key, "test_value_1".as_bytes(), 0, None).unwrap();
    store.set(key, &TEST_VALUE, 1, None).unwrap();
    let stored = db.get("blob_test_key").unwrap();

    assert_eq!(Some(sled::IVec::from(TEST_VALUE.to_vec())), stored);

    db.clear().unwrap();
}

#[test]
fn new_value_with_wrong_rev() {
    let (mut store, db) = fresh_store();
    let res = store.set("test_key", &TEST_VALUE, 1, None);

    assert!(res.is_err());

    let err = res.unwrap_err();

    assert_eq!(StoreError::User(StoreUserError::BadRevision), err);
    assert_eq!(None, db.get("blob_test_key").unwrap());
    assert_eq!(None, db.get("last_rev_test_key").unwrap());

    db.clear().unwrap();
}

#[test]
fn update_value_with_wrong_rev() {
    let (mut store, db) = fresh_store();
    let key = "test_key";
    store.set(key, "test_value_1".as_bytes(), 0, None).unwrap();
    let res = store.set(key, &TEST_VALUE, 2, None);

    assert!(res.is_err());

    let err = res.unwrap_err();

    assert_eq!(StoreError::User(StoreUserError::BadRevision), err);
    assert_eq!(
        Some(sled::IVec::from("test_value_1".as_bytes())),
        db.get("blob_test_key").unwrap()
    );
    assert_eq!(
        Some(sled::IVec::from(&0x00000001u32.to_be_bytes())),
        db.get("last_rev_test_key").unwrap()
    );

    db.clear().unwrap();
}

#[test]
fn update_value_with_wrong_owner_key() {
    let (mut store, db) = fresh_store();
    let key = "test_key";
    let owner_key = "owner_key";
    store
        .set(key, "test_value_1".as_bytes(), 0, Some(owner_key.as_bytes()))
        .unwrap();
    let res = store.set(key, &TEST_VALUE, 1, Some("wrong".as_bytes()));

    assert!(res.is_err());

    let err = res.unwrap_err();

    assert_eq!(StoreError::User(StoreUserError::InvalidOwnerKey), err);
    assert_eq!(
        Some(sled::IVec::from("test_value_1".as_bytes())),
        db.get("blob_test_key").unwrap()
    );
    assert_eq!(
        Some(sled::IVec::from(&0x00000001u32.to_be_bytes())),
        db.get("last_rev_test_key").unwrap()
    );
    assert_eq!(
        Some(sled::IVec::from("owner_key".as_bytes())),
        db.get("owner_key_test_key").unwrap()
    );

    db.clear().unwrap();
}

#[test]
fn matching_owner_key_succeeds() {
    let (mut store, db) = fresh_store();
    let key = "test_key";
    assert_eq!(Ok(1), store.set(key, b"v1", 0, Some(b"o1")));
    assert_eq!(Ok(2), store.set(key, b"v2", 1, Some(b"o1")));
    // the recorded owner token is untouched
    assert_eq!(
        Some(sled::IVec::from("o1".as_bytes())),
        db.get("owner_key_test_key").unwrap()
    );
    db.clear().unwrap();
}

#[test]
fn missing_owner_key_on_owned_document_fails() {
    let (mut store, db) = fresh_store();
    let key = "test_key";
    assert_eq!(Ok(1), store.set(key, b"v1", 0, Some(b"o1")));
    let res = store.set(key, b"v2", 1, None);
    assert_eq!(Err(StoreError::User(StoreUserError::InvalidOwnerKey)), res);
    assert_eq!(
        Some(sled::IVec::from("v1".as_bytes())),
        db.get("blob_test_key").unwrap()
    );
    db.clear().unwrap();
}

#[test]
fn get_returns_revision_and_blob() {
    let (mut store, db) = fresh_store();
    assert_eq!(Ok(None), store.get("test_key"));
    store.set("test_key", &TEST_VALUE, 0, None).unwrap();
    assert_eq!(Ok(Some((1, TEST_VALUE.to_vec()))), store.get("test_key"));
    db.clear().unwrap();
}

#[test]
fn get_reports_inconsistent_rows() {
    let (store, db) = fresh_store();
    // a blob row with no revision row is store corruption
    db.insert("blob_test_key", b"x").unwrap();
    assert_eq!(Err(StoreError::Corrupt), store.get("test_key"));
    db.clear().unwrap();
}

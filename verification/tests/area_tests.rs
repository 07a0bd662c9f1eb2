use notea::store_area::AreaError;
use notea::Area;
use notea::Store;
use notea::StoreKey;

const TEST_VALUE: [u8; 16] = [
    0u8, 1u8, 2u8, 3u8, 4u8, 5u8, 6u8, 7u8, 8u8, 9u8, 10u8, 11u8, 12u8, 13u8, 14u8, 15u8,
];

fn gen_store_path() -> String {
    format!("/tmp/notea_test_{}", rand::random::<u64>())
}

fn fresh_area() -> Area {
    let mut store = Store::init_from_path(&gen_store_path()).unwrap();
    store.get_area("tree_name").unwrap()
}

#[test]
fn simple_get() {
    let mut store = Store::init_from_path(&gen_store_path()).unwrap();
    let area = Area::init(&mut store, "tree_name").unwrap();
    let tree = area.inner_tree();

    let id = rand::random::<u32>();
    let rev = rand::random::<u16>();
    let key = StoreKey::Blob { id, rev };

    tree.insert(key.to_be_bytes(), &TEST_VALUE).unwrap();

    let value = area.get_document_revision(id, rev).unwrap();

    assert_eq!(TEST_VALUE.to_vec(), value);

    store.inner_db().clear().unwrap();
}

#[test]
fn cas_success_keeping_history() {
    let mut area = fresh_area();
    let id = 7;
    assert_eq!(Ok(0), area.set_document(id, None, 0, b"A", true));
    assert_eq!(Ok(b"A".to_vec()), area.get_document_revision(id, 0));
    assert_eq!(Ok(1), area.set_document(id, Some(0), 1, b"B", true));
    assert_eq!(Ok(b"A".to_vec()), area.get_document_revision(id, 0));
    assert_eq!(Ok(b"B".to_vec()), area.get_document_revision(id, 1));
}

#[test]
fn cas_success_dropping_history() {
    let mut area = fresh_area();
    let id = 8;
    assert_eq!(Ok(0), area.set_document(id, None, 0, b"A", true));
    assert_eq!(Ok(1), area.set_document(id, Some(0), 1, b"B", false));
    assert_eq!(
        Err(AreaError::NotFound),
        area.get_document_revision(id, 0)
    );
    assert_eq!(Ok(b"B".to_vec()), area.get_document_revision(id, 1));
}

#[test]
fn cas_rejection_leaves_state_untouched() {
    let mut area = fresh_area();
    let id = 9;
    assert_eq!(Ok(0), area.set_document(id, None, 0, b"A", true));
    assert_eq!(
        Err(AreaError::RevisionConflict),
        area.set_document(id, Some(5), 6, b"X", true)
    );
    assert_eq!(Ok(b"A".to_vec()), area.get_document_revision(id, 0));
    assert_eq!(
        Err(AreaError::NotFound),
        area.get_document_revision(id, 1)
    );
}

#[test]
fn mismatched_new_revision_is_rejected() {
    let mut area = fresh_area();
    let id = 10;
    assert_eq!(Ok(0), area.set_document(id, None, 0, b"A", true));
    // the claimed prior revision matches, but the requested new revision
    // is not its successor
    assert_eq!(
        Err(AreaError::RevisionConflict),
        area.set_document(id, Some(0), 5, b"X", true)
    );
    assert_eq!(
        Err(AreaError::RevisionConflict),
        area.set_document(id, None, 1, b"X", true)
    );
    assert_eq!(Ok(b"A".to_vec()), area.get_document_revision(id, 0));
}

#[test]
fn remove_document_at_rev_zero_is_rejected() {
    let mut area = fresh_area();
    let id = 11;
    assert_eq!(Ok(0), area.set_document(id, None, 0, b"A", true));
    assert_eq!(
        Err(AreaError::RevisionConflict),
        area.remove_document(id, 0)
    );
    assert_eq!(Ok(b"A".to_vec()), area.get_document_revision(id, 0));
}

#[test]
fn remove_document_deletes_every_revision() {
    let mut area = fresh_area();
    let id = 12;
    assert_eq!(Ok(0), area.set_document(id, None, 0, b"A", true));
    assert_eq!(Ok(1), area.set_document(id, Some(0), 1, b"B", true));
    // the stored last revision is 1, so rev must be 2 here
    assert_eq!(Ok(()), area.remove_document(id, 2));
    assert_eq!(
        Err(AreaError::NotFound),
        area.get_document_revision(id, 0)
    );
    assert_eq!(
        Err(AreaError::NotFound),
        area.get_document_revision(id, 1)
    );
    // the document is fresh again: a first write is accepted
    assert_eq!(Ok(0), area.set_document(id, None, 0, b"C", true));
}

#[test]
fn remove_document_with_wrong_revision_is_rejected() {
    let mut area = fresh_area();
    let id = 13;
    assert_eq!(Ok(0), area.set_document(id, None, 0, b"A", true));
    assert_eq!(
        Err(AreaError::RevisionConflict),
        area.remove_document(id, 5)
    );
    assert_eq!(Ok(b"A".to_vec()), area.get_document_revision(id, 0));
}

#[test]
fn duplicate_area_name_is_refused() {
    let mut store = Store::init_from_path(&gen_store_path()).unwrap();
    let _first = store.get_area("tree_name").unwrap();
    assert_eq!(
        Err(AreaError::NameUnavailable),
        store.get_area("tree_name").map(|_| ())
    );
    // the engine's reserved name for its default keyspace is refused too
    assert_eq!(
        Err(AreaError::NameUnavailable),
        store.get_area("__sled__default").map(|_| ())
    );
    // a fresh name is still served
    assert!(store.get_area("other_name").is_ok());
}

#[test]
fn distinct_areas_hold_distinct_documents() {
    let mut store = Store::init_from_path(&gen_store_path()).unwrap();
    let mut first = store.get_area("area_one").unwrap();
    let mut second = store.get_area("area_two").unwrap();
    assert_eq!(Ok(0), first.set_document(1, None, 0, b"A", true));
    assert_eq!(
        Err(AreaError::NotFound),
        second.get_document_revision(1, 0)
    );
    assert_eq!(Ok(0), second.set_document(1, None, 0, b"B", true));
    assert_eq!(Ok(b"A".to_vec()), first.get_document_revision(1, 0));
    assert_eq!(Ok(b"B".to_vec()), second.get_document_revision(1, 0));
}

#[test]
fn remove_document_does_not_touch_other_documents() {
    let mut area = fresh_area();
    assert_eq!(Ok(0), area.set_document(20, None, 0, b"keep", true));
    assert_eq!(Ok(0), area.set_document(21, None, 0, b"drop", true));
    assert_eq!(Ok(()), area.remove_document(21, 1));
    assert_eq!(Ok(b"keep".to_vec()), area.get_document_revision(20, 0));
    assert_eq!(
        Err(AreaError::NotFound),
        area.get_document_revision(21, 0)
    );
}

//! Trusted boundary around the sled embedded key-value engine.
//!
//! The engine's state is modelled by two uninterpreted contents functions:
//! `db_view` for the database's default keyspace (string keys, reached
//! through `Db`'s `Deref` to its default `Tree`) and `tree_view` for a named
//! keyspace (binary keys). Every call the library makes into sled goes
//! through one of the wrappers below; their contracts state, over these
//! views, what the engine's source shows of each operation.
//!
//! Modelling contents as a function of the handle relies on two disciplines
//! the library keeps: verified code never duplicates a `Db` (none is
//! produced but by `open_db`, and a second open of a locked path fails),
//! and a named keyspace is handed out as at most one live `Area` per store
//! (`Area::init` refuses a repeated or reserved name), so no two handles in
//! verified code alias one mutable tree.
//!
//! Writes are staged in a `sled::Batch`, modelled by `batch_ops` (binary
//! keys) or `batch_ops_str` (string keys), and applied by one `apply_batch`
//! call: on success the whole batch holds; on failure each staged key holds
//! its old or its staged state and no other key is touched. String keys are
//! stored as their UTF-8 bytes; UTF-8 encoding is injective, so the
//! string-keyed views distinguish exactly the keys the engine does, and the
//! library stages any one batch through only one of the two key families.
use vstd::prelude::*;

verus! {

#[verifier::external_type_specification]
#[verifier::external_body]
pub struct ExDb(sled::Db);

#[verifier::external_type_specification]
#[verifier::external_body]
pub struct ExTree(sled::Tree);

#[verifier::external_type_specification]
#[verifier::external_body]
pub struct ExBatch(sled::Batch);

#[verifier::external_type_specification]
#[verifier::external_body]
pub struct ExSledError(sled::Error);

/// The contents of the database's default keyspace.
pub uninterp spec fn db_view(d: sled::Db) -> Map<Seq<char>, Seq<u8>>;

/// The contents of a named keyspace.
pub uninterp spec fn tree_view(t: sled::Tree) -> Map<Seq<u8>, Seq<u8>>;

/// The writes a batch stages, by binary key: `Some` sets the key, `None`
/// deletes it; a later staging of a key replaces an earlier one.
pub uninterp spec fn batch_ops(b: sled::Batch) -> Map<Seq<u8>, Option<Seq<u8>>>;

/// The writes a batch stages, by string key.
pub uninterp spec fn batch_ops_str(b: sled::Batch) -> Map<Seq<char>, Option<Seq<u8>>>;

/// The contents after a set of staged writes is applied in full.
pub open spec fn apply_ops<K>(m: Map<K, Seq<u8>>, ops: Map<K, Option<Seq<u8>>>) -> Map<
    K,
    Seq<u8>,
> {
    Map::new(
        |k: K|
            if ops.dom().contains(k) {
                ops[k] is Some
            } else {
                m.dom().contains(k)
            },
        |k: K|
            if ops.dom().contains(k) {
                ops[k]->0
            } else {
                m[k]
            },
    )
}

/// The key is in the same state in both contents maps.
pub open spec fn same_at<K>(m0: Map<K, Seq<u8>>, m1: Map<K, Seq<u8>>, k: K) -> bool {
    m1.dom().contains(k) == m0.dom().contains(k) && (m0.dom().contains(k) ==> m1[k] == m0[k])
}

/// The key is in the state its staged write leaves it in.
pub open spec fn applied_at<K>(m1: Map<K, Seq<u8>>, ops: Map<K, Option<Seq<u8>>>, k: K) -> bool {
    match ops[k] {
        Option::Some(v) => m1.dom().contains(k) && m1[k] == v,
        Option::None => !m1.dom().contains(k),
    }
}

/// An interrupted batch, pointwise: every key outside the staged writes is
/// untouched, and every staged key holds either its old or its staged state.
pub open spec fn partial_apply<K>(
    m0: Map<K, Seq<u8>>,
    m1: Map<K, Seq<u8>>,
    ops: Map<K, Option<Seq<u8>>>,
) -> bool {
    &&& forall|k: K| !(#[trigger] ops.dom().contains(k)) ==> same_at(m0, m1, k)
    &&& forall|k: K| #[trigger] ops.dom().contains(k) ==> same_at(m0, m1, k) || applied_at(
        m1,
        ops,
        k,
    )
}

/// Relies on sled::open: opens or creates the database rooted at the path.
#[verifier::external_body]
pub(crate) fn open_db(path: &str) -> (r: Result<sled::Db, sled::Error>) {
    sled::open(path)
}

/// Relies on sled::Db::open_tree: opens or creates the named keyspace. Its
/// prior contents, if the name was used before, are unknown to the caller;
/// for a name already open it returns another handle on the same tree,
/// which is why `Area::init` refuses a repeated name.
#[verifier::external_body]
pub(crate) fn open_tree(db: &sled::Db, name: &str) -> (r: Result<sled::Tree, sled::Error>) {
    db.open_tree(name)
}

/// Relies on sled::Tree::get, reached through Db's Deref to the default
/// keyspace: returns the value stored at the key, if any.
#[verifier::external_body]
pub(crate) fn db_get(db: &sled::Db, key: &str) -> (r: Result<Option<Vec<u8>>, sled::Error>)
    ensures
        match r {
            Ok(v) => match v {
                Some(b) => db_view(*db).dom().contains(key@) && b@ == db_view(*db)[key@],
                None => !db_view(*db).dom().contains(key@),
            },
            Err(_) => true,
        },
{
    match db.get(key) {
        Ok(Some(v)) => Ok(Some(v.to_vec())),
        Ok(None) => Ok(None),
        Err(e) => Err(e),
    }
}

/// Relies on sled::Tree::get: returns the value stored at the key, if any.
#[verifier::external_body]
pub(crate) fn tree_get(t: &sled::Tree, key: &[u8]) -> (r: Result<Option<Vec<u8>>, sled::Error>)
    ensures
        match r {
            Ok(v) => match v {
                Some(b) => tree_view(*t).dom().contains(key@) && b@ == tree_view(*t)[key@],
                None => !tree_view(*t).dom().contains(key@),
            },
            Err(_) => true,
        },
{
    match t.get(key) {
        Ok(Some(v)) => Ok(Some(v.to_vec())),
        Ok(None) => Ok(None),
        Err(e) => Err(e),
    }
}

/// Relies on sled::Tree::scan_prefix: iterates over exactly the stored
/// entries whose keys begin with the prefix; the wrapper collects their keys.
#[verifier::external_body]
pub(crate) fn tree_scan_prefix_keys(t: &sled::Tree, prefix: &[u8]) -> (r: Result<
    Vec<Vec<u8>>,
    sled::Error,
>)
    ensures
        match r {
            Ok(ks) => (forall|i: int|
                0 <= i < ks.len() ==> tree_view(*t).dom().contains(#[trigger] ks[i]@)
                    && prefix@.is_prefix_of(ks[i]@)) && (forall|k: Seq<u8>|
                #[trigger] tree_view(*t).dom().contains(k) && prefix@.is_prefix_of(k)
                    ==> exists|i: int| 0 <= i < ks.len() && ks[i]@ == k),
            Err(_) => true,
        },
{
    let mut out: Vec<Vec<u8>> = Vec::new();
    for item in t.scan_prefix(prefix) {
        match item {
            Ok((k, _)) => out.push(k.to_vec()),
            Err(e) => return Err(e),
        }
    }
    Ok(out)
}

/// The batch stages no writes, under either key model.
pub open spec fn batch_is_empty(b: sled::Batch) -> bool {
    batch_ops(b) == Map::<Seq<u8>, Option<Seq<u8>>>::empty() && batch_ops_str(b) == Map::<
        Seq<char>,
        Option<Seq<u8>>,
    >::empty()
}

/// Relies on sled::Batch::default: a batch that stages no writes.
#[verifier::external_body]
pub(crate) fn batch_new() -> (r: sled::Batch)
    ensures
        batch_is_empty(r),
{
    sled::Batch::default()
}

/// Relies on sled::Batch::insert: stages the key to be set to the value.
#[verifier::external_body]
pub(crate) fn batch_insert(b: &mut sled::Batch, key: &[u8], val: &[u8])
    ensures
        batch_ops(*final(b)) == batch_ops(*old(b)).insert(key@, Some(val@)),
{
    b.insert(key, val)
}

/// Relies on sled::Batch::remove: stages the key for deletion.
#[verifier::external_body]
pub(crate) fn batch_remove(b: &mut sled::Batch, key: &[u8])
    ensures
        batch_ops(*final(b)) == batch_ops(*old(b)).insert(key@, None::<Seq<u8>>),
{
    b.remove(key)
}

/// Relies on sled::Batch::insert: stages the string key — stored as its
/// UTF-8 bytes — to be set to the value.
#[verifier::external_body]
pub(crate) fn batch_insert_str(b: &mut sled::Batch, key: &str, val: &[u8])
    ensures
        batch_ops_str(*final(b)) == batch_ops_str(*old(b)).insert(key@, Some(val@)),
{
    b.insert(key, val)
}

/// Relies on sled::Tree::apply_batch: applies the staged writes as one
/// batch, sealed in the log as one recovery unit. On success all of them
/// hold; on failure each staged key — the batch is applied key by key —
/// holds its old or its staged state, and no other key is touched.
#[verifier::external_body]
pub(crate) fn tree_apply_batch(t: &mut sled::Tree, b: sled::Batch) -> (r: Result<
    (),
    sled::Error,
>)
    ensures
        match r {
            Ok(u) => tree_view(*final(t)) == apply_ops(tree_view(*old(t)), batch_ops(b)),
            Err(_) => partial_apply(tree_view(*old(t)), tree_view(*final(t)), batch_ops(b)),
        },
{
    match t.apply_batch(b) {
        Ok(_) => Ok(()),
        Err(e) => Err(e),
    }
}

/// Relies on sled::Tree::apply_batch, reached through Db's Deref to the
/// default keyspace, for a batch staged through the string wrapper alone:
/// same contract as the tree form, over the string-keyed views.
#[verifier::external_body]
pub(crate) fn db_apply_batch(db: &mut sled::Db, b: sled::Batch) -> (r: Result<(), sled::Error>)
    ensures
        match r {
            Ok(u) => db_view(*final(db)) == apply_ops(db_view(*old(db)), batch_ops_str(b)),
            Err(_) => partial_apply(db_view(*old(db)), db_view(*final(db)), batch_ops_str(b)),
        },
{
    match db.apply_batch(b) {
        Ok(_) => Ok(()),
        Err(e) => Err(e),
    }
}

} // verus!

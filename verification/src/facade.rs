//! Conditional-write façade: hash-token compare-and-swap on string keys.
//!
//! One logical key `K` stores under two physical keys in the engine's
//! default keyspace: `K_blob` (the payload) and `K_hash` (the hash token of
//! the last accepted write). The token is an opaque, caller-chosen version
//! witness, never derived from the payload here. A write is accepted only
//! when the caller's expected token matches the stored one — both absent,
//! or byte-identical — and then replaces blob and token in place; a
//! rejected write changes nothing. There is no revision history.
use vstd::prelude::*;
use vstd::string::StringExecFns;
use vstd::string::StringSliceAdditionalSpecFns;

use crate::kv;
use crate::store_key::bytes_eq;

verus! {

/// A conflict detected by the hash-token check; the caller should re-read
/// and retry with a fresh token, no partial write has occurred.
#[derive(Debug, Clone, Copy, PartialEq, Eq, Structural)]
pub enum StoreUserError {
    /// The caller's expected hash token does not match the stored one, or
    /// one is present where the other expects absence.
    InvalidHash,
}

/// Everything a façade operation can fail with.
#[derive(Debug, Clone, Copy, PartialEq, Eq, Structural)]
pub enum StoreError {
    /// A compare-and-swap conflict; stored state is untouched.
    User(StoreUserError),
    /// The underlying engine failed; surfaced unchanged, no retry here.
    Engine,
}

/// The physical-key kinds of one logical key.
#[derive(Debug, Clone, Copy, PartialEq, Eq, Structural)]
pub enum SubKey {
    Blob,
    Hash,
}

/// A physical engine key: the logical key plus a kind suffix.
pub struct Key(pub SubKey, pub String);

pub open spec fn spec_subkey_suffix(s: SubKey) -> Seq<char> {
    match s {
        SubKey::Blob => "_blob"@,
        SubKey::Hash => "_hash"@,
    }
}

/// The physical key holding a logical key's payload.
pub open spec fn blob_skey(k: Seq<char>) -> Seq<char> {
    k + "_blob"@
}

/// The physical key holding a logical key's hash token.
pub open spec fn hash_skey(k: Seq<char>) -> Seq<char> {
    k + "_hash"@
}

impl Key {
    pub open spec fn spec_str(self) -> Seq<char> {
        self.1@ + spec_subkey_suffix(self.0)
    }

    /// The physical engine key this logical key stores under.
    pub fn to_string(&self) -> (r: String)
        ensures
            r@ == self.spec_str(),
    {
        let mut s: String = self.1.as_str().to_owned();
        match self.0 {
            SubKey::Blob => s.append("_blob"),
            SubKey::Hash => s.append("_hash"),
        }
        s
    }
}

/// The UTF-8 bytes an optional token string stores as.
pub open spec fn spec_opt_token(o: Option<&str>) -> Option<Seq<u8>> {
    match o {
        Option::Some(h) => Option::Some(h.spec_bytes()),
        Option::None => Option::None,
    }
}

/// The writes an accepted call stages: the new hash token and the payload.
pub open spec fn facade_set_ops(key: Seq<char>, val: Seq<u8>, new_hash: Seq<u8>) -> Map<
    Seq<char>,
    Option<Seq<u8>>,
> {
    Map::<Seq<char>, Option<Seq<u8>>>::empty().insert(hash_skey(key), Some(new_hash)).insert(
        blob_skey(key),
        Some(val),
    )
}

/// The hash-token write as a transition on the keyspace contents: the
/// outcome and the contents after. A rejected write returns the contents
/// unchanged.
pub open spec fn spec_facade_set(
    m: Map<Seq<char>, Seq<u8>>,
    key: Seq<char>,
    val: Seq<u8>,
    expected: Option<Seq<u8>>,
    new_hash: Seq<u8>,
) -> (Result<(), StoreUserError>, Map<Seq<char>, Seq<u8>>) {
    let hk = hash_skey(key);
    let pass = match expected {
        Option::None => !m.dom().contains(hk),
        Option::Some(h) => m.dom().contains(hk) && m[hk] == h,
    };
    if !pass {
        (Err(StoreUserError::InvalidHash), m)
    } else {
        (Ok(()), m.insert(hk, new_hash).insert(blob_skey(key), val))
    }
}

/// A rejected conditional write leaves the keyspace contents untouched.
pub proof fn lemma_facade_set_rejected_unchanged(
    m: Map<Seq<char>, Seq<u8>>,
    key: Seq<char>,
    val: Seq<u8>,
    expected: Option<Seq<u8>>,
    new_hash: Seq<u8>,
)
    ensures
        ({
            let (r, m2) = spec_facade_set(m, key, val, expected, new_hash);
            r is Err ==> m2 == m
        }),
{
}

/// A mismatched hash token — stored and expected differing, or one present
/// where the other expects absence — is turned away with `InvalidHash`,
/// the stored state untouched.
pub proof fn lemma_wrong_hash_rejected(
    m: Map<Seq<char>, Seq<u8>>,
    key: Seq<char>,
    val: Seq<u8>,
    expected: Option<Seq<u8>>,
    new_hash: Seq<u8>,
)
    requires
        match expected {
            Option::None => m.dom().contains(hash_skey(key)),
            Option::Some(h) => !m.dom().contains(hash_skey(key)) || m[hash_skey(key)] != h,
        },
    ensures
        spec_facade_set(m, key, val, expected, new_hash) == (
            Err::<(), StoreUserError>(StoreUserError::InvalidHash),
            m,
        ),
{
}

/// An accepted write replaces the stored payload and hash token in place.
pub proof fn lemma_facade_set_applied(
    m: Map<Seq<char>, Seq<u8>>,
    key: Seq<char>,
    val: Seq<u8>,
    expected: Option<Seq<u8>>,
    new_hash: Seq<u8>,
)
    ensures
        ({
            let (r, m2) = spec_facade_set(m, key, val, expected, new_hash);
            r is Ok ==> {
                &&& m2.dom().contains(blob_skey(key)) && m2[blob_skey(key)] == val
                &&& m2.dom().contains(hash_skey(key)) && m2[hash_skey(key)] == new_hash
            }
        }),
{
    reveal_strlit("_hash");
    reveal_strlit("_blob");
    assert(hash_skey(key)[key.len() as int + 1] == 'h');
    assert(blob_skey(key)[key.len() as int + 1] == 'b');
}

/// The store owning the engine handle for the flat keyspace the façade
/// writes to.
pub struct Store {
    db: sled::Db,
}

impl View for Store {
    type V = Map<Seq<char>, Seq<u8>>;

    closed spec fn view(&self) -> Map<Seq<char>, Seq<u8>> {
        kv::db_view(self.db)
    }
}

impl Store {
    /// Opens or creates the engine at the given location.
    pub fn init_from_path(path: &str) -> (r: Result<Store, StoreError>) {
        match kv::open_db(path) {
            Ok(db) => Ok(Store { db }),
            Err(_) => Err(StoreError::Engine),
        }
    }

    /// Wraps an already opened engine handle.
    pub fn init_from_db(db: sled::Db) -> (r: Store)
        ensures
            r@ == kv::db_view(db),
    {
        Store { db }
    }

    /// Conditionally writes `val` under `key`: accepted only when the
    /// stored hash token matches `hash` (both absent for a fresh key, or
    /// byte-identical). On success `new_hash` replaces the stored token
    /// and the payload is overwritten in place. The writes go to the
    /// engine as one batch: a rejected write leaves the store untouched,
    /// and even an engine failure can touch no key outside the document's
    /// own two rows.
    pub fn set(&mut self, key: &str, val: &[u8], hash: Option<&str>, new_hash: &str) -> (r:
        Result<(), StoreError>)
        ensures
            ({
                let (sr, sm) = spec_facade_set(
                    old(self)@,
                    key@,
                    val@,
                    spec_opt_token(hash),
                    new_hash.spec_bytes(),
                );
                match r {
                    Ok(v) => sr == Ok::<(), StoreUserError>(v) && final(self)@ == sm,
                    Err(e) => match e {
                        StoreError::User(u) => sr == Err::<(), StoreUserError>(u)
                            && final(self)@ == sm,
                        StoreError::Engine => kv::partial_apply(
                            old(self)@,
                            final(self)@,
                            facade_set_ops(key@, val@, new_hash.spec_bytes()),
                        ),
                    },
                }
            }),
    {
        let ghost m0 = self@;
        let k_hash = Key(SubKey::Hash, key.to_owned()).to_string();
        let stored = match kv::db_get(&self.db, k_hash.as_str()) {
            Ok(v) => v,
            Err(_) => return Err(StoreError::Engine),
        };
        let pass: bool = match (&stored, hash) {
            (Option::None, Option::None) => true,
            (Option::Some(bd), Option::Some(h)) => bytes_eq(bd.as_slice(), h.as_bytes()),
            _ => false,
        };
        if !pass {
            return Err(StoreError::User(StoreUserError::InvalidHash));
        }
        let k_blob = Key(SubKey::Blob, key.to_owned()).to_string();
        let mut batch = kv::batch_new();
        kv::batch_insert_str(&mut batch, k_hash.as_str(), new_hash.as_bytes());
        kv::batch_insert_str(&mut batch, k_blob.as_str(), val);
        proof {
            assert(kv::batch_ops_str(batch) =~= facade_set_ops(
                key@,
                val@,
                new_hash.spec_bytes(),
            ));
        }
        match kv::db_apply_batch(&mut self.db, batch) {
            Ok(_) => (),
            Err(_) => return Err(StoreError::Engine),
        }
        proof {
            let (sr, sm) = spec_facade_set(
                m0,
                key@,
                val@,
                spec_opt_token(hash),
                new_hash.spec_bytes(),
            );
            assert(self@ =~= sm);
        }
        Ok(())
    }

    /// Reads the payload stored for a key; absence is a normal empty
    /// result, not an error.
    pub fn get(&self, key: &str) -> (r: Result<Option<Vec<u8>>, StoreError>)
        ensures
            match r {
                Ok(v) => match v {
                    Some(b) => self@.dom().contains(blob_skey(key@)) && b@ == self@[blob_skey(
                        key@,
                    )],
                    None => !self@.dom().contains(blob_skey(key@)),
                },
                Err(e) => match e {
                    StoreError::Engine => true,
                    StoreError::User(u) => false,
                },
            },
    {
        let k_blob = Key(SubKey::Blob, key.to_owned()).to_string();
        match kv::db_get(&self.db, k_blob.as_str()) {
            Ok(v) => Ok(v),
            Err(_) => Err(StoreError::Engine),
        }
    }
}

} // verus!

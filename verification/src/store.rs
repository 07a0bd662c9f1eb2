//! Numeric-revision store with owner keys, on string engine keys.
//!
//! One logical document key `K` stores under three physical keys in the
//! engine's default keyspace: `blob_K` (the payload), `last_rev_K` (the
//! last accepted revision, four big-endian bytes) and `owner_key_K` (the
//! owner token set by the first writer, immutable thereafter). A write is a
//! compare-and-swap: it is applied only when the caller's claimed prior
//! revision matches the stored one and the caller's owner token matches the
//! recorded owner; a rejected write changes nothing.
use vstd::prelude::*;
use vstd::string::StringExecFns;

use crate::kv;
use crate::store_key::be4_bytes;
use crate::store_key::bytes_eq;
use crate::store_key::spec_be4;

verus! {

/// A conflict detected by the compare-and-swap write protocol; the caller
/// should re-read and retry, no partial write has occurred.
#[derive(Debug, Clone, Copy, PartialEq, Eq, Structural)]
pub enum StoreUserError {
    /// The caller's claimed prior revision does not match stored state.
    BadRevision,
    /// The caller's owner token does not match the recorded owner.
    InvalidOwnerKey,
}

/// Everything a store operation can fail with.
#[derive(Debug, Clone, Copy, PartialEq, Eq, Structural)]
pub enum StoreError {
    /// A compare-and-swap conflict; stored state is untouched.
    User(StoreUserError),
    /// Stored rows for the document are mutually inconsistent.
    Corrupt,
    /// The underlying engine failed; surfaced unchanged, no retry here.
    Engine,
}

/// The physical-key kinds of one logical document key.
#[derive(Debug, Clone, Copy, PartialEq, Eq, Structural)]
pub enum SubKey {
    OwnerKey,
    Blob,
    LastRev,
}

/// A physical engine key: a kind tag plus the logical document key.
pub struct Key(pub SubKey, pub String);

pub open spec fn spec_subkey_prefix(s: SubKey) -> Seq<char> {
    match s {
        SubKey::OwnerKey => "owner_key_"@,
        SubKey::Blob => "blob_"@,
        SubKey::LastRev => "last_rev_"@,
    }
}

/// The physical key holding a document's last accepted revision.
pub open spec fn last_rev_skey(k: Seq<char>) -> Seq<char> {
    "last_rev_"@ + k
}

/// The physical key holding a document's owner token.
pub open spec fn owner_skey(k: Seq<char>) -> Seq<char> {
    "owner_key_"@ + k
}

/// The physical key holding a document's payload.
pub open spec fn blob_skey(k: Seq<char>) -> Seq<char> {
    "blob_"@ + k
}

impl Key {
    pub open spec fn spec_str(self) -> Seq<char> {
        spec_subkey_prefix(self.0) + self.1@
    }

    /// The physical engine key this logical key stores under.
    pub fn to_string(&self) -> (r: String)
        ensures
            r@ == self.spec_str(),
    {
        let mut s: String = match self.0 {
            SubKey::OwnerKey => "owner_key_".to_owned(),
            SubKey::Blob => "blob_".to_owned(),
            SubKey::LastRev => "last_rev_".to_owned(),
        };
        s.append(self.1.as_str());
        s
    }
}

/// The store owning the engine handle for the default keyspace. It also
/// remembers which area names it has handed out, so that no two live areas
/// ever share one keyspace.
pub struct Store {
    db: sled::Db,
    opened_areas: Vec<String>,
}

impl View for Store {
    type V = Map<Seq<char>, Seq<u8>>;

    closed spec fn view(&self) -> Map<Seq<char>, Seq<u8>> {
        kv::db_view(self.db)
    }
}

pub open spec fn spec_opt_bytes(o: Option<&[u8]>) -> Option<Seq<u8>> {
    match o {
        Option::Some(b) => Option::Some(b@),
        Option::None => Option::None,
    }
}

/// The writes an accepted call stages: the new revision row, the owner row
/// when the document was unowned and a token is offered, and the payload.
pub open spec fn set_ops(
    m: Map<Seq<char>, Seq<u8>>,
    key: Seq<char>,
    val: Seq<u8>,
    rev: u32,
    owner: Option<Seq<u8>>,
) -> Map<Seq<char>, Option<Seq<u8>>> {
    let base = Map::<Seq<char>, Option<Seq<u8>>>::empty().insert(
        last_rev_skey(key),
        Some(spec_be4((rev + 1) as u32)),
    );
    let with_owner = if !m.dom().contains(owner_skey(key)) {
        match owner {
            Option::Some(o) => base.insert(owner_skey(key), Some(o)),
            Option::None => base,
        }
    } else {
        base
    };
    with_owner.insert(blob_skey(key), Some(val))
}

/// The compare-and-swap write as a transition on the keyspace contents:
/// the outcome and the contents after. A rejected write returns the
/// contents unchanged.
pub open spec fn spec_set(
    m: Map<Seq<char>, Seq<u8>>,
    key: Seq<char>,
    val: Seq<u8>,
    rev: u32,
    owner: Option<Seq<u8>>,
) -> (Result<u32, StoreUserError>, Map<Seq<char>, Seq<u8>>) {
    let rev_ok = if m.dom().contains(last_rev_skey(key)) {
        m[last_rev_skey(key)] == spec_be4(rev)
    } else {
        rev == 0
    };
    if !rev_ok {
        (Err(StoreUserError::BadRevision), m)
    } else {
        let owner_ok = match owner {
            Option::Some(o) => !m.dom().contains(owner_skey(key)) || m[owner_skey(key)] == o,
            Option::None => !m.dom().contains(owner_skey(key)),
        };
        if !owner_ok {
            (Err(StoreUserError::InvalidOwnerKey), m)
        } else {
            let m1 = m.insert(last_rev_skey(key), spec_be4((rev + 1) as u32));
            let m2 = if !m.dom().contains(owner_skey(key)) {
                match owner {
                    Option::Some(o) => m1.insert(owner_skey(key), o),
                    Option::None => m1,
                }
            } else {
                m1
            };
            (Ok((rev + 1) as u32), m2.insert(blob_skey(key), val))
        }
    }
}

/// A rejected conditional write leaves the keyspace contents untouched.
pub proof fn lemma_set_rejected_unchanged(
    m: Map<Seq<char>, Seq<u8>>,
    key: Seq<char>,
    val: Seq<u8>,
    rev: u32,
    owner: Option<Seq<u8>>,
)
    ensures
        ({
            let (r, m2) = spec_set(m, key, val, rev, owner);
            r is Err ==> m2 == m
        }),
{
}

/// Owner-key immutability: whatever the outcome of a write, an existing
/// owner row keeps exactly the token the first writer recorded. On an
/// engine failure the same holds through `set`'s own contract: the staged
/// writes of `set_ops` never include an owner row that is already stored.
pub proof fn lemma_owner_key_immutable(
    m: Map<Seq<char>, Seq<u8>>,
    key: Seq<char>,
    val: Seq<u8>,
    rev: u32,
    owner: Option<Seq<u8>>,
)
    ensures
        ({
            let (r, m2) = spec_set(m, key, val, rev, owner);
            m.dom().contains(owner_skey(key)) ==> m2.dom().contains(owner_skey(key))
                && m2[owner_skey(key)] == m[owner_skey(key)]
        }),
{
    reveal_strlit("owner_key_");
    reveal_strlit("last_rev_");
    reveal_strlit("blob_");
    assert(owner_skey(key)[0] == 'o');
    assert(last_rev_skey(key)[0] == 'l');
    assert(blob_skey(key)[0] == 'b');
}

/// A writer whose token does not match the recorded owner — including one
/// offering no token at all — is turned away with `InvalidOwnerKey`, the
/// stored state untouched. The revision gate is assumed to pass, so that
/// ownership is what decides.
pub proof fn lemma_wrong_owner_rejected(
    m: Map<Seq<char>, Seq<u8>>,
    key: Seq<char>,
    val: Seq<u8>,
    rev: u32,
    owner: Option<Seq<u8>>,
)
    requires
        m.dom().contains(owner_skey(key)),
        match owner {
            Option::Some(o) => o != m[owner_skey(key)],
            Option::None => true,
        },
        if m.dom().contains(last_rev_skey(key)) {
            m[last_rev_skey(key)] == spec_be4(rev)
        } else {
            rev == 0
        },
    ensures
        spec_set(m, key, val, rev, owner) == (
            Err::<u32, StoreUserError>(StoreUserError::InvalidOwnerKey),
            m,
        ),
{
}

/// An accepted write stores the payload, advances the revision row, and
/// records an offered owner token exactly when the document was unowned.
pub proof fn lemma_set_applied(
    m: Map<Seq<char>, Seq<u8>>,
    key: Seq<char>,
    val: Seq<u8>,
    rev: u32,
    owner: Option<Seq<u8>>,
)
    ensures
        ({
            let (r, m2) = spec_set(m, key, val, rev, owner);
            r is Ok ==> {
                &&& m2.dom().contains(blob_skey(key)) && m2[blob_skey(key)] == val
                &&& m2.dom().contains(last_rev_skey(key)) && m2[last_rev_skey(key)] == spec_be4(
                    (rev + 1) as u32,
                )
                &&& match owner {
                    Option::Some(o) => !m.dom().contains(owner_skey(key)) ==> m2.dom().contains(
                        owner_skey(key),
                    ) && m2[owner_skey(key)] == o,
                    Option::None => true,
                }
            }
        }),
{
    reveal_strlit("owner_key_");
    reveal_strlit("last_rev_");
    reveal_strlit("blob_");
    assert(owner_skey(key)[0] == 'o');
    assert(last_rev_skey(key)[0] == 'l');
    assert(blob_skey(key)[0] == 'b');
}

impl Store {
    /// Opens or creates the engine at the given location.
    pub fn init_from_path(path: &str) -> (r: Result<Store, StoreError>) {
        match kv::open_db(path) {
            Ok(db) => Ok(Store { db, opened_areas: Vec::new() }),
            Err(_) => Err(StoreError::Engine),
        }
    }

    /// Wraps an already opened engine handle.
    pub fn init_from_db(db: sled::Db) -> (r: Store)
        ensures
            r@ == kv::db_view(db),
    {
        Store { db, opened_areas: Vec::new() }
    }

    /// The engine handle this store operates on.
    pub fn inner_db(&self) -> (r: &sled::Db)
        ensures
            kv::db_view(*r) == self@,
    {
        &self.db
    }

    /// True when the name is neither the engine's reserved name for the
    /// default keyspace nor one already handed out as an area of this
    /// store: the opposite would put two live handles on one keyspace.
    pub(crate) fn area_name_available(&self, name: &str) -> (r: bool) {
        if bytes_eq(name.as_bytes(), "__sled__default".as_bytes()) {
            return false;
        }
        let mut i: usize = 0;
        while i < self.opened_areas.len()
            invariant
                0 <= i <= self.opened_areas@.len(),
            decreases self.opened_areas@.len() - i,
        {
            if bytes_eq(self.opened_areas[i].as_str().as_bytes(), name.as_bytes()) {
                return false;
            }
            i += 1;
        }
        true
    }

    /// Records a handed-out area name, so that a later request for the
    /// same name is refused.
    pub(crate) fn record_area_name(&mut self, name: &str)
        ensures
            final(self)@ == old(self)@,
    {
        self.opened_areas.push(name.to_owned());
    }

    /// Conditionally writes `val` under `key`: accepted only when `rev`
    /// equals the stored last revision (or zero for a fresh document) and
    /// the owner token matches the recorded owner. On the first write an
    /// offered owner token is recorded; it never changes afterwards. The
    /// writes go to the engine as one batch: a rejected write leaves the
    /// store untouched, and even an engine failure can touch no key
    /// outside the document's own rows.
    pub fn set(
        &mut self,
        key: &str,
        val: &[u8],
        rev: u32,
        maybe_owner_key: Option<&[u8]>,
    ) -> (r: Result<u32, StoreError>)
        requires
            rev < 0xFFFFFFFFu32,
        ensures
            ({
                let (sr, sm) = spec_set(old(self)@, key@, val@, rev, spec_opt_bytes(
                    maybe_owner_key,
                ));
                match r {
                    Ok(v) => sr == Ok::<u32, StoreUserError>(v) && final(self)@ == sm,
                    Err(e) => match e {
                        StoreError::User(u) => sr == Err::<u32, StoreUserError>(u)
                            && final(self)@ == sm,
                        StoreError::Corrupt => false,
                        StoreError::Engine => kv::partial_apply(
                            old(self)@,
                            final(self)@,
                            set_ops(old(self)@, key@, val@, rev, spec_opt_bytes(maybe_owner_key)),
                        ),
                    },
                }
            }),
    {
        let ghost m0 = self@;
        let ghost ops = set_ops(m0, key@, val@, rev, spec_opt_bytes(maybe_owner_key));
        let k_last_rev = Key(SubKey::LastRev, key.to_owned()).to_string();
        let stored_rev = match kv::db_get(&self.db, k_last_rev.as_str()) {
            Ok(v) => v,
            Err(_) => return Err(StoreError::Engine),
        };
        let rev_ok: bool = match &stored_rev {
            Option::Some(b) => {
                let rb = be4_bytes(rev);
                bytes_eq(b.as_slice(), rb.as_slice())
            },
            Option::None => rev == 0,
        };
        if !rev_ok {
            return Err(StoreError::User(StoreUserError::BadRevision));
        }
        let k_owner = Key(SubKey::OwnerKey, key.to_owned()).to_string();
        let stored_owner = match kv::db_get(&self.db, k_owner.as_str()) {
            Ok(v) => v,
            Err(_) => return Err(StoreError::Engine),
        };
        let owner_ok: bool = match (&stored_owner, maybe_owner_key) {
            (Option::Some(bd), Option::Some(ok)) => bytes_eq(bd.as_slice(), ok),
            (Option::None, _) => true,
            _ => false,
        };
        if !owner_ok {
            return Err(StoreError::User(StoreUserError::InvalidOwnerKey));
        }
        let new_rev = rev + 1;
        let nb = be4_bytes(new_rev);
        let mut batch = kv::batch_new();
        kv::batch_insert_str(&mut batch, k_last_rev.as_str(), nb.as_slice());
        if stored_owner.is_none() {
            if let Option::Some(ok) = maybe_owner_key {
                kv::batch_insert_str(&mut batch, k_owner.as_str(), ok);
            }
        }
        let k_blob = Key(SubKey::Blob, key.to_owned()).to_string();
        kv::batch_insert_str(&mut batch, k_blob.as_str(), val);
        proof {
            assert(kv::batch_ops_str(batch) =~= ops);
        }
        match kv::db_apply_batch(&mut self.db, batch) {
            Ok(_) => (),
            Err(_) => return Err(StoreError::Engine),
        }
        proof {
            let (sr, sm) = spec_set(m0, key@, val@, rev, spec_opt_bytes(maybe_owner_key));
            assert(self@ =~= sm);
        }
        Ok(new_rev)
    }

    /// Reads a document's last revision and payload. A document with
    /// neither row stored is a normal empty result; a document with only
    /// one of its rows, or a malformed revision row, is store corruption.
    pub fn get(&self, key: &str) -> (r: Result<Option<(u32, Vec<u8>)>, StoreError>)
        ensures
            ({
                let m = self@;
                let lk = last_rev_skey(key@);
                let bk = blob_skey(key@);
                match r {
                    Ok(v) => match v {
                        Some(p) => m.dom().contains(lk) && m.dom().contains(bk) && m[lk]
                            == spec_be4(p.0) && p.1@ == m[bk],
                        None => !m.dom().contains(lk) && !m.dom().contains(bk),
                    },
                    Err(e) => match e {
                        StoreError::Corrupt => (m.dom().contains(lk) != m.dom().contains(bk)) || (
                        m.dom().contains(lk) && m[lk].len() != 4),
                        StoreError::Engine => true,
                        StoreError::User(u) => false,
                    },
                }
            }),
    {
        let k_last_rev = Key(SubKey::LastRev, key.to_owned()).to_string();
        let rev = match kv::db_get(&self.db, k_last_rev.as_str()) {
            Ok(v) => v,
            Err(_) => return Err(StoreError::Engine),
        };
        let k_blob = Key(SubKey::Blob, key.to_owned()).to_string();
        let blob = match kv::db_get(&self.db, k_blob.as_str()) {
            Ok(v) => v,
            Err(_) => return Err(StoreError::Engine),
        };
        match (rev, blob) {
            (Option::Some(rb), Option::Some(b)) => {
                if rb.len() != 4 {
                    return Err(StoreError::Corrupt);
                }
                let rv: u32 = (rb[0] as u32) * 0x1000000 + (rb[1] as u32) * 0x10000 + (rb[2]
                    as u32) * 0x100 + (rb[3] as u32);
                proof {
                    crate::store_key::lemma_spec_be4_of_val(rb@);
                    assert(rv == crate::store_key::be4_val(rb@));
                    assert(spec_be4(rv) =~= rb@);
                }
                Ok(Some((rv, b)))
            },
            (Option::None, Option::None) => Ok(None),
            _ => Err(StoreError::Corrupt),
        }
    }
}

} // verus!

//! Document area: one namespace of revisioned binary documents.
//!
//! An area owns one named keyspace of the engine. Documents are addressed
//! by the binary key codec: a last-revision index entry gates every write
//! and delete (compare-and-swap on the revision counter), and each accepted
//! revision's payload stores under its own blob key, so all revisions of a
//! document occupy one contiguous, prefix-scannable range.
use vstd::prelude::*;

use crate::kv;
use crate::store::Store;
use crate::store_key::be2_bytes;
use crate::store_key::bytes_eq;
use crate::store_key::spec_be2;
use crate::store_key::DocumentId;
use crate::store_key::DocumentRev;
use crate::store_key::StoreKey;

verus! {

/// Everything an area operation can fail with.
#[derive(Debug, Clone, Copy, PartialEq, Eq, Structural)]
pub enum AreaError {
    /// The caller's claimed revision does not match stored state; stored
    /// state is untouched, the caller should re-read and retry.
    RevisionConflict,
    /// A read of a revision that is not stored.
    NotFound,
    /// The requested area name is already handed out by this store, or is
    /// the engine's reserved name for its default keyspace.
    NameUnavailable,
    /// The underlying engine failed; surfaced unchanged, no retry here.
    Engine,
}

/// A handle on one document namespace.
pub struct Area {
    tree: sled::Tree,
}

impl View for Area {
    type V = Map<Seq<u8>, Seq<u8>>;

    closed spec fn view(&self) -> Map<Seq<u8>, Seq<u8>> {
        kv::tree_view(self.tree)
    }
}

/// The binary key of a document's last-revision index entry.
pub open spec fn last_rev_key(id: DocumentId) -> Seq<u8> {
    StoreKey::LastRevision(id).spec_bytes()
}

/// The binary key of one revision's payload.
pub open spec fn blob_key(id: DocumentId, rev: DocumentRev) -> Seq<u8> {
    (StoreKey::Blob { id, rev }).spec_bytes()
}

/// The six-byte prefix shared by every blob key of one document.
pub open spec fn document_blob_prefix(id: DocumentId) -> Seq<u8> {
    (StoreKey::Blob { id, rev: 0 }).spec_prefix()
}

/// The stored last-revision entry matches the caller's claimed prior
/// revision: absent for a fresh document, else byte-identical to the
/// claimed revision's encoding.
pub open spec fn rev_gate(
    m: Map<Seq<u8>, Seq<u8>>,
    id: DocumentId,
    expected: Option<DocumentRev>,
) -> bool {
    match expected {
        Option::None => !m.dom().contains(last_rev_key(id)),
        Option::Some(p) => m.dom().contains(last_rev_key(id)) && m[last_rev_key(id)] == spec_be2(
            p,
        ),
    }
}

/// The only revision a caller may request next: one past the claimed prior
/// revision, or zero for a fresh document.
pub open spec fn next_rev_of(expected: Option<DocumentRev>) -> int {
    match expected {
        Option::None => 0,
        Option::Some(p) => p + 1,
    }
}

/// The revisioned write as a transition on the namespace contents: the
/// outcome and the contents after. A rejected write returns the contents
/// unchanged.
pub open spec fn spec_set_document(
    m: Map<Seq<u8>, Seq<u8>>,
    id: DocumentId,
    expected: Option<DocumentRev>,
    new_rev: DocumentRev,
    val: Seq<u8>,
    keep_old: bool,
) -> (Result<DocumentRev, AreaError>, Map<Seq<u8>, Seq<u8>>) {
    if !(rev_gate(m, id, expected) && new_rev == next_rev_of(expected)) {
        (Err(AreaError::RevisionConflict), m)
    } else {
        let written = m.insert(last_rev_key(id), spec_be2(new_rev)).insert(
            blob_key(id, new_rev),
            val,
        );
        match expected {
            Option::Some(p) => if keep_old {
                (Ok(new_rev), written)
            } else {
                (Ok(new_rev), written.remove(blob_key(id, p)))
            },
            Option::None => (Ok(new_rev), written),
        }
    }
}

/// The writes an accepted call stages: the new revision row, the new blob,
/// and — when history is not kept — the removal of the prior blob.
pub open spec fn set_document_ops(
    id: DocumentId,
    expected: Option<DocumentRev>,
    new_rev: DocumentRev,
    val: Seq<u8>,
    keep_old: bool,
) -> Map<Seq<u8>, Option<Seq<u8>>> {
    let base = Map::<Seq<u8>, Option<Seq<u8>>>::empty().insert(
        last_rev_key(id),
        Some(spec_be2(new_rev)),
    ).insert(blob_key(id, new_rev), Some(val));
    match expected {
        Option::Some(p) => if keep_old {
            base
        } else {
            base.insert(blob_key(id, p), None)
        },
        Option::None => base,
    }
}

/// The removals an accepted call stages: every stored blob of the document
/// and its last-revision row.
pub open spec fn remove_document_ops(m: Map<Seq<u8>, Seq<u8>>, id: DocumentId) -> Map<
    Seq<u8>,
    Option<Seq<u8>>,
> {
    Map::new(
        |k: Seq<u8>| (m.dom().contains(k) && document_blob_prefix(id).is_prefix_of(k)) || k
            == last_rev_key(id),
        |k: Seq<u8>| None,
    )
}

/// The remove as a transition on the namespace contents. The revision gate
/// is the one the write path uses: the stored last revision must be the
/// predecessor of `rev`. At `rev == 0` no predecessor exists, so the call
/// is rejected outright rather than wrapping the counter around.
pub open spec fn spec_remove_document(
    m: Map<Seq<u8>, Seq<u8>>,
    id: DocumentId,
    rev: DocumentRev,
) -> (Result<(), AreaError>, Map<Seq<u8>, Seq<u8>>) {
    if rev == 0 {
        (Err(AreaError::RevisionConflict), m)
    } else if m.dom().contains(last_rev_key(id)) && m[last_rev_key(id)] != spec_be2(
        (rev - 1) as u16,
    ) {
        (Err(AreaError::RevisionConflict), m)
    } else {
        (
            Ok(()),
            m.remove_keys(
                Set::new(|k: Seq<u8>| document_blob_prefix(id).is_prefix_of(k)),
            ).remove(last_rev_key(id)),
        )
    }
}

/// A rejected conditional write leaves the namespace contents untouched.
pub proof fn lemma_set_document_rejected_unchanged(
    m: Map<Seq<u8>, Seq<u8>>,
    id: DocumentId,
    expected: Option<DocumentRev>,
    new_rev: DocumentRev,
    val: Seq<u8>,
    keep_old: bool,
)
    ensures
        ({
            let (r, m2) = spec_set_document(m, id, expected, new_rev, val, keep_old);
            r is Err ==> m2 == m
        }),
{
}

/// An accepted write stores the new blob under the new revision's key and
/// advances the last-revision entry; the prior revision's blob is retained
/// exactly when `keep_old` asks for it.
pub proof fn lemma_set_document_applied(
    m: Map<Seq<u8>, Seq<u8>>,
    id: DocumentId,
    expected: Option<DocumentRev>,
    new_rev: DocumentRev,
    val: Seq<u8>,
    keep_old: bool,
)
    ensures
        ({
            let (r, m2) = spec_set_document(m, id, expected, new_rev, val, keep_old);
            r is Ok ==> {
                &&& m2.dom().contains(blob_key(id, new_rev)) && m2[blob_key(id, new_rev)] == val
                &&& m2.dom().contains(last_rev_key(id)) && m2[last_rev_key(id)] == spec_be2(
                    new_rev,
                )
                &&& match expected {
                    Option::Some(p) => if keep_old {
                        m2.dom().contains(blob_key(id, p)) == m.dom().contains(blob_key(id, p))
                            && (m.dom().contains(blob_key(id, p)) ==> m2[blob_key(id, p)]
                            == m[blob_key(id, p)])
                    } else {
                        !m2.dom().contains(blob_key(id, p))
                    },
                    Option::None => true,
                }
            }
        }),
{
    let (r, m2) = spec_set_document(m, id, expected, new_rev, val, keep_old);
    if r is Ok {
        crate::store_key::lemma_key_encoding_injective(
            StoreKey::LastRevision(id),
            StoreKey::Blob { id, rev: new_rev },
        );
        match expected {
            Option::Some(p) => {
                crate::store_key::lemma_key_encoding_injective(
                    StoreKey::Blob { id, rev: p },
                    StoreKey::Blob { id, rev: new_rev },
                );
                crate::store_key::lemma_key_encoding_injective(
                    StoreKey::LastRevision(id),
                    StoreKey::Blob { id, rev: p },
                );
            },
            Option::None => {},
        }
    }
}

/// Removing at revision zero is rejected outright with a defined error:
/// the revision counter never wraps around, and the namespace contents are
/// untouched.
pub proof fn lemma_remove_document_rev_zero(m: Map<Seq<u8>, Seq<u8>>, id: DocumentId)
    ensures
        spec_remove_document(m, id, 0) == (
            Err::<(), AreaError>(AreaError::RevisionConflict),
            m,
        ),
{
}

/// A rejected remove leaves the namespace contents untouched.
pub proof fn lemma_remove_document_rejected_unchanged(
    m: Map<Seq<u8>, Seq<u8>>,
    id: DocumentId,
    rev: DocumentRev,
)
    ensures
        ({
            let (r, m2) = spec_remove_document(m, id, rev);
            r is Err ==> m2 == m
        }),
{
}

impl Area {
    /// Opens (creating if absent) the named namespace of the store. A name
    /// this store has already handed out, or the engine's reserved name for
    /// its default keyspace, is refused with `NameUnavailable`: no two live
    /// areas ever operate on one keyspace.
    pub fn init(store: &mut Store, tree_name: &str) -> (r: Result<Area, AreaError>)
        ensures
            final(store)@ == old(store)@,
    {
        if !store.area_name_available(tree_name) {
            return Err(AreaError::NameUnavailable);
        }
        match kv::open_tree(store.inner_db(), tree_name) {
            Ok(t) => {
                store.record_area_name(tree_name);
                Ok(Area { tree: t })
            },
            Err(_) => Err(AreaError::Engine),
        }
    }

    /// Conditionally writes one new revision of a document. Accepted only
    /// when the stored last revision matches `expected_prior_rev` (absent
    /// for a fresh document) and `new_rev` is its successor. On success the
    /// last-revision entry and the new blob are written, and the prior
    /// blob is dropped unless `keep_old_rev` asks to retain it. The writes
    /// go to the engine as one batch: a rejected write leaves the
    /// namespace untouched, and even an engine failure can touch no key
    /// outside the document's own rows.
    pub fn set_document(
        &mut self,
        id: DocumentId,
        expected_prior_rev: Option<DocumentRev>,
        new_rev: DocumentRev,
        val: &[u8],
        keep_old_rev: bool,
    ) -> (r: Result<DocumentRev, AreaError>)
        ensures
            ({
                let (sr, sm) = spec_set_document(
                    old(self)@,
                    id,
                    expected_prior_rev,
                    new_rev,
                    val@,
                    keep_old_rev,
                );
                match r {
                    Ok(v) => sr == Ok::<DocumentRev, AreaError>(v) && final(self)@ == sm,
                    Err(e) => match e {
                        AreaError::RevisionConflict => sr == Err::<DocumentRev, AreaError>(
                            AreaError::RevisionConflict,
                        ) && final(self)@ == sm,
                        AreaError::Engine => kv::partial_apply(
                            old(self)@,
                            final(self)@,
                            set_document_ops(id, expected_prior_rev, new_rev, val@, keep_old_rev),
                        ),
                        AreaError::NotFound => false,
                        AreaError::NameUnavailable => false,
                    },
                }
            }),
    {
        let ghost m0 = self@;
        let lk = StoreKey::LastRevision(id).to_be_bytes();
        let stored = match kv::tree_get(&self.tree, lk.as_slice()) {
            Ok(v) => v,
            Err(_) => return Err(AreaError::Engine),
        };
        let gate_ok: bool = match (&stored, expected_prior_rev) {
            (Option::None, Option::None) => true,
            (Option::Some(b), Option::Some(p)) => {
                let pb = be2_bytes(p);
                bytes_eq(b.as_slice(), pb.as_slice())
            },
            _ => false,
        };
        if !gate_ok {
            return Err(AreaError::RevisionConflict);
        }
        let next_ok: bool = match expected_prior_rev {
            Option::None => new_rev == 0,
            Option::Some(p) => p < 0xFFFFu16 && new_rev == p + 1,
        };
        if !next_ok {
            return Err(AreaError::RevisionConflict);
        }
        let rv = be2_bytes(new_rev);
        let bk = (StoreKey::Blob { id, rev: new_rev }).to_be_bytes();
        let mut batch = kv::batch_new();
        kv::batch_insert(&mut batch, lk.as_slice(), rv.as_slice());
        kv::batch_insert(&mut batch, bk.as_slice(), val);
        if !keep_old_rev {
            if let Option::Some(p) = expected_prior_rev {
                let ob = (StoreKey::Blob { id, rev: p }).to_be_bytes();
                kv::batch_remove(&mut batch, ob.as_slice());
            }
        }
        proof {
            assert(kv::batch_ops(batch) =~= set_document_ops(
                id,
                expected_prior_rev,
                new_rev,
                val@,
                keep_old_rev,
            ));
        }
        match kv::tree_apply_batch(&mut self.tree, batch) {
            Ok(_) => (),
            Err(_) => return Err(AreaError::Engine),
        }
        proof {
            let (sr, sm) = spec_set_document(
                m0,
                id,
                expected_prior_rev,
                new_rev,
                val@,
                keep_old_rev,
            );
            assert(self@ =~= sm);
        }
        Ok(new_rev)
    }

    /// Removes every stored revision blob of the document together with its
    /// last-revision entry, gated by the write path's revision check. At
    /// `rev == 0` the call is rejected with a `RevisionConflict` rather
    /// than wrapping the revision counter around. The removals go to the
    /// engine as one batch: even an engine failure can touch no key
    /// outside the document's own rows.
    pub fn remove_document(&mut self, id: DocumentId, rev: DocumentRev) -> (r: Result<
        (),
        AreaError,
    >)
        ensures
            ({
                let (sr, sm) = spec_remove_document(old(self)@, id, rev);
                match r {
                    Ok(v) => sr == Ok::<(), AreaError>(v) && final(self)@ == sm,
                    Err(e) => match e {
                        AreaError::RevisionConflict => sr == Err::<(), AreaError>(
                            AreaError::RevisionConflict,
                        ) && final(self)@ == sm,
                        AreaError::Engine => kv::partial_apply(
                            old(self)@,
                            final(self)@,
                            remove_document_ops(old(self)@, id),
                        ),
                        AreaError::NotFound => false,
                        AreaError::NameUnavailable => false,
                    },
                }
            }),
    {
        let ghost m0 = self@;
        if rev == 0 {
            return Err(AreaError::RevisionConflict);
        }
        let lk = StoreKey::LastRevision(id).to_be_bytes();
        let stored = match kv::tree_get(&self.tree, lk.as_slice()) {
            Ok(v) => v,
            Err(_) => return Err(AreaError::Engine),
        };
        if let Option::Some(b) = &stored {
            let pb = be2_bytes(rev - 1);
            if !bytes_eq(b.as_slice(), pb.as_slice()) {
                return Err(AreaError::RevisionConflict);
            }
        }
        let prefix = (StoreKey::Blob { id, rev }).get_document_prefix();
        let keys = match kv::tree_scan_prefix_keys(&self.tree, prefix.as_slice()) {
            Ok(ks) => ks,
            Err(_) => return Err(AreaError::Engine),
        };
        let ghost pfx_set = Set::new(|k: Seq<u8>| document_blob_prefix(id).is_prefix_of(k));
        let mut batch = kv::batch_new();
        let mut i: usize = 0;
        while i < keys.len()
            invariant
                0 <= i <= keys@.len(),
                kv::batch_ops(batch) == Map::new(
                    |k: Seq<u8>| exists|j: int| 0 <= j < i && keys@[j]@ == k,
                    |k: Seq<u8>| None::<Seq<u8>>,
                ),
            decreases keys@.len() - i,
        {
            kv::batch_remove(&mut batch, keys[i].as_slice());
            proof {
                assert(kv::batch_ops(batch) =~= Map::new(
                    |k: Seq<u8>| exists|j: int| 0 <= j < i + 1 && keys@[j]@ == k,
                    |k: Seq<u8>| None::<Seq<u8>>,
                ));
            }
            i += 1;
        }
        kv::batch_remove(&mut batch, lk.as_slice());
        proof {
            let ops = kv::batch_ops(batch);
            assert forall|k: Seq<u8>|
                ops.dom().contains(k) == remove_document_ops(m0, id).dom().contains(k) by {
                if k != last_rev_key(id) {
                    if ops.dom().contains(k) {
                        let j = choose|j: int| 0 <= j < keys@.len() && keys@[j]@ == k;
                        assert(m0.dom().contains(keys@[j]@));
                    }
                    if m0.dom().contains(k) && document_blob_prefix(id).is_prefix_of(k) {
                        assert(exists|j: int| 0 <= j < keys@.len() && keys@[j]@ == k);
                    }
                }
            }
            assert(ops =~= remove_document_ops(m0, id));
        }
        match kv::tree_apply_batch(&mut self.tree, batch) {
            Ok(_) => (),
            Err(_) => return Err(AreaError::Engine),
        }
        proof {
            assert(self@ =~= m0.remove_keys(pfx_set).remove(last_rev_key(id)));
        }
        Ok(())
    }

    /// Reads the payload stored for one revision of a document; a revision
    /// with no stored blob is reported as `NotFound`.
    pub fn get_document_revision(&self, id: DocumentId, rev: DocumentRev) -> (r: Result<
        Vec<u8>,
        AreaError,
    >)
        ensures
            match r {
                Ok(v) => self@.dom().contains(blob_key(id, rev)) && v@ == self@[blob_key(id, rev)],
                Err(e) => match e {
                    AreaError::NotFound => !self@.dom().contains(blob_key(id, rev)),
                    AreaError::Engine => true,
                    AreaError::RevisionConflict => false,
                    AreaError::NameUnavailable => false,
                },
            },
    {
        let k = (StoreKey::Blob { id, rev }).to_be_bytes();
        match kv::tree_get(&self.tree, k.as_slice()) {
            Ok(v) => match v {
                Option::Some(b) => Ok(b),
                Option::None => Err(AreaError::NotFound),
            },
            Err(_) => Err(AreaError::Engine),
        }
    }

    /// The engine keyspace this area operates on.
    pub fn inner_tree(&self) -> (r: &sled::Tree)
        ensures
            kv::tree_view(*r) == self@,
    {
        &self.tree
    }
}

impl Store {
    /// Returns (creating if absent) the named document area of this store.
    /// A name already handed out, or the engine's reserved one, is refused.
    pub fn get_area(&mut self, name: &str) -> (r: Result<Area, AreaError>)
        ensures
            final(self)@ == old(self)@,
    {
        Area::init(self, name)
    }
}

} // verus!

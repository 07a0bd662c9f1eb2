//! Binary key codec: packs a space tag, a document id and a revision into a
//! fixed-width, sortable big-endian key, and derives the per-document scan
//! prefix. Keys sort first by space, then by id, then by revision, so all
//! revisions of one document form a contiguous range.
use vstd::prelude::*;

verus! {

/// Tag distinguishing the three key categories within the binary encoding.
pub type Space = u16;

/// A document's revision stamp: increased by one on every accepted write.
pub type DocumentRev = u16;

/// A document's numeric identity inside one area.
pub type DocumentId = u32;

pub const SPACE_AREA_METADATA: Space = 0;

pub const SPACE_DOCUMENT_LAST_REVS: Space = 1;

pub const SPACE_DOCUMENT_BLOBS: Space = 2;

pub const AREA_UUID: DocumentId = 0;

pub const BASE_REV: DocumentRev = 0;

/// A raw stored key does not decode to a known space tag or is not in
/// canonical form; this points at store corruption, not at caller error.
#[derive(Debug, Clone, Copy, PartialEq, Eq, Structural)]
pub struct KeyDecodeError;

/// The closed set of key kinds: area metadata, a document's last-revision
/// index entry, or a document revision's blob.
#[derive(Debug, Clone, Copy, PartialEq, Eq, Structural)]
pub enum StoreKey {
    AreaGuid,
    LastRevision(DocumentId),
    Blob { id: DocumentId, rev: DocumentRev },
}

/// The two big-endian bytes of a 16-bit value.
pub open spec fn spec_be2(x: u16) -> Seq<u8> {
    seq![(x / 0x100) as u8, (x % 0x100) as u8]
}

/// The four big-endian bytes of a 32-bit value.
pub open spec fn spec_be4(x: u32) -> Seq<u8> {
    seq![
        (x / 0x1000000) as u8,
        ((x / 0x10000) % 0x100) as u8,
        ((x / 0x100) % 0x100) as u8,
        (x % 0x100) as u8,
    ]
}

/// The value written big-endian as two bytes.
pub open spec fn be2_val(b: Seq<u8>) -> int
    recommends
        b.len() == 2,
{
    b[0] * 0x100 + b[1]
}

/// The value written big-endian as four bytes.
pub open spec fn be4_val(b: Seq<u8>) -> int
    recommends
        b.len() == 4,
{
    b[0] * 0x1000000 + b[1] * 0x10000 + b[2] * 0x100 + b[3]
}

pub proof fn lemma_be2_val_of_spec_be2(x: u16)
    ensures
        be2_val(spec_be2(x)) == x,
{
}

pub proof fn lemma_be4_val_of_spec_be4(x: u32)
    ensures
        be4_val(spec_be4(x)) == x,
{
}

pub proof fn lemma_spec_be2_of_val(b: Seq<u8>)
    requires
        b.len() == 2,
    ensures
        spec_be2(be2_val(b) as u16) =~= b,
{
}

pub proof fn lemma_spec_be4_of_val(b: Seq<u8>)
    requires
        b.len() == 4,
    ensures
        spec_be4(be4_val(b) as u32) =~= b,
{
    let x0 = b[0];
    let x1 = b[1];
    let x2 = b[2];
    let x3 = b[3];
    assert(0 <= be4_val(b) < 0x100000000);
    let v = be4_val(b) as u32;
    assert(v == (x0 as u32) * 0x1000000 + (x1 as u32) * 0x10000 + (x2 as u32) * 0x100 + (x3
        as u32));
    assert((v / 0x1000000) as u8 == x0 && ((v / 0x10000) % 0x100) as u8 == x1 && ((v / 0x100)
        % 0x100) as u8 == x2 && (v % 0x100) as u8 == x3) by (bit_vector)
        requires
            v == (x0 as u32) * 0x1000000 + (x1 as u32) * 0x10000 + (x2 as u32) * 0x100 + (x3
                as u32),
    ;
}

/// Big-endian encoding is injective on 16-bit values.
pub proof fn lemma_spec_be2_injective(x: u16, y: u16)
    ensures
        spec_be2(x) == spec_be2(y) ==> x == y,
{
    if spec_be2(x) == spec_be2(y) {
        lemma_be2_val_of_spec_be2(x);
        lemma_be2_val_of_spec_be2(y);
    }
}

/// Big-endian encoding is injective on 32-bit values.
pub proof fn lemma_spec_be4_injective(x: u32, y: u32)
    ensures
        spec_be4(x) == spec_be4(y) ==> x == y,
{
    if spec_be4(x) == spec_be4(y) {
        lemma_be4_val_of_spec_be4(x);
        lemma_be4_val_of_spec_be4(y);
    }
}

/// The two big-endian bytes of a 16-bit value, as executable code.
pub fn be2_bytes(x: u16) -> (r: Vec<u8>)
    ensures
        r@ == spec_be2(x),
{
    let mut v: Vec<u8> = Vec::new();
    v.push((x / 0x100) as u8);
    v.push((x % 0x100) as u8);
    proof {
        assert(v@ =~= spec_be2(x));
    }
    v
}

/// The four big-endian bytes of a 32-bit value, as executable code.
pub fn be4_bytes(x: u32) -> (r: Vec<u8>)
    ensures
        r@ == spec_be4(x),
{
    let mut v: Vec<u8> = Vec::new();
    v.push((x / 0x1000000) as u8);
    v.push(((x / 0x10000) % 0x100) as u8);
    v.push(((x / 0x100) % 0x100) as u8);
    v.push((x % 0x100) as u8);
    proof {
        assert(v@ =~= spec_be4(x));
    }
    v
}

/// Byte-for-byte equality of two slices.
pub fn bytes_eq(a: &[u8], b: &[u8]) -> (r: bool)
    ensures
        r == (a@ == b@),
{
    if a.len() != b.len() {
        proof {
            assert(a@ != b@) by {
                if a@ == b@ {
                    assert(a@.len() == b@.len());
                }
            }
        }
        return false;
    }
    let mut i: usize = 0;
    while i < a.len()
        invariant
            0 <= i <= a@.len(),
            a@.len() == b@.len(),
            forall|j: int| 0 <= j < i ==> a@[j] == b@[j],
        decreases a@.len() - i,
    {
        if a[i] != b[i] {
            proof {
                assert(a@ != b@) by {
                    if a@ == b@ {
                        assert(a@[i as int] == b@[i as int]);
                    }
                }
            }
            return false;
        }
        i += 1;
    }
    proof {
        assert(a@ =~= b@);
    }
    true
}

impl StoreKey {
    /// The space tag of this key.
    pub open spec fn spec_space(self) -> Space {
        match self {
            StoreKey::AreaGuid => SPACE_AREA_METADATA,
            StoreKey::LastRevision(_) => SPACE_DOCUMENT_LAST_REVS,
            StoreKey::Blob { .. } => SPACE_DOCUMENT_BLOBS,
        }
    }

    /// The document id of this key.
    pub open spec fn spec_id(self) -> DocumentId {
        match self {
            StoreKey::AreaGuid => AREA_UUID,
            StoreKey::LastRevision(id) => id,
            StoreKey::Blob { id, .. } => id,
        }
    }

    /// The revision of this key; zero for the two non-blob spaces.
    pub open spec fn spec_rev(self) -> DocumentRev {
        match self {
            StoreKey::AreaGuid => BASE_REV,
            StoreKey::LastRevision(_) => BASE_REV,
            StoreKey::Blob { rev, .. } => rev,
        }
    }

    /// The eight bytes of the encoded key: space, then id, then revision,
    /// each big-endian.
    pub open spec fn spec_bytes(self) -> Seq<u8> {
        spec_be2(self.spec_space()) + spec_be4(self.spec_id()) + spec_be2(self.spec_rev())
    }

    /// The six-byte document prefix: space and id only, the revision dropped.
    pub open spec fn spec_prefix(self) -> Seq<u8> {
        spec_be2(self.spec_space()) + spec_be4(self.spec_id())
    }

    /// The space tag, document id and revision packed into this key.
    pub fn to_ints(&self) -> (r: (Space, DocumentId, DocumentRev))
        ensures
            r.0 == self.spec_space(),
            r.1 == self.spec_id(),
            r.2 == self.spec_rev(),
    {
        match self {
            StoreKey::AreaGuid => (SPACE_AREA_METADATA, AREA_UUID, BASE_REV),
            StoreKey::Blob { id, rev } => (SPACE_DOCUMENT_BLOBS, *id, *rev),
            StoreKey::LastRevision(id) => (SPACE_DOCUMENT_LAST_REVS, *id, BASE_REV),
        }
    }

    /// The fixed-width sortable binary form of this key.
    pub fn to_be_bytes(&self) -> (r: [u8; 8])
        ensures
            r@ == self.spec_bytes(),
    {
        let (s, id, rev) = self.to_ints();
        let r: [u8; 8] = [
            (s / 0x100) as u8,
            (s % 0x100) as u8,
            (id / 0x1000000) as u8,
            ((id / 0x10000) % 0x100) as u8,
            ((id / 0x100) % 0x100) as u8,
            (id % 0x100) as u8,
            (rev / 0x100) as u8,
            (rev % 0x100) as u8,
        ];
        proof {
            assert(r@ =~= self.spec_bytes());
        }
        r
    }

    /// The first six bytes of every encoding of this key's document,
    /// whatever the revision: the bound of a one-document range scan.
    pub fn get_document_prefix(&self) -> (r: [u8; 6])
        ensures
            r@ == self.spec_prefix(),
    {
        let (s, id, _) = self.to_ints();
        let r: [u8; 6] = [
            (s / 0x100) as u8,
            (s % 0x100) as u8,
            (id / 0x1000000) as u8,
            ((id / 0x10000) % 0x100) as u8,
            ((id / 0x100) % 0x100) as u8,
            (id % 0x100) as u8,
        ];
        proof {
            assert(r@ =~= self.spec_prefix());
        }
        r
    }
}

/// The key, if any, whose canonical encoding a byte string is.
pub open spec fn spec_decode(b: Seq<u8>) -> Option<StoreKey> {
    if b.len() != 8 {
        None
    } else {
        let s = be2_val(b.subrange(0, 2));
        let id = be4_val(b.subrange(2, 6));
        let rev = be2_val(b.subrange(6, 8));
        if s == SPACE_AREA_METADATA && id == AREA_UUID && rev == BASE_REV {
            Some(StoreKey::AreaGuid)
        } else if s == SPACE_DOCUMENT_LAST_REVS && rev == BASE_REV {
            Some(StoreKey::LastRevision(id as u32))
        } else if s == SPACE_DOCUMENT_BLOBS {
            Some(StoreKey::Blob { id: id as u32, rev: rev as u16 })
        } else {
            None
        }
    }
}

impl StoreKey {
    /// Recovers the key a raw stored entry was written under; fails with
    /// `KeyDecodeError` on an unknown space tag or a non-canonical form.
    pub fn decode(bytes: &[u8; 8]) -> (r: Result<StoreKey, KeyDecodeError>)
        ensures
            match r {
                Ok(k) => spec_decode(bytes@) == Some(k),
                Err(_) => spec_decode(bytes@) is None,
            },
    {
        let s: u16 = (bytes[0] as u16) * 0x100 + (bytes[1] as u16);
        let id: u32 = (bytes[2] as u32) * 0x1000000 + (bytes[3] as u32) * 0x10000 + (bytes[4]
            as u32) * 0x100 + (bytes[5] as u32);
        let rev: u16 = (bytes[6] as u16) * 0x100 + (bytes[7] as u16);
        proof {
            assert(s == be2_val(bytes@.subrange(0, 2)));
            assert(id == be4_val(bytes@.subrange(2, 6)));
            assert(rev == be2_val(bytes@.subrange(6, 8)));
        }
        if s == SPACE_AREA_METADATA && id == AREA_UUID && rev == BASE_REV {
            Ok(StoreKey::AreaGuid)
        } else if s == SPACE_DOCUMENT_LAST_REVS && rev == BASE_REV {
            Ok(StoreKey::LastRevision(id))
        } else if s == SPACE_DOCUMENT_BLOBS {
            Ok(StoreKey::Blob { id, rev })
        } else {
            Err(KeyDecodeError)
        }
    }
}

/// Round-trip law: the canonical encoding of any key decodes back to
/// exactly that key.
pub proof fn lemma_key_roundtrip(k: StoreKey)
    ensures
        spec_decode(k.spec_bytes()) == Some(k),
{
    let b = k.spec_bytes();
    assert(b.subrange(0, 2) =~= spec_be2(k.spec_space()));
    assert(b.subrange(2, 6) =~= spec_be4(k.spec_id()));
    assert(b.subrange(6, 8) =~= spec_be2(k.spec_rev()));
    lemma_be2_val_of_spec_be2(k.spec_space());
    lemma_be4_val_of_spec_be4(k.spec_id());
    lemma_be2_val_of_spec_be2(k.spec_rev());
}

/// Two distinct keys never share an encoding.
pub proof fn lemma_key_encoding_injective(k1: StoreKey, k2: StoreKey)
    ensures
        k1.spec_bytes() == k2.spec_bytes() ==> k1 == k2,
{
    if k1.spec_bytes() == k2.spec_bytes() {
        lemma_key_roundtrip(k1);
        lemma_key_roundtrip(k2);
    }
}

/// Prefix containment law: every encoding of a key starts with its own
/// document prefix, and starts with another key's document prefix only when
/// the two keys share space tag and document id.
pub proof fn lemma_document_prefix_containment(k1: StoreKey, k2: StoreKey)
    ensures
        k1.spec_prefix().is_prefix_of(k1.spec_bytes()),
        k1.spec_prefix().is_prefix_of(k2.spec_bytes()) <==> (k1.spec_space() == k2.spec_space()
            && k1.spec_id() == k2.spec_id()),
{
    assert(k1.spec_bytes().subrange(0, 6) =~= k1.spec_prefix());
    assert(k2.spec_bytes().subrange(0, 6) =~= k2.spec_prefix());
    if k1.spec_prefix().is_prefix_of(k2.spec_bytes()) {
        assert(k1.spec_prefix() =~= k2.spec_bytes().subrange(0, 6));
        assert(k1.spec_prefix().subrange(0, 2) =~= spec_be2(k1.spec_space()));
        assert(k1.spec_prefix().subrange(2, 6) =~= spec_be4(k1.spec_id()));
        assert(k2.spec_prefix().subrange(0, 2) =~= spec_be2(k2.spec_space()));
        assert(k2.spec_prefix().subrange(2, 6) =~= spec_be4(k2.spec_id()));
        lemma_spec_be2_injective(k1.spec_space(), k2.spec_space());
        lemma_spec_be4_injective(k1.spec_id(), k2.spec_id());
    }
}

} // verus!

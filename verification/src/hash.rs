//! Self-describing digests and the peer identifiers that are made of them.

use crate::varint::{
    is_varint, lemma_read_varint_number, read_varint, varint_bytes, varint_value,
};
use crate::CID_SIZE;
use vstd::prelude::*;

verus! {

/// The multicodec code of SHA2-256.
pub const SHA2_256: u64 = 0x12;

/// The multicodec code of the identity function: the digest is the data itself.
pub const IDENTITY: u64 = 0;

/// The longest encoded public key that a peer identifier holds undigested.
pub const MAX_INLINE_KEY_LENGTH: usize = 42;

/// What a [`Multihash`] stands for.
#[verifier::ext_equal]
pub struct MultihashView {
    pub code: u64,
    pub digest: Seq<u8>,
}

impl MultihashView {
    /// The digest fits the space that the identifiers of this library set aside for one.
    pub open spec fn wf(self) -> bool {
        self.digest.len() <= CID_SIZE
    }
}

/// A digest together with the code of the function that made it. The digest never takes more
/// than [`CID_SIZE`] bytes.
#[derive(Debug)]
pub struct Multihash {
    code: u64,
    digest: Vec<u8>,
}

impl View for Multihash {
    type V = MultihashView;

    closed spec fn view(&self) -> MultihashView {
        MultihashView { code: self.code, digest: self.digest@ }
    }
}

impl Multihash {
    #[verifier::type_invariant]
    spec fn fits(self) -> bool {
        self.digest@.len() <= CID_SIZE
    }

    /// Joins a digest with its code, or nothing where the digest is too long.
    pub fn wrap(code: u64, digest: Vec<u8>) -> (r: Option<Multihash>)
        ensures
            digest@.len() <= CID_SIZE <==> r is Some,
            digest@.len() <= 64 <==> r is Some,
            r matches Some(hash) ==> hash@ == (MultihashView { code, digest: digest@ }),
    {
        if digest.len() <= CID_SIZE {
            Some(Multihash { code, digest })
        } else {
            None
        }
    }

    /// The code of the function that made the digest.
    pub fn code(&self) -> (r: u64)
        ensures
            r == self@.code,
            self@.wf(),
    {
        proof {
            use_type_invariant(self);
        }
        self.code
    }

    /// The bytes of the digest.
    pub fn digest(&self) -> (r: &[u8])
        ensures
            r@ == self@.digest,
            self@.wf(),
    {
        proof {
            use_type_invariant(self);
        }
        self.digest.as_slice()
    }
}

/// The encoding of a digest: the code, the length and the bytes.
pub open spec fn multihash_bytes(hash: MultihashView) -> Seq<u8> {
    varint_bytes(hash.code as nat) + varint_bytes(hash.digest.len()) + hash.digest
}

/// Takes one digest off the front of `s`; bytes behind it do not matter. Nothing where a number
/// is malformed, the length is over the limit, or `s` is too short.
pub open spec fn read_multihash(s: Seq<u8>) -> Option<MultihashView> {
    match read_varint(s) {
        None => None,
        Some((code, sized)) => match read_varint(sized) {
            None => None,
            Some((size, digest)) => if size > CID_SIZE || size > digest.len() {
                None
            } else {
                Some(MultihashView { code, digest: digest.take(size as int) })
            },
        },
    }
}

/// A code and a length in any encoding, and what comes behind them, are read as a digest exactly
/// where the length is within the limit and there are as many bytes; those bytes are the digest.
pub proof fn lemma_read_multihash_parts(a: Seq<u8>, b: Seq<u8>, tail: Seq<u8>)
    requires
        is_varint(a),
        is_varint(b),
    ensures
        ({
            let code = varint_value(a) % 0x1_0000_0000_0000_0000;
            let size = varint_value(b) % 0x1_0000_0000_0000_0000;
            let read = read_multihash(a + b + tail);
            &&& read is Some <==> size <= 64 && size <= tail.len()
            &&& read matches Some(hash) ==> {
                &&& hash.code == code
                &&& hash.digest.len() == size
                &&& forall|i: int| 0 <= i < size ==> #[trigger] hash.digest[i] == tail[i]
            }
        }),
{
    assert(a + b + tail =~= a + (b + tail));
    lemma_read_varint_number(a, b + tail);
    lemma_read_varint_number(b, tail);
}

/// Reading an encoded digest gives it back, whatever stands behind it.
pub proof fn lemma_multihash_round_trip(hash: MultihashView, rest: Seq<u8>)
    requires
        hash.wf(),
    ensures
        read_multihash(multihash_bytes(hash) + rest) == Some(hash),
{
    let size = hash.digest.len() as u64;
    let code_bytes = varint_bytes(hash.code as nat);
    let size_bytes = varint_bytes(hash.digest.len());
    assert(multihash_bytes(hash) + rest =~= code_bytes + (size_bytes + (hash.digest + rest)));
    crate::varint::lemma_varint_round_trip(hash.code, size_bytes + (hash.digest + rest));
    crate::varint::lemma_varint_round_trip(size, hash.digest + rest);
    assert((hash.digest + rest).take(size as int) =~= hash.digest);
}

/// Whether two byte strings are the same.
pub fn same_bytes(a: &[u8], b: &[u8]) -> (r: bool)
    ensures
        r == (a@ == b@),
{
    if a.len() != b.len() {
        return false;
    }
    let mut i: usize = 0;
    while i < a.len()
        invariant
            i <= a.len(),
            a.len() == b.len(),
            forall|j: int| 0 <= j < i ==> a@[j] == b@[j],
        decreases a.len() - i,
    {
        if a[i] != b[i] {
            return false;
        }
        i = i + 1;
    }
    assert(a@ =~= b@);
    true
}

impl Clone for Multihash {
    fn clone(&self) -> (r: Multihash)
        ensures
            r@ == self@,
    {
        proof {
            use_type_invariant(self);
        }
        let digest = self.digest.clone();
        assert(digest@ =~= self.digest@);
        Multihash { code: self.code, digest }
    }
}

impl PartialEq for Multihash {
    fn eq(&self, other: &Multihash) -> (r: bool) {
        self.code == other.code && same_bytes(self.digest.as_slice(), other.digest.as_slice())
    }
}

impl vstd::std_specs::cmp::PartialEqSpecImpl for Multihash {
    open spec fn obeys_eq_spec() -> bool {
        true
    }

    open spec fn eq_spec(&self, other: &Multihash) -> bool {
        self@ == other@
    }
}

/// Whether a digest may identify a peer.
pub open spec fn is_peer_id(hash: MultihashView) -> bool {
    ||| hash.code == SHA2_256 && hash.wf()
    ||| hash.code == IDENTITY && hash.digest.len() <= MAX_INLINE_KEY_LENGTH
}

/// A digest identifies a peer exactly where it is made with SHA2-256, or is a key of at most 42
/// bytes itself.
pub proof fn lemma_is_peer_id(hash: MultihashView)
    requires
        hash.digest.len() <= 64,
    ensures
        is_peer_id(hash) <==> hash.code == 0x12 || (hash.code == 0 && hash.digest.len() <= 42),
{
}

/// Digests are equal exactly where their codes and their bytes are, and so are peers.
pub proof fn lemma_hash_equality(a: Multihash, b: Multihash, one: PeerId, other: PeerId)
    ensures
        vstd::std_specs::cmp::PartialEqSpec::eq_spec(&a, &b) <==> a@.code == b@.code && a@.digest
            == b@.digest,
        vstd::std_specs::cmp::PartialEqSpec::eq_spec(&one, &other) <==> one@.code == other@.code
            && one@.digest == other@.digest,
{
}

/// The identifier of a peer: a digest of its public key, or the key itself where it is short.
#[derive(Debug)]
pub struct PeerId {
    hash: Multihash,
}

impl View for PeerId {
    type V = MultihashView;

    closed spec fn view(&self) -> MultihashView {
        self.hash@
    }
}

impl PeerId {
    #[verifier::type_invariant]
    spec fn identifies(self) -> bool {
        is_peer_id(self.hash@)
    }

    /// The peer that a digest identifies, or nothing where it identifies none.
    pub fn from_multihash(hash: Multihash) -> (r: Option<PeerId>)
        ensures
            is_peer_id(hash@) <==> r is Some,
            r is Some <==> hash@.code == 0x12 || (hash@.code == 0 && hash@.digest.len() <= 42),
            r matches Some(peer) ==> peer@ == hash@,
    {
        let code: u64 = hash.code();
        if code == SHA2_256 || (code == IDENTITY && hash.digest().len() <= MAX_INLINE_KEY_LENGTH) {
            Some(PeerId { hash })
        } else {
            None
        }
    }

    /// The digest that identifies the peer.
    pub fn multihash(&self) -> (r: &Multihash)
        ensures
            r@ == self@,
            is_peer_id(self@),
    {
        proof {
            use_type_invariant(self);
        }
        &self.hash
    }
}

impl Clone for PeerId {
    fn clone(&self) -> (r: PeerId)
        ensures
            r@ == self@,
    {
        proof {
            use_type_invariant(self);
        }
        PeerId { hash: self.hash.clone() }
    }
}

impl PartialEq for PeerId {
    fn eq(&self, other: &PeerId) -> (r: bool) {
        self.hash == other.hash
    }
}

impl vstd::std_specs::cmp::PartialEqSpecImpl for PeerId {
    open spec fn obeys_eq_spec() -> bool {
        true
    }

    open spec fn eq_spec(&self, other: &PeerId) -> bool {
        self@ == other@
    }
}

} // verus!

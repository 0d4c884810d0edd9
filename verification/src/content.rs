//! Content identifiers and their binary form.

use crate::hash::{
    lemma_multihash_round_trip, multihash_bytes, read_multihash, Multihash, MultihashView, SHA2_256,
};
use crate::varint::{
    is_varint, lemma_read_varint_number, lemma_varint_round_trip, read_varint, varint_bytes,
    varint_ends_at, varint_value,
};
use vstd::prelude::*;

verus! {

/// The multicodec code of DAG-PB, the only codec that version 0 knows.
pub const DAG_PB: u64 = 0x70;

/// The version of a content identifier.
#[derive(Debug, Clone, Copy, PartialEq, Eq, Structural)]
pub enum Version {
    V0,
    V1,
}

/// What a [`Cid`] stands for.
#[verifier::ext_equal]
pub struct CidView {
    pub version: Version,
    pub codec: u64,
    pub hash: MultihashView,
}

impl CidView {
    /// Version 0 names DAG-PB nodes by their SHA2-256 digest and nothing else.
    pub open spec fn wf(self) -> bool {
        &&& self.hash.wf()
        &&& self.version == Version::V0 ==> {
            &&& self.codec == DAG_PB
            &&& self.hash.code == SHA2_256
            &&& self.hash.digest.len() == 32
        }
    }
}

/// A content identifier: what kind of data it names, and the digest of that data.
#[derive(Debug)]
pub struct Cid {
    version: Version,
    codec: u64,
    hash: Multihash,
}

impl View for Cid {
    type V = CidView;

    closed spec fn view(&self) -> CidView {
        CidView { version: self.version, codec: self.codec, hash: self.hash@ }
    }
}

/// The binary form of an identifier. Version 0 is the bare digest.
pub open spec fn cid_bytes(cid: CidView) -> Seq<u8> {
    match cid.version {
        Version::V0 => multihash_bytes(cid.hash),
        Version::V1 => varint_bytes(1) + varint_bytes(cid.codec as nat) + multihash_bytes(cid.hash),
    }
}

/// Takes one identifier off the front of `s`; bytes behind it do not matter. The numbers `0x12`
/// and `0x20` in front announce the digest of a version 0 identifier, the number `1` a version 1
/// identifier, and anything else is none.
pub open spec fn read_cid(s: Seq<u8>) -> Option<CidView> {
    match read_varint(s) {
        None => None,
        Some((version, coded)) => match read_varint(coded) {
            None => None,
            Some((codec, hashed)) => if version == SHA2_256 && codec == 32 {
                if hashed.len() < 32 {
                    None
                } else {
                    let hash = MultihashView { code: SHA2_256, digest: hashed.take(32) };
                    Some(CidView { version: Version::V0, codec: DAG_PB, hash })
                }
            } else if version != 1 {
                None
            } else {
                match read_multihash(hashed) {
                    None => None,
                    Some(hash) => Some(CidView { version: Version::V1, codec, hash }),
                }
            },
        },
    }
}

/// Reading an encoded identifier gives it back, whatever stands behind it.
pub proof fn lemma_cid_round_trip(cid: CidView, rest: Seq<u8>)
    requires
        cid.wf(),
    ensures
        read_cid(cid_bytes(cid) + rest) == Some(cid),
{
    match cid.version {
        Version::V0 => {
            let digest = cid.hash.digest;
            let code_bytes = varint_bytes(SHA2_256 as nat);
            let size_bytes = varint_bytes(32);
            assert(cid_bytes(cid) + rest =~= code_bytes + (size_bytes + (digest + rest)));
            lemma_varint_round_trip(SHA2_256, size_bytes + (digest + rest));
            lemma_varint_round_trip(32, digest + rest);
            assert((digest + rest).take(32) =~= digest);
        },
        Version::V1 => {
            let codec_bytes = varint_bytes(cid.codec as nat);
            let hash_bytes = multihash_bytes(cid.hash) + rest;
            assert(cid_bytes(cid) + rest =~= varint_bytes(1) + (codec_bytes + hash_bytes));
            lemma_varint_round_trip(1, codec_bytes + hash_bytes);
            lemma_varint_round_trip(cid.codec, hash_bytes);
            lemma_multihash_round_trip(cid.hash, rest);
        },
    }
}

/// How an identifier is written where its numbers take one byte each: for version 1 the version, the
/// codec, the code and the length, for version 0 the code and the length, and then the digest.
pub proof fn lemma_cid_bytes_layout(cid: CidView)
    requires
        cid.codec < 128,
        cid.hash.code < 128,
        cid.hash.digest.len() < 128,
    ensures
        cid.version == Version::V1 ==> cid_bytes(cid) == seq![
            1u8,
            cid.codec as u8,
            cid.hash.code as u8,
            cid.hash.digest.len() as u8,
        ] + cid.hash.digest,
        cid.version == Version::V0 ==> cid_bytes(cid) == seq![
            cid.hash.code as u8,
            cid.hash.digest.len() as u8,
        ] + cid.hash.digest,
{
    let digest = cid.hash.digest;
    let tail = seq![cid.hash.code as u8, digest.len() as u8] + digest;
    assert(multihash_bytes(cid.hash) =~= tail);
    if cid.version == Version::V1 {
        assert(cid_bytes(cid) =~= seq![1u8, cid.codec as u8] + tail);
        assert(seq![1u8, cid.codec as u8] + tail =~= seq![
            1u8,
            cid.codec as u8,
            cid.hash.code as u8,
            digest.len() as u8,
        ] + digest);
    }
}

/// Two numbers in any encoding, and what comes behind them, are read as an identifier in two cases
/// only: the numbers `0x12` and `0x20` and 32 bytes are version 0 with these bytes as its SHA2-256
/// digest; and the number `1` and a codec before a digest are version 1 with that codec and digest.
pub proof fn lemma_read_cid_parts(a: Seq<u8>, b: Seq<u8>, tail: Seq<u8>)
    requires
        is_varint(a),
        is_varint(b),
    ensures
        ({
            let first = varint_value(a) % 0x1_0000_0000_0000_0000;
            let second = varint_value(b) % 0x1_0000_0000_0000_0000;
            let old_form = first == 0x12 && second == 0x20 && tail.len() >= 32;
            let new_form = first == 1 && read_multihash(tail) is Some;
            let read = read_cid(a + b + tail);
            &&& read is Some <==> old_form || new_form
            &&& read matches Some(cid) ==> {
                &&& old_form ==> {
                    &&& cid.version == Version::V0
                    &&& cid.codec == 0x70
                    &&& cid.hash.code == 0x12
                    &&& cid.hash.digest == tail.take(32)
                }
                &&& new_form ==> {
                    &&& cid.version == Version::V1
                    &&& cid.codec == second
                    &&& read_multihash(tail) == Some(cid.hash)
                }
            }
        }),
{
    assert(a + b + tail =~= a + (b + tail));
    lemma_read_varint_number(a, b + tail);
    lemma_read_varint_number(b, tail);
}

/// Nothing is read as an identifier that does not begin with two numbers.
pub proof fn lemma_read_cid_needs_numbers(s: Seq<u8>)
    ensures
        read_cid(s) is Some ==> exists|a: Seq<u8>, b: Seq<u8>, tail: Seq<u8>|
            is_varint(a) && is_varint(b) && s == #[trigger] (a + b + tail),
{
    if read_cid(s) is Some {
        let n = choose|n: int| varint_ends_at(s, n);
        let coded = s.skip(n);
        assert(read_varint(s) matches Some((_, rest)) && rest == coded);
        let m = choose|m: int| varint_ends_at(coded, m);
        assert(s =~= s.take(n) + coded.take(m) + coded.skip(m));
    }
}

/// Identifiers are equal exactly where their versions, codecs and digests are.
pub proof fn lemma_cid_equality(a: Cid, b: Cid)
    ensures
        vstd::std_specs::cmp::PartialEqSpec::eq_spec(&a, &b) <==> a@.version == b@.version
            && a@.codec == b@.codec && a@.hash.code == b@.hash.code && a@.hash.digest
            == b@.hash.digest,
{
}

/// Every identifier that can be read is a valid one.
pub proof fn lemma_read_cid_valid(s: Seq<u8>)
    ensures
        read_cid(s) matches Some(cid) ==> cid.wf(),
{
}

/// Different identifiers have different binary forms, and none is the beginning of another.
pub proof fn lemma_cid_bytes_prefix_free(a: CidView, b: CidView, rest: Seq<u8>)
    requires
        a.wf(),
        b.wf(),
        cid_bytes(a) + rest == cid_bytes(b),
    ensures
        a == b,
{
    lemma_cid_round_trip(a, rest);
    lemma_cid_round_trip(b, Seq::empty());
    assert(cid_bytes(b) + Seq::empty() =~= cid_bytes(b));
}

/// Calls `cid::CidGeneric::to_bytes` on the identifier with these parts.
///
/// Trusted: the bytes are the version, the codec and the digest, each number in its shortest
/// form, and for version 0 the digest alone. The conversions before the call succeed because the
/// parts are those of a valid identifier.
#[verifier::external_body]
fn encode(version: Version, codec: u64, code: u64, digest: &[u8]) -> (r: Vec<u8>)
    requires
        (CidView { version, codec, hash: MultihashView { code, digest: digest@ } }).wf(),
    ensures
        r@ == cid_bytes(CidView { version, codec, hash: MultihashView { code, digest: digest@ } }),
{
    let hash = cid::multihash::Multihash::<64>::wrap(code, digest).unwrap();
    let version = match version {
        Version::V0 => cid::Version::V0,
        Version::V1 => cid::Version::V1,
    };
    cid::Cid::new(version, codec, hash).unwrap().to_bytes()
}

/// Calls `cid::CidGeneric::try_from` on a vector of bytes and gives the parts of what comes out:
/// the version, the codec, the code of the digest and the digest.
///
/// Trusted: an identifier comes out exactly where the bytes begin with one, as [`read_cid`] says
/// it, and it is that one. Which error is given otherwise is left unsaid.
#[verifier::external_body]
fn decode(bytes: Vec<u8>) -> (r: Option<(Version, u64, u64, Vec<u8>)>)
    ensures
        match r {
            Some((version, codec, code, digest)) => read_cid(bytes@) == Some(
                CidView { version, codec, hash: MultihashView { code, digest: digest@ } },
            ),
            None => read_cid(bytes@) is None,
        },
{
    let cid = cid::Cid::try_from(bytes).ok()?;
    let version = match cid.version() {
        cid::Version::V0 => Version::V0,
        cid::Version::V1 => Version::V1,
    };
    Some((version, cid.codec(), cid.hash().code(), cid.hash().digest().to_vec()))
}

impl Cid {
    #[verifier::type_invariant]
    spec fn valid(self) -> bool {
        self@.wf()
    }

    /// A version 1 identifier.
    pub fn new_v1(codec: u64, hash: Multihash) -> (r: Cid)
        ensures
            r@ == (CidView { version: Version::V1, codec, hash: hash@ }),
            r@.wf(),
    {
        let size: usize = hash.digest().len();
        assert(size <= crate::CID_SIZE);
        Cid { version: Version::V1, codec, hash }
    }

    /// The version of the identifier.
    pub fn version(&self) -> (r: Version)
        ensures
            r == self@.version,
    {
        self.version
    }

    /// The kind of data that the identifier names.
    pub fn codec(&self) -> (r: u64)
        ensures
            r == self@.codec,
    {
        self.codec
    }

    /// The digest of the data that the identifier names.
    pub fn hash(&self) -> (r: &Multihash)
        ensures
            r@ == self@.hash,
            self@.wf(),
    {
        proof {
            use_type_invariant(self);
        }
        &self.hash
    }

    /// The binary form of the identifier.
    pub fn to_bytes(&self) -> (r: Vec<u8>)
        ensures
            self@.wf(),
            r@ == cid_bytes(self@),
            read_cid(r@) == Some(self@),
    {
        proof {
            use_type_invariant(self);
            lemma_cid_round_trip(self@, Seq::empty());
            assert(cid_bytes(self@) + Seq::empty() =~= cid_bytes(self@));
        }
        encode(self.version, self.codec, self.hash.code(), self.hash.digest())
    }

    /// Reads an identifier from the front of some bytes, or nothing where there is none.
    pub fn from_bytes(bytes: Vec<u8>) -> (r: Option<Cid>)
        ensures
            read_cid(bytes@) is Some <==> r is Some,
            r matches Some(cid) ==> read_cid(bytes@) == Some(cid@) && cid@.wf(),
    {
        proof {
            lemma_read_cid_valid(bytes@);
        }
        match decode(bytes) {
            None => None,
            Some((version, codec, code, digest)) => match Multihash::wrap(code, digest) {
                None => None,
                Some(hash) => Some(Cid { version, codec, hash }),
            },
        }
    }
}

impl Clone for Cid {
    fn clone(&self) -> (r: Cid)
        ensures
            r@ == self@,
    {
        proof {
            use_type_invariant(self);
        }
        Cid { version: self.version, codec: self.codec, hash: self.hash.clone() }
    }
}

impl PartialEq for Cid {
    fn eq(&self, other: &Cid) -> (r: bool) {
        self.version == other.version && self.codec == other.codec && self.hash == other.hash
    }
}

impl vstd::std_specs::cmp::PartialEqSpecImpl for Cid {
    open spec fn obeys_eq_spec() -> bool {
        true
    }

    open spec fn eq_spec(&self, other: &Cid) -> bool {
        self@ == other@
    }
}

} // verus!

//! Blocks of raw bytes and the identifiers that name them.

use crate::content::{
    cid_bytes, lemma_cid_bytes_layout, lemma_cid_round_trip, read_cid, Cid, CidView, Version,
};
use crate::hash::{Multihash, MultihashView};
use blockstore::block::CidError;
use multihash_codetable::MultihashDigest;
use vstd::prelude::*;

verus! {

/// The multicodec code of raw bytes.
pub const RAW_CODEC: u64 = 0x55;

/// The multicodec code of BLAKE3 with a digest of 256 bits.
pub const BLAKE3_256: u64 = 0x1e;

/// `blockstore::block::CidError`: why a block has no identifier. Nothing is known of its inside.
#[verifier::external_type_specification]
#[verifier::external_body]
pub struct ExCidError(CidError);

/// The digest that `multihash_codetable::Code::Blake3_256.digest` gives of some data.
pub uninterp spec fn blake3_256(data: Seq<u8>) -> Seq<u8>;

/// Calls `multihash_codetable::Code::digest` for `Code::Blake3_256` and gives the code and the
/// digest of what comes out.
///
/// Trusted: the code is that of BLAKE3-256, and the digest takes 32 bytes and depends on the data
/// alone.
#[verifier::external_body]
fn blake3_256_digest(data: &[u8]) -> (r: (u64, Vec<u8>))
    ensures
        r.0 == BLAKE3_256,
        r.1@ == blake3_256(data@),
        r.1@.len() == 32,
{
    let hash = multihash_codetable::Code::Blake3_256.digest(data);
    (hash.code(), hash.digest().to_vec())
}

/// The identifier of a block of raw bytes: version 1, the raw codec, and the BLAKE3 digest.
pub open spec fn raw_block_cid(data: Seq<u8>) -> CidView {
    CidView {
        version: Version::V1,
        codec: RAW_CODEC,
        hash: MultihashView { code: BLAKE3_256, digest: blake3_256(data) },
    }
}

/// Blocks have the same identifier exactly where their data has the same digest, so equal blocks
/// always do.
pub proof fn lemma_raw_block_cid(a: Seq<u8>, b: Seq<u8>)
    ensures
        raw_block_cid(a) == raw_block_cid(b) <==> blake3_256(a) == blake3_256(b),
        a == b ==> raw_block_cid(a) == raw_block_cid(b),
{
    if raw_block_cid(a) == raw_block_cid(b) {
        assert(raw_block_cid(a).hash.digest == raw_block_cid(b).hash.digest);
    }
}

/// Every block of raw bytes is named by a version 1 identifier with the raw codec and the
/// BLAKE3-256 digest of its bytes, whatever these are.
pub proof fn lemma_raw_block_cid_parts(data: Seq<u8>)
    ensures
        raw_block_cid(data).version == Version::V1,
        raw_block_cid(data).codec == 0x55,
        raw_block_cid(data).hash.code == 0x1e,
        raw_block_cid(data).hash.digest == blake3_256(data),
{
}

/// The binary form of the name of a block: four bytes that are the same for every block, and the
/// digest.
pub proof fn lemma_raw_block_cid_bytes(data: Seq<u8>)
    requires
        blake3_256(data).len() == 32,
    ensures
        cid_bytes(raw_block_cid(data)) == seq![0x01u8, 0x55u8, 0x1eu8, 0x20u8] + blake3_256(data),
        read_cid(seq![0x01u8, 0x55u8, 0x1eu8, 0x20u8] + blake3_256(data)) == Some(
            raw_block_cid(data),
        ),
{
    let cid = raw_block_cid(data);
    lemma_cid_bytes_layout(cid);
    lemma_cid_round_trip(cid, Seq::empty());
    assert(cid_bytes(cid) + Seq::empty() =~= cid_bytes(cid));
}

/// The identifier of a raw block with this digest.
pub fn raw_cid(hash: Multihash) -> (r: Cid)
    ensures
        r@ == (CidView { version: Version::V1, codec: RAW_CODEC, hash: hash@ }),
        r@.version == Version::V1,
        r@.codec == 0x55,
        r@.hash == hash@,
        r@.wf(),
{
    Cid::new_v1(RAW_CODEC, hash)
}

/// A block that is just raw bytes encoded into a block
/// using the [`RAW_CODEC`] and the BLAKE3-256 hash function.
pub struct RawBlakeBlock(pub Vec<u8>);

impl RawBlakeBlock {
    /// The identifier of the block. There always is one.
    pub fn cid(&self) -> (r: Result<Cid, CidError>)
        ensures
            r is Ok,
            r matches Ok(cid) ==> cid@ == raw_block_cid(self.0@) && cid@.wf(),
            r matches Ok(cid) ==> {
                &&& cid@.version == Version::V1
                &&& cid@.codec == 0x55
                &&& cid@.hash.code == 0x1e
                &&& cid@.hash.digest == blake3_256(self.0@)
            },
            blake3_256(self.0@).len() == 32,
    {
        let (code, digest) = blake3_256_digest(self.0.as_slice());
        Ok(raw_cid(Multihash::wrap(code, digest).unwrap()))
    }

    /// The bytes of the block.
    pub fn data(&self) -> (r: &[u8])
        ensures
            r@ == self.0@,
    {
        self.0.as_slice()
    }
}

} // verus!

use interop_tests::block::{raw_cid, RawBlakeBlock, BLAKE3_256, RAW_CODEC};
use interop_tests::content::{Cid, Version, DAG_PB};
use interop_tests::hash::{same_bytes, Multihash, PeerId, IDENTITY, SHA2_256};
use interop_tests::peer::{exchange_protocols, PeerRequest, PeerResponse, ProtocolSupport};
use interop_tests::{CID_SIZE, HIT_ME_UP_PROTOCOL, TEST_BLOCK_DATA};
use multihash_codetable::MultihashDigest;

/// The BLAKE3-256 digest of no data at all.
const EMPTY_DIGEST: [u8; 32] = [
    0xaf, 0x13, 0x49, 0xb9, 0xf5, 0xf9, 0xa1, 0xa6, 0xa0, 0x40, 0x4d, 0xea, 0x36, 0xdc, 0xc9, 0x49,
    0x9b, 0xcb, 0x25, 0xc9, 0xad, 0xc1, 0x12, 0xb7, 0xcc, 0x9a, 0x93, 0xca, 0xe4, 0x1f, 0x32, 0x62,
];

fn bytes_of(parts: &[&[u8]]) -> Vec<u8> {
    let mut all = Vec::new();
    for part in parts {
        all.extend_from_slice(part);
    }
    all
}

#[test]
fn constants_of_the_exchange() {
    assert_eq!(CID_SIZE, 64);
    assert_eq!(HIT_ME_UP_PROTOCOL, "/hmu/0.1.0");
    assert!(HIT_ME_UP_PROTOCOL.starts_with('/'));
    assert_eq!(TEST_BLOCK_DATA, [69, 69, 69, 69, 69]);
    assert_eq!(exchange_protocols(), [("/hmu/0.1.0", ProtocolSupport::Full)]);
}

#[test]
fn empty_block_has_the_known_cid() {
    let block = RawBlakeBlock(vec![]);
    let cid = block.cid().unwrap();
    assert_eq!(cid.version(), Version::V1);
    assert_eq!(cid.codec(), RAW_CODEC);
    assert_eq!(cid.hash().code(), BLAKE3_256);
    assert_eq!(cid.hash().digest(), EMPTY_DIGEST);
    assert_eq!(cid.to_bytes(), bytes_of(&[&[0x01, 0x55, 0x1e, 0x20], &EMPTY_DIGEST]));
    assert!(block.data().is_empty());
}

#[test]
fn block_cid_agrees_with_the_cid_crate() {
    let block = RawBlakeBlock(TEST_BLOCK_DATA.to_vec());
    let outside = cid::Cid::new_v1(0x55, multihash_codetable::Code::Blake3_256.digest(&block.0));
    assert_eq!(block.cid().unwrap().to_bytes(), outside.to_bytes());
    assert_eq!(block.data(), TEST_BLOCK_DATA);
}

#[test]
fn equal_blocks_have_equal_cids_and_others_do_not() {
    let one = RawBlakeBlock(vec![1, 2, 3]).cid().unwrap();
    let same = RawBlakeBlock(vec![1, 2, 3]).cid().unwrap();
    let other = RawBlakeBlock(vec![1, 2, 4]).cid().unwrap();
    assert!(one == same);
    assert!(one != other);
    assert!(one.clone() == one);
}

#[test]
fn raw_cid_takes_the_digest_as_it_is() {
    let cid = raw_cid(Multihash::wrap(0x1234, vec![9, 8, 7]).unwrap());
    assert_eq!(cid.to_bytes(), [0x01, 0x55, 0xb4, 0x24, 0x03, 9, 8, 7]);
}

#[test]
fn request_gives_its_cid_back() {
    let cid = RawBlakeBlock(TEST_BLOCK_DATA.to_vec()).cid().unwrap();
    let request = PeerRequest::new(cid.clone());
    assert_eq!(request.0, cid.to_bytes());
    assert!(Cid::from_bytes(request.0).unwrap() == cid);
}

#[test]
fn request_dereferences_to_its_bytes() {
    let request = PeerRequest(vec![1, 2, 3]);
    assert_eq!(request.len(), 3);
    assert_eq!(*request, vec![1, 2, 3]);
    assert_eq!(request.clone(), request);
    assert_ne!(request, PeerRequest(vec![1, 2]));
    assert_ne!(request, PeerRequest(vec![1, 2, 4]));
}

#[test]
fn response_dereferences_to_nothing() {
    let response = PeerResponse::new();
    assert_eq!(*response, ());
    assert_eq!(response.clone(), response);
}

#[test]
fn large_numbers_take_ten_bytes() {
    let cid = Cid::new_v1(u64::MAX, Multihash::wrap(0, vec![]).unwrap());
    let bytes = cid.to_bytes();
    assert_eq!(
        bytes,
        [0x01, 0xff, 0xff, 0xff, 0xff, 0xff, 0xff, 0xff, 0xff, 0xff, 0x01, 0x00, 0x00]
    );
    assert!(Cid::from_bytes(bytes).unwrap() == cid);
}

#[test]
fn bits_beyond_a_u64_are_dropped() {
    let long = vec![0x01, 0xff, 0xff, 0xff, 0xff, 0xff, 0xff, 0xff, 0xff, 0xff, 0x7f, 0x00, 0x00];
    assert_eq!(Cid::from_bytes(long).unwrap().codec(), u64::MAX);
    let even = vec![0x01, 0xd5, 0x80, 0x80, 0x80, 0x80, 0x80, 0x80, 0x80, 0x80, 0x02, 0x00, 0x00];
    assert_eq!(Cid::from_bytes(even).unwrap().codec(), 0x55);
}

#[test]
fn version_0_is_the_bare_digest() {
    let bytes = bytes_of(&[&[0x12, 0x20], &[7; 32]]);
    let cid = Cid::from_bytes(bytes.clone()).unwrap();
    assert_eq!(cid.version(), Version::V0);
    assert_eq!(cid.codec(), DAG_PB);
    assert_eq!(cid.hash().code(), SHA2_256);
    assert_eq!(cid.hash().digest(), [7; 32]);
    assert_eq!(cid.to_bytes(), bytes);
    assert!(Cid::from_bytes(bytes_of(&[&[0x12, 0x20], &[7; 31]])).is_none());
}

#[test]
fn bytes_behind_a_cid_do_not_matter() {
    let cid = raw_cid(Multihash::wrap(BLAKE3_256, vec![5; 32]).unwrap());
    let mut bytes = cid.to_bytes();
    bytes.extend_from_slice(&[1, 2, 3]);
    assert!(Cid::from_bytes(bytes).unwrap() == cid);
    let v0 = bytes_of(&[&[0x12, 0x20], &[7; 32], &[1]]);
    assert_eq!(Cid::from_bytes(v0).unwrap().version(), Version::V0);
}

#[test]
fn malformed_cids_are_refused() {
    assert!(Cid::from_bytes(vec![]).is_none());
    assert!(Cid::from_bytes(vec![0x01]).is_none());
    assert!(Cid::from_bytes(vec![0x01, 0x55]).is_none());
    assert!(Cid::from_bytes(vec![0x01, 0x55, 0x1e]).is_none());
    // An explicit version 0 and a version that does not exist.
    assert!(Cid::from_bytes(vec![0x00, 0x55, 0x1e, 0x00]).is_none());
    assert!(Cid::from_bytes(vec![0x02, 0x55, 0x1e, 0x00]).is_none());
    // A number that ends in a byte that could have been left out.
    assert!(Cid::from_bytes(vec![0x81, 0x00, 0x55, 0x1e, 0x00]).is_none());
    // A number that goes on too long.
    assert!(Cid::from_bytes(bytes_of(&[&[0x01], &[0x80; 10], &[0x01, 0x1e, 0x00]])).is_none());
    // A digest that is too short, and one that is too long.
    assert!(Cid::from_bytes(vec![0x01, 0x55, 0x1e, 0x02, 0x07]).is_none());
    assert!(Cid::from_bytes(bytes_of(&[&[0x01, 0x55, 0x1e, 65], &[0; 65]])).is_none());
    assert!(Cid::from_bytes(bytes_of(&[&[0x01, 0x55, 0x1e, 64], &[0; 64]])).is_some());
}

#[test]
fn no_cid_is_the_beginning_of_another() {
    let short = raw_cid(Multihash::wrap(BLAKE3_256, vec![1, 2]).unwrap()).to_bytes();
    let long = raw_cid(Multihash::wrap(BLAKE3_256, vec![1, 2, 3]).unwrap()).to_bytes();
    assert!(!long.starts_with(&short));
}

#[test]
fn digests_have_a_limit() {
    assert!(Multihash::wrap(1, vec![0; 64]).is_some());
    assert!(Multihash::wrap(1, vec![0; 65]).is_none());
    let hash = Multihash::wrap(1, vec![2, 3]).unwrap();
    assert_eq!(hash.code(), 1);
    assert_eq!(hash.digest(), [2, 3]);
    assert!(hash.clone() == hash);
    assert!(hash != Multihash::wrap(2, vec![2, 3]).unwrap());
    assert!(hash != Multihash::wrap(1, vec![2]).unwrap());
}

#[test]
fn only_some_digests_identify_a_peer() {
    let hash = |code: u64, size: usize| Multihash::wrap(code, vec![4; size]).unwrap();
    assert!(PeerId::from_multihash(hash(IDENTITY, 42)).is_some());
    assert!(PeerId::from_multihash(hash(IDENTITY, 43)).is_none());
    assert!(PeerId::from_multihash(hash(SHA2_256, 64)).is_some());
    assert!(PeerId::from_multihash(hash(BLAKE3_256, 32)).is_none());
    let peer = PeerId::from_multihash(hash(SHA2_256, 32)).unwrap();
    assert!(peer.multihash().clone() == hash(SHA2_256, 32));
    assert!(peer.clone() == peer);
    assert!(peer != PeerId::from_multihash(hash(SHA2_256, 31)).unwrap());
}

#[test]
fn byte_strings_are_told_apart() {
    assert!(same_bytes(&[], &[]));
    assert!(same_bytes(&[1, 2], &[1, 2]));
    assert!(!same_bytes(&[1, 2], &[1, 3]));
    assert!(!same_bytes(&[1, 2], &[1]));
}

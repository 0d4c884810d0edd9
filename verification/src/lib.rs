//! A block travels from a browser to a server: the server announces an address, the browser that
//! was pointed to it names the block that it holds, and the server fetches that block.
//!
//! [`server`] and [`client`] decide what either side does; [`browser`] and [`page`] decide how the
//! browser is started and what it is given; the other modules hold what these speak about.

use vstd::prelude::*;

pub mod address;
pub mod block;
pub mod browser;
pub mod client;
pub mod content;
pub mod hash;
pub mod page;
pub mod peer;
pub mod server;
pub mod text;
pub mod varint;

pub use block::RawBlakeBlock;
pub use peer::{PeerRequest, PeerResponse};

verus! {

/// The largest digest, in bytes, that a content identifier may hold.
pub const CID_SIZE: usize = 64;

/// Handshake protocol on which CID the server should hit the browser up for.
pub const HIT_ME_UP_PROTOCOL: &'static str = "/hmu/0.1.0";

/// The content of the block that travels from the browser to the server.
pub const TEST_BLOCK_DATA: [u8; 5] = [69, 69, 69, 69, 69];

} // verus!

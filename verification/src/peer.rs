//! The messages of the CID exchange.

use crate::content::{cid_bytes, read_cid, Cid};
use crate::hash::same_bytes;
use crate::HIT_ME_UP_PROTOCOL;
use vstd::prelude::*;

verus! {

/// In which direction a peer takes part in a protocol.
#[derive(Debug, Clone, Copy, PartialEq, Eq, Structural)]
pub enum ProtocolSupport {
    Inbound,
    Outbound,
    Full,
}

/// The protocols of the CID exchange: either side may ask the other.
pub fn exchange_protocols() -> (r: [(&'static str, ProtocolSupport); 1])
    ensures
        r@ == seq![(HIT_ME_UP_PROTOCOL, ProtocolSupport::Full)],
{
    let protocols: [(&'static str, ProtocolSupport); 1] = [
        (HIT_ME_UP_PROTOCOL, ProtocolSupport::Full),
    ];
    assert(protocols@ =~= seq![(HIT_ME_UP_PROTOCOL, ProtocolSupport::Full)]);
    protocols
}

/// Simple CID exchange protocol
#[derive(Debug, Eq)]
pub struct PeerRequest(pub Vec<u8>);

impl PeerRequest {
    /// A request to be asked for the block that `cid` names.
    pub fn new(cid: Cid) -> (r: PeerRequest)
        ensures
            r.0@ == cid_bytes(cid@),
            read_cid(r.0@) == Some(cid@),
    {
        PeerRequest(cid.to_bytes())
    }
}

impl std::ops::Deref for PeerRequest {
    type Target = Vec<u8>;

    fn deref(&self) -> (r: &Vec<u8>)
        ensures
            r@ == self.0@,
    {
        &self.0
    }
}

impl Clone for PeerRequest {
    fn clone(&self) -> (r: PeerRequest)
        ensures
            r.0@ == self.0@,
    {
        let bytes = self.0.clone();
        assert(bytes@ =~= self.0@);
        PeerRequest(bytes)
    }
}

impl PartialEq for PeerRequest {
    fn eq(&self, other: &PeerRequest) -> (r: bool) {
        same_bytes(self.0.as_slice(), other.0.as_slice())
    }
}

impl vstd::std_specs::cmp::PartialEqSpecImpl for PeerRequest {
    open spec fn obeys_eq_spec() -> bool {
        true
    }

    open spec fn eq_spec(&self, other: &PeerRequest) -> bool {
        self.0@ == other.0@
    }
}

/// Requests are equal exactly where their bytes are.
pub proof fn lemma_request_equality(a: PeerRequest, b: PeerRequest)
    ensures
        vstd::std_specs::cmp::PartialEqSpec::eq_spec(&a, &b) <==> a.0@ == b.0@,
{
}

/// Jeeves Response Bytes
#[derive(Debug, PartialEq, Eq)]
pub struct PeerResponse(());

impl View for PeerResponse {
    type V = ();

    closed spec fn view(&self) -> () {
        self.0
    }
}

impl PeerResponse {
    /// The acknowledgement, which says nothing but that the request came in.
    pub fn new() -> (r: PeerResponse)
        ensures
            r@ == (),
    {
        PeerResponse(())
    }
}

impl Clone for PeerResponse {
    fn clone(&self) -> (r: PeerResponse)
        ensures
            r@ == self@,
    {
        PeerResponse(self.0)
    }
}

impl std::ops::Deref for PeerResponse {
    type Target = ();

    fn deref(&self) -> (r: &())
        ensures
            *r == self@,
    {
        &self.0
    }
}

} // verus!

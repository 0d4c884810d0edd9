//! The addresses on which the two sides meet.

use crate::hash::{is_peer_id, Multihash, MultihashView, PeerId};
use libp2p::multiaddr::{Multiaddr, Protocol};
use vstd::prelude::*;

verus! {

/// `libp2p::Multiaddr`: a list of protocols, outermost first. What it holds is [`components`].
#[verifier::external_type_specification]
#[verifier::external_body]
pub struct ExMultiaddr(Multiaddr);

/// One protocol of an address.
#[verifier::ext_equal]
pub enum ComponentView {
    Ip4(Seq<u8>),
    Ip6(Seq<u16>),
    Udp(u16),
    WebRTCDirect,
    Certhash(MultihashView),
    P2p(MultihashView),
    /// Any other protocol, in its binary form.
    Other(Seq<u8>),
}

impl ComponentView {
    /// What holds of every protocol that stands in an address.
    pub open spec fn wf(self) -> bool {
        match self {
            ComponentView::Ip4(octets) => octets.len() == 4,
            ComponentView::Ip6(segments) => segments.len() == 8,
            ComponentView::Certhash(hash) => hash.wf(),
            ComponentView::P2p(hash) => is_peer_id(hash),
            _ => true,
        }
    }
}

/// One protocol of an address, as plain values. A digest is its code and its bytes.
#[derive(Debug)]
pub enum Component {
    Ip4([u8; 4]),
    Ip6([u16; 8]),
    Udp(u16),
    WebRTCDirect,
    Certhash(u64, Vec<u8>),
    P2p(u64, Vec<u8>),
    Other(Vec<u8>),
}

impl View for Component {
    type V = ComponentView;

    open spec fn view(&self) -> ComponentView {
        match self {
            Component::Ip4(octets) => ComponentView::Ip4(octets@),
            Component::Ip6(segments) => ComponentView::Ip6(segments@),
            Component::Udp(port) => ComponentView::Udp(*port),
            Component::WebRTCDirect => ComponentView::WebRTCDirect,
            Component::Certhash(code, digest) => ComponentView::Certhash(
                MultihashView { code: *code, digest: digest@ },
            ),
            Component::P2p(code, digest) => ComponentView::P2p(
                MultihashView { code: *code, digest: digest@ },
            ),
            Component::Other(bytes) => ComponentView::Other(bytes@),
        }
    }
}

/// The protocols that a `libp2p::Multiaddr` holds, as its `iter` hands them out.
pub uninterp spec fn components(address: Multiaddr) -> Seq<ComponentView>;

/// What `libp2p::Multiaddr::try_from` makes of a text.
pub uninterp spec fn parsed_address(text: Seq<char>) -> Option<Seq<ComponentView>>;

/// How `libp2p::Multiaddr` writes out the protocols that it holds.
pub uninterp spec fn address_text(parts: Seq<ComponentView>) -> Seq<char>;

/// Whether every protocol of an address is one that the exchange itself deals with.
pub open spec fn is_plain(parts: Seq<ComponentView>) -> bool {
    forall|i: int| 0 <= i < parts.len() ==> !(#[trigger] parts[i] is Other)
}

/// Whether one of the protocols of an address is the digest of a certificate.
pub open spec fn has_certhash(parts: Seq<ComponentView>) -> bool {
    exists|i: int| 0 <= i < parts.len() && #[trigger] parts[i] is Certhash
}

/// Whether the last segment of a text, behind its last `/`, is free of `_`.
pub open spec fn ends_without_underscore(text: Seq<char>) -> bool {
    exists|k: int|
        0 <= k < text.len() && #[trigger] text[k] == '/' && forall|j: int|
            k < j < text.len() ==> #[trigger] text[j] != '_'
}

/// What holds of the text of an address. A `/` stands in front of each of its protocols; a `_` is
/// written for none of those that this module names but for the digest of a certificate; and what
/// is written for a peer, behind the last `/`, holds no `_` either.
pub open spec fn is_address_text(text: Seq<char>, parts: Seq<ComponentView>) -> bool {
    &&& parts.len() > 0 ==> text.len() > 0 && text[0] == '/'
    &&& is_plain(parts) && !has_certhash(parts) ==> !text.contains('_')
    &&& parts.len() > 0 && parts.last() is P2p ==> ends_without_underscore(text)
}

/// Calls `libp2p::Multiaddr::from` on an IPv4 protocol.
///
/// Trusted: the new address holds that one protocol.
#[verifier::external_body]
fn from_ip4(octets: [u8; 4]) -> (r: Multiaddr)
    ensures
        components(r) == seq![ComponentView::Ip4(octets@)],
{
    Multiaddr::from(Protocol::Ip4(octets.into()))
}

/// Calls `libp2p::Multiaddr::with`.
///
/// Trusted: the protocol is put behind those that the address holds already. The conversion of a
/// peer identifier before the call succeeds because it is a valid one.
#[verifier::external_body]
fn with_component(address: Multiaddr, component: Component) -> (r: Multiaddr)
    requires
        component@.wf(),
        !(component@ is Other),
    ensures
        components(r) == components(address).push(component@),
{
    let hash = |code, digest: &[u8]| cid::multihash::Multihash::<64>::wrap(code, digest).unwrap();
    address.with(match &component {
        Component::Ip4(octets) => Protocol::Ip4((*octets).into()),
        Component::Ip6(segments) => Protocol::Ip6((*segments).into()),
        Component::Udp(port) => Protocol::Udp(*port),
        Component::WebRTCDirect => Protocol::WebRTCDirect,
        Component::Certhash(code, digest) => Protocol::Certhash(hash(*code, digest)),
        Component::P2p(code, digest) => Protocol::P2p(hash(*code, digest).try_into().unwrap()),
        Component::Other(bytes) => Protocol::from_bytes(bytes).unwrap().0,
    })
}

/// Calls `libp2p::Multiaddr::iter` and takes the first protocol.
///
/// Trusted: it is the first that the address holds, and nothing where it holds none.
#[verifier::external_body]
fn first_component(address: &Multiaddr) -> (r: Option<Component>)
    ensures
        r is Some <==> components(*address).len() > 0,
        r matches Some(component) ==> component@ == components(*address)[0] && component@.wf(),
{
    Some(match address.iter().next()? {
        Protocol::Ip4(ip) => Component::Ip4(ip.octets()),
        Protocol::Ip6(ip) => Component::Ip6(ip.segments()),
        Protocol::Udp(port) => Component::Udp(port),
        Protocol::WebRTCDirect => Component::WebRTCDirect,
        Protocol::Certhash(h) => Component::Certhash(h.code(), h.digest().to_vec()),
        Protocol::P2p(p) => Component::P2p(p.as_ref().code(), p.as_ref().digest().to_vec()),
        other => Component::Other(Multiaddr::from(other).to_vec()),
    })
}

/// Calls `libp2p::Multiaddr::pop`.
///
/// Trusted: the last protocol leaves the address and is handed out; the others stay as they are.
/// Of an address that holds none, nothing comes.
#[verifier::external_body]
fn pop_component(address: &mut Multiaddr) -> (r: Option<Component>)
    ensures
        r is Some <==> components(*old(address)).len() > 0,
        r matches Some(component) ==> {
            &&& components(*old(address)) == components(*final(address)).push(component@)
            &&& component@.wf()
        },
        r is None ==> components(*final(address)) == components(*old(address)),
{
    Some(match address.pop()? {
        Protocol::Ip4(ip) => Component::Ip4(ip.octets()),
        Protocol::Ip6(ip) => Component::Ip6(ip.segments()),
        Protocol::Udp(port) => Component::Udp(port),
        Protocol::WebRTCDirect => Component::WebRTCDirect,
        Protocol::Certhash(h) => Component::Certhash(h.code(), h.digest().to_vec()),
        Protocol::P2p(p) => Component::P2p(p.as_ref().code(), p.as_ref().digest().to_vec()),
        other => Component::Other(Multiaddr::from(other).to_vec()),
    })
}

/// Calls `libp2p::Multiaddr::try_from` on a text.
///
/// Trusted: whether an address comes out, and which protocols it holds, depends on the text alone.
#[verifier::external_body]
fn parse(text: &str) -> (r: Option<Multiaddr>)
    ensures
        match r {
            Some(address) => parsed_address(text@) == Some(components(address)),
            None => parsed_address(text@) is None,
        },
{
    Multiaddr::try_from(text).ok()
}

/// Calls `libp2p::Multiaddr::to_string`.
///
/// Trusted: the text depends on the protocols alone; it is written as [`is_address_text`] says; and
/// where each protocol is one that this module names, parsing the text gives them back.
#[verifier::external_body]
fn render(address: &Multiaddr) -> (r: String)
    ensures
        r@ == address_text(components(*address)),
        is_address_text(r@, components(*address)),
        is_plain(components(*address)) ==> parsed_address(r@) == Some(components(*address)),
{
    address.to_string()
}

/// The address on which the server listens: any IPv4 interface, any UDP port, and WebRTC.
pub fn listen_address() -> (r: Multiaddr)
    ensures
        components(r) == seq![
            ComponentView::Ip4(seq![0u8, 0u8, 0u8, 0u8]),
            ComponentView::Udp(0),
            ComponentView::WebRTCDirect,
        ],
{
    let octets: [u8; 4] = [0, 0, 0, 0];
    assert(octets@ =~= seq![0u8, 0u8, 0u8, 0u8]);
    let address = with_component(from_ip4(octets), Component::Udp(0));
    with_component(address, Component::WebRTCDirect)
}

/// `::1`
pub open spec fn is_loopback(segments: Seq<u16>) -> bool {
    segments == seq![0u16, 0u16, 0u16, 0u16, 0u16, 0u16, 0u16, 1u16]
}

/// `::`
pub open spec fn is_unspecified(segments: Seq<u16>) -> bool {
    segments == seq![0u16, 0u16, 0u16, 0u16, 0u16, 0u16, 0u16, 0u16]
}

/// `fe80::/10`
pub open spec fn is_link_local(segments: Seq<u16>) -> bool {
    0xfe80 <= segments[0] <= 0xfebf
}

/// Whether an IPv6 address can be reached from outside.
pub open spec fn is_global(segments: Seq<u16>) -> bool {
    !is_loopback(segments) && !is_unspecified(segments) && !is_link_local(segments)
}

/// Decides whether an IPv6 address, given by its segments, can be reached from outside.
pub fn is_global_ip6(segments: [u16; 8]) -> (r: bool)
    ensures
        r == is_global(segments@),
        r <==> segments@ != seq![0u16, 0u16, 0u16, 0u16, 0u16, 0u16, 0u16, 1u16] && segments@
            != seq![0u16, 0u16, 0u16, 0u16, 0u16, 0u16, 0u16, 0u16] && !(0xfe80 <= segments@[0]
            < 0xfec0),
{
    let first: u16 = segments[0];
    let last: u16 = segments[7];
    let zeros: bool = first == 0 && segments[1] == 0 && segments[2] == 0 && segments[3] == 0
        && segments[4] == 0 && segments[5] == 0 && segments[6] == 0;
    proof {
        assert(first & 0xffc0 == 0xfe80 <==> 0xfe80 <= first <= 0xfebf) by (bit_vector);
        if zeros && last == 1 {
            assert(segments@ =~= seq![0u16, 0u16, 0u16, 0u16, 0u16, 0u16, 0u16, 1u16]);
        }
        if zeros && last == 0 {
            assert(segments@ =~= seq![0u16, 0u16, 0u16, 0u16, 0u16, 0u16, 0u16, 0u16]);
        }
    }
    !(zeros && last == 1) && !(zeros && last == 0) && (first & 0xffc0) != 0xfe80
}

/// Whether an address is fit to be given to a browser: it starts with an IPv4 address, or with an
/// IPv6 address that can be reached from outside.
pub open spec fn is_publishable(parts: Seq<ComponentView>) -> bool {
    parts.len() > 0 && match parts[0] {
        ComponentView::Ip4(_) => true,
        ComponentView::Ip6(segments) => is_global(segments),
        _ => false,
    }
}

/// Every address that starts with an IPv4 address is fit, whatever its octets; one that starts with
/// an IPv6 address is fit exactly where that is neither `::1` nor `::` nor in `fe80::/10`; and no
/// other is. What comes behind the start does not matter.
pub proof fn lemma_publishable(parts: Seq<ComponentView>)
    ensures
        parts.len() > 0 && parts[0] is Ip4 ==> is_publishable(parts),
        parts.len() > 0 ==> (parts[0] matches ComponentView::Ip6(segments) ==> (is_publishable(
            parts,
        ) <==> segments != seq![0u16, 0u16, 0u16, 0u16, 0u16, 0u16, 0u16, 1u16] && segments
            != seq![0u16, 0u16, 0u16, 0u16, 0u16, 0u16, 0u16, 0u16] && !(0xfe80 <= segments[0]
            < 0xfec0))),
        is_publishable(parts) ==> parts.len() > 0 && (parts[0] is Ip4 || parts[0] is Ip6),
{
}

/// An address with the peer to be found there.
pub open spec fn with_peer(parts: Seq<ComponentView>, peer: MultihashView) -> Seq<
    ComponentView,
> {
    parts.push(ComponentView::P2p(peer))
}

/// The external address to announce for a listen address, or nothing where it is not fit for it.
pub fn external_address(address: Multiaddr, local_peer: &PeerId) -> (r: Option<Multiaddr>)
    ensures
        r is Some <==> is_publishable(components(address)),
        r matches Some(external) ==> components(external) == with_peer(
            components(address),
            local_peer@,
        ),
        components(address).len() > 0 && components(address)[0] is Ip4 ==> r is Some,
        r is Some ==> components(address).len() > 0 && (components(address)[0] is Ip4 || components(
            address,
        )[0] is Ip6),
        r matches Some(external) ==> components(external) == components(address).push(
            ComponentView::P2p(local_peer@),
        ),
{
    let fit: bool = match first_component(&address) {
        Some(Component::Ip4(_)) => true,
        Some(Component::Ip6(segments)) => is_global_ip6(segments),
        _ => false,
    };
    if !fit {
        return None;
    }
    let hash: &Multihash = local_peer.multihash();
    let digest = vstd::slice::slice_to_vec(hash.digest());
    Some(with_component(address, Component::P2p(hash.code(), digest)))
}

/// Whether an address starts with an IPv4 address.
pub open spec fn starts_with_ip4(parts: Seq<ComponentView>) -> bool {
    parts.len() > 0 && parts[0] is Ip4
}

/// Decides whether the page can be served for an address: it has to start with an IPv4 address.
pub fn is_servable(address: &Multiaddr) -> (r: bool)
    ensures
        r == starts_with_ip4(components(*address)),
        r <==> components(*address).len() > 0 && components(*address)[0] is Ip4,
{
    match first_component(address) {
        Some(Component::Ip4(_)) => true,
        _ => false,
    }
}

/// The peer at the end of an address, and the address in front of it.
pub open spec fn split_peer(parts: Seq<ComponentView>) -> Option<
    (Seq<ComponentView>, MultihashView),
> {
    if parts.len() == 0 {
        None
    } else {
        match parts.last() {
            ComponentView::P2p(peer) => Some((parts.drop_last(), peer)),
            _ => None,
        }
    }
}

/// Why an address cannot be dialled.
pub const BAD_ENDPOINT: &'static str = "Failed to parse Multiaddr";

/// Splits the address of a remote peer into where to dial and whom to expect there. It is an error
/// where the address does not end in a peer.
pub fn dial_target(address: Multiaddr) -> (r: Result<(Multiaddr, PeerId), &'static str>)
    ensures
        match r {
            Ok((remote, peer)) => split_peer(components(address)) == Some(
                (components(remote), peer@),
            ),
            Err(error) => split_peer(components(address)) is None && error == BAD_ENDPOINT,
        },
        r is Ok <==> components(address).len() > 0 && components(address).last() is P2p,
        r matches Ok((remote, peer)) ==> components(address) == components(remote).push(
            ComponentView::P2p(peer@),
        ),
        r matches Err(error) ==> error@ == "Failed to parse Multiaddr"@,
{
    let mut remote = address;
    match pop_component(&mut remote) {
        Some(Component::P2p(code, digest)) => {
            proof {
                let rest = components(remote);
                let last = ComponentView::P2p(MultihashView { code, digest: digest@ });
                assert(components(address).drop_last() =~= rest);
                assert(components(address).last() == last);
            }
            let peer = PeerId::from_multihash(Multihash::wrap(code, digest).unwrap()).unwrap();
            Ok((remote, peer))
        },
        _ => Err(BAD_ENDPOINT),
    }
}

/// The address that a text stands for, or nothing where it stands for none.
pub fn parse_endpoint(text: &str) -> (r: Option<Multiaddr>)
    ensures
        match r {
            Some(address) => parsed_address(text@) == Some(components(address)),
            None => parsed_address(text@) is None,
        },
{
    parse(text)
}

/// The text of an address, from which [`parse_endpoint`] gets the address back.
pub fn endpoint_text(address: &Multiaddr) -> (r: String)
    ensures
        r@ == address_text(components(*address)),
        is_address_text(r@, components(*address)),
        is_plain(components(*address)) ==> parsed_address(r@) == Some(components(*address)),
{
    render(address)
}

/// An address splits into where to dial and whom to expect exactly where putting the two together
/// again gives the address; so it splits exactly where a peer comes last.
pub proof fn lemma_split_peer(
    parts: Seq<ComponentView>,
    front: Seq<ComponentView>,
    peer: MultihashView,
)
    ensures
        split_peer(parts) == Some((front, peer)) <==> parts == front.push(ComponentView::P2p(peer)),
        split_peer(parts) is Some <==> parts.len() > 0 && parts.last() is P2p,
        with_peer(front, peer) == front.push(ComponentView::P2p(peer)),
{
    assert(front.push(ComponentView::P2p(peer)).drop_last() =~= front);
    if parts.len() > 0 {
        assert(parts =~= parts.drop_last().push(parts.last()));
    }
}

/// Dialling an announced address leads to the address that was listened on and expects the peer
/// that announced it.
pub proof fn lemma_dial_announced(parts: Seq<ComponentView>, peer: MultihashView)
    ensures
        split_peer(with_peer(parts, peer)) == Some((parts, peer)),
{
    assert(with_peer(parts, peer).drop_last() =~= parts);
}

/// Announcing an address keeps how it starts, so what was fit to be announced or served still is.
pub proof fn lemma_announced_start(parts: Seq<ComponentView>, peer: MultihashView)
    ensures
        is_publishable(with_peer(parts, peer)) == is_publishable(parts),
        starts_with_ip4(with_peer(parts, peer)) == starts_with_ip4(parts),
        is_plain(parts) ==> is_plain(with_peer(parts, peer)),
{
}

} // verus!

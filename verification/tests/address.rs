use interop_tests::address::{
    dial_target, endpoint_text, external_address, is_global_ip6, is_servable, listen_address,
    parse_endpoint,
};
use interop_tests::hash::{Multihash, PeerId};
use libp2p::multiaddr::{Multiaddr, Protocol};

const CERTHASH: &str = "uEiDDq4_xNyDorZBH3TlGazyJdOWSwvo4PUo5YHFMrvDE8g";

fn peer(seed: u8) -> PeerId {
    PeerId::from_multihash(Multihash::wrap(0, vec![seed; 36]).unwrap()).unwrap()
}

fn outside_peer(seed: u8) -> libp2p::PeerId {
    let hash = cid::multihash::Multihash::<64>::wrap(0, &[seed; 36]).unwrap();
    libp2p::PeerId::from_multihash(hash).unwrap()
}

fn address(text: &str) -> Multiaddr {
    text.parse().unwrap()
}

#[test]
fn server_listens_on_any_interface() {
    assert_eq!(listen_address(), address("/ip4/0.0.0.0/udp/0/webrtc-direct"));
}

#[test]
fn global_ip6_addresses() {
    assert!(is_global_ip6([0x2001, 0xdb8, 0, 0, 0, 0, 0, 1]));
    assert!(!is_global_ip6([0, 0, 0, 0, 0, 0, 0, 1]));
    assert!(!is_global_ip6([0, 0, 0, 0, 0, 0, 0, 0]));
    assert!(is_global_ip6([0, 0, 0, 0, 0, 0, 0, 2]));
    assert!(is_global_ip6([0, 0, 0, 0, 0, 0, 1, 1]));
    assert!(!is_global_ip6([0xfe80, 0, 0, 0, 0, 0, 0, 1]));
    assert!(!is_global_ip6([0xfebf, 1, 2, 3, 4, 5, 6, 7]));
    assert!(is_global_ip6([0xfe7f, 0, 0, 0, 0, 0, 0, 1]));
    assert!(is_global_ip6([0xfec0, 0, 0, 0, 0, 0, 0, 1]));
}

#[test]
fn ip4_addresses_are_announced_with_the_peer() {
    let listened = address(&format!("/ip4/127.0.0.1/udp/4001/webrtc-direct/certhash/{CERTHASH}"));
    let external = external_address(listened.clone(), &peer(7)).unwrap();
    assert_eq!(external, listened.with(Protocol::P2p(outside_peer(7))));
}

#[test]
fn only_global_ip6_addresses_are_announced() {
    let announce = |text: &str| external_address(address(text), &peer(1));
    assert_eq!(
        announce("/ip6/2001:db8::1/udp/1/webrtc-direct").unwrap(),
        address("/ip6/2001:db8::1/udp/1/webrtc-direct").with(Protocol::P2p(outside_peer(1)))
    );
    assert!(announce("/ip6/::1/udp/1/webrtc-direct").is_none());
    assert!(announce("/ip6/::/udp/1/webrtc-direct").is_none());
    assert!(announce("/ip6/fe80::1/udp/1/webrtc-direct").is_none());
}

#[test]
fn other_addresses_are_not_announced() {
    assert!(external_address(address("/dns4/example.com/tcp/80"), &peer(1)).is_none());
    assert!(external_address(address("/memory/12"), &peer(1)).is_none());
    assert!(external_address(Multiaddr::empty(), &peer(1)).is_none());
}

#[test]
fn page_is_served_for_ip4_only() {
    assert!(is_servable(&address("/ip4/127.0.0.1/udp/1")));
    assert!(!is_servable(&address("/ip6/2001:db8::1/udp/1")));
    assert!(!is_servable(&address("/dns/example.com")));
    assert!(!is_servable(&Multiaddr::empty()));
}

#[test]
fn dialling_needs_a_peer_at_the_end() {
    let error = |address: Multiaddr| dial_target(address).unwrap_err();
    assert_eq!(error(Multiaddr::empty()), "Failed to parse Multiaddr");
    assert_eq!(error(address("/ip4/127.0.0.1/udp/1")), "Failed to parse Multiaddr");
    let inner = address("/ip4/127.0.0.1").with(Protocol::P2p(outside_peer(3)));
    assert_eq!(error(inner.clone().with(Protocol::P2pCircuit)), "Failed to parse Multiaddr");
    let (remote, whom) = dial_target(inner).unwrap();
    assert_eq!(remote, address("/ip4/127.0.0.1"));
    assert!(whom == peer(3));
}

#[test]
fn dialling_an_announced_address_leads_back() {
    let listened = address("/ip4/192.168.0.1/udp/9/webrtc-direct");
    let external = external_address(listened.clone(), &peer(9)).unwrap();
    let (remote, whom) = dial_target(external).unwrap();
    assert_eq!(remote, listened);
    assert!(whom == peer(9));
}

#[test]
fn endpoint_text_is_read_back() {
    let listened = address(&format!("/ip4/10.0.0.1/udp/5/webrtc-direct/certhash/{CERTHASH}"));
    let external = external_address(listened, &peer(2)).unwrap();
    let text = endpoint_text(&external);
    let expected = format!(
        "/ip4/10.0.0.1/udp/5/webrtc-direct/certhash/{CERTHASH}/p2p/{}",
        outside_peer(2)
    );
    assert_eq!(text, expected);
    assert_eq!(parse_endpoint(&text).unwrap(), external);
}

#[test]
fn ip6_endpoint_text_is_read_back() {
    let external = external_address(address("/ip6/2001:db8::7/udp/5"), &peer(2)).unwrap();
    assert_eq!(parse_endpoint(&endpoint_text(&external)).unwrap(), external);
}

#[test]
fn malformed_endpoints_are_refused() {
    assert!(parse_endpoint("__LIBP2P_ENDPOINT__").is_none());
    assert!(parse_endpoint("ip4/127.0.0.1").is_none());
    assert!(parse_endpoint("/ip4/300.0.0.1").is_none());
    assert!(parse_endpoint("/p2p/not-a-peer").is_none());
}

#[test]
fn announcing_keeps_how_an_address_starts() {
    let external = external_address(address("/ip6/2001:db8::1/udp/1"), &peer(1)).unwrap();
    assert!(!is_servable(&external));
    assert!(external_address(external, &peer(2)).is_some());
    let external = external_address(address("/ip4/10.0.0.1/udp/1"), &peer(1)).unwrap();
    assert!(is_servable(&external));
}

use interop_tests::block::RawBlakeBlock;
use interop_tests::client::{browser_block, ClientAction, ClientEvent, ClientState};
use interop_tests::content::Cid;
use interop_tests::hash::{Multihash, PeerId};
use interop_tests::peer::{PeerRequest, PeerResponse};
use interop_tests::server::{is_test_block, ServerAction, ServerEvent, ServerState};
use interop_tests::TEST_BLOCK_DATA;
use libp2p::multiaddr::Multiaddr;

fn peer(seed: u8) -> PeerId {
    PeerId::from_multihash(Multihash::wrap(0, vec![seed; 36]).unwrap()).unwrap()
}

fn listen(text: &str) -> ServerEvent {
    let address: Multiaddr = text.parse().unwrap();
    ServerEvent::NewListenAddr(address)
}

fn received(query: u64) -> ServerEvent {
    ServerEvent::BlockReceived { query, data: TEST_BLOCK_DATA.to_vec() }
}

fn request_of(cid: &Cid) -> ServerEvent {
    ServerEvent::Request(PeerRequest::new(cid.clone()))
}

#[test]
fn browser_holds_the_test_block() {
    let (cid, block) = browser_block();
    assert_eq!(block.data(), TEST_BLOCK_DATA);
    assert!(RawBlakeBlock(TEST_BLOCK_DATA.to_vec()).cid().unwrap() == cid);
}

#[test]
fn listening_server_announces_the_first_fit_address() {
    let state = ServerState::Listening;
    let (state, action) = state.step(listen("/ip6/::1/udp/1"), &peer(1));
    assert_eq!(state, ServerState::Listening);
    assert!(matches!(action, ServerAction::Wait));
    let (state, action) = state.step(listen("/memory/1"), &peer(1));
    assert_eq!(state, ServerState::Listening);
    assert!(matches!(action, ServerAction::Wait));
    let (state, action) = state.step(listen("/ip4/127.0.0.1/udp/1"), &peer(1));
    assert_eq!(state, ServerState::AwaitingRequest);
    match action {
        ServerAction::Announce(address) => {
            assert!(address.to_string().starts_with("/ip4/127.0.0.1/udp/1/p2p/"));
        }
        _ => panic!("no address was announced"),
    }
    let (state, action) = state.step(listen("/ip4/127.0.0.1/udp/2"), &peer(1));
    assert_eq!(state, ServerState::AwaitingRequest);
    assert!(matches!(action, ServerAction::Wait));
}

#[test]
fn listening_server_waits_for_nothing_else() {
    let (cid, _) = browser_block();
    for event in [request_of(&cid), ServerEvent::QueryStarted(1), received(1), ServerEvent::Other] {
        let (state, action) = ServerState::Listening.step(event, &peer(1));
        assert_eq!(state, ServerState::Listening);
        assert!(matches!(action, ServerAction::Wait));
    }
}

#[test]
fn malformed_requests_are_passed_over() {
    let malformed = ServerEvent::Request(PeerRequest(vec![0xff]));
    let (state, action) = ServerState::AwaitingRequest.step(malformed, &peer(1));
    assert_eq!(state, ServerState::AwaitingRequest);
    assert!(matches!(action, ServerAction::Wait));
}

#[test]
fn server_queries_for_the_requested_block() {
    let (cid, _) = browser_block();
    let (state, action) = ServerState::AwaitingRequest.step(request_of(&cid), &peer(1));
    assert_eq!(state, ServerState::Querying);
    match action {
        ServerAction::Query(wanted) => assert!(wanted == cid),
        _ => panic!("no query was asked for"),
    }
    let (state, action) = state.step(ServerEvent::QueryStarted(5), &peer(1));
    assert_eq!(state, ServerState::AwaitingBlock { query: 5 });
    assert!(matches!(action, ServerAction::Wait));
}

#[test]
fn server_takes_the_answer_to_its_own_query() {
    let state = ServerState::AwaitingBlock { query: 5 };
    let (state, action) = state.step(received(6), &peer(1));
    assert_eq!(state, ServerState::AwaitingBlock { query: 5 });
    assert!(matches!(action, ServerAction::Wait));
    let (state, action) = state.step(ServerEvent::Other, &peer(1));
    assert_eq!(state, ServerState::AwaitingBlock { query: 5 });
    assert!(matches!(action, ServerAction::Wait));
    let (state, action) = state.step(received(5), &peer(1));
    assert_eq!(state, ServerState::Finished);
    match action {
        ServerAction::Deliver(block) => assert!(is_test_block(&block)),
        _ => panic!("no block was delivered"),
    }
    let (state, action) = state.step(received(5), &peer(1));
    assert_eq!(state, ServerState::Finished);
    assert!(matches!(action, ServerAction::Wait));
}

#[test]
fn test_block_is_recognised() {
    assert!(is_test_block(&[69, 69, 69, 69, 69]));
    assert!(!is_test_block(&[69, 69, 69, 69]));
    assert!(!is_test_block(&[69, 69, 69, 69, 69, 69]));
    assert!(!is_test_block(&[69, 69, 68, 69, 69]));
    assert!(!is_test_block(&[]));
}

#[test]
fn browser_names_its_block_once_connected_to_the_server() {
    let (cid, _) = browser_block();
    let state = ClientState::Connecting;
    let (state, action) = state.step(ClientEvent::ConnectionEstablished(peer(2)), &peer(1), &cid);
    assert_eq!(state, ClientState::Connecting);
    assert!(matches!(action, ClientAction::Wait));
    let (state, action) = state.step(ClientEvent::Other, &peer(1), &cid);
    assert_eq!(state, ClientState::Connecting);
    assert!(matches!(action, ClientAction::Wait));
    let (state, action) = state.step(ClientEvent::ConnectionEstablished(peer(1)), &peer(1), &cid);
    assert_eq!(state, ClientState::AwaitingClose);
    match action {
        ClientAction::Send(request) => assert_eq!(request.0, cid.to_bytes()),
        _ => panic!("no request was sent"),
    }
    let (state, action) = state.step(ClientEvent::ConnectionEstablished(peer(1)), &peer(1), &cid);
    assert_eq!(state, ClientState::AwaitingClose);
    assert!(matches!(action, ClientAction::Wait));
}

#[test]
fn browser_notes_the_answer_of_the_server() {
    let (cid, _) = browser_block();
    let answer = |seed| ClientEvent::Response { peer: peer(seed), response: PeerResponse::new() };
    let (state, action) = ClientState::AwaitingClose.step(answer(1), &peer(1), &cid);
    assert_eq!(state, ClientState::AwaitingClose);
    assert!(matches!(action, ClientAction::Acknowledge));
    let (state, action) = ClientState::AwaitingClose.step(answer(2), &peer(1), &cid);
    assert_eq!(state, ClientState::AwaitingClose);
    assert!(matches!(action, ClientAction::Wait));
    let (state, action) = ClientState::Connecting.step(answer(1), &peer(1), &cid);
    assert_eq!(state, ClientState::Connecting);
    assert!(matches!(action, ClientAction::Wait));
}

#[test]
fn browser_ends_with_the_connection() {
    let (cid, _) = browser_block();
    let close = |seed, cause| ClientEvent::ConnectionClosed { peer: peer(seed), cause };
    let waiting = ClientState::AwaitingClose;
    let (state, action) = waiting.step(close(2, None), &peer(1), &cid);
    assert_eq!(state, ClientState::AwaitingClose);
    assert!(matches!(action, ClientAction::Wait));
    let (state, action) = waiting.step(close(1, None), &peer(1), &cid);
    assert_eq!(state, ClientState::Finished);
    assert!(matches!(action, ClientAction::Succeed));
    let (state, action) = waiting.step(close(1, Some("reset".to_string())), &peer(1), &cid);
    assert_eq!(state, ClientState::Finished);
    match action {
        ClientAction::Fail(error) => assert_eq!(error, "reset"),
        _ => panic!("the error was lost"),
    }
    let (state, action) = ClientState::Connecting.step(close(1, None), &peer(1), &cid);
    assert_eq!(state, ClientState::Connecting);
    assert!(matches!(action, ClientAction::Wait));
    let (state, action) = ClientState::Finished.step(close(1, None), &peer(1), &cid);
    assert_eq!(state, ClientState::Finished);
    assert!(matches!(action, ClientAction::Wait));
}

/// The indices of the events at which the browser sends or ends, and where it is then.
fn browser_run(events: Vec<ClientEvent>) -> (Vec<usize>, Vec<usize>, ClientState) {
    let (cid, _) = browser_block();
    let mut sent = Vec::new();
    let mut ended = Vec::new();
    let mut state = ClientState::Connecting;
    for (i, event) in events.into_iter().enumerate() {
        let (next, action) = state.step(event, &peer(1), &cid);
        match action {
            ClientAction::Send(_) => sent.push(i),
            ClientAction::Fail(_) | ClientAction::Succeed => ended.push(i),
            _ => {}
        }
        state = next;
    }
    (sent, ended, state)
}

#[test]
fn browser_sends_once_and_ends_once() {
    let connected = |seed| ClientEvent::ConnectionEstablished(peer(seed));
    let closed = |seed, cause| ClientEvent::ConnectionClosed { peer: peer(seed), cause };
    let events = vec![
        closed(1, None),
        connected(1),
        connected(1),
        closed(1, Some("reset".to_string())),
        connected(1),
        closed(1, None),
    ];
    assert_eq!(browser_run(events), (vec![1], vec![3], ClientState::Finished));
}

#[test]
fn browser_passes_over_what_it_does_not_wait_for() {
    let connected = |seed| ClientEvent::ConnectionEstablished(peer(seed));
    let closed = |seed| ClientEvent::ConnectionClosed { peer: peer(seed), cause: None };
    let answer = || ClientEvent::Response { peer: peer(1), response: PeerResponse::new() };
    let plain = vec![connected(1), closed(1)];
    assert_eq!(browser_run(plain), (vec![0], vec![1], ClientState::Finished));
    let noisy = vec![
        ClientEvent::Other,
        connected(2),
        connected(1),
        closed(2),
        answer(),
        connected(1),
        closed(1),
        ClientEvent::Other,
    ];
    assert_eq!(browser_run(noisy), (vec![2], vec![6], ClientState::Finished));
    let unheard = vec![ClientEvent::Other, answer(), closed(1)];
    assert_eq!(browser_run(unheard), (vec![], vec![], ClientState::Connecting));
}

/// What the server does at each event, in one letter, and where it is then.
fn server_session(events: Vec<ServerEvent>) -> (String, ServerState) {
    let mut done = String::new();
    let mut state = ServerState::Listening;
    for event in events {
        let (next, action) = state.step(event, &peer(1));
        done.push(match action {
            ServerAction::Wait => '.',
            ServerAction::Announce(_) => 'a',
            ServerAction::Query(_) => 'q',
            ServerAction::Deliver(_) => 'd',
        });
        state = next;
    }
    (done, state)
}

#[test]
fn server_passes_over_what_leaves_it_where_it_is() {
    let (cid, _) = browser_block();
    let address = || listen("/ip4/10.0.0.1/udp/7");
    let plain = vec![address(), request_of(&cid), ServerEvent::QueryStarted(4), received(4)];
    assert_eq!(server_session(plain), ("aq.d".to_string(), ServerState::Finished));
    let noisy = vec![
        received(4),
        listen("/memory/1"),
        address(),
        address(),
        ServerEvent::Request(PeerRequest(vec![1, 2])),
        request_of(&cid),
        received(4),
        ServerEvent::QueryStarted(4),
        received(5),
        ServerEvent::Other,
        request_of(&cid),
        received(4),
        received(4),
    ];
    assert_eq!(server_session(noisy), ("..a..q.....d.".to_string(), ServerState::Finished));
}

#[test]
fn whole_session() {
    let (cid, block) = browser_block();
    let (server, action) = ServerState::Listening.step(listen("/ip4/10.0.0.1/udp/7"), &peer(1));
    let endpoint = match action {
        ServerAction::Announce(endpoint) => endpoint,
        _ => panic!("no address was announced"),
    };
    let (_, remote) = interop_tests::address::dial_target(endpoint).unwrap();
    let connected = ClientEvent::ConnectionEstablished(peer(1));
    let (_, action) = ClientState::Connecting.step(connected, &remote, &cid);
    let request = match action {
        ClientAction::Send(request) => request,
        _ => panic!("no request was sent"),
    };
    let (server, action) = server.step(ServerEvent::Request(request), &peer(1));
    match action {
        ServerAction::Query(wanted) => assert!(wanted == cid),
        _ => panic!("no query was asked for"),
    }
    let (server, _) = server.step(ServerEvent::QueryStarted(0), &peer(1));
    let answer = ServerEvent::BlockReceived { query: 0, data: block.0 };
    let (server, action) = server.step(answer, &peer(1));
    assert_eq!(server, ServerState::Finished);
    match action {
        ServerAction::Deliver(block) => assert!(is_test_block(&block)),
        _ => panic!("no block was delivered"),
    }
}

//! The browser's side of the exchange: what it does on each event of its swarm.
//!
//! The browser holds one block. Once it is connected to the server it names that block, and it
//! stays until the server closes the connection.

use crate::address::{is_publishable, lemma_dial_announced, split_peer, ComponentView};
use crate::block::{blake3_256, raw_block_cid, RawBlakeBlock};
use crate::content::{cid_bytes, lemma_cid_round_trip, read_cid, Cid, CidView, Version};
use crate::hash::{MultihashView, PeerId};
use crate::peer::{PeerRequest, PeerResponse};
use crate::server::{
    server_action, server_run, server_step, ServerActionView, ServerEventView, ServerState,
};
use crate::TEST_BLOCK_DATA;
use vstd::prelude::*;

verus! {

/// How far the browser has come.
#[derive(Debug, Clone, Copy, PartialEq, Eq, Structural)]
pub enum ClientState {
    /// The server has been dialled.
    Connecting,
    /// The block has been named, and the server has to close the connection.
    AwaitingClose,
    /// The connection is closed.
    Finished,
}

/// What the swarm reports.
pub enum ClientEvent {
    /// A peer is connected.
    ConnectionEstablished(PeerId),
    /// The connection to a peer is closed, perhaps because of an error.
    ConnectionClosed { peer: PeerId, cause: Option<String> },
    /// A peer answers the request.
    Response { peer: PeerId, response: PeerResponse },
    /// Anything else.
    Other,
}

/// The text of an optional message.
pub open spec fn message(text: Option<String>) -> Option<Seq<char>> {
    match text {
        Some(text) => Some(text@),
        None => None,
    }
}

/// What a [`ClientEvent`] stands for.
#[verifier::ext_equal]
pub enum ClientEventView {
    ConnectionEstablished(MultihashView),
    ConnectionClosed { peer: MultihashView, cause: Option<Seq<char>> },
    Response { peer: MultihashView },
    Other,
}

impl View for ClientEvent {
    type V = ClientEventView;

    open spec fn view(&self) -> ClientEventView {
        match self {
            ClientEvent::ConnectionEstablished(peer) => ClientEventView::ConnectionEstablished(
                peer@,
            ),
            ClientEvent::ConnectionClosed { peer, cause } => ClientEventView::ConnectionClosed {
                peer: peer@,
                cause: message(*cause),
            },
            ClientEvent::Response { peer, response: _ } => ClientEventView::Response {
                peer: peer@,
            },
            ClientEvent::Other => ClientEventView::Other,
        }
    }
}

/// What the browser wants done before it looks at the next event.
pub enum ClientAction {
    /// Nothing.
    Wait,
    /// Send the request to the server.
    Send(PeerRequest),
    /// Note that the server has acknowledged the request.
    Acknowledge,
    /// Give up because of this error.
    Fail(String),
    /// Be done.
    Succeed,
}

/// What a [`ClientAction`] stands for.
#[verifier::ext_equal]
pub enum ClientActionView {
    Wait,
    Send(Seq<u8>),
    Acknowledge,
    Fail(Seq<char>),
    Succeed,
}

impl View for ClientAction {
    type V = ClientActionView;

    open spec fn view(&self) -> ClientActionView {
        match self {
            ClientAction::Wait => ClientActionView::Wait,
            ClientAction::Send(request) => ClientActionView::Send(request.0@),
            ClientAction::Acknowledge => ClientActionView::Acknowledge,
            ClientAction::Fail(error) => ClientActionView::Fail(error@),
            ClientAction::Succeed => ClientActionView::Succeed,
        }
    }
}

/// The state and the action that follow on an event, for a browser that has dialled `remote` and
/// holds the block that `cid` names. What other peers do changes nothing.
pub open spec fn client_step(
    state: ClientState,
    event: ClientEventView,
    remote: MultihashView,
    cid: CidView,
) -> (ClientState, ClientActionView) {
    match (state, event) {
        (ClientState::Connecting, ClientEventView::ConnectionEstablished(peer)) => if peer
            == remote {
            (ClientState::AwaitingClose, ClientActionView::Send(cid_bytes(cid)))
        } else {
            (state, ClientActionView::Wait)
        },
        (ClientState::AwaitingClose, ClientEventView::ConnectionClosed { peer, cause }) => if peer
            == remote {
            match cause {
                Some(error) => (ClientState::Finished, ClientActionView::Fail(error)),
                None => (ClientState::Finished, ClientActionView::Succeed),
            }
        } else {
            (state, ClientActionView::Wait)
        },
        (ClientState::AwaitingClose, ClientEventView::Response { peer }) => if peer == remote {
            (state, ClientActionView::Acknowledge)
        } else {
            (state, ClientActionView::Wait)
        },
        _ => (state, ClientActionView::Wait),
    }
}

impl ClientState {
    /// Decides what follows on an event.
    pub fn step(self, event: ClientEvent, remote: &PeerId, cid: &Cid) -> (r: (
        ClientState,
        ClientAction,
    ))
        ensures
            (r.0, r.1@) == client_step(self, event@, remote@, cid@),
            r.1 is Send <==> self == ClientState::Connecting && (
            event matches ClientEvent::ConnectionEstablished(peer) && peer@ == remote@),
            r.1 matches ClientAction::Send(request) ==> request.0@ == cid_bytes(cid@),
            r.1 is Succeed <==> self == ClientState::AwaitingClose && (
            event matches ClientEvent::ConnectionClosed { peer, cause } && peer@ == remote@
                && cause is None),
            r.1 is Fail <==> self == ClientState::AwaitingClose && (
            event matches ClientEvent::ConnectionClosed { peer, cause } && peer@ == remote@
                && cause is Some),
            r.1 matches ClientAction::Fail(error) ==> (
            event matches ClientEvent::ConnectionClosed { peer, cause } && (
            cause matches Some(reason) && error@ == reason@)),
            r.1 is Acknowledge <==> self == ClientState::AwaitingClose && (
            event matches ClientEvent::Response { peer, response } && peer@ == remote@),
            r.1 is Send ==> r.0 == ClientState::AwaitingClose,
            r.1 is Succeed || r.1 is Fail ==> r.0 == ClientState::Finished,
            r.1 is Wait || r.1 is Acknowledge ==> r.0 == self,
    {
        match (self, event) {
            (ClientState::Connecting, ClientEvent::ConnectionEstablished(peer)) => {
                if peer == *remote {
                    (ClientState::AwaitingClose, ClientAction::Send(PeerRequest::new(cid.clone())))
                } else {
                    (self, ClientAction::Wait)
                }
            },
            (ClientState::AwaitingClose, ClientEvent::ConnectionClosed { peer, cause }) => {
                if peer == *remote {
                    match cause {
                        Some(error) => (ClientState::Finished, ClientAction::Fail(error)),
                        None => (ClientState::Finished, ClientAction::Succeed),
                    }
                } else {
                    (self, ClientAction::Wait)
                }
            },
            (ClientState::AwaitingClose, ClientEvent::Response { peer, response: _ }) => {
                if peer == *remote {
                    (self, ClientAction::Acknowledge)
                } else {
                    (self, ClientAction::Wait)
                }
            },
            _ => (self, ClientAction::Wait),
        }
    }
}

/// The block that the browser holds, and the identifier under which it stores and names it.
pub fn browser_block() -> (r: (Cid, RawBlakeBlock))
    ensures
        r.0@ == raw_block_cid(TEST_BLOCK_DATA@),
        r.0@.wf(),
        r.0@.version == Version::V1,
        r.0@.codec == 0x55,
        r.0@.hash.code == 0x1e,
        r.0@.hash.digest == blake3_256(r.1.0@),
        r.1.0@ == TEST_BLOCK_DATA@,
        r.1.0@ == seq![69u8, 69u8, 69u8, 69u8, 69u8],
{
    let data: [u8; 5] = TEST_BLOCK_DATA;
    assert(data@ =~= seq![69u8, 69u8, 69u8, 69u8, 69u8]);
    let block = RawBlakeBlock(vstd::slice::slice_to_vec(data.as_slice()));
    let cid = block.cid().unwrap();
    (cid, block)
}

/// How many of its steps the browser has behind it.
pub open spec fn client_progress(state: ClientState) -> nat {
    match state {
        ClientState::Connecting => 0,
        ClientState::AwaitingClose => 1,
        ClientState::Finished => 2,
    }
}

/// Where the browser is after some events, from a given state on.
pub open spec fn client_run(
    start: ClientState,
    events: Seq<ClientEventView>,
    remote: MultihashView,
    cid: CidView,
) -> ClientState
    decreases events.len(),
{
    if events.len() == 0 {
        start
    } else {
        client_step(
            client_run(start, events.drop_last(), remote, cid),
            events.last(),
            remote,
            cid,
        ).0
    }
}

/// The browser never goes back; it sends its request when it starts to wait for the close, and
/// ends with an error or without one when it stops to.
pub proof fn lemma_client_progress(
    state: ClientState,
    event: ClientEventView,
    remote: MultihashView,
    cid: CidView,
)
    ensures
        ({
            let (next, action) = client_step(state, event, remote, cid);
            let before = client_progress(state);
            let after = client_progress(next);
            &&& next == state || after == before + 1
            &&& action is Send <==> before == 0 && after == 1
            &&& action is Fail || action is Succeed <==> before == 1 && after == 2
        }),
{
}

/// The outcome follows the cause: when the connection to the server closes while the browser waits
/// for that, the browser succeeds exactly where there is no cause, and fails with an error exactly
/// where that error is the cause, whatever it says. Nothing else makes it succeed or fail.
pub proof fn lemma_client_outcome(
    state: ClientState,
    event: ClientEventView,
    remote: MultihashView,
    cid: CidView,
    error: Seq<char>,
)
    ensures
        ({
            let (next, action) = client_step(state, event, remote, cid);
            &&& action == ClientActionView::Succeed <==> state == ClientState::AwaitingClose
                && event == (ClientEventView::ConnectionClosed { peer: remote, cause: None })
            &&& action == ClientActionView::Fail(error) <==> state == ClientState::AwaitingClose
                && event == (ClientEventView::ConnectionClosed {
                peer: remote,
                cause: Some(error),
            })
            &&& action is Succeed || action is Fail <==> state == ClientState::AwaitingClose
                && next == ClientState::Finished
        }),
{
}

/// The browser sends bytes exactly where it is connecting, the server gets connected, and the bytes
/// are the binary form of the name of its block, from which that name can be read.
pub proof fn lemma_client_sends(
    state: ClientState,
    event: ClientEventView,
    remote: MultihashView,
    cid: CidView,
    bytes: Seq<u8>,
)
    ensures
        ({
            let (next, action) = client_step(state, event, remote, cid);
            &&& action == ClientActionView::Send(bytes) <==> state == ClientState::Connecting
                && event == ClientEventView::ConnectionEstablished(remote) && bytes == cid_bytes(cid)
            &&& action == ClientActionView::Send(bytes) && cid.wf() ==> read_cid(bytes) == Some(cid)
            &&& action is Send <==> state == ClientState::Connecting && next
                == ClientState::AwaitingClose
        }),
{
    if cid.wf() {
        lemma_cid_round_trip(cid, Seq::empty());
        assert(cid_bytes(cid) + Seq::empty() =~= cid_bytes(cid));
    }
}

/// The browser leaves a state exactly when the server gets connected while it is connecting, or
/// when the connection to the server closes while it waits for that. It takes note of an answer
/// exactly where it comes from the server after the request, and on anything else it just waits.
pub proof fn lemma_client_leaves(
    state: ClientState,
    event: ClientEventView,
    remote: MultihashView,
    cid: CidView,
)
    ensures
        ({
            let (next, action) = client_step(state, event, remote, cid);
            let connected = state == ClientState::Connecting && event
                == ClientEventView::ConnectionEstablished(remote);
            let closed = state == ClientState::AwaitingClose && (
            event matches ClientEventView::ConnectionClosed { peer, cause } && peer == remote);
            let answered = state == ClientState::AwaitingClose && event == (
            ClientEventView::Response { peer: remote });
            &&& next != state <==> connected || closed
            &&& connected ==> next == ClientState::AwaitingClose
            &&& closed ==> next == ClientState::Finished
            &&& action is Acknowledge <==> answered
            &&& action is Wait <==> !connected && !closed && !answered
        }),
{
}

/// What the browser does at event `i`.
pub open spec fn client_action(
    start: ClientState,
    events: Seq<ClientEventView>,
    remote: MultihashView,
    cid: CidView,
    i: int,
) -> ClientActionView {
    client_step(client_run(start, events.take(i), remote, cid), events[i], remote, cid).1
}

/// More events never take the browser back.
pub proof fn lemma_client_run_monotonic(
    start: ClientState,
    events: Seq<ClientEventView>,
    remote: MultihashView,
    cid: CidView,
    i: int,
)
    requires
        0 <= i <= events.len(),
    ensures
        client_progress(client_run(start, events.take(i), remote, cid)) <= client_progress(
            client_run(start, events, remote, cid),
        ),
    decreases events.len(),
{
    if i == events.len() {
        assert(events.take(i) =~= events);
    } else {
        let earlier = events.drop_last();
        assert(earlier.take(i) =~= events.take(i));
        lemma_client_run_monotonic(start, earlier, remote, cid, i);
        lemma_client_progress(
            client_run(start, earlier, remote, cid),
            events.last(),
            remote,
            cid,
        );
    }
}

/// In one session the browser sends at most one request and ends at most once, with an error or
/// without one.
pub proof fn lemma_client_acts_once(
    start: ClientState,
    events: Seq<ClientEventView>,
    remote: MultihashView,
    cid: CidView,
    i: int,
    j: int,
)
    requires
        0 <= i < j < events.len(),
    ensures
        ({
            let one = client_action(start, events, remote, cid, i);
            let other = client_action(start, events, remote, cid, j);
            &&& !(one is Send && other is Send)
            &&& !((one is Fail || one is Succeed) && (other is Fail || other is Succeed))
        }),
{
    let before = client_run(start, events.take(i), remote, cid);
    let later = client_run(start, events.take(j), remote, cid);
    assert(events.take(i + 1).drop_last() =~= events.take(i));
    assert(events.take(j).take(i + 1) =~= events.take(i + 1));
    lemma_client_run_monotonic(start, events.take(j), remote, cid, i + 1);
    lemma_client_progress(before, events[i], remote, cid);
    lemma_client_progress(later, events[j], remote, cid);
}

/// Whether the browser waits for an event: for the server's connection while it connects, and for
/// its close afterwards.
pub open spec fn client_awaits(
    state: ClientState,
    event: ClientEventView,
    remote: MultihashView,
) -> bool {
    match state {
        ClientState::Connecting => event == ClientEventView::ConnectionEstablished(remote),
        ClientState::AwaitingClose => event matches ClientEventView::ConnectionClosed {
            peer,
            cause,
        } && peer == remote,
        ClientState::Finished => false,
    }
}

/// The browser moves on, sends, fails or succeeds exactly at the events that it waits for.
pub proof fn lemma_client_ignores(
    state: ClientState,
    event: ClientEventView,
    remote: MultihashView,
    cid: CidView,
)
    ensures
        ({
            let (next, action) = client_step(state, event, remote, cid);
            &&& client_awaits(state, event, remote) <==> next != state
            &&& client_awaits(state, event, remote) <==> action is Send || action is Fail
                || action is Succeed
        }),
{
}

/// The browser takes events one after the other, whether or not it paused between them.
pub proof fn lemma_client_run_concat(
    start: ClientState,
    first: Seq<ClientEventView>,
    second: Seq<ClientEventView>,
    remote: MultihashView,
    cid: CidView,
)
    ensures
        client_run(start, first + second, remote, cid) == client_run(
            client_run(start, first, remote, cid),
            second,
            remote,
            cid,
        ),
    decreases second.len(),
{
    if second.len() == 0 {
        assert(first + second =~= first);
    } else {
        assert((first + second).drop_last() =~= first + second.drop_last());
        lemma_client_run_concat(start, first, second.drop_last(), remote, cid);
    }
}

/// An event that the browser did not wait for might as well not have come: without it the browser
/// ends up in the same state, and does the same at every other event.
pub proof fn lemma_client_run_ignores(
    start: ClientState,
    events: Seq<ClientEventView>,
    remote: MultihashView,
    cid: CidView,
    i: int,
)
    requires
        0 <= i < events.len(),
        !client_awaits(client_run(start, events.take(i), remote, cid), events[i], remote),
    ensures
        client_run(start, events.remove(i), remote, cid) == client_run(start, events, remote, cid),
        forall|j: int|
            0 <= j < i ==> #[trigger] client_action(start, events.remove(i), remote, cid, j)
                == client_action(start, events, remote, cid, j),
        forall|j: int|
            i < j < events.len() ==> client_action(start, events.remove(i), remote, cid, j - 1)
                == #[trigger] client_action(start, events, remote, cid, j),
{
    let rest = events.remove(i);
    let before = client_run(start, events.take(i), remote, cid);
    lemma_client_ignores(before, events[i], remote, cid);
    assert(events.take(i + 1).drop_last() =~= events.take(i));
    assert(rest.take(i) =~= events.take(i));
    assert(client_run(start, events.take(i + 1), remote, cid) == before);
    assert forall|j: int| i < j <= events.len() implies client_run(
        start,
        rest.take(j - 1),
        remote,
        cid,
    ) == #[trigger] client_run(start, events.take(j), remote, cid) by {
        let tail = events.subrange(i + 1, j);
        assert(events.take(j) =~= events.take(i + 1) + tail);
        assert(rest.take(j - 1) =~= events.take(i) + tail);
        lemma_client_run_concat(start, events.take(i + 1), tail, remote, cid);
        lemma_client_run_concat(start, events.take(i), tail, remote, cid);
    }
    assert(events.take(events.len() as int) =~= events);
    assert(rest.take(events.len() - 1) =~= rest);
    assert forall|j: int| 0 <= j < i implies #[trigger] client_action(
        start,
        rest,
        remote,
        cid,
        j,
    ) == client_action(start, events, remote, cid, j) by {
        assert(rest.take(j) =~= events.take(j));
    }
    assert forall|j: int| i < j < events.len() implies client_action(
        start,
        rest,
        remote,
        cid,
        j - 1,
    ) == #[trigger] client_action(start, events, remote, cid, j) by {
        assert(rest[j - 1] == events[j]);
        assert(client_run(start, rest.take(j - 1), remote, cid) == client_run(
            start,
            events.take(j),
            remote,
            cid,
        ));
    }
}

/// The browser reaches its end only after the server was connected and, later, the connection to
/// it was closed.
pub proof fn lemma_client_needs_server(
    events: Seq<ClientEventView>,
    remote: MultihashView,
    cid: CidView,
)
    ensures
        client_progress(client_run(ClientState::Connecting, events, remote, cid)) >= 1
            ==> exists|i: int|
            0 <= i < events.len() && #[trigger] events[i]
                == ClientEventView::ConnectionEstablished(remote),
        client_run(ClientState::Connecting, events, remote, cid) == ClientState::Finished
            ==> exists|i: int, j: int|
            0 <= i < j < events.len() && #[trigger] events[i]
                == ClientEventView::ConnectionEstablished(remote) && (
            #[trigger] events[j] matches ClientEventView::ConnectionClosed { peer, cause } && peer
                == remote),
    decreases events.len(),
{
    if events.len() > 0 {
        let earlier = events.drop_last();
        let before = client_run(ClientState::Connecting, earlier, remote, cid);
        let after = client_run(ClientState::Connecting, events, remote, cid);
        let last = events.len() - 1;
        lemma_client_needs_server(earlier, remote, cid);
        if client_progress(before) >= 1 {
            let i = choose|i: int|
                0 <= i < earlier.len() && #[trigger] earlier[i]
                    == ClientEventView::ConnectionEstablished(remote);
            assert(events[i] == ClientEventView::ConnectionEstablished(remote));
            if before == ClientState::Finished {
                let (i, j) = choose|i: int, j: int|
                    0 <= i < j < earlier.len() && #[trigger] earlier[i]
                        == ClientEventView::ConnectionEstablished(remote) && (
                    #[trigger] earlier[j] matches ClientEventView::ConnectionClosed { peer, cause }
                        && peer == remote);
                assert(events[i] == earlier[i]);
                assert(events[j] == earlier[j]);
            } else if after == ClientState::Finished {
                assert(events[last] is ConnectionClosed);
            }
        } else if client_progress(after) >= 1 {
            assert(events[last] == ClientEventView::ConnectionEstablished(remote));
        }
    }
}

/// The request that a connected browser sends makes a waiting server query for the very block
/// that the browser holds.
pub proof fn lemma_exchange(remote: MultihashView, local_peer: MultihashView, cid: CidView)
    requires
        cid.wf(),
    ensures
        client_step(
            ClientState::Connecting,
            ClientEventView::ConnectionEstablished(remote),
            remote,
            cid,
        ).1 matches ClientActionView::Send(request) && server_step(
            ServerState::AwaitingRequest,
            ServerEventView::Request(request),
            local_peer,
        ) == (ServerState::Querying, ServerActionView::Query(cid)),
{
    lemma_cid_round_trip(cid, Seq::empty());
    assert(cid_bytes(cid) + Seq::empty() =~= cid_bytes(cid));
}

/// A whole session. The server announces the address that it listens on, and the browser that
/// dials it finds the server there; the request of the browser makes the server query for the
/// block of the browser; and what comes back for that query is what the server delivers.
pub proof fn lemma_session(
    listened: Seq<ComponentView>,
    local_peer: MultihashView,
    cid: CidView,
    query: u64,
    block: Seq<u8>,
)
    requires
        is_publishable(listened),
        cid.wf(),
    ensures
        ({
            let events = seq![
                ServerEventView::NewListenAddr(listened),
                ServerEventView::Request(cid_bytes(cid)),
                ServerEventView::QueryStarted(query),
                ServerEventView::BlockReceived { query, data: block },
            ];
            let start = ServerState::Listening;
            &&& server_action(start, events, local_peer, 0) matches ServerActionView::Announce(
                endpoint,
            )
            &&& split_peer(endpoint) == Some((listened, local_peer))
            &&& client_step(
                ClientState::Connecting,
                ClientEventView::ConnectionEstablished(local_peer),
                local_peer,
                cid,
            ).1 == ClientActionView::Send(cid_bytes(cid))
            &&& server_action(start, events, local_peer, 1) == ServerActionView::Query(cid)
            &&& server_action(start, events, local_peer, 3) == ServerActionView::Deliver(block)
            &&& server_run(start, events, local_peer) == ServerState::Finished
        }),
{
    let listen = ServerEventView::NewListenAddr(listened);
    let request = ServerEventView::Request(cid_bytes(cid));
    let started = ServerEventView::QueryStarted(query);
    let received = ServerEventView::BlockReceived { query, data: block };
    let events = seq![listen, request, started, received];
    lemma_dial_announced(listened, local_peer);
    lemma_exchange(local_peer, local_peer, cid);
    reveal_with_fuel(server_run, 5);
    assert(events.take(0) =~= Seq::empty());
    assert(events.take(1) =~= seq![listen]);
    assert(events.take(2) =~= seq![listen, request]);
    assert(events.take(3) =~= seq![listen, request, started]);
    assert(seq![listen].drop_last() =~= Seq::empty());
    assert(seq![listen, request].drop_last() =~= seq![listen]);
    assert(seq![listen, request, started].drop_last() =~= seq![listen, request]);
    assert(events.drop_last() =~= seq![listen, request, started]);
}

} // verus!

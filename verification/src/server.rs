//! The server's side of the exchange: what it does on each event of its swarm.
//!
//! The server listens until it has an address to announce, then waits for a browser to name the
//! block that it holds, asks the browser for that block, and is done when the block has come.

use crate::address::{
    components, external_address, is_publishable, lemma_publishable, with_peer, ComponentView,
};
use crate::content::{read_cid, Cid, CidView};
use crate::hash::{same_bytes, MultihashView, PeerId};
use crate::peer::PeerRequest;
use crate::TEST_BLOCK_DATA;
use libp2p::multiaddr::Multiaddr;
use vstd::prelude::*;

verus! {

/// How far the server has come.
#[derive(Debug, Clone, Copy, PartialEq, Eq, Structural)]
pub enum ServerState {
    /// No address has been announced yet.
    Listening,
    /// The address is announced, and the browser has to name the block.
    AwaitingRequest,
    /// The query for the block is being started.
    Querying,
    /// The query is under way.
    AwaitingBlock { query: u64 },
    /// The block has come.
    Finished,
}

/// What the swarm reports.
pub enum ServerEvent {
    /// The swarm listens on an address.
    NewListenAddr(Multiaddr),
    /// A peer names the block that it holds.
    Request(PeerRequest),
    /// The query that was asked for is under way.
    QueryStarted(u64),
    /// A query has been answered.
    BlockReceived { query: u64, data: Vec<u8> },
    /// Anything else.
    Other,
}

/// What a [`ServerEvent`] stands for.
#[verifier::ext_equal]
pub enum ServerEventView {
    NewListenAddr(Seq<ComponentView>),
    Request(Seq<u8>),
    QueryStarted(u64),
    BlockReceived { query: u64, data: Seq<u8> },
    Other,
}

impl View for ServerEvent {
    type V = ServerEventView;

    open spec fn view(&self) -> ServerEventView {
        match self {
            ServerEvent::NewListenAddr(address) => ServerEventView::NewListenAddr(
                components(*address),
            ),
            ServerEvent::Request(request) => ServerEventView::Request(request.0@),
            ServerEvent::QueryStarted(query) => ServerEventView::QueryStarted(*query),
            ServerEvent::BlockReceived { query, data } => ServerEventView::BlockReceived {
                query: *query,
                data: data@,
            },
            ServerEvent::Other => ServerEventView::Other,
        }
    }
}

/// What the server wants done before it looks at the next event.
pub enum ServerAction {
    /// Nothing.
    Wait,
    /// Announce the external address and serve the page with it.
    Announce(Multiaddr),
    /// Start a query for the block.
    Query(Cid),
    /// Look at the block, which is the last thing to do.
    Deliver(Vec<u8>),
}

/// What a [`ServerAction`] stands for.
#[verifier::ext_equal]
pub enum ServerActionView {
    Wait,
    Announce(Seq<ComponentView>),
    Query(CidView),
    Deliver(Seq<u8>),
}

impl View for ServerAction {
    type V = ServerActionView;

    open spec fn view(&self) -> ServerActionView {
        match self {
            ServerAction::Wait => ServerActionView::Wait,
            ServerAction::Announce(address) => ServerActionView::Announce(components(*address)),
            ServerAction::Query(cid) => ServerActionView::Query(cid@),
            ServerAction::Deliver(data) => ServerActionView::Deliver(data@),
        }
    }
}

/// The state and the action that follow on an event. An event that the state does not wait for
/// changes nothing.
pub open spec fn server_step(
    state: ServerState,
    event: ServerEventView,
    local_peer: MultihashView,
) -> (ServerState, ServerActionView) {
    match (state, event) {
        (ServerState::Listening, ServerEventView::NewListenAddr(address)) => if is_publishable(
            address,
        ) {
            (ServerState::AwaitingRequest, ServerActionView::Announce(with_peer(address, local_peer)))
        } else {
            (state, ServerActionView::Wait)
        },
        (ServerState::AwaitingRequest, ServerEventView::Request(bytes)) => match read_cid(bytes) {
            Some(cid) => (ServerState::Querying, ServerActionView::Query(cid)),
            None => (state, ServerActionView::Wait),
        },
        (ServerState::Querying, ServerEventView::QueryStarted(query)) => (
            ServerState::AwaitingBlock { query },
            ServerActionView::Wait,
        ),
        (
            ServerState::AwaitingBlock { query: expected },
            ServerEventView::BlockReceived { query, data },
        ) => if query == expected {
            (ServerState::Finished, ServerActionView::Deliver(data))
        } else {
            (state, ServerActionView::Wait)
        },
        _ => (state, ServerActionView::Wait),
    }
}

impl ServerState {
    /// Decides what follows on an event.
    pub fn step(self, event: ServerEvent, local_peer: &PeerId) -> (r: (ServerState, ServerAction))
        ensures
            (r.0, r.1@) == server_step(self, event@, local_peer@),
            r.1 is Announce <==> self == ServerState::Listening && (
            event matches ServerEvent::NewListenAddr(address) && is_publishable(
                components(address),
            )),
            r.1 matches ServerAction::Announce(external) ==> (
            event matches ServerEvent::NewListenAddr(address) && components(external)
                == components(address).push(ComponentView::P2p(local_peer@))),
            r.1 is Query <==> self == ServerState::AwaitingRequest && (
            event matches ServerEvent::Request(request) && read_cid(request.0@) is Some),
            r.1 matches ServerAction::Query(cid) ==> (event matches ServerEvent::Request(request)
                && read_cid(request.0@) == Some(cid@)),
            r.1 is Deliver <==> (event matches ServerEvent::BlockReceived { query, data } && self
                == (ServerState::AwaitingBlock { query })),
            r.1 matches ServerAction::Deliver(block) ==> (
            event matches ServerEvent::BlockReceived { query, data } && block@ == data@),
            r.1 is Announce ==> r.0 == ServerState::AwaitingRequest,
            r.1 is Query ==> r.0 == ServerState::Querying,
            r.1 is Deliver ==> r.0 == ServerState::Finished,
            self == ServerState::Querying ==> (event matches ServerEvent::QueryStarted(query)
                ==> r.0 == (ServerState::AwaitingBlock { query })),
            r.1 is Wait && !(self == ServerState::Querying && event is QueryStarted) ==> r.0
                == self,
    {
        match (self, event) {
            (ServerState::Listening, ServerEvent::NewListenAddr(address)) => {
                match external_address(address, local_peer) {
                    Some(external) => {
                        (ServerState::AwaitingRequest, ServerAction::Announce(external))
                    },
                    None => (self, ServerAction::Wait),
                }
            },
            (ServerState::AwaitingRequest, ServerEvent::Request(request)) => {
                match Cid::from_bytes(request.0) {
                    Some(cid) => (ServerState::Querying, ServerAction::Query(cid)),
                    None => (self, ServerAction::Wait),
                }
            },
            (ServerState::Querying, ServerEvent::QueryStarted(query)) => {
                (ServerState::AwaitingBlock { query }, ServerAction::Wait)
            },
            (
                ServerState::AwaitingBlock { query: expected },
                ServerEvent::BlockReceived { query, data },
            ) => {
                if query == expected {
                    (ServerState::Finished, ServerAction::Deliver(data))
                } else {
                    (self, ServerAction::Wait)
                }
            },
            _ => (self, ServerAction::Wait),
        }
    }
}

/// Decides whether a delivered block is the one that the browser was given.
pub fn is_test_block(block: &[u8]) -> (r: bool)
    ensures
        r == (block@ == TEST_BLOCK_DATA@),
        r == (block@ == seq![69u8, 69u8, 69u8, 69u8, 69u8]),
{
    let expected: [u8; 5] = TEST_BLOCK_DATA;
    assert(expected@ =~= seq![69u8, 69u8, 69u8, 69u8, 69u8]);
    same_bytes(block, expected.as_slice())
}

/// How many of its steps the server has behind it.
pub open spec fn server_progress(state: ServerState) -> nat {
    match state {
        ServerState::Listening => 0,
        ServerState::AwaitingRequest => 1,
        ServerState::Querying => 2,
        ServerState::AwaitingBlock { .. } => 3,
        ServerState::Finished => 4,
    }
}

/// Where the server is after some events, from a given state on.
pub open spec fn server_run(
    start: ServerState,
    events: Seq<ServerEventView>,
    local_peer: MultihashView,
) -> ServerState
    decreases events.len(),
{
    if events.len() == 0 {
        start
    } else {
        server_step(
            server_run(start, events.drop_last(), local_peer),
            events.last(),
            local_peer,
        ).0
    }
}

/// The action that the server takes on the `i`-th of some events.
pub open spec fn server_action(
    start: ServerState,
    events: Seq<ServerEventView>,
    local_peer: MultihashView,
    i: int,
) -> ServerActionView {
    server_step(server_run(start, events.take(i), local_peer), events[i], local_peer).1
}

/// The server never goes back and never leaves out a step; each kind of action marks one step.
pub proof fn lemma_server_progress(
    state: ServerState,
    event: ServerEventView,
    local_peer: MultihashView,
)
    ensures
        ({
            let (next, action) = server_step(state, event, local_peer);
            let before = server_progress(state);
            let after = server_progress(next);
            &&& next == state || after == before + 1
            &&& action is Announce <==> before == 0 && after == 1
            &&& action is Query <==> before == 1 && after == 2
            &&& action is Deliver <==> before == 3 && after == 4
        }),
{
}

/// The server announces an address only while it listens, and of those that it comes to listen on
/// every one that starts with an IPv4 address, every one that starts with an IPv6 address other
/// than `::1`, `::` and those in `fe80::/10`, and no other. It puts itself behind the address.
pub proof fn lemma_server_announces(
    state: ServerState,
    event: ServerEventView,
    local_peer: MultihashView,
)
    ensures
        ({
            let (next, action) = server_step(state, event, local_peer);
            &&& action is Announce <==> state == ServerState::Listening && (
            event matches ServerEventView::NewListenAddr(address) && address.len() > 0 && {
                ||| address[0] is Ip4
                ||| address[0] matches ComponentView::Ip6(segments) && segments != seq![
                    0u16,
                    0u16,
                    0u16,
                    0u16,
                    0u16,
                    0u16,
                    0u16,
                    1u16,
                ] && segments != seq![0u16, 0u16, 0u16, 0u16, 0u16, 0u16, 0u16, 0u16] && !(0xfe80
                    <= segments[0] < 0xfec0)
            })
            &&& action is Announce <==> state == ServerState::Listening && next
                == ServerState::AwaitingRequest
            &&& action matches ServerActionView::Announce(external) ==> {
                &&& external.len() > 0
                &&& event == ServerEventView::NewListenAddr(external.drop_last())
                &&& external.last() == ComponentView::P2p(local_peer)
            }
        }),
{
    if let ServerEventView::NewListenAddr(address) = event {
        lemma_publishable(address);
        assert(with_peer(address, local_peer).drop_last() =~= address);
    }
}

/// The server queries for a block exactly where it waits for a request and one comes that names
/// this block.
pub proof fn lemma_server_queries(
    state: ServerState,
    event: ServerEventView,
    local_peer: MultihashView,
    cid: CidView,
)
    ensures
        ({
            let (next, action) = server_step(state, event, local_peer);
            &&& action == ServerActionView::Query(cid) <==> state == ServerState::AwaitingRequest
                && (event matches ServerEventView::Request(bytes) && read_cid(bytes) == Some(cid))
            &&& action is Query <==> state == ServerState::AwaitingRequest && next
                == ServerState::Querying
        }),
{
}

/// The server delivers a block exactly where it is the answer to the query that it waits for. The
/// query that it waits for is the one that was reported as started while it asked for one.
pub proof fn lemma_server_delivers(
    state: ServerState,
    event: ServerEventView,
    local_peer: MultihashView,
    query: u64,
    block: Seq<u8>,
)
    ensures
        ({
            let (next, action) = server_step(state, event, local_peer);
            &&& state == (ServerState::AwaitingBlock { query }) ==> (action
                == ServerActionView::Deliver(block) <==> event == (ServerEventView::BlockReceived {
                query,
                data: block,
            }))
            &&& action is Deliver ==> state is AwaitingBlock && next == ServerState::Finished
            &&& next == (ServerState::AwaitingBlock { query }) && state != next <==> state
                == ServerState::Querying && event == ServerEventView::QueryStarted(query)
        }),
{
}

/// In each state the server waits for one kind of event and leaves the state exactly on such an
/// event, for the state behind it; on every other event it stays and does nothing.
pub proof fn lemma_server_leaves(
    state: ServerState,
    event: ServerEventView,
    local_peer: MultihashView,
)
    ensures
        ({
            let (next, action) = server_step(state, event, local_peer);
            let awaited = {
                ||| state == ServerState::Listening && (
                event matches ServerEventView::NewListenAddr(address) && address.len() > 0 && (
                address[0] is Ip4 || (address[0] matches ComponentView::Ip6(segments) && segments
                    != seq![0u16, 0u16, 0u16, 0u16, 0u16, 0u16, 0u16, 1u16] && segments
                    != seq![0u16, 0u16, 0u16, 0u16, 0u16, 0u16, 0u16, 0u16] && !(0xfe80
                    <= segments[0] < 0xfec0))))
                ||| state == ServerState::AwaitingRequest && (
                event matches ServerEventView::Request(bytes) && read_cid(bytes) is Some)
                ||| state == ServerState::Querying && event is QueryStarted
                ||| (event matches ServerEventView::BlockReceived { query, data } && state == (
                ServerState::AwaitingBlock { query }))
            };
            &&& next != state <==> awaited
            &&& action is Wait <==> !awaited || state == ServerState::Querying
            &&& next == ServerState::Listening ==> state == ServerState::Listening
            &&& next == ServerState::AwaitingRequest && next != state ==> state
                == ServerState::Listening
            &&& next == ServerState::Querying && next != state ==> state
                == ServerState::AwaitingRequest
            &&& next is AwaitingBlock && next != state ==> state == ServerState::Querying
            &&& next == ServerState::Finished && next != state ==> state is AwaitingBlock
        }),
{
    if let ServerEventView::NewListenAddr(address) = event {
        lemma_publishable(address);
    }
}

/// However many events come, the server only ever goes forward.
pub proof fn lemma_server_run_monotonic(
    start: ServerState,
    events: Seq<ServerEventView>,
    local_peer: MultihashView,
    i: int,
)
    requires
        0 <= i <= events.len(),
    ensures
        server_progress(server_run(start, events.take(i), local_peer)) <= server_progress(
            server_run(start, events, local_peer),
        ),
    decreases events.len(),
{
    if i == events.len() {
        assert(events.take(i) =~= events);
    } else {
        lemma_server_run_monotonic(start, events.drop_last(), local_peer, i);
        assert(events.drop_last().take(i) =~= events.take(i));
        lemma_server_progress(
            server_run(start, events.drop_last(), local_peer),
            events.last(),
            local_peer,
        );
    }
}

/// No address is announced, no query started and no block delivered more than once.
pub proof fn lemma_server_acts_once(
    start: ServerState,
    events: Seq<ServerEventView>,
    local_peer: MultihashView,
    i: int,
    j: int,
)
    requires
        0 <= i < j < events.len(),
    ensures
        ({
            let first = server_action(start, events, local_peer, i);
            let second = server_action(start, events, local_peer, j);
            &&& !(first is Announce && second is Announce)
            &&& !(first is Query && second is Query)
            &&& !(first is Deliver && second is Deliver)
        }),
{
    let before_i = server_run(start, events.take(i), local_peer);
    let after_i = server_run(start, events.take(i + 1), local_peer);
    let before_j = server_run(start, events.take(j), local_peer);
    assert(events.take(i + 1).drop_last() =~= events.take(i));
    lemma_server_progress(before_i, events[i], local_peer);
    lemma_server_progress(before_j, events[j], local_peer);
    lemma_server_run_monotonic(start, events.take(j), local_peer, i + 1);
    assert(events.take(j).take(i + 1) =~= events.take(i + 1));
}

/// The server takes events one after the other, whether or not it paused between them.
pub proof fn lemma_server_run_concat(
    start: ServerState,
    first: Seq<ServerEventView>,
    second: Seq<ServerEventView>,
    local_peer: MultihashView,
)
    ensures
        server_run(start, first + second, local_peer) == server_run(
            server_run(start, first, local_peer),
            second,
            local_peer,
        ),
    decreases second.len(),
{
    if second.len() == 0 {
        assert(first + second =~= first);
    } else {
        assert((first + second).drop_last() =~= first + second.drop_last());
        lemma_server_run_concat(start, first, second.drop_last(), local_peer);
    }
}

/// An event that leaves the server where it is might as well not have come: the server does nothing
/// on it, and without it ends up in the same state and does the same at every other event.
pub proof fn lemma_server_run_ignores(
    start: ServerState,
    events: Seq<ServerEventView>,
    local_peer: MultihashView,
    i: int,
)
    requires
        0 <= i < events.len(),
        ({
            let before = server_run(start, events.take(i), local_peer);
            server_step(before, events[i], local_peer).0 == before
        }),
    ensures
        server_action(start, events, local_peer, i) is Wait,
        server_run(start, events.remove(i), local_peer) == server_run(start, events, local_peer),
        forall|j: int|
            0 <= j < i ==> #[trigger] server_action(start, events.remove(i), local_peer, j)
                == server_action(start, events, local_peer, j),
        forall|j: int|
            i < j < events.len() ==> server_action(start, events.remove(i), local_peer, j - 1)
                == #[trigger] server_action(start, events, local_peer, j),
{
    let rest = events.remove(i);
    let before = server_run(start, events.take(i), local_peer);
    assert(events.take(i + 1).drop_last() =~= events.take(i));
    assert(server_run(start, events.take(i + 1), local_peer) == before);
    assert forall|j: int| i < j <= events.len() implies server_run(
        start,
        rest.take(j - 1),
        local_peer,
    ) == #[trigger] server_run(start, events.take(j), local_peer) by {
        let tail = events.subrange(i + 1, j);
        assert(events.take(j) =~= events.take(i + 1) + tail);
        assert(rest.take(j - 1) =~= events.take(i) + tail);
        lemma_server_run_concat(start, events.take(i + 1), tail, local_peer);
        lemma_server_run_concat(start, events.take(i), tail, local_peer);
    }
    assert(events.take(events.len() as int) =~= events);
    assert(rest.take(events.len() - 1) =~= rest);
    assert forall|j: int| 0 <= j < i implies #[trigger] server_action(start, rest, local_peer, j)
        == server_action(start, events, local_peer, j) by {
        assert(rest.take(j) =~= events.take(j));
    }
    assert forall|j: int| i < j < events.len() implies server_action(
        start,
        rest,
        local_peer,
        j - 1,
    ) == #[trigger] server_action(start, events, local_peer, j) by {
        assert(rest[j - 1] == events[j]);
        assert(server_run(start, rest.take(j - 1), local_peer) == server_run(
            start,
            events.take(j),
            local_peer,
        ));
    }
}

/// The query that the server waits for is one whose start was reported to it.
pub proof fn lemma_server_query_started(
    events: Seq<ServerEventView>,
    local_peer: MultihashView,
)
    ensures
        server_run(ServerState::Listening, events, local_peer) matches ServerState::AwaitingBlock {
            query,
        } ==> exists|i: int|
            0 <= i < events.len() && #[trigger] events[i] == ServerEventView::QueryStarted(query),
    decreases events.len(),
{
    if events.len() > 0 {
        let before = server_run(ServerState::Listening, events.drop_last(), local_peer);
        lemma_server_query_started(events.drop_last(), local_peer);
        if let ServerState::AwaitingBlock { query } = server_run(
            ServerState::Listening,
            events,
            local_peer,
        ) {
            if before == (ServerState::AwaitingBlock { query }) {
                let i = choose|i: int|
                    0 <= i < events.drop_last().len() && #[trigger] events.drop_last()[i]
                        == ServerEventView::QueryStarted(query);
                assert(events[i] == ServerEventView::QueryStarted(query));
            } else {
                assert(events[events.len() - 1] == ServerEventView::QueryStarted(query));
            }
        }
    }
}

/// A block is delivered only as the answer to a query that the server had started before.
pub proof fn lemma_server_delivers_answer(
    events: Seq<ServerEventView>,
    local_peer: MultihashView,
    j: int,
)
    requires
        0 <= j < events.len(),
    ensures
        server_action(
            ServerState::Listening,
            events,
            local_peer,
            j,
        ) matches ServerActionView::Deliver(block) ==> {
            &&& events[j] matches ServerEventView::BlockReceived { query, data }
            &&& data == block
            &&& exists|i: int|
                0 <= i < j && #[trigger] events[i] == ServerEventView::QueryStarted(query)
        },
{
    lemma_server_query_started(events.take(j), local_peer);
    if let ServerActionView::Deliver(block) = server_action(
        ServerState::Listening,
        events,
        local_peer,
        j,
    ) {
        if let ServerEventView::BlockReceived { query, data } = events[j] {
            let i = choose|i: int|
                0 <= i < events.take(j).len() && #[trigger] events.take(j)[i]
                    == ServerEventView::QueryStarted(query);
            assert(events[i] == ServerEventView::QueryStarted(query));
        }
    }
}

} // verus!

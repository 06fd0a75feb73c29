//! The node as a state machine over mathematical values.
//!
//! The state is what the event loop owns. Each function here says, for one
//! kind of input, what the state is afterwards and which effects the node
//! asks for, in their order. The executable handlers are proved to do
//! exactly this.

use vstd::prelude::*;
use vstd::string::StringSliceAdditionalSpecFns;

use crate::command::{GossipsubMessage, NetworkCommand};
use crate::config::NetworkConfig;
use crate::effect::{addr_views, EffectView, NetworkErrorView, ReplyView};
use crate::event::{
    AutonatEvent, BehaviourEvent, BitswapEvent, GossipsubEventView, GossipsubInput,
    IdentifyEvent, MdnsEvent, NatStatus, NetworkEventView, RequestResponseEvent, SwarmEvent,
};
use crate::ident::{circuit_address, Multiaddr, PeerId};
use crate::protocol::{
    whole_graph, RequestType, RequestView, ResponseView, KAD_PROTOCOL, URSA_GLOBAL,
};
use crate::summary::{empty_summary, summary_holds, summary_with};
use crate::tables::seq_without;

verus! {

/// What the event loop owns.
pub struct ServiceView<R> {
    /// Connected peers, in the order in which they connected.
    pub peers: Seq<Seq<u8>>,
    /// What each peer last said that it holds.
    pub peer_content: Map<Seq<u8>, Seq<bool>>,
    /// In-flight block fetches.
    pub queries: Map<u64, Seq<u8>>,
    /// Local callers that await a block.
    pub waiters: Map<Seq<u8>, Seq<R>>,
    /// Local callers that await the response of a peer.
    pub pending: Map<u64, R>,
    /// Seed addresses.
    pub bootstraps: Seq<Seq<u8>>,
    /// What this node holds.
    pub summary: Seq<bool>,
    /// The addresses that the node was told to listen on.
    pub listen_addrs: Seq<Seq<u8>>,
    /// The address under which the node was seen from outside, if any.
    pub public_address: Option<Seq<u8>>,
    /// Whether the node may listen through a relay.
    pub relay_client: bool,
    /// Seconds between two random walks of the routing table.
    pub kad_walk_interval: u64,
}

/// The state of a node that was just made from its settings.
pub open spec fn initial<R>(config: NetworkConfig) -> ServiceView<R> {
    ServiceView {
        peers: Seq::empty(),
        peer_content: Map::empty(),
        queries: Map::empty(),
        waiters: Map::empty(),
        pending: Map::empty(),
        bootstraps: addr_views(config.bootstrap_nodes@),
        summary: empty_summary(),
        listen_addrs: addr_views(config.swarm_addrs@),
        public_address: None,
        relay_client: config.relay_usable(),
        kad_walk_interval: config.kad_walk_interval,
    }
}

/// What a node does when it starts: dial every seed, listen on every
/// address, join the global topic.
pub open spec fn startup<R>(pre: ServiceView<R>) -> Seq<EffectView<R>> {
    Seq::new(
        pre.bootstraps.len(),
        |i: int| EffectView::Dial { address: pre.bootstraps[i], required: true },
    ) + Seq::new(
        pre.listen_addrs.len(),
        |i: int| EffectView::ListenOn { address: pre.listen_addrs[i] },
    ) + seq![EffectView::JoinTopic { topic: URSA_GLOBAL@ }]
}

/// The state and the effects after one input.
pub type Step<R> = (ServiceView<R>, Seq<EffectView<R>>);

/// Whether `peer` is believed to hold `cid`.
pub open spec fn peer_holds(content: Map<Seq<u8>, Seq<bool>>, cid: Seq<u8>, peer: Seq<u8>) -> bool {
    content.contains_key(peer) && summary_holds(content[peer], cid)
}

/// Those of the first `n` peers that are believed to hold `cid`, in the
/// order of the table.
pub open spec fn believed_holders(
    peers: Seq<Seq<u8>>,
    content: Map<Seq<u8>, Seq<bool>>,
    cid: Seq<u8>,
    n: int,
) -> Seq<Seq<u8>>
    decreases n,
{
    if n <= 0 {
        Seq::empty()
    } else {
        let rest = believed_holders(peers, content, cid, n - 1);
        if peer_holds(content, cid, peers[n - 1]) {
            rest.push(peers[n - 1])
        } else {
            rest
        }
    }
}

/// The peers to fetch `cid` from: those believed to hold it, or all
/// connected peers where none is.
pub open spec fn preferred_peers(
    peers: Seq<Seq<u8>>,
    content: Map<Seq<u8>, Seq<bool>>,
    cid: Seq<u8>,
) -> Seq<Seq<u8>> {
    let believed = believed_holders(peers, content, cid, peers.len() as int);
    if believed.len() == 0 {
        peers
    } else {
        believed
    }
}

/// A caller asks for a block.
pub open spec fn get_bitswap<R>(pre: ServiceView<R>, cid: Seq<u8>, sender: R) -> Step<R> {
    if pre.peers.len() == 0 {
        (
            pre,
            seq![
                EffectView::Reply {
                    to: sender,
                    value: ReplyView::Block(Err(NetworkErrorView::NoPeers)),
                    required: false,
                },
            ],
        )
    } else if pre.waiters.contains_key(cid) {
        (
            ServiceView { waiters: pre.waiters.insert(cid, pre.waiters[cid].push(sender)), ..pre },
            Seq::empty(),
        )
    } else {
        (
            ServiceView { waiters: pre.waiters.insert(cid, seq![sender]), ..pre },
            seq![
                EffectView::SyncBlock {
                    cid,
                    peers: preferred_peers(pre.peers, pre.peer_content, cid),
                },
            ],
        )
    }
}

/// The block exchange opened `query` for the fetch of `cid`, or could not.
pub open spec fn bitswap_started<R>(pre: ServiceView<R>, cid: Seq<u8>, query: Option<u64>) -> Step<
    R,
> {
    match query {
        Some(query_id) => (
            ServiceView { queries: pre.queries.insert(query_id, cid), ..pre },
            seq![EffectView::Emit(NetworkEventView::BitswapWant { cid, query_id })],
        ),
        None => (pre, Seq::empty()),
    }
}

/// The requests that announce `cid` to every peer: first a cache request
/// to each, then the summary to each.
pub open spec fn put_requests<R>(peers: Seq<Seq<u8>>, cid: Seq<u8>, summary: Seq<bool>) -> Seq<
    EffectView<R>,
> {
    Seq::new(
        peers.len(),
        |i: int|
            EffectView::SendRequest { peer: peers[i], request: RequestView::CacheRequest(cid) },
    ) + Seq::new(
        peers.len(),
        |i: int|
            EffectView::SendRequest {
                peer: peers[i],
                request: RequestView::StoreSummary(summary),
            },
    )
}

/// A caller announces a block that was cached here.
pub open spec fn put<R>(pre: ServiceView<R>, cid: Seq<u8>, sender: R) -> Step<R> {
    let summary = summary_with(pre.summary, cid);
    (
        ServiceView { summary, ..pre },
        put_requests(pre.peers, cid, summary).push(
            EffectView::Reply { to: sender, value: ReplyView::Put, required: true },
        ),
    )
}

/// The addresses on which the node can be reached.
pub open spec fn listener_addresses<R>(pre: ServiceView<R>) -> Seq<Seq<u8>> {
    match pre.public_address {
        Some(addr) => pre.listen_addrs.push(addr),
        None => pre.listen_addrs,
    }
}

/// One command.
pub open spec fn handle_command<R>(pre: ServiceView<R>, command: NetworkCommand<R>) -> Step<R> {
    match command {
        NetworkCommand::GetBitswap { cid, sender } => get_bitswap(pre, cid@, sender),
        NetworkCommand::Put { cid, sender } => put(pre, cid@, sender),
        NetworkCommand::GetPeers { sender } => (
            pre,
            seq![
                EffectView::Reply {
                    to: sender,
                    value: ReplyView::Peers(pre.peers),
                    required: false,
                },
            ],
        ),
        NetworkCommand::GetListenerAddresses { sender } => (
            pre,
            seq![
                EffectView::Reply {
                    to: sender,
                    value: ReplyView::ListenerAddresses(listener_addresses(pre)),
                    required: false,
                },
            ],
        ),
        NetworkCommand::SendRequest { peer_id, request, channel } => (
            pre,
            seq![EffectView::SendTrackedRequest { peer: peer_id@, request: request@, channel }],
        ),
        NetworkCommand::GossipsubMessage { peer_id, message } => (
            pre,
            seq![
                match message {
                    GossipsubMessage::Subscribe { peer_id, topic, sender } => EffectView::Subscribe {
                        topic: topic@,
                        sender,
                    },
                    GossipsubMessage::Unsubscribe {
                        peer_id,
                        topic,
                        sender,
                    } => EffectView::Unsubscribe { topic: topic@, sender },
                    GossipsubMessage::Publish { topic, data, sender } => EffectView::Publish {
                        topic: topic@,
                        data: data@,
                        sender,
                    },
                },
            ],
        ),
        NetworkCommand::AdminPurgeCache => (
            ServiceView { summary: empty_summary(), ..pre },
            seq![EffectView::PurgeLocalCache],
        ),
    }
}

/// A tracked request went out under `request_id`.
pub open spec fn request_sent<R>(pre: ServiceView<R>, request_id: u64, channel: R) -> Step<R> {
    (
        ServiceView { pending: pre.pending.insert(request_id, channel), ..pre },
        seq![EffectView::Emit(NetworkEventView::RequestMessage { request_id })],
    )
}

/// The replies that tell every waiter how the fetch of `cid` ended.
pub open spec fn block_replies<R>(waiters: Seq<R>, cid: Seq<u8>, found: bool) -> Seq<
    EffectView<R>,
> {
    Seq::new(
        waiters.len(),
        |i: int|
            EffectView::Reply {
                to: waiters[i],
                value: ReplyView::Block(
                    if found {
                        Ok(())
                    } else {
                        Err(NetworkErrorView::BlockNotFound { cid })
                    },
                ),
                required: false,
            },
    )
}

/// The block exchange reports on a fetch.
pub open spec fn handle_bitswap<R>(pre: ServiceView<R>, event: BitswapEvent) -> Step<R> {
    match event {
        BitswapEvent::Progress(_, _) => (pre, Seq::empty()),
        BitswapEvent::Complete(query, found) => {
            if pre.queries.contains_key(query) {
                let cid = pre.queries[query];
                let queries = pre.queries.remove(query);
                if pre.waiters.contains_key(cid) {
                    (
                        ServiceView { queries, waiters: pre.waiters.remove(cid), ..pre },
                        block_replies(pre.waiters[cid], cid, found),
                    )
                } else {
                    (ServiceView { queries, ..pre }, Seq::empty())
                }
            } else {
                (pre, Seq::empty())
            }
        },
    }
}

/// The bytes of the name of the routing protocol.
pub open spec fn kad_protocol_bytes() -> Seq<u8> {
    KAD_PROTOCOL.spec_bytes()
}

/// Whether a peer that lists these protocols is of the same network.
pub open spec fn same_network(protocols: Seq<Vec<u8>>) -> bool {
    exists|i: int| 0 <= i < protocols.len() && (#[trigger] protocols[i])@ == kad_protocol_bytes()
}

/// A peer identified itself.
pub open spec fn handle_identify<R>(pre: ServiceView<R>, event: IdentifyEvent) -> Step<R> {
    match event {
        IdentifyEvent::Received { peer_id, protocols, listen_addrs } => {
            if same_network(protocols@) {
                (
                    pre,
                    seq![EffectView::AddExplicitPeer { peer: peer_id@ }] + Seq::new(
                        listen_addrs@.len(),
                        |i: int|
                            EffectView::AddAddress { peer: peer_id@, address: listen_addrs@[i]@ },
                    ),
                )
            } else {
                (pre, Seq::empty())
            }
        },
        _ => (pre, Seq::empty()),
    }
}

/// Whether a pick among the seed addresses is one that chance may give:
/// one of them, or none where there is none.
pub open spec fn pick_allowed(bootstraps: Seq<Seq<u8>>, pick: Option<Seq<u8>>) -> bool {
    match pick {
        Some(addr) => bootstraps.contains(addr),
        None => bootstraps.len() == 0,
    }
}

/// Whether a change of reachability calls for a relay.
pub open spec fn wants_relay(relay_client: bool, old: NatStatus, new: NatStatus) -> bool {
    relay_client && old is Unknown && new is Private
}

/// The address through the relay at the seed address that chance gave, if
/// chance gave one and it is an address.
pub open spec fn relay_of(pick: Option<Seq<u8>>) -> Option<Seq<u8>> {
    match pick {
        Some(addr) => circuit_address(addr),
        None => None,
    }
}

/// The reachability of the node changed. `circuit` is the address through
/// the relay that was picked, if there is one.
pub open spec fn handle_autonat<R>(
    pre: ServiceView<R>,
    event: AutonatEvent,
    circuit: Option<Seq<u8>>,
) -> Step<R> {
    match event {
        AutonatEvent::StatusChanged { old, new } => {
            let post = ServiceView {
                public_address: match new {
                    NatStatus::Public(addr) => Some(addr@),
                    _ => None,
                },
                ..pre
            };
            if wants_relay(pre.relay_client, old, new) && circuit is Some {
                (post, seq![EffectView::ListenOn { address: circuit->0 }])
            } else {
                (post, Seq::empty())
            }
        },
        _ => (pre, Seq::empty()),
    }
}

/// The gossip layer reports.
pub open spec fn handle_gossip<R>(pre: ServiceView<R>, event: GossipsubInput) -> Step<R> {
    match event {
        GossipsubInput::Message { propagation_source, message_id, message } => (
            pre,
            seq![
                EffectView::Emit(
                    NetworkEventView::Gossipsub(
                        GossipsubEventView::Message {
                            peer_id: propagation_source@,
                            message_id: message_id@,
                            message: message@,
                        },
                    ),
                ),
            ],
        ),
        GossipsubInput::Subscribed { peer_id, topic } => (
            pre,
            seq![
                EffectView::Emit(
                    NetworkEventView::Gossipsub(
                        GossipsubEventView::Subscribed { peer_id: peer_id@, topic: topic@ },
                    ),
                ),
            ],
        ),
        GossipsubInput::Unsubscribed { peer_id, topic } => (
            pre,
            seq![
                EffectView::Emit(
                    NetworkEventView::Gossipsub(
                        GossipsubEventView::Unsubscribed { peer_id: peer_id@, topic: topic@ },
                    ),
                ),
            ],
        ),
        GossipsubInput::GossipsubNotSupported { peer_id } => (pre, Seq::empty()),
    }
}

/// The peers and the effects after the first `n` discovered pairs: each
/// address goes to the routing table, and a peer that is new is dialed.
pub open spec fn discovered<R>(
    peers: Seq<Seq<u8>>,
    found: Seq<(PeerId, Multiaddr)>,
    n: int,
) -> (Seq<Seq<u8>>, Seq<EffectView<R>>)
    decreases n,
{
    if n <= 0 {
        (peers, Seq::empty())
    } else {
        let (known, effects) = discovered::<R>(peers, found, n - 1);
        let peer = found[n - 1].0@;
        let address = found[n - 1].1@;
        let added = effects.push(EffectView::AddAddress { peer, address });
        if known.contains(peer) {
            (known, added)
        } else {
            (known.push(peer), added.push(EffectView::Dial { address, required: false }))
        }
    }
}

/// Peers were found on the local network.
pub open spec fn handle_mdns<R>(pre: ServiceView<R>, event: MdnsEvent) -> Step<R> {
    match event {
        MdnsEvent::Discovered(found) => {
            let (peers, effects) = discovered::<R>(pre.peers, found@, found@.len() as int);
            (ServiceView { peers, ..pre }, effects)
        },
        MdnsEvent::Expired(_) => (pre, Seq::empty()),
    }
}

/// The request/response layer reports.
pub open spec fn handle_req_res<R>(pre: ServiceView<R>, event: RequestResponseEvent) -> Step<R> {
    match event {
        RequestResponseEvent::Request { peer, request_id, request } => {
            let told = EffectView::Emit(NetworkEventView::RequestMessage { request_id });
            match request.0 {
                RequestType::CarRequest(_) => (pre, seq![told]),
                RequestType::CacheRequest(cid) => (
                    pre,
                    seq![
                        EffectView::GraphsyncRequest {
                            peer: peer@,
                            root: cid@,
                            selector: whole_graph(),
                        },
                        EffectView::SendResponse {
                            request_id,
                            response: ResponseView::CacheResponse,
                        },
                        told,
                    ],
                ),
                RequestType::StoreSummary(summary) => (
                    ServiceView {
                        peer_content: pre.peer_content.insert(peer@, summary@),
                        ..pre
                    },
                    seq![
                        EffectView::SendResponse {
                            request_id,
                            response: ResponseView::StoreSummaryRequest,
                        },
                        told,
                    ],
                ),
            }
        },
        RequestResponseEvent::Response { peer, request_id, response } => {
            if pre.pending.contains_key(request_id) {
                (
                    ServiceView { pending: pre.pending.remove(request_id), ..pre },
                    seq![
                        EffectView::Reply {
                            to: pre.pending[request_id],
                            value: ReplyView::Response(response@),
                            required: false,
                        },
                    ],
                )
            } else {
                (pre, Seq::empty())
            }
        },
        RequestResponseEvent::OutboundFailure { peer, request_id } => (
            ServiceView { pending: pre.pending.remove(request_id), ..pre },
            Seq::empty(),
        ),
        _ => (pre, Seq::empty()),
    }
}

/// A connection to `peer` was established.
pub open spec fn connection_established<R>(pre: ServiceView<R>, peer: Seq<u8>) -> Step<R> {
    if pre.peers.contains(peer) {
        (pre, Seq::empty())
    } else {
        (
            ServiceView { peers: pre.peers.push(peer), ..pre },
            seq![EffectView::Emit(NetworkEventView::PeerConnected(peer))],
        )
    }
}

/// A connection to `peer` closed; `num_established` are left.
pub open spec fn connection_closed<R>(
    pre: ServiceView<R>,
    peer: Seq<u8>,
    num_established: u32,
) -> Step<R> {
    if num_established == 0 && pre.peers.contains(peer) {
        (
            ServiceView {
                peers: seq_without(pre.peers, peer),
                peer_content: pre.peer_content.remove(peer),
                ..pre
            },
            seq![EffectView::Emit(NetworkEventView::PeerDisconnected(peer))],
        )
    } else {
        (pre, Seq::empty())
    }
}

/// One event of the swarm. `circuit` is the address through the relay that
/// was picked, if there is one; only a change of reachability reads it.
pub open spec fn handle_swarm_event<R>(
    pre: ServiceView<R>,
    event: SwarmEvent,
    circuit: Option<Seq<u8>>,
) -> Step<R> {
    match event {
        SwarmEvent::Behaviour(event) => match event {
            BehaviourEvent::Identify(event) => handle_identify(pre, event),
            BehaviourEvent::Autonat(event) => handle_autonat(pre, event, circuit),
            BehaviourEvent::Bitswap(event) => handle_bitswap(pre, event),
            BehaviourEvent::Gossipsub(event) => handle_gossip(pre, event),
            BehaviourEvent::Mdns(event) => handle_mdns(pre, event),
            BehaviourEvent::RequestResponse(event) => handle_req_res(pre, event),
            _ => (pre, Seq::empty()),
        },
        SwarmEvent::ConnectionEstablished { peer_id } => connection_established(pre, peer_id@),
        SwarmEvent::ConnectionClosed { peer_id, num_established } => connection_closed(
            pre,
            peer_id@,
            num_established,
        ),
        SwarmEvent::Other => (pre, Seq::empty()),
    }
}

/// A dial at the wish of a caller ended. Where it went through, the routing
/// table learns the address; the caller is told either way.
pub open spec fn dial<R>(
    pre: ServiceView<R>,
    peer: Seq<u8>,
    address: Seq<u8>,
    response: R,
    dialed: Result<(), Seq<char>>,
) -> Step<R> {
    match dialed {
        Ok(_) => (
            pre,
            seq![
                EffectView::AddAddress { peer, address },
                EffectView::Reply { to: response, value: ReplyView::Dial(Ok(())), required: true },
            ],
        ),
        Err(words) => (
            pre,
            seq![
                EffectView::Reply {
                    to: response,
                    value: ReplyView::Dial(Err(words)),
                    required: true,
                },
            ],
        ),
    }
}

/// The timer of the random walk fired.
pub open spec fn walk_timer<R>(pre: ServiceView<R>) -> Step<R> {
    (pre, seq![EffectView::RandomWalk, EffectView::ResetWalkTimer { secs: pre.kad_walk_interval }])
}

/// What the event loop takes in on one turn.
pub enum LoopInput<R> {
    /// The next event of the swarm, or `None` where the swarm has ended.
    Swarm(Option<SwarmEvent>),
    /// The next command, or `None` where the command channel is closed and
    /// drained.
    Command(Option<NetworkCommand<R>>),
    /// The timer of the random walk fired.
    WalkTimer,
}

/// Why the event loop ends.
#[derive(Debug, Clone, Copy, PartialEq, Eq, Structural)]
pub enum LoopError {
    /// The swarm yields no more events.
    SwarmClosed,
    /// No command can come any more.
    CommandsClosed,
}

/// One turn of the event loop: exactly one input is processed, or the loop
/// ends.
pub open spec fn turn<R>(
    pre: ServiceView<R>,
    input: LoopInput<R>,
    circuit: Option<Seq<u8>>,
) -> Result<Step<R>, LoopError> {
    match input {
        LoopInput::Swarm(Some(event)) => Ok(handle_swarm_event(pre, event, circuit)),
        LoopInput::Swarm(None) => Err(LoopError::SwarmClosed),
        LoopInput::Command(Some(command)) => Ok(handle_command(pre, command)),
        LoopInput::Command(None) => Err(LoopError::CommandsClosed),
        LoopInput::WalkTimer => Ok(walk_timer(pre)),
    }
}

} // verus!

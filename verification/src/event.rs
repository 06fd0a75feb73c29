//! What the swarm reports to the node, reduced to what the node reads of it,
//! and what the node publishes to its subscribers.

use vstd::prelude::*;

use crate::ident::{Cid, Multiaddr, PeerId};
use crate::protocol::{UrsaExchangeRequest, UrsaExchangeResponse};
use crate::queries::QueryId;
use crate::tables::RequestId;

verus! {

/// A message of the gossip layer.
#[derive(Debug, PartialEq, Eq)]
pub struct GossipMessage {
    pub source: Option<PeerId>,
    pub data: Vec<u8>,
    pub sequence_number: Option<u64>,
    pub topic: String,
}

/// A gossip message as a mathematical value.
pub struct GossipMessageView {
    pub source: Option<Seq<u8>>,
    pub data: Seq<u8>,
    pub sequence_number: Option<u64>,
    pub topic: Seq<char>,
}

impl View for GossipMessage {
    type V = GossipMessageView;

    open spec fn view(&self) -> GossipMessageView {
        GossipMessageView {
            source: match self.source {
                Some(peer) => Some(peer@),
                None => None,
            },
            data: self.data@,
            sequence_number: self.sequence_number,
            topic: self.topic@,
        }
    }
}

/// What the gossip layer tells the subscribers of the node.
#[derive(Debug, PartialEq, Eq)]
pub enum GossipsubEvent {
    /// A message has been received.
    Message { peer_id: PeerId, message_id: Vec<u8>, message: GossipMessage },
    /// A remote subscribed to a topic.
    Subscribed { peer_id: PeerId, topic: String },
    /// A remote unsubscribed from a topic.
    Unsubscribed { peer_id: PeerId, topic: String },
}

pub enum GossipsubEventView {
    Message { peer_id: Seq<u8>, message_id: Seq<u8>, message: GossipMessageView },
    Subscribed { peer_id: Seq<u8>, topic: Seq<char> },
    Unsubscribed { peer_id: Seq<u8>, topic: Seq<char> },
}

impl View for GossipsubEvent {
    type V = GossipsubEventView;

    open spec fn view(&self) -> GossipsubEventView {
        match self {
            GossipsubEvent::Message { peer_id, message_id, message } => GossipsubEventView::Message {
                peer_id: peer_id@,
                message_id: message_id@,
                message: message@,
            },
            GossipsubEvent::Subscribed { peer_id, topic } => GossipsubEventView::Subscribed {
                peer_id: peer_id@,
                topic: topic@,
            },
            GossipsubEvent::Unsubscribed { peer_id, topic } => GossipsubEventView::Unsubscribed {
                peer_id: peer_id@,
                topic: topic@,
            },
        }
    }
}

/// What the node publishes on its event sink.
#[derive(Debug, PartialEq, Eq)]
pub enum NetworkEvent {
    /// A remote peer connected.
    PeerConnected(PeerId),
    /// The last connection to a remote peer closed.
    PeerDisconnected(PeerId),
    /// The gossip layer reported something.
    Gossipsub(GossipsubEvent),
    /// A request was received from a peer, or sent to one.
    RequestMessage { request_id: RequestId },
    /// The node has a block that was asked for.
    BitswapHave { cid: Cid, query_id: QueryId },
    /// The node started to fetch a block.
    BitswapWant { cid: Cid, query_id: QueryId },
}

pub enum NetworkEventView {
    PeerConnected(Seq<u8>),
    PeerDisconnected(Seq<u8>),
    Gossipsub(GossipsubEventView),
    RequestMessage { request_id: RequestId },
    BitswapHave { cid: Seq<u8>, query_id: QueryId },
    BitswapWant { cid: Seq<u8>, query_id: QueryId },
}

impl View for NetworkEvent {
    type V = NetworkEventView;

    open spec fn view(&self) -> NetworkEventView {
        match self {
            NetworkEvent::PeerConnected(peer) => NetworkEventView::PeerConnected(peer@),
            NetworkEvent::PeerDisconnected(peer) => NetworkEventView::PeerDisconnected(peer@),
            NetworkEvent::Gossipsub(event) => NetworkEventView::Gossipsub(event@),
            NetworkEvent::RequestMessage { request_id } => NetworkEventView::RequestMessage {
                request_id: *request_id,
            },
            NetworkEvent::BitswapHave { cid, query_id } => NetworkEventView::BitswapHave {
                cid: cid@,
                query_id: *query_id,
            },
            NetworkEvent::BitswapWant { cid, query_id } => NetworkEventView::BitswapWant {
                cid: cid@,
                query_id: *query_id,
            },
        }
    }
}

/// How a ping ended.
#[derive(Debug, Clone, Copy, PartialEq, Eq, Structural)]
pub enum PingResult {
    /// The peer answered after `rtt_millis`.
    Ping { rtt_millis: u64 },
    /// The node answered a ping of the peer.
    Pong,
    /// The ping failed for a reason of the transport.
    Other,
    /// The peer did not answer in time.
    Timeout,
    /// The peer does not speak the ping protocol.
    Unsupported,
}

#[derive(Debug, PartialEq, Eq)]
pub struct PingEvent {
    pub peer: PeerId,
    pub result: PingResult,
}

/// What a peer said of itself.
#[derive(Debug, PartialEq, Eq)]
pub enum IdentifyEvent {
    Received { peer_id: PeerId, protocols: Vec<Vec<u8>>, listen_addrs: Vec<Multiaddr> },
    Sent { peer_id: PeerId },
    Pushed { peer_id: PeerId },
    Error { peer_id: PeerId },
}

/// Whether the node can be reached from outside.
#[derive(Debug, PartialEq, Eq)]
pub enum NatStatus {
    Public(Multiaddr),
    Private,
    Unknown,
}

#[derive(Debug, PartialEq, Eq)]
pub enum AutonatEvent {
    StatusChanged { old: NatStatus, new: NatStatus },
    InboundProbe,
    OutboundProbe,
}

#[derive(Debug, Clone, Copy, PartialEq, Eq, Structural)]
pub enum BitswapEvent {
    /// A fetch goes on; so many blocks are still missing.
    Progress(QueryId, usize),
    /// A fetch ended, and the block was found or not.
    Complete(QueryId, bool),
}

/// What the gossip layer of the swarm reports.
#[derive(Debug, PartialEq, Eq)]
pub enum GossipsubInput {
    Message { propagation_source: PeerId, message_id: Vec<u8>, message: GossipMessage },
    Subscribed { peer_id: PeerId, topic: String },
    Unsubscribed { peer_id: PeerId, topic: String },
    GossipsubNotSupported { peer_id: PeerId },
}

#[derive(Debug, PartialEq, Eq)]
pub enum KademliaEvent {
    /// A bootstrap query reached `peer`; `num_remaining` peers are left.
    BootstrapOk { peer: PeerId, num_remaining: u32 },
    BootstrapFailed,
    /// Another outbound query made progress.
    QueryProgressed,
    Other,
}

#[derive(Debug, PartialEq, Eq)]
pub enum MdnsEvent {
    Discovered(Vec<(PeerId, Multiaddr)>),
    Expired(Vec<(PeerId, Multiaddr)>),
}

#[derive(Debug, PartialEq, Eq)]
pub enum RequestResponseEvent {
    /// A peer asks something of the node.
    Request { peer: PeerId, request_id: RequestId, request: UrsaExchangeRequest },
    /// A peer answered a request of the node.
    Response { peer: PeerId, request_id: RequestId, response: UrsaExchangeResponse },
    /// A request of the node could not be brought to its peer.
    OutboundFailure { peer: PeerId, request_id: RequestId },
    /// A request of a peer could not be answered.
    InboundFailure { peer: PeerId, request_id: RequestId },
    /// An answer of the node was sent.
    ResponseSent { peer: PeerId, request_id: RequestId },
}

#[derive(Debug, PartialEq, Eq)]
pub enum GraphSyncEvent {
    Completed { peer_id: PeerId, received: u64 },
    Progress,
}

/// What one of the protocols of the swarm reports.
#[derive(Debug, PartialEq, Eq)]
pub enum BehaviourEvent {
    Identify(IdentifyEvent),
    Autonat(AutonatEvent),
    Ping(PingEvent),
    Bitswap(BitswapEvent),
    Gossipsub(GossipsubInput),
    Mdns(MdnsEvent),
    Kad(KademliaEvent),
    RequestResponse(RequestResponseEvent),
    RelayServer,
    RelayClient,
    Dcutr,
    Graphsync(GraphSyncEvent),
}

/// What the swarm reports.
#[derive(Debug, PartialEq, Eq)]
pub enum SwarmEvent {
    Behaviour(BehaviourEvent),
    ConnectionEstablished { peer_id: PeerId },
    ConnectionClosed { peer_id: PeerId, num_established: u32 },
    /// Anything else: a new listen address, a failed dial, and the like.
    Other,
}

} // verus!

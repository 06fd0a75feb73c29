//! What the node decides to do: operations on the swarm, replies to local
//! callers and events for its subscribers. The event loop carries them out
//! in the order in which they are listed.

use vstd::prelude::*;

use crate::event::{NetworkEvent, NetworkEventView};
use crate::ident::{Cid, Multiaddr, PeerId};
use crate::protocol::{
    RequestView, ResponseView, Selector, UrsaExchangeRequest, UrsaExchangeResponse,
};
use crate::tables::RequestId;

verus! {

/// Why a block could not be had.
#[derive(Debug, PartialEq, Eq)]
pub enum NetworkError {
    /// No peer is connected, and the block is not in the local store.
    NoPeers,
    /// The fetch ended and no peer had the block.
    BlockNotFound { cid: Cid },
}

pub enum NetworkErrorView {
    NoPeers,
    BlockNotFound { cid: Seq<u8> },
}

impl View for NetworkError {
    type V = NetworkErrorView;

    open spec fn view(&self) -> NetworkErrorView {
        match self {
            NetworkError::NoPeers => NetworkErrorView::NoPeers,
            NetworkError::BlockNotFound { cid } => NetworkErrorView::BlockNotFound { cid: cid@ },
        }
    }
}

/// What a local caller is told.
#[derive(Debug, PartialEq, Eq)]
pub enum Reply {
    /// How a block fetch ended.
    Block(Result<(), NetworkError>),
    /// The block was announced.
    Put,
    /// The connected peers.
    Peers(Vec<PeerId>),
    /// The addresses on which the node can be reached.
    ListenerAddresses(Vec<Multiaddr>),
    /// What the peer answered.
    Response(UrsaExchangeResponse),
    /// How a dial ended: done, or the words of the failure.
    Dial(Result<(), String>),
}

pub enum ReplyView {
    Block(Result<(), NetworkErrorView>),
    Put,
    Peers(Seq<Seq<u8>>),
    ListenerAddresses(Seq<Seq<u8>>),
    Response(ResponseView),
    Dial(Result<(), Seq<char>>),
}

/// The byte strings that a sequence of addresses stands for.
pub open spec fn addr_views(addrs: Seq<Multiaddr>) -> Seq<Seq<u8>> {
    Seq::new(addrs.len(), |i: int| addrs[i]@)
}

impl View for Reply {
    type V = ReplyView;

    open spec fn view(&self) -> ReplyView {
        match self {
            Reply::Block(outcome) => ReplyView::Block(
                match outcome {
                    Ok(_) => Ok(()),
                    Err(e) => Err(e@),
                },
            ),
            Reply::Put => ReplyView::Put,
            Reply::Peers(peers) => ReplyView::Peers(crate::tables::peer_views(peers@)),
            Reply::ListenerAddresses(addrs) => ReplyView::ListenerAddresses(addr_views(addrs@)),
            Reply::Response(response) => ReplyView::Response(response@),
            Reply::Dial(outcome) => ReplyView::Dial(
                match outcome {
                    Ok(_) => Ok(()),
                    Err(words) => Err(words@),
                },
            ),
        }
    }
}

/// One thing for the event loop to do.
#[derive(Debug, PartialEq, Eq)]
pub enum Effect<R> {
    /// Dial an address. Where `required` holds, a failure ends the node;
    /// otherwise it is logged.
    Dial { address: Multiaddr, required: bool },
    /// Listen on an address. A failure ends the node.
    ListenOn { address: Multiaddr },
    /// Tell the routing table that a peer can be reached at an address.
    AddAddress { peer: PeerId, address: Multiaddr },
    /// Make a peer an explicit peer of the gossip layer.
    AddExplicitPeer { peer: PeerId },
    /// Start to fetch a block from the given peers, and report the query
    /// that the block exchange opened for it.
    SyncBlock { cid: Cid, peers: Vec<PeerId> },
    /// Send a request to a peer; nobody waits for the response.
    SendRequest { peer: PeerId, request: UrsaExchangeRequest },
    /// Send a request to a peer, and report under which identifier it went
    /// out, together with `channel`.
    SendTrackedRequest { peer: PeerId, request: UrsaExchangeRequest, channel: R },
    /// Answer the request of a peer.
    SendResponse { request_id: RequestId, response: UrsaExchangeResponse },
    /// Pull the graph under `root` from a peer.
    GraphsyncRequest { peer: PeerId, root: Vec<u8>, selector: Selector },
    /// Subscribe to a topic; a failure is logged.
    JoinTopic { topic: String },
    /// Subscribe to a topic and hand the outcome to `sender`.
    Subscribe { topic: String, sender: R },
    /// Unsubscribe from a topic and hand the outcome to `sender`.
    Unsubscribe { topic: String, sender: R },
    /// Publish on a topic and hand the outcome to `sender`.
    Publish { topic: String, data: Vec<u8>, sender: R },
    /// Ask the routing layer for the peers closest to a random identity.
    RandomWalk,
    /// Arm the timer of the random walk.
    ResetWalkTimer { secs: u64 },
    /// Empty the local cache.
    PurgeLocalCache,
    /// Tell a local caller. Where `required` holds and the caller is gone,
    /// the command has failed; otherwise a caller that is gone is ignored.
    Reply { to: R, value: Reply, required: bool },
    /// Publish an event on the event sink, without waiting.
    Emit(NetworkEvent),
}

pub enum EffectView<R> {
    Dial { address: Seq<u8>, required: bool },
    ListenOn { address: Seq<u8> },
    AddAddress { peer: Seq<u8>, address: Seq<u8> },
    AddExplicitPeer { peer: Seq<u8> },
    SyncBlock { cid: Seq<u8>, peers: Seq<Seq<u8>> },
    SendRequest { peer: Seq<u8>, request: RequestView },
    SendTrackedRequest { peer: Seq<u8>, request: RequestView, channel: R },
    SendResponse { request_id: RequestId, response: ResponseView },
    GraphsyncRequest { peer: Seq<u8>, root: Seq<u8>, selector: Selector },
    JoinTopic { topic: Seq<char> },
    Subscribe { topic: Seq<char>, sender: R },
    Unsubscribe { topic: Seq<char>, sender: R },
    Publish { topic: Seq<char>, data: Seq<u8>, sender: R },
    RandomWalk,
    ResetWalkTimer { secs: u64 },
    PurgeLocalCache,
    Reply { to: R, value: ReplyView, required: bool },
    Emit(NetworkEventView),
}

impl<R> View for Effect<R> {
    type V = EffectView<R>;

    open spec fn view(&self) -> EffectView<R> {
        match self {
            Effect::Dial { address, required } => EffectView::Dial {
                address: address@,
                required: *required,
            },
            Effect::ListenOn { address } => EffectView::ListenOn { address: address@ },
            Effect::AddAddress { peer, address } => EffectView::AddAddress {
                peer: peer@,
                address: address@,
            },
            Effect::AddExplicitPeer { peer } => EffectView::AddExplicitPeer { peer: peer@ },
            Effect::SyncBlock { cid, peers } => EffectView::SyncBlock {
                cid: cid@,
                peers: crate::tables::peer_views(peers@),
            },
            Effect::SendRequest { peer, request } => EffectView::SendRequest {
                peer: peer@,
                request: request@,
            },
            Effect::SendTrackedRequest { peer, request, channel } => EffectView::SendTrackedRequest {
                peer: peer@,
                request: request@,
                channel: *channel,
            },
            Effect::SendResponse { request_id, response } => EffectView::SendResponse {
                request_id: *request_id,
                response: response@,
            },
            Effect::GraphsyncRequest { peer, root, selector } => EffectView::GraphsyncRequest {
                peer: peer@,
                root: root@,
                selector: *selector,
            },
            Effect::JoinTopic { topic } => EffectView::JoinTopic { topic: topic@ },
            Effect::Subscribe { topic, sender } => EffectView::Subscribe {
                topic: topic@,
                sender: *sender,
            },
            Effect::Unsubscribe { topic, sender } => EffectView::Unsubscribe {
                topic: topic@,
                sender: *sender,
            },
            Effect::Publish { topic, data, sender } => EffectView::Publish {
                topic: topic@,
                data: data@,
                sender: *sender,
            },
            Effect::RandomWalk => EffectView::RandomWalk,
            Effect::ResetWalkTimer { secs } => EffectView::ResetWalkTimer { secs: *secs },
            Effect::PurgeLocalCache => EffectView::PurgeLocalCache,
            Effect::Reply { to, value, required } => EffectView::Reply {
                to: *to,
                value: value@,
                required: *required,
            },
            Effect::Emit(event) => EffectView::Emit(event@),
        }
    }
}

/// What a list of effects stands for, in its order.
pub open spec fn effect_views<R>(effects: Seq<Effect<R>>) -> Seq<EffectView<R>> {
    Seq::new(effects.len(), |i: int| effects[i]@)
}

/// Adding an effect to a list adds its view to the views.
pub proof fn lemma_effect_views_push<R>(effects: Seq<Effect<R>>, effect: Effect<R>)
    ensures
        effect_views(effects.push(effect)) == effect_views(effects).push(effect@),
{
    assert(effect_views(effects.push(effect)) =~= effect_views(effects).push(effect@));
}

} // verus!

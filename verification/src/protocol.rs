//! The messages that nodes exchange over the request/response protocol, and
//! the names under which the node's protocols are known.

use vstd::prelude::*;

use crate::ident::Cid;
use crate::summary::CacheSummary;

verus! {

/// The gossip topic that every node subscribes to when it starts.
pub const URSA_GLOBAL: &'static str = "/ursa/global";

/// The name of the request/response protocol.
pub const MESSAGE_PROTOCOL: &'static str = "/ursa/message/0.0.1";

/// The name of the node's routing protocol. A peer that lists it when it
/// identifies itself belongs to the same network.
pub const KAD_PROTOCOL: &'static str = "/ursa/kad/0.0.1";

/// What a peer asks of another.
#[derive(Debug, PartialEq, Eq)]
pub enum RequestType {
    /// Reserved: ask for an archive by name.
    CarRequest(Vec<u8>),
    /// Ask the peer to fetch and cache the content under `cid`.
    CacheRequest(Cid),
    /// Tell the peer what the sender holds.
    StoreSummary(CacheSummary),
}

/// A request as a mathematical value.
pub enum RequestView {
    CarRequest(Seq<u8>),
    CacheRequest(Seq<u8>),
    StoreSummary(Seq<bool>),
}

impl View for RequestType {
    type V = RequestView;

    open spec fn view(&self) -> RequestView {
        match self {
            RequestType::CarRequest(name) => RequestView::CarRequest(name@),
            RequestType::CacheRequest(cid) => RequestView::CacheRequest(cid@),
            RequestType::StoreSummary(summary) => RequestView::StoreSummary(summary@),
        }
    }
}

/// A request on the wire.
#[derive(Debug, PartialEq, Eq)]
pub struct UrsaExchangeRequest(pub RequestType);

impl View for UrsaExchangeRequest {
    type V = RequestView;

    open spec fn view(&self) -> RequestView {
        self.0@
    }
}

/// What a peer answers.
#[derive(Debug, PartialEq, Eq)]
pub enum ResponseType {
    /// Reserved: the archive that was asked for.
    CarResponse(Vec<u8>),
    /// The cache request was taken.
    CacheResponse,
    /// The summary was stored.
    StoreSummaryRequest,
}

/// A response as a mathematical value.
pub enum ResponseView {
    CarResponse(Seq<u8>),
    CacheResponse,
    StoreSummaryRequest,
}

impl View for ResponseType {
    type V = ResponseView;

    open spec fn view(&self) -> ResponseView {
        match self {
            ResponseType::CarResponse(data) => ResponseView::CarResponse(data@),
            ResponseType::CacheResponse => ResponseView::CacheResponse,
            ResponseType::StoreSummaryRequest => ResponseView::StoreSummaryRequest,
        }
    }
}

/// A response on the wire.
#[derive(Debug, PartialEq, Eq)]
pub struct UrsaExchangeResponse(pub ResponseType);

impl View for UrsaExchangeResponse {
    type V = ResponseView;

    open spec fn view(&self) -> ResponseView {
        self.0@
    }
}

/// How far a graph walk follows links below its root.
#[derive(Debug, Clone, Copy, PartialEq, Eq, Structural)]
pub enum RecursionLimit {
    Unlimited,
    Depth(u64),
}

/// Which part of a content graph a pull asks for.
#[derive(Debug, PartialEq, Eq)]
pub enum Selector {
    /// Walk `sequence` again at every edge that it marks, down to `limit`.
    ExploreRecursive { limit: RecursionLimit, sequence: Box<Selector> },
    /// Follow every link of a node, then go on with `next`.
    ExploreAll { next: Box<Selector> },
    /// The place at which the enclosing recursion starts over.
    ExploreRecursiveEdge,
}

/// The selector that covers a whole graph: every link, to any depth.
pub open spec fn whole_graph() -> Selector {
    Selector::ExploreRecursive {
        limit: RecursionLimit::Unlimited,
        sequence: Box::new(
            Selector::ExploreAll { next: Box::new(Selector::ExploreRecursiveEdge) },
        ),
    }
}

/// Builds the selector that covers a whole graph.
pub fn explore_all() -> (selector: Selector)
    ensures
        selector == whole_graph(),
{
    Selector::ExploreRecursive {
        limit: RecursionLimit::Unlimited,
        sequence: Box::new(
            Selector::ExploreAll { next: Box::new(Selector::ExploreRecursiveEdge) },
        ),
    }
}

} // verus!

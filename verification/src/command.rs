//! What the rest of the process asks of the node.

use vstd::prelude::*;

use crate::ident::{Cid, PeerId};
use crate::protocol::UrsaExchangeRequest;

verus! {

/// A request to the gossip layer. `sender` takes the outcome.
#[derive(Debug, PartialEq, Eq)]
pub enum GossipsubMessage<R> {
    /// Subscribe to a topic.
    Subscribe { peer_id: PeerId, topic: String, sender: R },
    /// Unsubscribe from a topic.
    Unsubscribe { peer_id: PeerId, topic: String, sender: R },
    /// Publish a message to a topic.
    Publish { topic: String, data: Vec<u8>, sender: R },
}

/// One command of the closed set that the node understands. `R` is the
/// handle on which a caller takes its reply.
#[derive(Debug, PartialEq, Eq)]
pub enum NetworkCommand<R> {
    /// Fetch a block from the peers.
    GetBitswap { cid: Cid, sender: R },
    /// Announce that a block was cached here, and have the peers cache it.
    Put { cid: Cid, sender: R },
    /// Report the connected peers.
    GetPeers { sender: R },
    /// Report the addresses on which the node can be reached.
    GetListenerAddresses { sender: R },
    /// Send a request to a peer and hand its response to `channel`.
    SendRequest { peer_id: PeerId, request: UrsaExchangeRequest, channel: R },
    /// Hand a request to the gossip layer.
    GossipsubMessage { peer_id: PeerId, message: GossipsubMessage<R> },
    /// Forget everything that was cached here.
    AdminPurgeCache,
}

} // verus!

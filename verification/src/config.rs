//! What the node is started with, and the limits that it puts on the swarm.

use vstd::prelude::*;

use crate::ident::Multiaddr;

verus! {

/// The settings of the node that the network service reads.
#[derive(Debug, PartialEq, Eq)]
pub struct NetworkConfig {
    /// Whether the node may listen through a relay when it is behind a NAT.
    pub relay_client: bool,
    /// Whether the node finds out if it can be reached from outside.
    pub autonat: bool,
    /// Seed addresses for discovery and relay.
    pub bootstrap_nodes: Vec<Multiaddr>,
    /// The addresses to listen on.
    pub swarm_addrs: Vec<Multiaddr>,
    /// Seconds between two random walks of the routing table.
    pub kad_walk_interval: u64,
}

impl NetworkConfig {
    /// A relay is of use only to a node that knows whether it is behind a
    /// NAT: without that knowledge the node goes on without relay.
    pub open spec fn relay_usable(&self) -> bool {
        self.relay_client && self.autonat
    }

    pub fn uses_relay(&self) -> (usable: bool)
        ensures
            usable == self.relay_usable(),
    {
        self.relay_client && self.autonat
    }

    /// Whether a relay was asked for that cannot be used.
    pub fn relay_misconfigured(&self) -> (wrong: bool)
        ensures
            wrong == (self.relay_client && !self.autonat),
    {
        self.relay_client && !self.autonat
    }
}

/// Ceilings on the connections of the swarm.
#[derive(Debug, Clone, Copy, PartialEq, Eq, Structural)]
pub struct ConnectionLimits {
    pub max_pending_incoming: u32,
    pub max_pending_outgoing: u32,
    pub max_established_incoming: u32,
    pub max_established_outgoing: u32,
    pub max_established_per_peer: u32,
}

/// Sizes of the queues of the swarm.
#[derive(Debug, Clone, Copy, PartialEq, Eq, Structural)]
pub struct SwarmSettings {
    pub notify_handler_buffer_size: usize,
    pub connection_event_buffer_size: usize,
    pub dial_concurrency_factor: u8,
}

/// The ceilings that the node applies.
pub fn connection_limits() -> (limits: ConnectionLimits)
    ensures
        limits == (ConnectionLimits {
            max_pending_incoming: 1024,
            max_pending_outgoing: 1024,
            max_established_incoming: 1024,
            max_established_outgoing: 1024,
            max_established_per_peer: 8,
        }),
{
    ConnectionLimits {
        max_pending_incoming: 1024,
        max_pending_outgoing: 1024,
        max_established_incoming: 1024,
        max_established_outgoing: 1024,
        max_established_per_peer: 8,
    }
}

/// The queue sizes that the node applies.
pub fn swarm_settings() -> (settings: SwarmSettings)
    ensures
        settings == (SwarmSettings {
            notify_handler_buffer_size: 256,
            connection_event_buffer_size: 256,
            dial_concurrency_factor: 8,
        }),
{
    SwarmSettings {
        notify_handler_buffer_size: 256,
        connection_event_buffer_size: 256,
        dial_concurrency_factor: 8,
    }
}

} // verus!

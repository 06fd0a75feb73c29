//! The network service: the state that the event loop owns, and what the
//! node does with each command and each event of the swarm.
//!
//! A handler never waits and never touches the swarm. It changes the tables
//! and returns the effects that the event loop is to carry out, in order.
//! Where an effect gives something back (the query that a fetch opened, the
//! identifier under which a request went out), the event loop hands it to
//! the handler that is named for it.

use rand::seq::SliceRandom;
use vstd::prelude::*;

use crate::command::{GossipsubMessage, NetworkCommand};
use crate::config::NetworkConfig;
use crate::effect::{addr_views, effect_views, Effect, NetworkError, Reply};
use crate::event::{
    AutonatEvent, BehaviourEvent, BitswapEvent, GossipsubEvent, GossipsubInput, GraphSyncEvent,
    IdentifyEvent, KademliaEvent, MdnsEvent, NatStatus, NetworkEvent, PingEvent,
    RequestResponseEvent, SwarmEvent,
};
use crate::ident::{bytes_equal, relay_circuit, Cid, Multiaddr, PeerId};
use crate::model;
use crate::model::{LoopError, LoopInput, ServiceView};
use crate::protocol::{
    explore_all, RequestType, ResponseType, UrsaExchangeRequest, UrsaExchangeResponse,
    KAD_PROTOCOL, URSA_GLOBAL,
};
use crate::queries::{BitswapQueries, QueryId};
use crate::summary::CacheSummary;
use crate::tables::{
    peer_views, BlockWaiters, PeerContentMap, PeerTable, PendingResponses, RequestId,
};

verus! {

/// A copy of a list of addresses.
pub fn copy_addresses(addrs: &Vec<Multiaddr>) -> (copy: Vec<Multiaddr>)
    ensures
        addr_views(copy@) == addr_views(addrs@),
{
    let mut copy: Vec<Multiaddr> = Vec::new();
    let mut i: usize = 0;
    while i < addrs.len()
        invariant
            i <= addrs.len(),
            copy@.len() == i,
            forall|n: int| 0 <= n < i ==> copy@[n]@ == addrs@[n]@,
        decreases addrs.len() - i,
    {
        copy.push(addrs[i].clone());
        i += 1;
    }
    assert(addr_views(copy@) =~= addr_views(addrs@));
    copy
}

/// The peers to fetch `cid` from: those believed to hold it, in the order of
/// the table, or all connected peers where none is believed to.
pub fn preferred_peers(peers: &PeerTable, content: &PeerContentMap, cid: &Cid) -> (chosen: Vec<
    PeerId,
>)
    requires
        peers.wf(),
        content.wf(),
    ensures
        peer_views(chosen@) == model::preferred_peers(peers@, content@, cid@),
{
    let mut believed: Vec<PeerId> = Vec::new();
    let n: usize = peers.len();
    let mut i: usize = 0;
    while i < n
        invariant
            peers.wf(),
            content.wf(),
            n == peers@.len(),
            i <= n,
            peer_views(believed@) == model::believed_holders(peers@, content@, cid@, i as int),
        decreases n - i,
    {
        let peer = peers.peer_at(i);
        let holds = match content.get(&peer) {
            Some(summary) => summary.contains(cid.as_bytes()),
            None => false,
        };
        let ghost before = believed@;
        if holds {
            believed.push(peer);
            assert(peer_views(believed@) =~= peer_views(before).push(peers@[i as int]));
        }
        i += 1;
    }
    if believed.len() == 0 {
        assert(peer_views(believed@).len() == 0);
        peers.snapshot()
    } else {
        believed
    }
}

/// The requests that announce `cid` to every connected peer: a cache
/// request to each, then the summary to each.
pub fn put_requests<R>(peers: &PeerTable, cid: &Cid, summary: &CacheSummary) -> (effects: Vec<
    Effect<R>,
>)
    requires
        peers.wf(),
    ensures
        effect_views(effects@) == model::put_requests::<R>(peers@, cid@, summary@),
{
    let mut effects: Vec<Effect<R>> = Vec::new();
    let n: usize = peers.len();
    let mut i: usize = 0;
    while i < n
        invariant
            peers.wf(),
            n == peers@.len(),
            i <= n,
            effects@.len() == i,
            forall|k: int|
                0 <= k < i ==> (#[trigger] effects@[k])@ == model::put_requests::<R>(
                    peers@,
                    cid@,
                    summary@,
                )[k],
        decreases n - i,
    {
        effects.push(
            Effect::SendRequest {
                peer: peers.peer_at(i),
                request: UrsaExchangeRequest(RequestType::CacheRequest(cid.clone())),
            },
        );
        i += 1;
    }
    let mut j: usize = 0;
    while j < n
        invariant
            peers.wf(),
            n == peers@.len(),
            j <= n,
            effects@.len() == n + j,
            forall|k: int|
                0 <= k < n + j ==> (#[trigger] effects@[k])@ == model::put_requests::<R>(
                    peers@,
                    cid@,
                    summary@,
                )[k],
        decreases n - j,
    {
        effects.push(
            Effect::SendRequest {
                peer: peers.peer_at(j),
                request: UrsaExchangeRequest(RequestType::StoreSummary(summary.clone())),
            },
        );
        j += 1;
    }
    assert(effect_views(effects@) =~= model::put_requests::<R>(peers@, cid@, summary@));
    effects
}

/// `rand::seq::SliceRandom::choose` with the generator of the thread: one
/// of the addresses, whichever chance gives, or `None` where there is none.
#[verifier::external_body]
fn choose_address(addrs: &Vec<Multiaddr>) -> (pick: Option<&Multiaddr>)
    ensures
        pick is None <==> addrs@.len() == 0,
        pick matches Some(addr) ==> exists|i: int| 0 <= i < addrs@.len() && addrs@[i] == *addr,
{
    addrs.as_slice().choose(&mut rand::thread_rng())
}

/// The address through the relay at `addr`, where the bytes of `addr` are
/// an address: they are followed by the code of the circuit protocol.
pub fn relay_address(addr: &Multiaddr) -> (circuit: Option<Multiaddr>)
    ensures
        picked_view(circuit) == crate::ident::circuit_address(addr@),
        circuit matches Some(c) ==> c@ == addr@ + seq![0xa2u8, 0x02u8],
{
    relay_circuit(addr)
}

/// Whether one of the protocol names is that of the node's routing protocol.
pub fn lists_kad_protocol(protocols: &Vec<Vec<u8>>) -> (listed: bool)
    ensures
        listed == model::same_network(protocols@),
{
    let mut i: usize = 0;
    while i < protocols.len()
        invariant
            i <= protocols.len(),
            forall|k: int| 0 <= k < i ==> (#[trigger] protocols@[k])@ != model::kad_protocol_bytes(),
        decreases protocols.len() - i,
    {
        if bytes_equal(protocols[i].as_slice(), KAD_PROTOCOL.as_bytes()) {
            return true;
        }
        i += 1;
    }
    false
}

/// The state that the event loop owns. `R` is the handle on which a local
/// caller takes its reply.
#[derive(Debug)]
pub struct UrsaService<R> {
    /// In-flight block fetches.
    bitswap_queries: BitswapQueries,
    /// Local callers that await a block.
    response_channels: BlockWaiters<R>,
    /// Local callers that await the response of a peer.
    pending_responses: PendingResponses<R>,
    /// Connected peers.
    peers: PeerTable,
    /// Seed addresses.
    bootstraps: Vec<Multiaddr>,
    /// Summarizes the cached content.
    cached_content: CacheSummary,
    /// Content summaries from other nodes.
    peer_cached_content: PeerContentMap,
    /// Interval for random walks of the routing table.
    kad_walk_interval: u64,
    /// The addresses that the node was told to listen on.
    listen_addrs: Vec<Multiaddr>,
    /// The address under which the node was seen from outside.
    public_address: Option<Multiaddr>,
    /// Whether the node may listen through a relay.
    relay_client: bool,
}

impl<R> View for UrsaService<R> {
    type V = ServiceView<R>;

    closed spec fn view(&self) -> ServiceView<R> {
        ServiceView {
            peers: self.peers@,
            peer_content: self.peer_cached_content@,
            queries: self.bitswap_queries@,
            waiters: self.response_channels@,
            pending: self.pending_responses@,
            bootstraps: addr_views(self.bootstraps@),
            summary: self.cached_content@,
            listen_addrs: addr_views(self.listen_addrs@),
            public_address: match self.public_address {
                Some(addr) => Some(addr@),
                None => None,
            },
            relay_client: self.relay_client,
            kad_walk_interval: self.kad_walk_interval,
        }
    }
}

impl<R> UrsaService<R> {
    /// The tables are in order.
    pub closed spec fn wf(&self) -> bool {
        &&& self.peers.wf()
        &&& self.peer_cached_content.wf()
        &&& self.response_channels.wf()
        &&& self.cached_content@.len() == crate::summary::SUMMARY_BITS
    }

    /// What holds of the state of every node: no peer stands twice among the
    /// connected ones, only a block that somebody waits for has an entry,
    /// and the summary has its full width.
    pub proof fn lemma_state(&self)
        requires
            self.wf(),
        ensures
            self@.peers.no_duplicates(),
            forall|cid: Seq<u8>| #[trigger]
                self@.waiters.contains_key(cid) ==> self@.waiters[cid].len() > 0,
            self@.summary.len() == crate::summary::SUMMARY_BITS,
    {
        self.peers.lemma_distinct();
        self.response_channels.lemma_entries_nonempty();
    }

    /// A node with empty tables, and what it is to do first: dial every
    /// seed, listen on every address, join the global topic.
    pub fn new(config: &NetworkConfig) -> (made: (UrsaService<R>, Vec<Effect<R>>))
        ensures
            made.0.wf(),
            made.0@ == model::initial::<R>(*config),
            effect_views(made.1@) == model::startup(made.0@),
    {
        let service = UrsaService {
            bitswap_queries: BitswapQueries::new(),
            response_channels: BlockWaiters::new(),
            pending_responses: PendingResponses::new(),
            peers: PeerTable::new(),
            bootstraps: copy_addresses(&config.bootstrap_nodes),
            cached_content: CacheSummary::new(),
            peer_cached_content: PeerContentMap::new(),
            kad_walk_interval: config.kad_walk_interval,
            listen_addrs: copy_addresses(&config.swarm_addrs),
            public_address: None,
            relay_client: config.uses_relay(),
        };
        let mut effects: Vec<Effect<R>> = Vec::new();
        let n: usize = service.bootstraps.len();
        let m: usize = service.listen_addrs.len();
        let mut i: usize = 0;
        while i < n
            invariant
                n == service.bootstraps@.len(),
                i <= n,
                effects@.len() == i,
                forall|k: int|
                    0 <= k < i ==> (#[trigger] effects@[k])@ == model::startup(service@)[k],
            decreases n - i,
        {
            effects.push(Effect::Dial { address: service.bootstraps[i].clone(), required: true });
            i += 1;
        }
        let mut j: usize = 0;
        while j < m
            invariant
                n == service.bootstraps@.len(),
                m == service.listen_addrs@.len(),
                j <= m,
                effects@.len() == n + j,
                forall|k: int|
                    0 <= k < n + j ==> (#[trigger] effects@[k])@ == model::startup(service@)[k],
            decreases m - j,
        {
            effects.push(Effect::ListenOn { address: service.listen_addrs[j].clone() });
            j += 1;
        }
        effects.push(Effect::JoinTopic { topic: URSA_GLOBAL.to_owned() });
        assert(effect_views(effects@) =~= model::startup(service@));
        (service, effects)
    }

    /// The connected peers, in the order in which they connected.
    pub fn peers(&self) -> (peers: Vec<PeerId>)
        requires
            self.wf(),
        ensures
            peer_views(peers@) == self@.peers,
    {
        self.peers.snapshot()
    }

    /// Whether the node answers yes when asked if it holds `cid`.
    pub fn holds(&self, cid: &Cid) -> (held: bool)
        requires
            self.wf(),
        ensures
            held == crate::summary::summary_holds(self@.summary, cid@),
    {
        self.cached_content.contains(cid.as_bytes())
    }

    /// What the node tells its peers that it holds.
    pub fn cached_content(&self) -> (summary: &CacheSummary)
        requires
            self.wf(),
        ensures
            summary@ == self@.summary,
    {
        &self.cached_content
    }

    /// What `peer` last said that it holds, if it said anything.
    pub fn peer_content(&self, peer: &PeerId) -> (summary: Option<&CacheSummary>)
        requires
            self.wf(),
        ensures
            summary is Some <==> self@.peer_content.contains_key(peer@),
            summary matches Some(s) ==> s@ == self@.peer_content[peer@],
    {
        self.peer_cached_content.get(peer)
    }

    /// Whether no block fetch is in flight.
    pub fn no_query_in_flight(&self) -> (idle: bool)
        ensures
            idle == (self@.queries == Map::<u64, Seq<u8>>::empty()),
    {
        self.bitswap_queries.is_empty()
    }

    /// Whether no caller waits for a block.
    pub fn no_block_waiter(&self) -> (idle: bool)
        requires
            self.wf(),
        ensures
            idle == (self@.waiters == Map::<Seq<u8>, Seq<R>>::empty()),
    {
        self.response_channels.is_empty()
    }

    /// Whether no caller waits for the response of a peer.
    pub fn no_pending_response(&self) -> (idle: bool)
        ensures
            idle == (self@.pending == Map::<u64, R>::empty()),
    {
        self.pending_responses.is_empty()
    }

    /// Handle commands
    pub fn handle_command(&mut self, command: NetworkCommand<R>) -> (effects: Vec<Effect<R>>)
        requires
            old(self).wf(),
        ensures
            final(self).wf(),
            (final(self)@, effect_views(effects@)) == model::handle_command(old(self)@, command),
    {
        let mut effects: Vec<Effect<R>> = Vec::new();
        match command {
            NetworkCommand::GetBitswap { cid, sender } => {
                if self.peers.is_empty() {
                    effects.push(
                        Effect::Reply {
                            to: sender,
                            value: Reply::Block(Err(NetworkError::NoPeers)),
                            required: false,
                        },
                    );
                    assert(effect_views(effects@) =~= model::get_bitswap(
                        old(self)@,
                        cid@,
                        sender,
                    ).1);
                } else {
                    let first = self.response_channels.insert(&cid, sender);
                    if first {
                        let peers = preferred_peers(&self.peers, &self.peer_cached_content, &cid);
                        effects.push(Effect::SyncBlock { cid, peers });
                    }
                    assert(effect_views(effects@) =~= model::get_bitswap(
                        old(self)@,
                        cid@,
                        sender,
                    ).1);
                }
            },
            NetworkCommand::Put { cid, sender } => {
                self.cached_content.insert(cid.as_bytes());
                effects = put_requests(&self.peers, &cid, &self.cached_content);
                effects.push(Effect::Reply { to: sender, value: Reply::Put, required: true });
                assert(effect_views(effects@) =~= model::put(old(self)@, cid@, sender).1);
            },
            NetworkCommand::GetPeers { sender } => {
                effects.push(
                    Effect::Reply {
                        to: sender,
                        value: Reply::Peers(self.peers.snapshot()),
                        required: false,
                    },
                );
                assert(effect_views(effects@) =~= model::handle_command(old(self)@, command).1);
            },
            NetworkCommand::GetListenerAddresses { sender } => {
                let mut addresses = copy_addresses(&self.listen_addrs);
                let ghost listed = addresses@;
                match &self.public_address {
                    Some(addr) => {
                        addresses.push(addr.clone());
                        assert(addr_views(addresses@) =~= addr_views(listed).push(addr@));
                    },
                    None => {},
                }
                effects.push(
                    Effect::Reply {
                        to: sender,
                        value: Reply::ListenerAddresses(addresses),
                        required: false,
                    },
                );
                assert(effect_views(effects@) =~= model::handle_command(old(self)@, command).1);
            },
            NetworkCommand::SendRequest { peer_id, request, channel } => {
                effects.push(Effect::SendTrackedRequest { peer: peer_id, request, channel });
                assert(effect_views(effects@) =~= model::handle_command(old(self)@, command).1);
            },
            NetworkCommand::GossipsubMessage { peer_id, message } => {
                match message {
                    GossipsubMessage::Subscribe { peer_id, topic, sender } => {
                        effects.push(Effect::Subscribe { topic, sender });
                    },
                    GossipsubMessage::Unsubscribe { peer_id, topic, sender } => {
                        effects.push(Effect::Unsubscribe { topic, sender });
                    },
                    GossipsubMessage::Publish { topic, data, sender } => {
                        effects.push(Effect::Publish { topic, data, sender });
                    },
                }
                assert(effect_views(effects@) =~= model::handle_command(old(self)@, command).1);
            },
            NetworkCommand::AdminPurgeCache => {
                self.cached_content.clear();
                effects.push(Effect::PurgeLocalCache);
                assert(effect_views(effects@) =~= model::handle_command(old(self)@, command).1);
            },
        }
        effects
    }

    /// The block exchange opened `query` for the fetch of `cid`, or could
    /// not open one: then the callers go on waiting.
    pub fn bitswap_started(&mut self, cid: Cid, query: Option<QueryId>) -> (effects: Vec<
        Effect<R>,
    >)
        requires
            old(self).wf(),
        ensures
            final(self).wf(),
            (final(self)@, effect_views(effects@)) == model::bitswap_started(
                old(self)@,
                cid@,
                query,
            ),
    {
        let mut effects: Vec<Effect<R>> = Vec::new();
        match query {
            Some(query_id) => {
                self.bitswap_queries.insert(query_id, cid.clone());
                effects.push(Effect::Emit(NetworkEvent::BitswapWant { cid, query_id }));
            },
            None => {},
        }
        assert(effect_views(effects@) =~= model::bitswap_started(old(self)@, cid@, query).1);
        effects
    }

    /// A tracked request went out under `request_id`: `channel` now awaits
    /// the response.
    pub fn request_sent(&mut self, request_id: RequestId, channel: R) -> (effects: Vec<Effect<R>>)
        requires
            old(self).wf(),
        ensures
            final(self).wf(),
            (final(self)@, effect_views(effects@)) == model::request_sent(
                old(self)@,
                request_id,
                channel,
            ),
    {
        let mut effects: Vec<Effect<R>> = Vec::new();
        self.pending_responses.insert(request_id, channel);
        effects.push(Effect::Emit(NetworkEvent::RequestMessage { request_id }));
        assert(effect_views(effects@) =~= model::request_sent(old(self)@, request_id, channel).1);
        effects
    }

    /// The block exchange reports on a fetch. When a fetch ends, its query is
    /// forgotten and every caller that waits for the block is told how it
    /// ended, first come first.
    pub fn handle_bitswap(&mut self, bitswap_event: BitswapEvent) -> (effects: Vec<Effect<R>>)
        requires
            old(self).wf(),
        ensures
            final(self).wf(),
            (final(self)@, effect_views(effects@)) == model::handle_bitswap(
                old(self)@,
                bitswap_event,
            ),
    {
        let mut effects: Vec<Effect<R>> = Vec::new();
        match bitswap_event {
            BitswapEvent::Progress(_, _) => {},
            BitswapEvent::Complete(query_id, found) => {
                if let Some(cid) = self.bitswap_queries.remove(query_id) {
                    if let Some(chans) = self.response_channels.remove(&cid) {
                        let ghost waiting = chans@;
                        for chan in callers: chans
                            invariant
                                callers.seq() == waiting,
                                effects@.len() == callers.index(),
                                forall|k: int|
                                    0 <= k < effects@.len() ==> (#[trigger] effects@[k])@
                                        == model::block_replies(waiting, cid@, found)[k],
                        {
                            let outcome = if found {
                                Ok(())
                            } else {
                                Err(NetworkError::BlockNotFound { cid: cid.clone() })
                            };
                            effects.push(
                                Effect::Reply {
                                    to: chan,
                                    value: Reply::Block(outcome),
                                    required: false,
                                },
                            );
                        }
                        assert(effect_views(effects@) =~= model::block_replies(
                            waiting,
                            cid@,
                            found,
                        ));
                    }
                }
            },
        }
        assert(effect_views(effects@) =~= model::handle_bitswap(old(self)@, bitswap_event).1);
        assert(self@.queries =~= model::handle_bitswap(old(self)@, bitswap_event).0.queries);
        assert(self@.waiters =~= model::handle_bitswap(old(self)@, bitswap_event).0.waiters);
        effects
    }

    /// A peer identified itself. One that speaks the routing protocol of the
    /// node becomes an explicit gossip peer, and each address that it listens
    /// on goes to the routing table.
    pub fn handle_identify(&mut self, identify_event: IdentifyEvent) -> (effects: Vec<Effect<R>>)
        requires
            old(self).wf(),
        ensures
            final(self).wf(),
            (final(self)@, effect_views(effects@)) == model::handle_identify(
                old(self)@,
                identify_event,
            ),
    {
        let mut effects: Vec<Effect<R>> = Vec::new();
        match &identify_event {
            IdentifyEvent::Received { peer_id, protocols, listen_addrs } => {
                if lists_kad_protocol(protocols) {
                    effects.push(Effect::AddExplicitPeer { peer: peer_id.clone() });
                    let n: usize = listen_addrs.len();
                    let mut i: usize = 0;
                    while i < n
                        invariant
                            n == listen_addrs@.len(),
                            i <= n,
                            effects@.len() == 1 + i,
                            model::same_network(protocols@),
                            identify_event == (IdentifyEvent::Received {
                                peer_id: *peer_id,
                                protocols: *protocols,
                                listen_addrs: *listen_addrs,
                            }),
                            forall|k: int|
                                0 <= k < 1 + i ==> (#[trigger] effects@[k])@
                                    == model::handle_identify(old(self)@, identify_event).1[k],
                        decreases n - i,
                    {
                        effects.push(
                            Effect::AddAddress {
                                peer: peer_id.clone(),
                                address: listen_addrs[i].clone(),
                            },
                        );
                        i += 1;
                    }
                }
            },
            _ => {},
        }
        assert(effect_views(effects@) =~= model::handle_identify(old(self)@, identify_event).1);
        effects
    }

    /// The reachability of the node changed, and `circuit` is the address
    /// through the relay that was picked, if there is one. The node
    /// remembers under which address it was seen, if it was. A node that
    /// learns that it is behind a NAT, and may use a relay, listens on
    /// `circuit`.
    pub fn autonat_with(&mut self, autonat_event: AutonatEvent, circuit: Option<Multiaddr>) -> (effects:
        Vec<Effect<R>>)
        requires
            old(self).wf(),
        ensures
            final(self).wf(),
            (final(self)@, effect_views(effects@)) == model::handle_autonat(
                old(self)@,
                autonat_event,
                picked_view(circuit),
            ),
    {
        let mut effects: Vec<Effect<R>> = Vec::new();
        match autonat_event {
            AutonatEvent::StatusChanged { old, new } => {
                let behind_nat = match (&old, &new) {
                    (NatStatus::Unknown, NatStatus::Private) => true,
                    _ => false,
                };
                if self.relay_client && behind_nat {
                    if let Some(circuit_addr) = circuit {
                        effects.push(Effect::ListenOn { address: circuit_addr });
                    }
                }
                self.public_address = match new {
                    NatStatus::Public(addr) => Some(addr),
                    _ => None,
                };
            },
            _ => {},
        }
        assert(effect_views(effects@) =~= model::handle_autonat(
            old(self)@,
            autonat_event,
            picked_view(circuit),
        ).1);
        effects
    }

    /// The reachability of the node changed. Where a relay is called for,
    /// one of the seed addresses is picked by chance.
    pub fn handle_autonat(&mut self, autonat_event: AutonatEvent) -> (effects: Vec<Effect<R>>)
        requires
            old(self).wf(),
        ensures
            final(self).wf(),
            exists|pick: Option<Seq<u8>>| #[trigger]
                model::pick_allowed(old(self)@.bootstraps, pick) && (
                    final(self)@,
                    effect_views(effects@),
                ) == model::handle_autonat(old(self)@, autonat_event, model::relay_of(pick)),
    {
        let relay_called_for = self.relay_client && match &autonat_event {
            AutonatEvent::StatusChanged { old: NatStatus::Unknown, new: NatStatus::Private } => true,
            _ => false,
        };
        if relay_called_for {
            let pick: Option<Multiaddr> = self.pick_bootstrap();
            let circuit: Option<Multiaddr> = match &pick {
                Some(addr) => relay_address(addr),
                None => None,
            };
            assert(picked_view(circuit) == model::relay_of(picked_view(pick)));
            let effects = self.autonat_with(autonat_event, circuit);
            assert(model::pick_allowed(old(self)@.bootstraps, picked_view(pick)));
            effects
        } else {
            let ghost any = some_pick(self@.bootstraps);
            let effects = self.autonat_with(autonat_event, None);
            assert(model::pick_allowed(old(self)@.bootstraps, any));
            assert((self@, effect_views(effects@)) == model::handle_autonat(
                old(self)@,
                autonat_event,
                model::relay_of(any),
            ));
            effects
        }
    }

    /// One of the seed addresses, picked by chance.
    fn pick_bootstrap(&self) -> (pick: Option<Multiaddr>)
        ensures
            model::pick_allowed(self@.bootstraps, picked_view(pick)),
    {
        let pick: Option<Multiaddr> = match choose_address(&self.bootstraps) {
            Some(addr) => Some(addr.clone()),
            None => None,
        };
        proof {
            if pick is Some {
                let i = choose|i: int|
                    0 <= i < self.bootstraps@.len() && self.bootstraps@[i]@ == pick->0@;
                assert(addr_views(self.bootstraps@)[i] == pick->0@);
            }
        }
        pick
    }

    /// The gossip layer reports: messages and changes of subscription go on
    /// to the subscribers of the node.
    pub fn handle_gossip(&mut self, gossip_event: GossipsubInput) -> (effects: Vec<Effect<R>>)
        requires
            old(self).wf(),
        ensures
            final(self).wf(),
            (final(self)@, effect_views(effects@)) == model::handle_gossip(
                old(self)@,
                gossip_event,
            ),
    {
        let mut effects: Vec<Effect<R>> = Vec::new();
        match gossip_event {
            GossipsubInput::Message { propagation_source, message_id, message } => {
                effects.push(
                    Effect::Emit(
                        NetworkEvent::Gossipsub(
                            GossipsubEvent::Message {
                                peer_id: propagation_source,
                                message_id,
                                message,
                            },
                        ),
                    ),
                );
            },
            GossipsubInput::Subscribed { peer_id, topic } => {
                effects.push(
                    Effect::Emit(
                        NetworkEvent::Gossipsub(GossipsubEvent::Subscribed { peer_id, topic }),
                    ),
                );
            },
            GossipsubInput::Unsubscribed { peer_id, topic } => {
                effects.push(
                    Effect::Emit(
                        NetworkEvent::Gossipsub(GossipsubEvent::Unsubscribed { peer_id, topic }),
                    ),
                );
            },
            GossipsubInput::GossipsubNotSupported { .. } => {},
        }
        assert(effect_views(effects@) =~= model::handle_gossip(old(self)@, gossip_event).1);
        effects
    }

    /// The routing layer reports. Nothing changes.
    pub fn handle_kad(&mut self, event: KademliaEvent) -> (effects: Vec<Effect<R>>)
        requires
            old(self).wf(),
        ensures
            final(self).wf(),
            final(self)@ == old(self)@,
            effects@.len() == 0,
    {
        Vec::new()
    }

    /// A ping ended. Nothing changes.
    pub fn handle_ping(&mut self, ping_event: PingEvent) -> (effects: Vec<Effect<R>>)
        requires
            old(self).wf(),
        ensures
            final(self).wf(),
            final(self)@ == old(self)@,
            effects@.len() == 0,
    {
        Vec::new()
    }

    /// A graph pull made progress or ended. Nothing changes.
    pub fn handle_graphsync(&mut self, event: GraphSyncEvent) -> (effects: Vec<Effect<R>>)
        requires
            old(self).wf(),
        ensures
            final(self).wf(),
            final(self)@ == old(self)@,
            effects@.len() == 0,
    {
        Vec::new()
    }

    /// Peers were found on the local network. Each address goes to the
    /// routing table; a peer that was not known is taken for connected and
    /// dialed.
    pub fn handle_mdns(&mut self, event: MdnsEvent) -> (effects: Vec<Effect<R>>)
        requires
            old(self).wf(),
        ensures
            final(self).wf(),
            (final(self)@, effect_views(effects@)) == model::handle_mdns(old(self)@, event),
    {
        let mut effects: Vec<Effect<R>> = Vec::new();
        match &event {
            MdnsEvent::Discovered(discovered_peers) => {
                let n: usize = discovered_peers.len();
                let mut i: usize = 0;
                assert(effect_views(effects@) =~= Seq::empty());
                while i < n
                    invariant
                        n == discovered_peers@.len(),
                        i <= n,
                        self.wf(),
                        self@ == (ServiceView { peers: self@.peers, ..old(self)@ }),
                        (self@.peers, effect_views(effects@)) == model::discovered::<R>(
                            old(self)@.peers,
                            discovered_peers@,
                            i as int,
                        ),
                    decreases n - i,
                {
                    let ghost before = effects@;
                    let peer_id = &discovered_peers[i].0;
                    let address = &discovered_peers[i].1;
                    effects.push(
                        Effect::AddAddress { peer: peer_id.clone(), address: address.clone() },
                    );
                    let ghost added = effects@;
                    if self.peers.insert(peer_id) {
                        effects.push(Effect::Dial { address: address.clone(), required: false });
                    }
                    proof {
                        crate::effect::lemma_effect_views_push(before, added.last());
                        assert(added =~= before.push(added.last()));
                        if effects@.len() > added.len() {
                            crate::effect::lemma_effect_views_push(added, effects@.last());
                            assert(effects@ =~= added.push(effects@.last()));
                        }
                    }
                    i += 1;
                }
            },
            MdnsEvent::Expired(_) => {
                assert(effect_views(effects@) =~= Seq::empty());
            },
        }
        effects
    }

    /// The request/response layer reports. A request of a peer is answered:
    /// a cache request starts a pull of the whole graph from that peer, a
    /// summary is stored as what that peer holds. A response goes to the
    /// caller that awaits it. A request that could not be sent is forgotten,
    /// and its caller with it.
    pub fn handle_req_res(&mut self, req_res_event: RequestResponseEvent) -> (effects: Vec<
        Effect<R>,
    >)
        requires
            old(self).wf(),
        ensures
            final(self).wf(),
            (final(self)@, effect_views(effects@)) == model::handle_req_res(
                old(self)@,
                req_res_event,
            ),
    {
        let mut effects: Vec<Effect<R>> = Vec::new();
        match req_res_event {
            RequestResponseEvent::Request { peer, request_id, request } => {
                match request.0 {
                    RequestType::CarRequest(_) => {},
                    RequestType::CacheRequest(cid) => {
                        effects.push(
                            Effect::GraphsyncRequest {
                                peer,
                                root: cid.to_bytes(),
                                selector: explore_all(),
                            },
                        );
                        effects.push(
                            Effect::SendResponse {
                                request_id,
                                response: UrsaExchangeResponse(ResponseType::CacheResponse),
                            },
                        );
                    },
                    RequestType::StoreSummary(cache_summary) => {
                        self.peer_cached_content.insert(&peer, cache_summary);
                        effects.push(
                            Effect::SendResponse {
                                request_id,
                                response: UrsaExchangeResponse(ResponseType::StoreSummaryRequest),
                            },
                        );
                    },
                }
                effects.push(Effect::Emit(NetworkEvent::RequestMessage { request_id }));
            },
            RequestResponseEvent::Response { peer, request_id, response } => {
                if let Some(request) = self.pending_responses.remove(request_id) {
                    effects.push(
                        Effect::Reply {
                            to: request,
                            value: Reply::Response(response),
                            required: false,
                        },
                    );
                }
            },
            RequestResponseEvent::OutboundFailure { peer, request_id } => {
                self.pending_responses.remove(request_id);
            },
            _ => {},
        }
        assert(effect_views(effects@) =~= model::handle_req_res(old(self)@, req_res_event).1);
        assert(self@.pending =~= model::handle_req_res(old(self)@, req_res_event).0.pending);
        effects
    }

    /// Handle swarm events, with `circuit` as the address through the relay
    /// that was picked, for the case that a relay is called for.
    pub fn swarm_event_with(&mut self, event: SwarmEvent, circuit: Option<Multiaddr>) -> (effects:
        Vec<Effect<R>>)
        requires
            old(self).wf(),
        ensures
            final(self).wf(),
            (final(self)@, effect_views(effects@)) == model::handle_swarm_event(
                old(self)@,
                event,
                picked_view(circuit),
            ),
    {
        match event {
            SwarmEvent::Behaviour(event) => match event {
                BehaviourEvent::Identify(identify_event) => self.handle_identify(identify_event),
                BehaviourEvent::Autonat(autonat_event) => self.autonat_with(autonat_event, circuit),
                BehaviourEvent::Ping(ping_event) => self.handle_ping(ping_event),
                BehaviourEvent::Bitswap(bitswap_event) => self.handle_bitswap(bitswap_event),
                BehaviourEvent::Gossipsub(gossip_event) => self.handle_gossip(gossip_event),
                BehaviourEvent::Mdns(mdns_event) => self.handle_mdns(mdns_event),
                BehaviourEvent::Kad(kad_event) => self.handle_kad(kad_event),
                BehaviourEvent::RequestResponse(req_res_event) => self.handle_req_res(
                    req_res_event,
                ),
                BehaviourEvent::RelayServer => Vec::new(),
                BehaviourEvent::RelayClient => Vec::new(),
                BehaviourEvent::Dcutr => Vec::new(),
                BehaviourEvent::Graphsync(event) => self.handle_graphsync(event),
            },
            SwarmEvent::ConnectionEstablished { peer_id } => {
                let mut effects: Vec<Effect<R>> = Vec::new();
                if self.peers.insert(&peer_id) {
                    effects.push(Effect::Emit(NetworkEvent::PeerConnected(peer_id)));
                }
                assert(effect_views(effects@) =~= model::connection_established(
                    old(self)@,
                    peer_id@,
                ).1);
                effects
            },
            SwarmEvent::ConnectionClosed { peer_id, num_established } => {
                let mut effects: Vec<Effect<R>> = Vec::new();
                if num_established == 0 && self.peers.remove(&peer_id) {
                    self.peer_cached_content.remove(&peer_id);
                    effects.push(Effect::Emit(NetworkEvent::PeerDisconnected(peer_id)));
                }
                assert(effect_views(effects@) =~= model::connection_closed(
                    old(self)@,
                    peer_id@,
                    num_established,
                ).1);
                effects
            },
            SwarmEvent::Other => Vec::new(),
        }
    }

    /// Handle swarm events
    pub fn handle_swarm_event(&mut self, event: SwarmEvent) -> (effects: Vec<Effect<R>>)
        requires
            old(self).wf(),
        ensures
            final(self).wf(),
            exists|pick: Option<Seq<u8>>| #[trigger]
                model::pick_allowed(old(self)@.bootstraps, pick) && (
                    final(self)@,
                    effect_views(effects@),
                ) == model::handle_swarm_event(old(self)@, event, model::relay_of(pick)),
    {
        let relay_called_for = self.relay_client && match &event {
            SwarmEvent::Behaviour(
                BehaviourEvent::Autonat(
                    AutonatEvent::StatusChanged { old: NatStatus::Unknown, new: NatStatus::Private },
                ),
            ) => true,
            _ => false,
        };
        if relay_called_for {
            let pick: Option<Multiaddr> = self.pick_bootstrap();
            let circuit: Option<Multiaddr> = match &pick {
                Some(addr) => relay_address(addr),
                None => None,
            };
            assert(picked_view(circuit) == model::relay_of(picked_view(pick)));
            let effects = self.swarm_event_with(event, circuit);
            assert(model::pick_allowed(old(self)@.bootstraps, picked_view(pick)));
            effects
        } else {
            let ghost any = some_pick(self@.bootstraps);
            let effects = self.swarm_event_with(event, None);
            assert(model::pick_allowed(old(self)@.bootstraps, any));
            assert((self@, effect_views(effects@)) == model::handle_swarm_event(
                old(self)@,
                event,
                model::relay_of(any),
            ));
            effects
        }
    }

    /// Dial remote peer `peer_id` at `address`: `dialed` is how the dial
    /// ended.
    pub fn dial(
        &mut self,
        peer_id: PeerId,
        address: Multiaddr,
        response: R,
        dialed: Result<(), String>,
    ) -> (effects: Vec<Effect<R>>)
        requires
            old(self).wf(),
        ensures
            final(self).wf(),
            (final(self)@, effect_views(effects@)) == model::dial(
                old(self)@,
                peer_id@,
                address@,
                response,
                match dialed {
                    Ok(_) => Ok(()),
                    Err(words) => Err(words@),
                },
            ),
    {
        let mut effects: Vec<Effect<R>> = Vec::new();
        match dialed {
            Ok(_) => {
                effects.push(Effect::AddAddress { peer: peer_id, address });
                effects.push(
                    Effect::Reply { to: response, value: Reply::Dial(Ok(())), required: true },
                );
            },
            Err(err) => {
                effects.push(
                    Effect::Reply { to: response, value: Reply::Dial(Err(err)), required: true },
                );
            },
        }
        assert(effect_views(effects@) =~= model::dial(
            old(self)@,
            peer_id@,
            address@,
            response,
            match dialed {
                Ok(_) => Ok(()),
                Err(words) => Err(words@),
            },
        ).1);
        effects
    }

    /// The timer of the random walk fired: walk, and arm the timer again.
    pub fn walk_timer(&mut self) -> (effects: Vec<Effect<R>>)
        requires
            old(self).wf(),
        ensures
            final(self).wf(),
            (final(self)@, effect_views(effects@)) == model::walk_timer(old(self)@),
    {
        let mut effects: Vec<Effect<R>> = Vec::new();
        effects.push(Effect::RandomWalk);
        effects.push(Effect::ResetWalkTimer { secs: self.kad_walk_interval });
        assert(effect_views(effects@) =~= model::walk_timer(old(self)@).1);
        effects
    }

    /// One turn of the event loop: whichever of the swarm, the command
    /// channel and the timer was ready is processed, and the loop ends when
    /// the swarm or the command channel has nothing more to give.
    pub fn turn(&mut self, input: LoopInput<R>) -> (outcome: Result<Vec<Effect<R>>, LoopError>)
        requires
            old(self).wf(),
        ensures
            final(self).wf(),
            exists|pick: Option<Seq<u8>>| #[trigger]
                model::pick_allowed(old(self)@.bootstraps, pick) && match model::turn(
                    old(self)@,
                    input,
                    model::relay_of(pick),
                ) {
                    Ok(step) => outcome matches Ok(effects) && (
                        final(self)@,
                        effect_views(effects@),
                    ) == step,
                    Err(e) => outcome == Err::<Vec<Effect<R>>, LoopError>(e) && final(self)@ == old(
                        self,
                    )@,
                },
    {
        let ghost any: Option<Seq<u8>> = some_pick(self@.bootstraps);
        match input {
            LoopInput::Swarm(Some(event)) => {
                let effects = self.handle_swarm_event(event);
                proof {
                    let pick = choose|pick: Option<Seq<u8>>| #[trigger]
                        model::pick_allowed(old(self)@.bootstraps, pick) && (
                            self@,
                            effect_views(effects@),
                        ) == model::handle_swarm_event(old(self)@, event, model::relay_of(pick));
                    assert(model::turn(old(self)@, input, model::relay_of(pick)) == Ok::<
                        model::Step<R>,
                        LoopError,
                    >((self@, effect_views(effects@))));
                }
                Ok(effects)
            },
            LoopInput::Swarm(None) => {
                assert(model::pick_allowed(old(self)@.bootstraps, any));
                assert(model::turn(old(self)@, input, model::relay_of(any)) is Err);
                Err(LoopError::SwarmClosed)
            },
            LoopInput::Command(Some(command)) => {
                let effects = self.handle_command(command);
                assert(model::pick_allowed(old(self)@.bootstraps, any));
                assert(model::turn(old(self)@, input, model::relay_of(any)) == Ok::<
                    model::Step<R>,
                    LoopError,
                >((self@, effect_views(effects@))));
                Ok(effects)
            },
            LoopInput::Command(None) => {
                assert(model::pick_allowed(old(self)@.bootstraps, any));
                assert(model::turn(old(self)@, input, model::relay_of(any)) is Err);
                Err(LoopError::CommandsClosed)
            },
            LoopInput::WalkTimer => {
                let effects = self.walk_timer();
                assert(model::pick_allowed(old(self)@.bootstraps, any));
                assert(model::turn(old(self)@, input, model::relay_of(any)) == Ok::<
                    model::Step<R>,
                    LoopError,
                >((self@, effect_views(effects@))));
                Ok(effects)
            },
        }
    }
}

/// The bytes of the address that was picked, if one was.
pub open spec fn picked_view(pick: Option<Multiaddr>) -> Option<Seq<u8>> {
    match pick {
        Some(addr) => Some(addr@),
        None => None,
    }
}

/// A pick that chance may give: the first seed address, or none where
/// there is none.
pub open spec fn some_pick(bootstraps: Seq<Seq<u8>>) -> Option<Seq<u8>> {
    if bootstraps.len() == 0 {
        None
    } else {
        Some(bootstraps[0])
    }
}

} // verus!

use ursa_node::command::{GossipsubMessage, NetworkCommand};
use ursa_node::config::{connection_limits, swarm_settings, NetworkConfig};
use ursa_node::effect::{Effect, NetworkError, Reply};
use ursa_node::event::{
    AutonatEvent, BehaviourEvent, BitswapEvent, GossipMessage, GossipsubEvent, GossipsubInput,
    GraphSyncEvent, IdentifyEvent, KademliaEvent, MdnsEvent, NatStatus, NetworkEvent, PingEvent,
    PingResult, RequestResponseEvent, SwarmEvent,
};
use ursa_node::ident::{Cid, Multiaddr, PeerId};
use ursa_node::model::{LoopError, LoopInput};
use ursa_node::protocol::{
    explore_all, RecursionLimit, RequestType, ResponseType, Selector, UrsaExchangeRequest,
    UrsaExchangeResponse, KAD_PROTOCOL, MESSAGE_PROTOCOL, URSA_GLOBAL,
};
use ursa_node::service::{relay_address, UrsaService};
use ursa_node::summary::CacheSummary;

fn peer(name: &str) -> PeerId {
    PeerId::from_bytes(name.as_bytes().to_vec())
}

fn cid(name: &str) -> Cid {
    Cid::from_bytes(name.as_bytes().to_vec())
}

fn addr(text: &str) -> Multiaddr {
    let parsed: libp2p::Multiaddr = text.parse().expect("a multiaddr");
    Multiaddr::from_bytes(parsed.to_vec())
}

fn config(bootstraps: Vec<Multiaddr>, listen: Vec<Multiaddr>) -> NetworkConfig {
    NetworkConfig {
        relay_client: true,
        autonat: true,
        bootstrap_nodes: bootstraps,
        swarm_addrs: listen,
        kad_walk_interval: 30,
    }
}

fn node() -> UrsaService<u32> {
    UrsaService::new(&config(vec![], vec![])).0
}

fn connect(service: &mut UrsaService<u32>, name: &str) -> Vec<Effect<u32>> {
    service.handle_swarm_event(SwarmEvent::ConnectionEstablished { peer_id: peer(name) })
}

fn summary_request(from: &str, id: u64, held: &[&str]) -> SwarmEvent {
    let mut summary = CacheSummary::new();
    for name in held {
        summary.insert(name.as_bytes());
    }
    SwarmEvent::Behaviour(BehaviourEvent::RequestResponse(RequestResponseEvent::Request {
        peer: peer(from),
        request_id: id,
        request: UrsaExchangeRequest(RequestType::StoreSummary(summary)),
    }))
}

#[test]
fn startup_dials_listens_and_joins_the_global_topic() {
    let boot = addr("/ip4/10.0.0.1/tcp/6009");
    let listen_one = addr("/ip4/0.0.0.0/tcp/6009");
    let listen_two = addr("/ip4/0.0.0.0/udp/4890");
    let (service, effects) = UrsaService::<u32>::new(&config(
        vec![boot.clone()],
        vec![listen_one.clone(), listen_two.clone()],
    ));
    assert_eq!(
        effects,
        vec![
            Effect::Dial { address: boot, required: true },
            Effect::ListenOn { address: listen_one },
            Effect::ListenOn { address: listen_two },
            Effect::JoinTopic { topic: "/ursa/global".to_string() },
        ]
    );
    assert!(service.peers().is_empty());
    assert!(service.no_query_in_flight());
    assert!(service.no_block_waiter());
    assert!(service.no_pending_response());
    assert!(!service.holds(&cid("any")));
}

#[test]
fn protocol_names() {
    assert_eq!(URSA_GLOBAL, "/ursa/global");
    assert_eq!(MESSAGE_PROTOCOL, "/ursa/message/0.0.1");
    assert_eq!(KAD_PROTOCOL, "/ursa/kad/0.0.1");
}

#[test]
fn limits_of_the_swarm() {
    let limits = connection_limits();
    assert_eq!(limits.max_pending_incoming, 1024);
    assert_eq!(limits.max_pending_outgoing, 1024);
    assert_eq!(limits.max_established_incoming, 1024);
    assert_eq!(limits.max_established_outgoing, 1024);
    assert_eq!(limits.max_established_per_peer, 8);
    let settings = swarm_settings();
    assert_eq!(settings.notify_handler_buffer_size, 256);
    assert_eq!(settings.connection_event_buffer_size, 256);
    assert_eq!(settings.dial_concurrency_factor, 8);
}

#[test]
fn relay_needs_autonat() {
    let mut settings = config(vec![], vec![]);
    assert!(settings.uses_relay());
    assert!(!settings.relay_misconfigured());
    settings.autonat = false;
    assert!(!settings.uses_relay());
    assert!(settings.relay_misconfigured());
    settings.relay_client = false;
    assert!(!settings.uses_relay());
    assert!(!settings.relay_misconfigured());
}

#[test]
fn block_fetch_without_peers_fails_and_changes_nothing() {
    let mut service = node();
    let effects = service.handle_command(NetworkCommand::GetBitswap { cid: cid("y"), sender: 1 });
    assert_eq!(
        effects,
        vec![Effect::Reply {
            to: 1,
            value: Reply::Block(Err(NetworkError::NoPeers)),
            required: false
        }]
    );
    assert!(service.no_block_waiter());
    assert!(service.no_query_in_flight());
}

#[test]
fn block_fetch_prefers_the_peer_that_advertises_the_block() {
    let mut service = node();
    connect(&mut service, "a");
    connect(&mut service, "b");
    connect(&mut service, "c");
    service.handle_swarm_event(summary_request("b", 1, &["x"]));
    service.handle_swarm_event(summary_request("c", 2, &["other"]));

    let effects = service.handle_command(NetworkCommand::GetBitswap { cid: cid("x"), sender: 5 });
    assert_eq!(effects, vec![Effect::SyncBlock { cid: cid("x"), peers: vec![peer("b")] }]);

    let started = service.bitswap_started(cid("x"), Some(77));
    assert_eq!(
        started,
        vec![Effect::Emit(NetworkEvent::BitswapWant { cid: cid("x"), query_id: 77 })]
    );
    assert!(!service.no_query_in_flight());

    let done = service.handle_swarm_event(SwarmEvent::Behaviour(BehaviourEvent::Bitswap(
        BitswapEvent::Complete(77, true),
    )));
    assert_eq!(done, vec![Effect::Reply { to: 5, value: Reply::Block(Ok(())), required: false }]);
    assert!(service.no_query_in_flight());
    assert!(service.no_block_waiter());
}

#[test]
fn block_fetch_falls_back_to_all_peers() {
    let mut service = node();
    connect(&mut service, "a");
    connect(&mut service, "b");
    service.handle_swarm_event(summary_request("b", 1, &["other"]));
    let effects = service.handle_command(NetworkCommand::GetBitswap { cid: cid("x"), sender: 5 });
    assert_eq!(
        effects,
        vec![Effect::SyncBlock { cid: cid("x"), peers: vec![peer("a"), peer("b")] }]
    );
}

#[test]
fn coalesced_fetch_starts_one_query_and_answers_all() {
    let mut service = node();
    connect(&mut service, "b");
    let first = service.handle_command(NetworkCommand::GetBitswap { cid: cid("z"), sender: 1 });
    let second = service.handle_command(NetworkCommand::GetBitswap { cid: cid("z"), sender: 2 });
    let third = service.handle_command(NetworkCommand::GetBitswap { cid: cid("z"), sender: 3 });
    assert_eq!(first, vec![Effect::SyncBlock { cid: cid("z"), peers: vec![peer("b")] }]);
    assert!(second.is_empty());
    assert!(third.is_empty());

    service.bitswap_started(cid("z"), Some(4));
    let done = service.handle_bitswap(BitswapEvent::Complete(4, true));
    assert_eq!(
        done,
        vec![
            Effect::Reply { to: 1, value: Reply::Block(Ok(())), required: false },
            Effect::Reply { to: 2, value: Reply::Block(Ok(())), required: false },
            Effect::Reply { to: 3, value: Reply::Block(Ok(())), required: false },
        ]
    );
    assert!(service.no_block_waiter());
    assert!(service.no_query_in_flight());
}

#[test]
fn failed_fetch_tells_every_waiter_that_the_block_was_not_found() {
    let mut service = node();
    connect(&mut service, "b");
    service.handle_command(NetworkCommand::GetBitswap { cid: cid("z"), sender: 1 });
    service.handle_command(NetworkCommand::GetBitswap { cid: cid("z"), sender: 2 });
    service.bitswap_started(cid("z"), Some(4));
    let done = service.handle_bitswap(BitswapEvent::Complete(4, false));
    let not_found = || Reply::Block(Err(NetworkError::BlockNotFound { cid: cid("z") }));
    assert_eq!(
        done,
        vec![
            Effect::Reply { to: 1, value: not_found(), required: false },
            Effect::Reply { to: 2, value: not_found(), required: false },
        ]
    );
}

#[test]
fn a_query_completes_once() {
    let mut service = node();
    connect(&mut service, "b");
    service.handle_command(NetworkCommand::GetBitswap { cid: cid("z"), sender: 1 });
    service.bitswap_started(cid("z"), Some(4));
    assert_eq!(service.handle_bitswap(BitswapEvent::Complete(4, true)).len(), 1);
    assert!(service.handle_bitswap(BitswapEvent::Complete(4, true)).is_empty());
    assert!(service.handle_bitswap(BitswapEvent::Complete(5, true)).is_empty());
    assert!(service.handle_bitswap(BitswapEvent::Progress(4, 3)).is_empty());
}

#[test]
fn a_fetch_that_could_not_start_leaves_the_waiter() {
    let mut service = node();
    connect(&mut service, "b");
    service.handle_command(NetworkCommand::GetBitswap { cid: cid("z"), sender: 1 });
    assert!(service.bitswap_started(cid("z"), None).is_empty());
    assert!(service.no_query_in_flight());
    assert!(!service.no_block_waiter());
}

#[test]
fn put_asks_every_peer_to_cache_then_shares_the_summary() {
    let mut service = node();
    connect(&mut service, "a");
    connect(&mut service, "b");
    let effects = service.handle_command(NetworkCommand::Put { cid: cid("x"), sender: 9 });
    let mut summary = CacheSummary::new();
    summary.insert(b"x");
    let cache = |p: &str| Effect::SendRequest {
        peer: peer(p),
        request: UrsaExchangeRequest(RequestType::CacheRequest(cid("x"))),
    };
    let share = |p: &str| Effect::SendRequest {
        peer: peer(p),
        request: UrsaExchangeRequest(RequestType::StoreSummary(summary.clone())),
    };
    assert_eq!(
        effects,
        vec![
            cache("a"),
            cache("b"),
            share("a"),
            share("b"),
            Effect::Reply { to: 9, value: Reply::Put, required: true },
        ]
    );
    assert!(service.holds(&cid("x")));
    assert_eq!(service.cached_content(), &summary);
}

#[test]
fn put_without_peers_only_replies() {
    let mut service = node();
    let effects = service.handle_command(NetworkCommand::Put { cid: cid("x"), sender: 9 });
    assert_eq!(effects, vec![Effect::Reply { to: 9, value: Reply::Put, required: true }]);
    assert!(service.holds(&cid("x")));
}

#[test]
fn put_twice_is_put_once() {
    let mut once = node();
    once.handle_command(NetworkCommand::Put { cid: cid("x"), sender: 1 });
    let mut twice = node();
    twice.handle_command(NetworkCommand::Put { cid: cid("x"), sender: 1 });
    twice.handle_command(NetworkCommand::Put { cid: cid("x"), sender: 2 });
    assert_eq!(once.cached_content(), twice.cached_content());
}

#[test]
fn put_cids_stay_until_the_purge() {
    let mut service = node();
    service.handle_command(NetworkCommand::Put { cid: cid("x"), sender: 1 });
    service.handle_command(NetworkCommand::Put { cid: cid("y"), sender: 2 });
    service.handle_command(NetworkCommand::GetPeers { sender: 3 });
    connect(&mut service, "a");
    assert!(service.holds(&cid("x")));
    assert!(service.holds(&cid("y")));
    let effects = service.handle_command(NetworkCommand::AdminPurgeCache);
    assert_eq!(effects, vec![Effect::PurgeLocalCache]);
    assert!(!service.holds(&cid("x")));
    assert!(!service.holds(&cid("y")));
    assert_eq!(service.cached_content(), &CacheSummary::new());
}

#[test]
fn get_peers_replies_with_a_snapshot() {
    let mut service = node();
    connect(&mut service, "a");
    connect(&mut service, "b");
    let effects = service.handle_command(NetworkCommand::GetPeers { sender: 3 });
    assert_eq!(
        effects,
        vec![Effect::Reply {
            to: 3,
            value: Reply::Peers(vec![peer("a"), peer("b")]),
            required: false
        }]
    );
}

#[test]
fn listener_addresses_include_the_public_address() {
    let listen = addr("/ip4/0.0.0.0/tcp/6009");
    let public = addr("/ip4/8.8.8.8/tcp/6009");
    let mut service = UrsaService::<u32>::new(&config(vec![], vec![listen.clone()])).0;
    let before = service.handle_command(NetworkCommand::GetListenerAddresses { sender: 1 });
    assert_eq!(
        before,
        vec![Effect::Reply {
            to: 1,
            value: Reply::ListenerAddresses(vec![listen.clone()]),
            required: false
        }]
    );
    let seen = service.handle_autonat(AutonatEvent::StatusChanged {
        old: NatStatus::Unknown,
        new: NatStatus::Public(public.clone()),
    });
    assert!(seen.is_empty());
    let after = service.handle_command(NetworkCommand::GetListenerAddresses { sender: 2 });
    assert_eq!(
        after,
        vec![Effect::Reply {
            to: 2,
            value: Reply::ListenerAddresses(vec![listen.clone(), public.clone()]),
            required: false
        }]
    );
    service.handle_autonat(AutonatEvent::StatusChanged {
        old: NatStatus::Public(public),
        new: NatStatus::Private,
    });
    let later = service.handle_command(NetworkCommand::GetListenerAddresses { sender: 3 });
    assert_eq!(
        later,
        vec![Effect::Reply {
            to: 3,
            value: Reply::ListenerAddresses(vec![listen]),
            required: false
        }]
    );
}

#[test]
fn send_request_is_tracked_until_the_response() {
    let mut service = node();
    let request = || UrsaExchangeRequest(RequestType::CarRequest(b"car".to_vec()));
    let effects = service.handle_command(NetworkCommand::SendRequest {
        peer_id: peer("a"),
        request: request(),
        channel: 11,
    });
    assert_eq!(
        effects,
        vec![Effect::SendTrackedRequest { peer: peer("a"), request: request(), channel: 11 }]
    );
    assert!(service.no_pending_response());
    let sent = service.request_sent(42, 11);
    assert_eq!(sent, vec![Effect::Emit(NetworkEvent::RequestMessage { request_id: 42 })]);
    assert!(!service.no_pending_response());

    let answered = service.handle_req_res(RequestResponseEvent::Response {
        peer: peer("a"),
        request_id: 42,
        response: UrsaExchangeResponse(ResponseType::CacheResponse),
    });
    assert_eq!(
        answered,
        vec![Effect::Reply {
            to: 11,
            value: Reply::Response(UrsaExchangeResponse(ResponseType::CacheResponse)),
            required: false
        }]
    );
    assert!(service.no_pending_response());
    let again = service.handle_req_res(RequestResponseEvent::Response {
        peer: peer("a"),
        request_id: 42,
        response: UrsaExchangeResponse(ResponseType::CacheResponse),
    });
    assert!(again.is_empty());
}

#[test]
fn a_request_that_failed_is_forgotten_without_a_reply() {
    let mut service = node();
    service.request_sent(42, 11);
    let failed = service.handle_req_res(RequestResponseEvent::OutboundFailure {
        peer: peer("a"),
        request_id: 42,
    });
    assert!(failed.is_empty());
    assert!(service.no_pending_response());
    service.request_sent(43, 12);
    assert!(service
        .handle_req_res(RequestResponseEvent::InboundFailure { peer: peer("a"), request_id: 43 })
        .is_empty());
    assert!(service
        .handle_req_res(RequestResponseEvent::ResponseSent { peer: peer("a"), request_id: 43 })
        .is_empty());
    assert!(!service.no_pending_response());
}

#[test]
fn gossip_commands_go_to_the_gossip_layer() {
    let mut service = node();
    let subscribe = service.handle_command(NetworkCommand::GossipsubMessage {
        peer_id: peer("me"),
        message: GossipsubMessage::Subscribe {
            peer_id: peer("me"),
            topic: "news".to_string(),
            sender: 1,
        },
    });
    assert_eq!(subscribe, vec![Effect::Subscribe { topic: "news".to_string(), sender: 1 }]);
    let unsubscribe = service.handle_command(NetworkCommand::GossipsubMessage {
        peer_id: peer("me"),
        message: GossipsubMessage::Unsubscribe {
            peer_id: peer("me"),
            topic: "news".to_string(),
            sender: 2,
        },
    });
    assert_eq!(unsubscribe, vec![Effect::Unsubscribe { topic: "news".to_string(), sender: 2 }]);
    let publish = service.handle_command(NetworkCommand::GossipsubMessage {
        peer_id: peer("me"),
        message: GossipsubMessage::Publish {
            topic: "news".to_string(),
            data: b"hello".to_vec(),
            sender: 3,
        },
    });
    assert_eq!(
        publish,
        vec![Effect::Publish { topic: "news".to_string(), data: b"hello".to_vec(), sender: 3 }]
    );
}

#[test]
fn connection_events_drive_the_peer_table() {
    let mut service = node();
    assert_eq!(
        connect(&mut service, "b"),
        vec![Effect::Emit(NetworkEvent::PeerConnected(peer("b")))]
    );
    assert!(connect(&mut service, "b").is_empty());
    assert_eq!(service.peers(), vec![peer("b")]);

    let still = service.handle_swarm_event(SwarmEvent::ConnectionClosed {
        peer_id: peer("b"),
        num_established: 1,
    });
    assert!(still.is_empty());
    assert_eq!(service.peers(), vec![peer("b")]);

    let stranger = service.handle_swarm_event(SwarmEvent::ConnectionClosed {
        peer_id: peer("c"),
        num_established: 0,
    });
    assert!(stranger.is_empty());
}

#[test]
fn disconnect_clears_peer_content() {
    let mut service = node();
    connect(&mut service, "a");
    connect(&mut service, "b");
    let stored = service.handle_swarm_event(summary_request("b", 7, &["x"]));
    assert_eq!(
        stored,
        vec![
            Effect::SendResponse {
                request_id: 7,
                response: UrsaExchangeResponse(ResponseType::StoreSummaryRequest)
            },
            Effect::Emit(NetworkEvent::RequestMessage { request_id: 7 }),
        ]
    );
    assert!(service.peer_content(&peer("b")).expect("a summary").contains(b"x"));

    let closed = service.handle_swarm_event(SwarmEvent::ConnectionClosed {
        peer_id: peer("b"),
        num_established: 0,
    });
    assert_eq!(closed, vec![Effect::Emit(NetworkEvent::PeerDisconnected(peer("b")))]);
    assert!(service.peer_content(&peer("b")).is_none());
    assert_eq!(service.peers(), vec![peer("a")]);
}

#[test]
fn cache_request_pulls_the_whole_graph() {
    let mut service = node();
    let effects = service.handle_req_res(RequestResponseEvent::Request {
        peer: peer("b"),
        request_id: 3,
        request: UrsaExchangeRequest(RequestType::CacheRequest(cid("x"))),
    });
    assert_eq!(
        effects,
        vec![
            Effect::GraphsyncRequest {
                peer: peer("b"),
                root: b"x".to_vec(),
                selector: Selector::ExploreRecursive {
                    limit: RecursionLimit::Unlimited,
                    sequence: Box::new(Selector::ExploreAll {
                        next: Box::new(Selector::ExploreRecursiveEdge)
                    }),
                },
            },
            Effect::SendResponse {
                request_id: 3,
                response: UrsaExchangeResponse(ResponseType::CacheResponse)
            },
            Effect::Emit(NetworkEvent::RequestMessage { request_id: 3 }),
        ]
    );
    assert_eq!(
        explore_all(),
        Selector::ExploreRecursive {
            limit: RecursionLimit::Unlimited,
            sequence: Box::new(Selector::ExploreAll {
                next: Box::new(Selector::ExploreRecursiveEdge)
            }),
        }
    );
}

#[test]
fn car_request_is_only_announced() {
    let mut service = node();
    let effects = service.handle_req_res(RequestResponseEvent::Request {
        peer: peer("b"),
        request_id: 3,
        request: UrsaExchangeRequest(RequestType::CarRequest(b"car".to_vec())),
    });
    assert_eq!(effects, vec![Effect::Emit(NetworkEvent::RequestMessage { request_id: 3 })]);
}

#[test]
fn identify_of_a_peer_of_the_network_feeds_the_routing_table() {
    let mut service = node();
    let one = addr("/ip4/10.0.0.2/tcp/6009");
    let two = addr("/ip4/10.0.0.2/udp/4890");
    let effects = service.handle_identify(IdentifyEvent::Received {
        peer_id: peer("b"),
        protocols: vec![b"/ipfs/ping/1.0.0".to_vec(), b"/ursa/kad/0.0.1".to_vec()],
        listen_addrs: vec![one.clone(), two.clone()],
    });
    assert_eq!(
        effects,
        vec![
            Effect::AddExplicitPeer { peer: peer("b") },
            Effect::AddAddress { peer: peer("b"), address: one.clone() },
            Effect::AddAddress { peer: peer("b"), address: two },
        ]
    );
    let other = service.handle_identify(IdentifyEvent::Received {
        peer_id: peer("c"),
        protocols: vec![b"/ipfs/kad/1.0.0".to_vec()],
        listen_addrs: vec![one],
    });
    assert!(other.is_empty());
    assert!(service.handle_identify(IdentifyEvent::Sent { peer_id: peer("b") }).is_empty());
    assert!(service.handle_identify(IdentifyEvent::Pushed { peer_id: peer("b") }).is_empty());
    assert!(service.handle_identify(IdentifyEvent::Error { peer_id: peer("b") }).is_empty());
}

#[test]
fn mdns_dials_peers_that_are_new() {
    let mut service = node();
    connect(&mut service, "known");
    let one = addr("/ip4/192.168.0.2/tcp/6009");
    let two = addr("/ip4/192.168.0.3/tcp/6009");
    let three = addr("/ip4/192.168.0.3/udp/4890");
    let effects = service.handle_mdns(MdnsEvent::Discovered(vec![
        (peer("known"), one.clone()),
        (peer("new"), two.clone()),
        (peer("new"), three.clone()),
    ]));
    assert_eq!(
        effects,
        vec![
            Effect::AddAddress { peer: peer("known"), address: one.clone() },
            Effect::AddAddress { peer: peer("new"), address: two.clone() },
            Effect::Dial { address: two, required: false },
            Effect::AddAddress { peer: peer("new"), address: three },
        ]
    );
    assert_eq!(service.peers(), vec![peer("known"), peer("new")]);
    assert!(service.handle_mdns(MdnsEvent::Expired(vec![(peer("new"), one)])).is_empty());
    assert_eq!(service.peers(), vec![peer("known"), peer("new")]);
}

#[test]
fn gossip_events_are_published() {
    let mut service = node();
    let message = || GossipMessage {
        source: Some(peer("author")),
        data: b"hello".to_vec(),
        sequence_number: Some(4),
        topic: "news".to_string(),
    };
    let effects = service.handle_gossip(GossipsubInput::Message {
        propagation_source: peer("b"),
        message_id: b"id".to_vec(),
        message: message(),
    });
    assert_eq!(
        effects,
        vec![Effect::Emit(NetworkEvent::Gossipsub(GossipsubEvent::Message {
            peer_id: peer("b"),
            message_id: b"id".to_vec(),
            message: message(),
        }))]
    );
    let subscribed = service.handle_gossip(GossipsubInput::Subscribed {
        peer_id: peer("b"),
        topic: "news".to_string(),
    });
    assert_eq!(
        subscribed,
        vec![Effect::Emit(NetworkEvent::Gossipsub(GossipsubEvent::Subscribed {
            peer_id: peer("b"),
            topic: "news".to_string(),
        }))]
    );
    let unsubscribed = service.handle_gossip(GossipsubInput::Unsubscribed {
        peer_id: peer("b"),
        topic: "news".to_string(),
    });
    assert_eq!(
        unsubscribed,
        vec![Effect::Emit(NetworkEvent::Gossipsub(GossipsubEvent::Unsubscribed {
            peer_id: peer("b"),
            topic: "news".to_string(),
        }))]
    );
    assert!(service
        .handle_gossip(GossipsubInput::GossipsubNotSupported { peer_id: peer("b") })
        .is_empty());
}

#[test]
fn events_that_are_only_logged_change_nothing() {
    let mut service = node();
    connect(&mut service, "b");
    let ping = |result| PingEvent { peer: peer("b"), result };
    assert!(service.handle_ping(ping(PingResult::Ping { rtt_millis: 12 })).is_empty());
    assert!(service.handle_ping(ping(PingResult::Pong)).is_empty());
    assert!(service.handle_ping(ping(PingResult::Other)).is_empty());
    assert!(service.handle_ping(ping(PingResult::Timeout)).is_empty());
    assert!(service.handle_ping(ping(PingResult::Unsupported)).is_empty());
    assert!(service
        .handle_kad(KademliaEvent::BootstrapOk { peer: peer("b"), num_remaining: 0 })
        .is_empty());
    assert!(service.handle_kad(KademliaEvent::BootstrapFailed).is_empty());
    assert!(service.handle_kad(KademliaEvent::QueryProgressed).is_empty());
    assert!(service.handle_kad(KademliaEvent::Other).is_empty());
    assert!(service
        .handle_graphsync(GraphSyncEvent::Completed { peer_id: peer("b"), received: 3 })
        .is_empty());
    assert!(service.handle_graphsync(GraphSyncEvent::Progress).is_empty());
    for event in [
        BehaviourEvent::RelayServer,
        BehaviourEvent::RelayClient,
        BehaviourEvent::Dcutr,
        BehaviourEvent::Autonat(AutonatEvent::InboundProbe),
        BehaviourEvent::Autonat(AutonatEvent::OutboundProbe),
    ] {
        assert!(service.handle_swarm_event(SwarmEvent::Behaviour(event)).is_empty());
    }
    assert!(service.handle_swarm_event(SwarmEvent::Other).is_empty());
    assert_eq!(service.peers(), vec![peer("b")]);
}

#[test]
fn a_node_behind_a_nat_listens_through_a_relay() {
    let boot = "/ip4/10.0.0.1/tcp/6009/p2p/12D3KooWA1bysjrTACSWqf6q172inxvwKHUxAnBtVgaVDKMxpZtx";
    let parsed: libp2p::Multiaddr = boot.parse().expect("a multiaddr");
    let circuit = parsed.clone().with(libp2p::multiaddr::Protocol::P2pCircuit);
    let mut service = UrsaService::<u32>::new(&config(vec![addr(boot)], vec![])).0;
    let effects = service.handle_autonat(AutonatEvent::StatusChanged {
        old: NatStatus::Unknown,
        new: NatStatus::Private,
    });
    assert_eq!(
        effects,
        vec![Effect::ListenOn { address: Multiaddr::from_bytes(circuit.to_vec()) }]
    );
    assert_eq!(
        circuit.to_string(),
        "/ip4/10.0.0.1/tcp/6009/p2p/12D3KooWA1bysjrTACSWqf6q172inxvwKHUxAnBtVgaVDKMxpZtx/p2p-circuit"
    );
}

#[test]
fn the_relay_is_one_of_the_seed_addresses() {
    let seeds = vec![
        addr("/ip4/10.0.0.1/tcp/6009"),
        addr("/ip4/10.0.0.2/tcp/6009"),
        addr("/ip4/10.0.0.3/tcp/6009"),
    ];
    let circuits: Vec<Multiaddr> =
        seeds.iter().map(|seed| relay_address(seed).expect("an address")).collect();
    let mut seen = vec![false; 3];
    for _ in 0..200 {
        let mut service = UrsaService::<u32>::new(&config(seeds.clone(), vec![])).0;
        let effects = service.handle_swarm_event(SwarmEvent::Behaviour(BehaviourEvent::Autonat(
            AutonatEvent::StatusChanged { old: NatStatus::Unknown, new: NatStatus::Private },
        )));
        assert_eq!(effects.len(), 1);
        match &effects[0] {
            Effect::ListenOn { address } => {
                let at = circuits.iter().position(|c| c == address).expect("a seed");
                seen[at] = true;
            }
            other => panic!("unexpected effect {:?}", other),
        }
    }
    assert_eq!(seen, vec![true, true, true]);
}

#[test]
fn no_relay_without_seeds_or_without_leave() {
    let mut bare = node();
    let effects = bare.handle_autonat(AutonatEvent::StatusChanged {
        old: NatStatus::Unknown,
        new: NatStatus::Private,
    });
    assert!(effects.is_empty());

    let mut settings = config(vec![addr("/ip4/10.0.0.1/tcp/6009")], vec![]);
    settings.relay_client = false;
    let mut plain = UrsaService::<u32>::new(&settings).0;
    assert!(plain
        .handle_autonat(AutonatEvent::StatusChanged {
            old: NatStatus::Unknown,
            new: NatStatus::Private
        })
        .is_empty());

    let mut misconfigured = config(vec![addr("/ip4/10.0.0.1/tcp/6009")], vec![]);
    misconfigured.autonat = false;
    let mut without = UrsaService::<u32>::new(&misconfigured).0;
    assert!(without
        .handle_autonat(AutonatEvent::StatusChanged {
            old: NatStatus::Unknown,
            new: NatStatus::Private
        })
        .is_empty());

    let mut relayed = UrsaService::<u32>::new(&config(vec![addr("/ip4/10.0.0.1/tcp/6009")], vec![])).0;
    assert!(relayed
        .handle_autonat(AutonatEvent::StatusChanged {
            old: NatStatus::Private,
            new: NatStatus::Unknown
        })
        .is_empty());
    assert!(relayed
        .handle_autonat(AutonatEvent::StatusChanged {
            old: NatStatus::Public(addr("/ip4/8.8.8.8/tcp/1")),
            new: NatStatus::Private
        })
        .is_empty());
}

#[test]
fn relay_address_appends_the_circuit_protocol() {
    let base: libp2p::Multiaddr = "/ip4/127.0.0.1/tcp/4001".parse().expect("a multiaddr");
    let mut expected = base.to_vec();
    expected.extend_from_slice(&[0xa2, 0x02]);
    let circuit = relay_address(&Multiaddr::from_bytes(base.to_vec())).expect("an address");
    assert_eq!(circuit.to_bytes(), expected);
    assert_eq!(
        circuit.to_bytes(),
        base.with(libp2p::multiaddr::Protocol::P2pCircuit).to_vec()
    );
}

#[test]
fn bytes_that_are_no_address_have_no_relay_address() {
    assert!(relay_address(&Multiaddr::from_bytes(vec![0xff, 0xff, 0xff])).is_none());
    assert!(relay_address(&Multiaddr::from_bytes(vec![0x04, 127, 0])).is_none());
    let empty = relay_address(&Multiaddr::from_bytes(vec![])).expect("the empty address");
    assert_eq!(empty.to_bytes(), vec![0xa2, 0x02]);
}

#[test]
fn swarm_event_with_a_given_relay() {
    let mut service = UrsaService::<u32>::new(&config(vec![], vec![])).0;
    let circuit = addr("/ip4/10.0.0.9/tcp/1/p2p-circuit");
    let effects = service.swarm_event_with(
        SwarmEvent::Behaviour(BehaviourEvent::Autonat(AutonatEvent::StatusChanged {
            old: NatStatus::Unknown,
            new: NatStatus::Private,
        })),
        Some(circuit.clone()),
    );
    assert_eq!(effects, vec![Effect::ListenOn { address: circuit.clone() }]);
    let none = service.autonat_with(
        AutonatEvent::StatusChanged { old: NatStatus::Unknown, new: NatStatus::Private },
        None,
    );
    assert!(none.is_empty());
    let unrelated = service.swarm_event_with(
        SwarmEvent::ConnectionEstablished { peer_id: peer("b") },
        Some(circuit),
    );
    assert_eq!(unrelated, vec![Effect::Emit(NetworkEvent::PeerConnected(peer("b")))]);
}

#[test]
fn dial_reports_to_the_caller() {
    let mut service = node();
    let address = addr("/ip4/10.0.0.2/tcp/6009");
    let done = service.dial(peer("b"), address.clone(), 8, Ok(()));
    assert_eq!(
        done,
        vec![
            Effect::AddAddress { peer: peer("b"), address: address.clone() },
            Effect::Reply { to: 8, value: Reply::Dial(Ok(())), required: true },
        ]
    );
    let failed = service.dial(peer("b"), address, 9, Err("no route".to_string()));
    assert_eq!(
        failed,
        vec![Effect::Reply {
            to: 9,
            value: Reply::Dial(Err("no route".to_string())),
            required: true
        }]
    );
}

#[test]
fn the_walk_timer_walks_and_is_armed_again() {
    let mut service = node();
    assert_eq!(
        service.walk_timer(),
        vec![Effect::RandomWalk, Effect::ResetWalkTimer { secs: 30 }]
    );
    assert_eq!(
        service.turn(LoopInput::WalkTimer),
        Ok(vec![Effect::RandomWalk, Effect::ResetWalkTimer { secs: 30 }])
    );
}

#[test]
fn a_turn_processes_one_input_or_ends_the_loop() {
    let mut service = node();
    assert_eq!(
        service.turn(LoopInput::Swarm(Some(SwarmEvent::ConnectionEstablished {
            peer_id: peer("b")
        }))),
        Ok(vec![Effect::Emit(NetworkEvent::PeerConnected(peer("b")))])
    );
    assert_eq!(
        service.turn(LoopInput::Command(Some(NetworkCommand::GetPeers { sender: 1 }))),
        Ok(vec![Effect::Reply { to: 1, value: Reply::Peers(vec![peer("b")]), required: false }])
    );
    assert_eq!(service.turn(LoopInput::Swarm(None)), Err(LoopError::SwarmClosed));
    assert_eq!(service.turn(LoopInput::Command(None)), Err(LoopError::CommandsClosed));
    assert_eq!(service.peers(), vec![peer("b")]);
}

#[test]
fn a_summary_is_stored_whoever_sends_it() {
    let mut service = node();
    let stored = service.handle_swarm_event(summary_request("stranger", 1, &["x"]));
    assert_eq!(stored.len(), 2);
    assert!(service.peers().is_empty());
    assert!(service.peer_content(&peer("stranger")).is_some());
}

#[test]
fn every_peer_with_a_summary_is_connected() {
    let mut service = node();
    for name in ["a", "b", "c"] {
        connect(&mut service, name);
        service.handle_swarm_event(summary_request(name, 1, &[name]));
    }
    service.handle_swarm_event(SwarmEvent::ConnectionClosed {
        peer_id: peer("b"),
        num_established: 0,
    });
    let connected = service.peers();
    for name in ["a", "b", "c"] {
        let has_summary = service.peer_content(&peer(name)).is_some();
        assert!(!has_summary || connected.contains(&peer(name)));
        assert_eq!(has_summary, name != "b");
    }
}

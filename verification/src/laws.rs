//! What holds of the node and of the cache path whatever happens to them.
//!
//! Each law is stated over the state machines of the `model` and `proxy`
//! modules, which the executable handlers are proved to follow step by step.

use vstd::prelude::*;

use crate::command::NetworkCommand;
use crate::effect::{EffectView, NetworkErrorView, ReplyView};
use crate::event::{BehaviourEvent, BitswapEvent, MdnsEvent, RequestResponseEvent, SwarmEvent};
use crate::ident::{Multiaddr, PeerId};
use crate::model;
use crate::model::ServiceView;
use crate::protocol::{RequestType, RequestView};
use crate::proxy::{
    key_bytes, proxy_step, ProxyActionView, ProxyInput, ProxyState, ProxyView, STATUS_OK,
};
use crate::summary::{
    empty_summary, is_slot_of, summary_holds, summary_slot, summary_with, unpack_bits,
    CacheSummary, SUMMARY_BITS, SUMMARY_BYTES, SUMMARY_HASHES,
};
use crate::tables::lemma_seq_without;

verus! {

/// Every slot of a key is a bit of the digest.
pub proof fn lemma_slot_in_range(key: Seq<u8>, j: int)
    ensures
        0 <= summary_slot(key, j) < SUMMARY_BITS,
{
}

/// A digest never answers no for a key that was inserted into it.
pub proof fn law_inserted_key_is_held(bits: Seq<bool>, key: Seq<u8>)
    requires
        bits.len() == SUMMARY_BITS,
    ensures
        summary_holds(summary_with(bits, key), key),
{
    assert forall|j: int| 0 <= j < SUMMARY_HASHES implies summary_with(bits, key)[#[trigger] summary_slot(
        key,
        j,
    )] by {
        lemma_slot_in_range(key, j);
        assert(is_slot_of(key, summary_slot(key, j)));
    }
}

/// An insertion takes nothing away: what a digest answered yes to, it
/// answers yes to afterwards.
pub proof fn law_insert_keeps_keys(bits: Seq<bool>, key: Seq<u8>, other: Seq<u8>)
    requires
        bits.len() == SUMMARY_BITS,
        summary_holds(bits, other),
    ensures
        summary_holds(summary_with(bits, key), other),
{
    assert forall|j: int| 0 <= j < SUMMARY_HASHES implies summary_with(bits, key)[#[trigger] summary_slot(
        other,
        j,
    )] by {
        lemma_slot_in_range(other, j);
    }
}

/// Inserting a key a second time changes nothing.
pub proof fn law_insert_is_idempotent(bits: Seq<bool>, key: Seq<u8>)
    ensures
        summary_with(summary_with(bits, key), key) == summary_with(bits, key),
{
    assert(summary_with(summary_with(bits, key), key) =~= summary_with(bits, key));
}

/// The empty digest answers no for every key.
pub proof fn law_empty_summary_holds_nothing(key: Seq<u8>)
    ensures
        !summary_holds(empty_summary(), key),
{
    lemma_slot_in_range(key, 0);
    assert(!empty_summary()[summary_slot(key, 0)]);
}

/// A digest that went over the wire answers as the one that was sent: for
/// the wire form `wire` of `sent` and what was `parsed` from it, every key
/// gets the same answer from both.
pub proof fn law_wire_round_trip(sent: CacheSummary, wire: Seq<u8>, parsed: Option<CacheSummary>)
    requires
        wire.len() == SUMMARY_BYTES,
        unpack_bits(wire) == sent@,
        parsed is Some <==> wire.len() == SUMMARY_BYTES,
        parsed matches Some(summary) ==> summary@ == unpack_bits(wire),
    ensures
        parsed is Some,
        parsed->0@ == sent@,
        forall|key: Seq<u8>| summary_holds(parsed->0@, key) == summary_holds(sent@, key),
{
}

/// When a block fetch ends, its query is forgotten, every caller that waits
/// for the block gets exactly one reply, in the order in which the callers
/// came, and nobody waits for the block any more. A second report on the
/// same query finds nothing to do.
pub proof fn law_fetch_completes_once<R>(pre: ServiceView<R>, query: u64, found: bool)
    requires
        pre.queries.contains_key(query),
    ensures
        ({
            let cid = pre.queries[query];
            let event = BitswapEvent::Complete(query, found);
            let (post, effects) = model::handle_bitswap(pre, event);
            let outcome = if found {
                Ok(())
            } else {
                Err(NetworkErrorView::BlockNotFound { cid })
            };
            &&& !post.queries.contains_key(query)
            &&& !post.waiters.contains_key(cid)
            &&& pre.waiters.contains_key(cid) ==> effects.len() == pre.waiters[cid].len()
            &&& !pre.waiters.contains_key(cid) ==> effects.len() == 0
            &&& forall|i: int|
                0 <= i < effects.len() ==> #[trigger] effects[i] == (EffectView::Reply {
                    to: pre.waiters[cid][i],
                    value: ReplyView::Block(outcome),
                    required: false,
                })
            &&& model::handle_bitswap(post, event) == (post, Seq::<EffectView<R>>::empty())
        }),
{
}

/// Whether `p` is one of the first `n` peers.
pub open spec fn among(peers: Seq<Seq<u8>>, n: int, p: Seq<u8>) -> bool {
    exists|i: int| 0 <= i < n && #[trigger] peers[i] == p
}

/// Those of the first `n` peers that are believed to hold a block are the
/// peers among them of which that is believed, no more and no fewer.
pub proof fn lemma_believed_holders(
    peers: Seq<Seq<u8>>,
    content: Map<Seq<u8>, Seq<bool>>,
    cid: Seq<u8>,
    n: int,
)
    requires
        0 <= n <= peers.len(),
    ensures
        forall|p: Seq<u8>| #[trigger]
            model::believed_holders(peers, content, cid, n).contains(p) <==> among(peers, n, p)
                && model::peer_holds(content, cid, p),
    decreases n,
{
    let all = model::believed_holders(peers, content, cid, n);
    if n > 0 {
        lemma_believed_holders(peers, content, cid, n - 1);
        let rest = model::believed_holders(peers, content, cid, n - 1);
        let last = peers[n - 1];
        assert forall|p: Seq<u8>| #[trigger] all.contains(p) <==> among(peers, n, p)
            && model::peer_holds(content, cid, p) by {
            assert(rest.contains(p) <==> among(peers, n - 1, p) && model::peer_holds(
                content,
                cid,
                p,
            ));
            if all.contains(p) {
                let k = choose|k: int| 0 <= k < all.len() && all[k] == p;
                if k < rest.len() {
                    assert(rest[k] == p);
                    assert(rest.contains(p));
                    let i = choose|i: int| 0 <= i < n - 1 && #[trigger] peers[i] == p;
                    assert(0 <= i < n && peers[i] == p);
                } else {
                    assert(peers[n - 1] == p);
                }
            }
            if among(peers, n, p) && model::peer_holds(content, cid, p) {
                let i = choose|i: int| 0 <= i < n && #[trigger] peers[i] == p;
                if i < n - 1 {
                    assert(among(peers, n - 1, p));
                    assert(rest.contains(p));
                    let k = choose|k: int| 0 <= k < rest.len() && rest[k] == p;
                    assert(all[k] == p);
                } else {
                    assert(all[all.len() - 1] == p);
                }
            }
        }
    } else {
        assert forall|p: Seq<u8>| #[trigger] all.contains(p) <==> among(peers, n, p)
            && model::peer_holds(content, cid, p) by {}
    }
}

/// A block is fetched from connected peers only: from those that are
/// believed to hold it where there are any, else from all.
pub proof fn law_fetch_prefers_believed_holders(
    peers: Seq<Seq<u8>>,
    content: Map<Seq<u8>, Seq<bool>>,
    cid: Seq<u8>,
)
    ensures
        ({
            let chosen = model::preferred_peers(peers, content, cid);
            let some_holder = exists|p: Seq<u8>|
                peers.contains(p) && model::peer_holds(content, cid, p);
            &&& forall|p: Seq<u8>| chosen.contains(p) ==> peers.contains(p)
            &&& some_holder ==> forall|p: Seq<u8>|
                chosen.contains(p) <==> peers.contains(p) && model::peer_holds(content, cid, p)
            &&& !some_holder ==> chosen == peers
        }),
{
    let n = peers.len() as int;
    lemma_believed_holders(peers, content, cid, n);
    let believed = model::believed_holders(peers, content, cid, n);
    assert forall|p: Seq<u8>| believed.contains(p) <==> peers.contains(p) && model::peer_holds(
        content,
        cid,
        p,
    ) by {
        assert(believed.contains(p) <==> among(peers, n, p) && model::peer_holds(content, cid, p));
        if peers.contains(p) {
            let i = choose|i: int| 0 <= i < peers.len() && peers[i] == p;
            assert(0 <= i < n && peers[i] == p);
        }
        if among(peers, n, p) {
            let i = choose|i: int| 0 <= i < n && #[trigger] peers[i] == p;
            assert(peers.contains(p));
        }
    }
    if believed.len() > 0 {
        assert(believed.contains(believed[0]));
    }
    if exists|p: Seq<u8>| peers.contains(p) && model::peer_holds(content, cid, p) {
        let p = choose|p: Seq<u8>| peers.contains(p) && model::peer_holds(content, cid, p);
        assert(believed.contains(p));
    }
}

/// Whether some in-flight query fetches `cid`.
pub open spec fn fetched<R>(state: ServiceView<R>, cid: Seq<u8>) -> bool {
    exists|query: u64| #[trigger] state.queries.contains_key(query) && state.queries[query] == cid
}

/// Whether the callers that wait and the fetches in flight match: somebody
/// waits for a block exactly when a query fetches it, and no block is
/// fetched by two queries.
pub open spec fn waiters_match_queries<R>(state: ServiceView<R>) -> bool {
    &&& forall|cid: Seq<u8>|
        #![trigger state.waiters.contains_key(cid)]
        #![trigger fetched(state, cid)]
        state.waiters.contains_key(cid) <==> fetched(state, cid)
    &&& forall|a: u64, b: u64|
        #![trigger state.queries.contains_key(a), state.queries.contains_key(b)]
        state.queries.contains_key(a) && state.queries.contains_key(b) && state.queries[a]
            == state.queries[b] ==> a == b
}

/// Asking for a block keeps callers and fetches matched, once the block
/// exchange has opened a new query for the fetch that the request started.
/// A request that starts no fetch, because nobody is connected or because
/// the block is being fetched already, changes nothing of the match.
pub proof fn law_request_keeps_waiters_matched<R>(
    pre: ServiceView<R>,
    cid: Seq<u8>,
    sender: R,
    query: u64,
)
    requires
        waiters_match_queries(pre),
        !pre.queries.contains_key(query),
    ensures
        ({
            let (asked, effects) = model::get_bitswap(pre, cid, sender);
            let starts = effects.len() == 1 && effects[0] is SyncBlock;
            &&& starts <==> pre.peers.len() > 0 && !pre.waiters.contains_key(cid)
            &&& !starts ==> waiters_match_queries(asked)
            &&& starts ==> waiters_match_queries(
                model::bitswap_started(asked, cid, Some(query)).0,
            )
        }),
{
    let (asked, effects) = model::get_bitswap(pre, cid, sender);
    if pre.peers.len() == 0 {
    } else if pre.waiters.contains_key(cid) {
        assert forall|c: Seq<u8>| asked.waiters.contains_key(c) <==> fetched(asked, c) by {
            if c != cid {
                assert(asked.waiters.contains_key(c) == pre.waiters.contains_key(c));
            }
            assert(fetched(asked, c) == fetched(pre, c));
        }
    } else {
        let post = model::bitswap_started(asked, cid, Some(query)).0;
        assert(!fetched(pre, cid));
        assert forall|c: Seq<u8>| post.waiters.contains_key(c) <==> fetched(post, c) by {
            if c == cid {
                assert(post.queries.contains_key(query) && post.queries[query] == cid);
            } else {
                if fetched(post, c) {
                    let q = choose|q: u64| #[trigger]
                        post.queries.contains_key(q) && post.queries[q] == c;
                    assert(pre.queries.contains_key(q) && pre.queries[q] == c);
                    assert(fetched(pre, c));
                }
                if fetched(pre, c) {
                    let q = choose|q: u64| #[trigger]
                        pre.queries.contains_key(q) && pre.queries[q] == c;
                    assert(post.queries.contains_key(q) && post.queries[q] == c);
                }
            }
        }
        assert forall|a: u64, b: u64|
            post.queries.contains_key(a) && post.queries.contains_key(b) && post.queries[a]
                == post.queries[b] implies a == b by {
            if a == query && b != query {
                assert(pre.queries.contains_key(b) && pre.queries[b] == cid);
                assert(fetched(pre, cid));
            }
            if b == query && a != query {
                assert(pre.queries.contains_key(a) && pre.queries[a] == cid);
                assert(fetched(pre, cid));
            }
        }
    }
}

/// The end of a fetch keeps callers and fetches matched.
pub proof fn law_completion_keeps_waiters_matched<R>(pre: ServiceView<R>, event: BitswapEvent)
    requires
        waiters_match_queries(pre),
    ensures
        waiters_match_queries(model::handle_bitswap(pre, event).0),
{
    let post = model::handle_bitswap(pre, event).0;
    match event {
        BitswapEvent::Complete(query, found) => {
            if pre.queries.contains_key(query) {
                let cid = pre.queries[query];
                assert(fetched(pre, cid));
                assert forall|c: Seq<u8>| post.waiters.contains_key(c) <==> fetched(post, c) by {
                    if fetched(post, c) {
                        let q = choose|q: u64| #[trigger]
                            post.queries.contains_key(q) && post.queries[q] == c;
                        assert(pre.queries.contains_key(q) && pre.queries[q] == c);
                        assert(fetched(pre, c));
                        assert(pre.queries.contains_key(query));
                        assert(c != cid);
                    }
                    if c != cid && fetched(pre, c) {
                        let q = choose|q: u64| #[trigger]
                            pre.queries.contains_key(q) && pre.queries[q] == c;
                        assert(post.queries.contains_key(q) && post.queries[q] == c);
                    }
                }
            }
        },
        _ => {},
    }
}

/// Whether every peer of which a summary is stored is connected.
pub open spec fn content_within_peers<R>(state: ServiceView<R>) -> bool {
    forall|peer: Seq<u8>| #[trigger]
        state.peer_content.contains_key(peer) ==> state.peers.contains(peer)
}

/// Whether the event is a summary from a peer that is not connected. The
/// swarm reports requests of connected peers only.
pub open spec fn summary_from_stranger<R>(state: ServiceView<R>, event: SwarmEvent) -> bool {
    event matches SwarmEvent::Behaviour(
        BehaviourEvent::RequestResponse(
            RequestResponseEvent::Request {
                peer,
                request_id,
                request,
            },
        ),
    ) && request.0 is StoreSummary && !state.peers.contains(peer@)
}

/// Peers that are found on the local network are added to the connected
/// ones; none is taken away, and none stands twice.
pub proof fn lemma_discovered_grows<R>(
    peers: Seq<Seq<u8>>,
    found: Seq<(PeerId, Multiaddr)>,
    n: int,
)
    requires
        peers.no_duplicates(),
    ensures
        model::discovered::<R>(peers, found, n).0.no_duplicates(),
        forall|p: Seq<u8>| peers.contains(p) ==> model::discovered::<R>(peers, found, n).0.contains(p),
    decreases n,
{
    if n > 0 {
        lemma_discovered_grows::<R>(peers, found, n - 1);
        let (known, effects) = model::discovered::<R>(peers, found, n - 1);
        let peer = found[n - 1].0@;
        if !known.contains(peer) {
            let grown = known.push(peer);
            assert forall|i: int, j: int|
                0 <= i < grown.len() && 0 <= j < grown.len() && i != j implies grown[i]
                != grown[j] by {
                if i < known.len() {
                    assert(known.contains(known[i]));
                }
                if j < known.len() {
                    assert(known.contains(known[j]));
                }
            }
            assert forall|p: Seq<u8>| peers.contains(p) implies grown.contains(p) by {
                let i = choose|i: int| 0 <= i < known.len() && known[i] == p;
                assert(grown[i] == p);
            }
        }
    }
}

/// Every peer of which a summary is stored is connected: where this holds
/// before an event of the swarm, it holds after it. The one event that is
/// left out is a summary from a peer that is not connected.
pub proof fn law_peer_content_within_table<R>(
    pre: ServiceView<R>,
    event: SwarmEvent,
    circuit: Option<Seq<u8>>,
)
    requires
        pre.peers.no_duplicates(),
        content_within_peers(pre),
        !summary_from_stranger(pre, event),
    ensures
        content_within_peers(model::handle_swarm_event(pre, event, circuit).0),
        model::handle_swarm_event(pre, event, circuit).0.peers.no_duplicates(),
{
    let post = model::handle_swarm_event(pre, event, circuit).0;
    match event {
        SwarmEvent::Behaviour(BehaviourEvent::Mdns(MdnsEvent::Discovered(found))) => {
            lemma_discovered_grows::<R>(pre.peers, found@, found@.len() as int);
        },
        SwarmEvent::Behaviour(BehaviourEvent::RequestResponse(RequestResponseEvent::Request {
            peer,
            request_id,
            request,
        })) => {
            match request.0 {
                RequestType::StoreSummary(summary) => {
                    assert(pre.peers.contains(peer@));
                },
                _ => {},
            }
        },
        SwarmEvent::ConnectionEstablished { peer_id } => {
            if !pre.peers.contains(peer_id@) {
                let grown = pre.peers.push(peer_id@);
                assert forall|i: int, j: int|
                    0 <= i < grown.len() && 0 <= j < grown.len() && i != j implies grown[i]
                    != grown[j] by {
                    if i < pre.peers.len() {
                        assert(pre.peers.contains(pre.peers[i]));
                    }
                    if j < pre.peers.len() {
                        assert(pre.peers.contains(pre.peers[j]));
                    }
                }
                assert forall|p: Seq<u8>| pre.peers.contains(p) implies grown.contains(p) by {
                    let i = choose|i: int| 0 <= i < pre.peers.len() && pre.peers[i] == p;
                    assert(grown[i] == p);
                }
            }
        },
        SwarmEvent::ConnectionClosed { peer_id, num_established } => {
            lemma_seq_without(pre.peers, peer_id@);
        },
        _ => {},
    }
}

/// Commands, and what the event loop reports back of its own effects, touch
/// neither the connected peers nor the summaries that are stored of them.
pub proof fn law_commands_leave_peers<R>(
    pre: ServiceView<R>,
    command: NetworkCommand<R>,
    cid: Seq<u8>,
    query: Option<u64>,
    request_id: u64,
    channel: R,
)
    ensures
        model::handle_command(pre, command).0.peers == pre.peers,
        model::handle_command(pre, command).0.peer_content == pre.peer_content,
        model::bitswap_started(pre, cid, query).0.peers == pre.peers,
        model::bitswap_started(pre, cid, query).0.peer_content == pre.peer_content,
        model::request_sent(pre, request_id, channel).0.peers == pre.peers,
        model::request_sent(pre, request_id, channel).0.peer_content == pre.peer_content,
        model::walk_timer(pre).0 == pre,
{
}

/// A node that was just made has no summary of any peer.
pub proof fn law_initial_state_is_tidy<R>(config: crate::config::NetworkConfig)
    ensures
        content_within_peers(model::initial::<R>(config)),
        model::initial::<R>(config).peers.no_duplicates(),
{
}

/// Announcing a block sends a cache request for it to every peer that is
/// connected at that moment, and after those requests sends to every such
/// peer a summary that holds the block; the caller is told last.
pub proof fn law_put_reaches_every_peer<R>(pre: ServiceView<R>, cid: Seq<u8>, sender: R)
    requires
        pre.summary.len() == SUMMARY_BITS,
    ensures
        ({
            let (post, effects) = model::put(pre, cid, sender);
            let n = pre.peers.len() as int;
            &&& effects.len() == 2 * n + 1
            &&& summary_holds(post.summary, cid)
            &&& forall|i: int|
                0 <= i < n ==> #[trigger] effects[i] == (EffectView::<R>::SendRequest {
                    peer: pre.peers[i],
                    request: RequestView::CacheRequest(cid),
                })
            &&& forall|i: int|
                0 <= i < n ==> #[trigger] effects[n + i] == (EffectView::<R>::SendRequest {
                    peer: pre.peers[i],
                    request: RequestView::StoreSummary(post.summary),
                })
            &&& effects[2 * n] == (EffectView::Reply {
                to: sender,
                value: ReplyView::Put,
                required: true,
            })
        }),
{
    law_inserted_key_is_held(pre.summary, cid);
}

/// The summary of the node holds every block that was announced, until the
/// cache is purged: an announcement puts the block in, and no command but
/// the purge takes anything out.
pub proof fn law_summary_keeps_announced<R>(
    pre: ServiceView<R>,
    command: NetworkCommand<R>,
    key: Seq<u8>,
)
    requires
        pre.summary.len() == SUMMARY_BITS,
        !(command is AdminPurgeCache),
    ensures
        model::handle_command(pre, command).0.summary.len() == SUMMARY_BITS,
        command matches NetworkCommand::Put { cid, sender } ==> summary_holds(
            model::handle_command(pre, command).0.summary,
            cid@,
        ),
        summary_holds(pre.summary, key) ==> summary_holds(
            model::handle_command(pre, command).0.summary,
            key,
        ),
{
    match command {
        NetworkCommand::Put { cid, sender } => {
            law_inserted_key_is_held(pre.summary, cid@);
            if summary_holds(pre.summary, key) {
                law_insert_keeps_keys(pre.summary, cid@, key);
            }
        },
        _ => {},
    }
}

/// The state of a node after the first `n` of a sequence of commands.
pub open spec fn after_commands<R>(
    start: ServiceView<R>,
    commands: Seq<NetworkCommand<R>>,
    n: int,
) -> ServiceView<R>
    decreases n,
{
    if n <= 0 {
        start
    } else {
        model::handle_command(after_commands(start, commands, n - 1), commands[n - 1]).0
    }
}

/// Whether none of the commands from `from` up to `to` purges the cache.
pub open spec fn no_purge<R>(commands: Seq<NetworkCommand<R>>, from: int, to: int) -> bool {
    forall|m: int| from <= m < to ==> !((#[trigger] commands[m]) is AdminPurgeCache)
}

/// A block that was announced is held by the summary after any number of
/// further commands, as long as none of them purges the cache.
pub proof fn law_announced_block_stays_held<R>(
    start: ServiceView<R>,
    commands: Seq<NetworkCommand<R>>,
    j: int,
    n: int,
)
    requires
        start.summary.len() == SUMMARY_BITS,
        0 <= j < n <= commands.len(),
        commands[j] is Put,
        no_purge(commands, j, n),
    ensures
        after_commands(start, commands, n).summary.len() == SUMMARY_BITS,
        summary_holds(after_commands(start, commands, n).summary, commands[j]->Put_cid@),
    decreases n,
{
    lemma_width_is_kept(start, commands, n - 1);
    let before = after_commands(start, commands, n - 1);
    let key = commands[j]->Put_cid@;
    if j == n - 1 {
        law_summary_keeps_announced(before, commands[n - 1], key);
    } else {
        law_announced_block_stays_held(start, commands, j, n - 1);
        law_summary_keeps_announced(before, commands[n - 1], key);
    }
}

/// The summary keeps its width whatever commands come.
pub proof fn lemma_width_is_kept<R>(
    start: ServiceView<R>,
    commands: Seq<NetworkCommand<R>>,
    n: int,
)
    requires
        start.summary.len() == SUMMARY_BITS,
    ensures
        after_commands(start, commands, n).summary.len() == SUMMARY_BITS,
    decreases n,
{
    if n > 0 {
        lemma_width_is_kept(start, commands, n - 1);
    }
}

/// Nothing but a command changes the summary of the node: not an event of
/// the swarm, and not what the event loop reports back.
pub proof fn law_events_leave_summary<R>(
    pre: ServiceView<R>,
    event: SwarmEvent,
    circuit: Option<Seq<u8>>,
    cid: Seq<u8>,
    query: Option<u64>,
    request_id: u64,
    channel: R,
)
    ensures
        model::handle_swarm_event(pre, event, circuit).0.summary == pre.summary,
        model::bitswap_started(pre, cid, query).0.summary == pre.summary,
        model::request_sent(pre, request_id, channel).0.summary == pre.summary,
        model::walk_timer(pre).0.summary == pre.summary,
{
}

/// Announcing a block twice leaves the summary as announcing it once does.
pub proof fn law_put_twice_is_put_once<R>(pre: ServiceView<R>, cid: Seq<u8>, first: R, second: R)
    ensures
        model::put(model::put(pre, cid, first).0, cid, second).0.summary == model::put(
            pre,
            cid,
            first,
        ).0.summary,
        model::put(model::put(pre, cid, first).0, cid, second).0 == model::put(pre, cid, first).0,
{
    law_insert_is_idempotent(pre.summary, cid);
}

/// After a purge the summary of the node answers no for every block.
pub proof fn law_purge_empties_summary<R>(pre: ServiceView<R>, key: Seq<u8>)
    ensures
        !summary_holds(
            model::handle_command(pre, NetworkCommand::<R>::AdminPurgeCache).0.summary,
            key,
        ),
{
    law_empty_summary_holds_nothing(key);
}

/// The state of a request after the first `n` of a sequence of inputs.
/// `guards[m]` holds the keys that are being fetched when input `m` comes:
/// other requests change them in between.
pub open spec fn proxy_after(
    start: ProxyView,
    inputs: Seq<ProxyInput>,
    guards: Seq<Set<Seq<u8>>>,
    parse_error: Option<Seq<char>>,
    n: int,
) -> ProxyView
    decreases n,
{
    if n <= 0 {
        start
    } else {
        proxy_step(
            proxy_after(start, inputs, guards, parse_error, n - 1),
            guards[n - 1],
            inputs[n - 1],
            parse_error,
        ).0
    }
}

/// The pieces of a body that came with the inputs from `from` up to `to`.
pub open spec fn chunks_between(inputs: Seq<ProxyInput>, from: int, to: int) -> Seq<u8>
    decreases to - from,
{
    if to <= from {
        Seq::empty()
    } else {
        chunks_between(inputs, from, to - 1) + (match inputs[to - 1] {
            ProxyInput::Chunk(bytes) => bytes@,
            _ => Seq::empty(),
        })
    }
}

/// Whether the body neither broke off nor ended with the inputs from `from`
/// up to `to`.
pub open spec fn body_unbroken(inputs: Seq<ProxyInput>, from: int, to: int) -> bool {
    forall|m: int|
        from <= m < to ==> !((#[trigger] inputs[m]) is ChunkError) && !(inputs[m] is EndOfBody)
}

/// Whether a body is being streamed for a reason: the upstream answered
/// `200 OK` at some input `j`, the body has not broken off since, and the
/// body gathered is the pieces that came since.
pub open spec fn streaming_since(
    state: ProxyView,
    inputs: Seq<ProxyInput>,
    n: int,
    j: int,
) -> bool {
    &&& 0 <= j < n
    &&& inputs[j] == (ProxyInput::UpstreamResponse { status: STATUS_OK })
    &&& body_unbroken(inputs, j + 1, n)
    &&& state.body == chunks_between(inputs, j + 1, n)
}

/// A request that streams does so since a `200 OK` of the upstream.
pub proof fn lemma_streaming_has_cause(
    start: ProxyView,
    inputs: Seq<ProxyInput>,
    guards: Seq<Set<Seq<u8>>>,
    parse_error: Option<Seq<char>>,
    n: int,
)
    requires
        start.state == ProxyState::Start,
        0 <= n <= inputs.len(),
    ensures
        proxy_after(start, inputs, guards, parse_error, n).key == start.key,
        proxy_after(start, inputs, guards, parse_error, n).state == ProxyState::Streaming
            ==> exists|j: int|
            streaming_since(proxy_after(start, inputs, guards, parse_error, n), inputs, n, j),
    decreases n,
{
    if n > 0 {
        lemma_streaming_has_cause(start, inputs, guards, parse_error, n - 1);
        let m = n - 1;
        let before = proxy_after(start, inputs, guards, parse_error, m);
        let after = proxy_after(start, inputs, guards, parse_error, n);
        if after.state == ProxyState::Streaming {
            if before.state == ProxyState::Streaming {
                let j = choose|j: int| streaming_since(before, inputs, m, j);
                assert(streaming_since(after, inputs, n, j));
            } else {
                assert(before.state == ProxyState::AwaitUpstream);
                assert(streaming_since(after, inputs, n, n - 1));
            }
        }
    }
}

/// The cache path writes to the cache only after a `200 OK` and a clean end
/// of the body. Whatever inputs a request gets, and whatever other requests
/// do meanwhile: if it hands a body to the cache at some input, that input
/// is the end of the upstream body; the upstream answered `200 OK` at an
/// earlier input; the body did not break off in between; and what is handed
/// to the cache is the pieces of the body that came in between, under the
/// key of the request.
pub proof fn law_cache_write_needs_clean_ok(
    start: ProxyView,
    inputs: Seq<ProxyInput>,
    guards: Seq<Set<Seq<u8>>>,
    parse_error: Option<Seq<char>>,
    n: int,
    i: int,
)
    requires
        start.state == ProxyState::Start,
        0 <= n < inputs.len(),
        ({
            let actions = proxy_step(
                proxy_after(start, inputs, guards, parse_error, n),
                guards[n],
                inputs[n],
                parse_error,
            ).2;
            0 <= i < actions.len() && actions[i] is StoreInCache
        }),
    ensures
        inputs[n] == ProxyInput::EndOfBody,
        exists|j: int|
            0 <= j < n && #[trigger] inputs[j] == (ProxyInput::UpstreamResponse {
                status: STATUS_OK,
            }) && body_unbroken(inputs, j + 1, n) && proxy_step(
                proxy_after(start, inputs, guards, parse_error, n),
                guards[n],
                inputs[n],
                parse_error,
            ).2 == seq![
                ProxyActionView::StoreInCache {
                    key: start.key,
                    value: chunks_between(inputs, j + 1, n),
                },
                ProxyActionView::FetchDone { key: start.key },
            ],
{
    lemma_streaming_has_cause(start, inputs, guards, parse_error, n);
    let before = proxy_after(start, inputs, guards, parse_error, n);
    assert(before.state == ProxyState::Streaming);
    let j = choose|j: int| streaming_since(before, inputs, n, j);
    assert(inputs[j] == (ProxyInput::UpstreamResponse { status: STATUS_OK }));
}

/// Whether a request is fetching from the upstream.
pub open spec fn fetching(request: ProxyView) -> bool {
    request.state == ProxyState::AwaitUpstream || request.state == ProxyState::Streaming
}

/// Whether at most one of the requests fetches each key, and every key that
/// is fetched is noted as such.
pub open spec fn single_flight(requests: Seq<ProxyView>, inflight: Set<Seq<u8>>) -> bool {
    &&& forall|i: int|
        0 <= i < requests.len() && fetching(#[trigger] requests[i]) ==> inflight.contains(
            key_bytes(requests[i].key),
        )
    &&& forall|i: int, j: int|
        0 <= i < requests.len() && 0 <= j < requests.len() && i != j && fetching(
            #[trigger] requests[i],
        ) && fetching(#[trigger] requests[j]) ==> key_bytes(requests[i].key) != key_bytes(
            requests[j].key,
        )
}

/// At any time at most one request fetches a key from the upstream: where
/// this holds of the requests of a proxy before one of them takes a step, it
/// holds afterwards.
pub proof fn law_one_fetch_per_key(
    requests: Seq<ProxyView>,
    inflight: Set<Seq<u8>>,
    i: int,
    input: ProxyInput,
    parse_error: Option<Seq<char>>,
)
    requires
        single_flight(requests, inflight),
        0 <= i < requests.len(),
    ensures
        ({
            let step = proxy_step(requests[i], inflight, input, parse_error);
            single_flight(requests.update(i, step.0), step.1)
        }),
{
    let step = proxy_step(requests[i], inflight, input, parse_error);
    let after = requests.update(i, step.0);
    assert(step.0.key == requests[i].key);
    assert forall|a: int| 0 <= a < after.len() && fetching(#[trigger] after[a]) implies step.1.contains(
        key_bytes(after[a].key),
    ) by {
        if a != i {
            assert(after[a] == requests[a]);
            assert(fetching(requests[a]));
            if fetching(requests[i]) {
                assert(key_bytes(requests[a].key) != key_bytes(requests[i].key));
            }
        }
    }
    assert forall|a: int, b: int|
        0 <= a < after.len() && 0 <= b < after.len() && a != b && fetching(#[trigger] after[a])
            && fetching(#[trigger] after[b]) implies key_bytes(after[a].key) != key_bytes(
        after[b].key,
    ) by {
        if a != i && b != i {
            assert(after[a] == requests[a] && after[b] == requests[b]);
        } else {
            let other = if a == i { b } else { a };
            assert(after[other] == requests[other]);
            assert(fetching(requests[other]));
            assert(inflight.contains(key_bytes(requests[other].key)));
            if fetching(requests[i]) {
                assert(key_bytes(requests[other].key) != key_bytes(requests[i].key));
            }
        }
    }
}

/// A proxy that has no request yet fetches nothing.
pub proof fn law_no_request_no_fetch()
    ensures
        single_flight(Seq::<ProxyView>::empty(), Set::<Seq<u8>>::empty()),
{
}

/// A request that has not started fetches nothing: it can join the requests
/// of a proxy at any time.
pub proof fn law_new_request_keeps_single_flight(
    requests: Seq<ProxyView>,
    inflight: Set<Seq<u8>>,
    request: ProxyView,
)
    requires
        single_flight(requests, inflight),
        request.state == ProxyState::Start,
    ensures
        single_flight(requests.push(request), inflight),
{
    let grown = requests.push(request);
    assert forall|a: int| 0 <= a < grown.len() && fetching(#[trigger] grown[a]) implies inflight.contains(
        key_bytes(grown[a].key),
    ) by {
        assert(grown[a] == requests[a]);
    }
    assert forall|a: int, b: int|
        0 <= a < grown.len() && 0 <= b < grown.len() && a != b && fetching(#[trigger] grown[a])
            && fetching(#[trigger] grown[b]) implies key_bytes(grown[a].key) != key_bytes(
        grown[b].key,
    ) by {
        assert(grown[a] == requests[a] && grown[b] == requests[b]);
    }
}

} // verus!

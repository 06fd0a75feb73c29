use ursa_node::proxy::{
    proxy_pass, purge_cache_handler, InflightFetches, MemoryCache, ProxyAction, ProxyEvent,
    ProxyInput, ProxyPass, ProxyState, PIPE_CAPACITY, STATUS_INTERNAL_SERVER_ERROR, STATUS_OK,
};

fn request(path: &str, no_cache: bool) -> ProxyPass {
    ProxyPass::new(path.to_string(), "upstream.example:8080".to_string(), no_cache)
}

/// Runs one request against a cache and an upstream that answers `200 OK`
/// with the given pieces. Returns what the client got and whether the
/// upstream was contacted.
fn serve(cache: &mut MemoryCache, path: &str, no_cache: bool, pieces: &[&[u8]]) -> (Vec<u8>, bool) {
    let mut fetches = InflightFetches::new();
    let mut req = request(path, no_cache);
    let mut client: Vec<u8> = Vec::new();
    let mut contacted = false;
    let mut pending = vec![ProxyInput::Start];
    while let Some(input) = pending.pop() {
        for action in proxy_pass(&mut req, &mut fetches, input) {
            match action {
                ProxyAction::AskCache { key } => {
                    let reply = cache.handle_proxy_event(ProxyEvent::GetRequest { key });
                    pending.push(ProxyInput::CacheReply(reply));
                }
                ProxyAction::ServeCached { body } => client = body,
                ProxyAction::FetchUpstream { .. } => {
                    contacted = true;
                    pending.push(ProxyInput::EndOfBody);
                    for piece in pieces.iter().rev() {
                        pending.push(ProxyInput::Chunk(piece.to_vec()));
                    }
                    pending.push(ProxyInput::UpstreamResponse { status: 200 });
                }
                ProxyAction::StreamBody { .. } => {}
                ProxyAction::WriteChunk { bytes } => client.extend_from_slice(&bytes),
                ProxyAction::StoreInCache { key, value } => {
                    cache.handle_proxy_event(ProxyEvent::UpstreamData { key, value });
                }
                ProxyAction::FetchDone { key } => assert_eq!(key, path),
                other => panic!("unexpected action {:?}", other),
            }
        }
    }
    assert_eq!(req.state(), ProxyState::Done);
    assert!(fetches.begin(path));
    (client, contacted)
}

#[test]
fn status_codes_and_pipe_size() {
    assert_eq!(STATUS_OK, 200);
    assert_eq!(STATUS_INTERNAL_SERVER_ERROR, 500);
    assert_eq!(PIPE_CAPACITY, 100);
}

#[test]
fn proxy_cache_miss_then_hit() {
    let mut cache = MemoryCache::new();
    let (first, contacted) = serve(&mut cache, "k", false, &[b"a", b"bc"]);
    assert_eq!(first, b"abc".to_vec());
    assert!(contacted);
    assert_eq!(cache.get("k"), Some(b"abc".to_vec()));

    let (second, contacted_again) = serve(&mut cache, "k", false, &[b"other"]);
    assert_eq!(second, b"abc".to_vec());
    assert!(!contacted_again);
}

#[test]
fn proxy_bypass_contacts_the_upstream() {
    let mut cache = MemoryCache::new();
    cache.insert("k", b"abc".to_vec());
    let (body, contacted) = serve(&mut cache, "k", true, &[b"fresh"]);
    assert!(contacted);
    assert_eq!(body, b"fresh".to_vec());
    assert_eq!(cache.get("k"), Some(b"fresh".to_vec()));
}

#[test]
fn a_request_asks_the_cache_first() {
    let mut fetches = InflightFetches::new();
    let mut req = request("k", false);
    assert_eq!(req.state(), ProxyState::Start);
    assert_eq!(
        proxy_pass(&mut req, &mut fetches, ProxyInput::Start),
        vec![ProxyAction::AskCache { key: "k".to_string() }]
    );
    assert_eq!(req.state(), ProxyState::AwaitCache);
    assert_eq!(
        proxy_pass(&mut req, &mut fetches, ProxyInput::CacheReply(Some(b"abc".to_vec()))),
        vec![ProxyAction::ServeCached { body: b"abc".to_vec() }]
    );
    assert_eq!(req.state(), ProxyState::Done);
}

#[test]
fn a_miss_goes_to_the_upstream() {
    let mut fetches = InflightFetches::new();
    let mut req = request("some/path", false);
    proxy_pass(&mut req, &mut fetches, ProxyInput::Start);
    assert_eq!(req.endpoint(), "http://upstream.example:8080/some/path");
    assert_eq!(
        proxy_pass(&mut req, &mut fetches, ProxyInput::CacheReply(None)),
        vec![ProxyAction::FetchUpstream {
            endpoint: "http://upstream.example:8080/some/path".to_string()
        }]
    );
    assert_eq!(req.state(), ProxyState::AwaitUpstream);
}

#[test]
fn a_cache_that_does_not_answer_counts_as_a_miss() {
    let mut fetches = InflightFetches::new();
    let mut req = request("k", false);
    proxy_pass(&mut req, &mut fetches, ProxyInput::Start);
    assert_eq!(
        proxy_pass(&mut req, &mut fetches, ProxyInput::CacheUnavailable),
        vec![ProxyAction::FetchUpstream { endpoint: "http://upstream.example:8080/k".to_string() }]
    );
}

#[test]
fn no_cache_skips_the_cache() {
    let mut fetches = InflightFetches::new();
    let mut req = request("k", true);
    assert_eq!(
        proxy_pass(&mut req, &mut fetches, ProxyInput::Start),
        vec![ProxyAction::FetchUpstream { endpoint: "http://upstream.example:8080/k".to_string() }]
    );
    assert_eq!(req.state(), ProxyState::AwaitUpstream);
}

#[test]
fn an_address_that_is_no_uri_is_answered_with_the_error() {
    let mut fetches = InflightFetches::new();
    let mut req = ProxyPass::new("k".to_string(), "bad host".to_string(), true);
    let expected = "http://bad host/k".parse::<hyper::Uri>().expect_err("no uri").to_string();
    assert_eq!(
        proxy_pass(&mut req, &mut fetches, ProxyInput::Start),
        vec![ProxyAction::RespondText { text: expected.clone() }]
    );
    assert_eq!(expected, "invalid uri character");
    assert_eq!(req.state(), ProxyState::Done);
}

#[test]
fn the_parse_error_is_given_from_outside() {
    let mut fetches = InflightFetches::new();
    let mut req = request("k", true);
    assert_eq!(
        req.step_with(&mut fetches, ProxyInput::Start, Some("no good".to_string())),
        vec![ProxyAction::RespondText { text: "no good".to_string() }]
    );
    assert_eq!(req.state(), ProxyState::Done);
    let mut other = request("k", false);
    other.step_with(&mut fetches, ProxyInput::Start, Some("no good".to_string()));
    assert_eq!(other.state(), ProxyState::AwaitCache);
    assert_eq!(
        other.fetch_with(&mut fetches, None),
        vec![ProxyAction::FetchUpstream { endpoint: "http://upstream.example:8080/k".to_string() }]
    );
}

#[test]
fn a_response_that_is_not_ok_is_forwarded_and_not_cached() {
    let mut fetches = InflightFetches::new();
    let mut req = request("k", true);
    proxy_pass(&mut req, &mut fetches, ProxyInput::Start);
    assert_eq!(
        proxy_pass(&mut req, &mut fetches, ProxyInput::UpstreamResponse { status: 404 }),
        vec![ProxyAction::Forward, ProxyAction::FetchDone { key: "k".to_string() }]
    );
    assert_eq!(req.state(), ProxyState::Done);
    assert!(proxy_pass(&mut req, &mut fetches, ProxyInput::Chunk(b"abc".to_vec())).is_empty());
    assert!(proxy_pass(&mut req, &mut fetches, ProxyInput::EndOfBody).is_empty());
}

#[test]
fn an_upstream_that_cannot_be_reached_gives_a_server_error() {
    let mut fetches = InflightFetches::new();
    let mut req = request("k", true);
    proxy_pass(&mut req, &mut fetches, ProxyInput::Start);
    assert_eq!(
        proxy_pass(&mut req, &mut fetches, ProxyInput::UpstreamFailed { reason: "refused".to_string() }),
        vec![
            ProxyAction::RespondError { status: 500, text: "refused".to_string() },
            ProxyAction::FetchDone { key: "k".to_string() },
        ]
    );
    assert_eq!(req.state(), ProxyState::Done);
}

#[test]
fn a_body_is_streamed_and_cached_at_its_end() {
    let mut fetches = InflightFetches::new();
    let mut req = request("k", true);
    proxy_pass(&mut req, &mut fetches, ProxyInput::Start);
    assert_eq!(
        proxy_pass(&mut req, &mut fetches, ProxyInput::UpstreamResponse { status: 200 }),
        vec![ProxyAction::StreamBody { capacity: 100 }]
    );
    assert_eq!(req.state(), ProxyState::Streaming);
    assert_eq!(
        proxy_pass(&mut req, &mut fetches, ProxyInput::Chunk(b"ab".to_vec())),
        vec![ProxyAction::WriteChunk { bytes: b"ab".to_vec() }]
    );
    assert_eq!(
        proxy_pass(&mut req, &mut fetches, ProxyInput::Chunk(b"".to_vec())),
        vec![ProxyAction::WriteChunk { bytes: b"".to_vec() }]
    );
    assert_eq!(
        proxy_pass(&mut req, &mut fetches, ProxyInput::Chunk(b"c".to_vec())),
        vec![ProxyAction::WriteChunk { bytes: b"c".to_vec() }]
    );
    assert_eq!(
        proxy_pass(&mut req, &mut fetches, ProxyInput::EndOfBody),
        vec![
            ProxyAction::StoreInCache { key: "k".to_string(), value: b"abc".to_vec() },
            ProxyAction::FetchDone { key: "k".to_string() },
        ]
    );
    assert_eq!(req.state(), ProxyState::Done);
}

#[test]
fn an_empty_body_is_cached_too() {
    let mut fetches = InflightFetches::new();
    let mut req = request("k", true);
    proxy_pass(&mut req, &mut fetches, ProxyInput::Start);
    proxy_pass(&mut req, &mut fetches, ProxyInput::UpstreamResponse { status: 200 });
    assert_eq!(
        proxy_pass(&mut req, &mut fetches, ProxyInput::EndOfBody),
        vec![
            ProxyAction::StoreInCache { key: "k".to_string(), value: vec![] },
            ProxyAction::FetchDone { key: "k".to_string() },
        ]
    );
}

#[test]
fn a_body_that_breaks_off_is_not_cached() {
    let mut fetches = InflightFetches::new();
    let mut req = request("k", true);
    proxy_pass(&mut req, &mut fetches, ProxyInput::Start);
    proxy_pass(&mut req, &mut fetches, ProxyInput::UpstreamResponse { status: 200 });
    proxy_pass(&mut req, &mut fetches, ProxyInput::Chunk(b"ab".to_vec()));
    assert_eq!(
        proxy_pass(&mut req, &mut fetches, ProxyInput::ChunkError),
        vec![ProxyAction::Abort, ProxyAction::FetchDone { key: "k".to_string() }]
    );
    assert_eq!(req.state(), ProxyState::Done);
    assert!(proxy_pass(&mut req, &mut fetches, ProxyInput::EndOfBody).is_empty());
}

#[test]
fn inputs_that_are_not_waited_for_change_nothing() {
    let mut fetches = InflightFetches::new();
    let mut req = request("k", false);
    assert!(proxy_pass(&mut req, &mut fetches, ProxyInput::EndOfBody).is_empty());
    assert!(proxy_pass(&mut req, &mut fetches, ProxyInput::UpstreamResponse { status: 200 }).is_empty());
    assert!(proxy_pass(&mut req, &mut fetches, ProxyInput::CacheReply(None)).is_empty());
    assert_eq!(req.state(), ProxyState::Start);
    proxy_pass(&mut req, &mut fetches, ProxyInput::Start);
    assert!(proxy_pass(&mut req, &mut fetches, ProxyInput::Start).is_empty());
    assert!(proxy_pass(&mut req, &mut fetches, ProxyInput::Chunk(b"x".to_vec())).is_empty());
    assert_eq!(req.state(), ProxyState::AwaitCache);
}

#[test]
fn the_cache_keeps_the_last_body_of_a_key() {
    let mut cache = MemoryCache::new();
    assert_eq!(cache.get("k"), None);
    assert_eq!(
        cache.handle_proxy_event(ProxyEvent::UpstreamData {
            key: "k".to_string(),
            value: b"one".to_vec()
        }),
        None
    );
    cache.insert("k", b"two".to_vec());
    cache.insert("other", b"three".to_vec());
    assert_eq!(
        cache.handle_proxy_event(ProxyEvent::GetRequest { key: "k".to_string() }),
        Some(b"two".to_vec())
    );
    assert_eq!(cache.get("other"), Some(b"three".to_vec()));
    assert_eq!(cache.get("missing"), None);
}

#[test]
fn purge_empties_the_cache_and_answers_ok() {
    let mut cache = MemoryCache::new();
    cache.insert("k", b"abc".to_vec());
    assert_eq!(purge_cache_handler(&mut cache), 200);
    assert_eq!(cache.get("k"), None);
    let (body, contacted) = serve(&mut cache, "k", false, &[b"new"]);
    assert!(contacted);
    assert_eq!(body, b"new".to_vec());
}

#[test]
fn a_second_request_waits_for_the_fetch_that_is_under_way() {
    let mut fetches = InflightFetches::new();
    let mut cache = MemoryCache::new();
    let mut first = request("k", false);
    let mut second = request("k", false);
    let mut other = request("other", false);

    proxy_pass(&mut first, &mut fetches, ProxyInput::Start);
    assert_eq!(
        proxy_pass(&mut first, &mut fetches, ProxyInput::CacheReply(None)),
        vec![ProxyAction::FetchUpstream { endpoint: "http://upstream.example:8080/k".to_string() }]
    );
    proxy_pass(&mut second, &mut fetches, ProxyInput::Start);
    assert_eq!(
        proxy_pass(&mut second, &mut fetches, ProxyInput::CacheReply(None)),
        vec![ProxyAction::WaitForFetch { key: "k".to_string() }]
    );
    assert_eq!(second.state(), ProxyState::AwaitLeader);
    proxy_pass(&mut other, &mut fetches, ProxyInput::Start);
    assert_eq!(
        proxy_pass(&mut other, &mut fetches, ProxyInput::CacheReply(None)),
        vec![ProxyAction::FetchUpstream {
            endpoint: "http://upstream.example:8080/other".to_string()
        }]
    );

    proxy_pass(&mut first, &mut fetches, ProxyInput::UpstreamResponse { status: 200 });
    proxy_pass(&mut first, &mut fetches, ProxyInput::Chunk(b"abc".to_vec()));
    assert!(proxy_pass(&mut second, &mut fetches, ProxyInput::CacheReply(None)).is_empty());
    for action in proxy_pass(&mut first, &mut fetches, ProxyInput::EndOfBody) {
        if let ProxyAction::StoreInCache { key, value } = action {
            cache.insert(&key, value);
        }
    }
    assert_eq!(
        proxy_pass(&mut second, &mut fetches, ProxyInput::FetchFinished),
        vec![ProxyAction::AskCache { key: "k".to_string() }]
    );
    assert_eq!(
        proxy_pass(&mut second, &mut fetches, ProxyInput::CacheReply(cache.get("k"))),
        vec![ProxyAction::ServeCached { body: b"abc".to_vec() }]
    );
    assert_eq!(second.state(), ProxyState::Done);
}

#[test]
fn a_request_that_waited_fetches_itself_when_the_fetch_failed() {
    let mut fetches = InflightFetches::new();
    let mut first = request("k", true);
    let mut second = request("k", true);
    proxy_pass(&mut first, &mut fetches, ProxyInput::Start);
    assert_eq!(
        proxy_pass(&mut second, &mut fetches, ProxyInput::Start),
        vec![ProxyAction::WaitForFetch { key: "k".to_string() }]
    );
    proxy_pass(&mut first, &mut fetches, ProxyInput::UpstreamResponse { status: 200 });
    proxy_pass(&mut first, &mut fetches, ProxyInput::ChunkError);
    proxy_pass(&mut second, &mut fetches, ProxyInput::FetchFinished);
    assert_eq!(
        proxy_pass(&mut second, &mut fetches, ProxyInput::CacheReply(None)),
        vec![ProxyAction::FetchUpstream { endpoint: "http://upstream.example:8080/k".to_string() }]
    );
    assert_eq!(second.state(), ProxyState::AwaitUpstream);
}

#[test]
fn one_fetch_per_key_leads() {
    let mut fetches = InflightFetches::new();
    assert!(fetches.begin("k"));
    assert!(!fetches.begin("k"));
    assert!(fetches.begin("other"));
    fetches.finish("k");
    assert!(fetches.begin("k"));
    assert!(!fetches.begin("other"));
    fetches.finish("missing");
}

//! The cache path of the proxy: what happens to one `GET` for a key.
//!
//! The path asks the cache unless the client forbade it, and on a miss
//! fetches from the upstream. A `200 OK` is streamed to the client while it
//! is gathered for the cache; it reaches the cache only when the upstream
//! body has ended cleanly. At any time at most one request fetches a key
//! from the upstream: a request that misses while another fetches the same
//! key waits for that fetch and asks the cache again. The handler does the
//! waiting, the sending and the receiving; what to do next is decided here.

use vstd::prelude::*;
use vstd::string::StringExecFns;

use crate::bytemap::ByteMap;
use crate::ident::copy_bytes;

verus! {

/// The status that lets a response into the cache.
pub const STATUS_OK: u16 = 200;

/// The status of a response that stands for a failed upstream request.
pub const STATUS_INTERNAL_SERVER_ERROR: u16 = 500;

/// The size of the pipe between the upstream body and the client.
pub const PIPE_CAPACITY: usize = 100;

/// Where one request stands.
#[derive(Debug, Clone, Copy, PartialEq, Eq, Structural)]
pub enum ProxyState {
    /// Nothing was done yet.
    Start,
    /// The cache was asked for the key.
    AwaitCache,
    /// Another request fetches the key; this one waits for it.
    AwaitLeader,
    /// The upstream was asked for the key.
    AwaitUpstream,
    /// The upstream answered `200 OK`; its body is on its way.
    Streaming,
    /// The request is over.
    Done,
}

/// What happened to a request that the cache path waits for.
#[derive(Debug, PartialEq, Eq)]
pub enum ProxyInput {
    /// The request came in.
    Start,
    /// The cache answered: the cached body, or `None` on a miss.
    CacheReply(Option<Vec<u8>>),
    /// The cache did not answer.
    CacheUnavailable,
    /// The fetch that this request waits for is over.
    FetchFinished,
    /// The upstream answered with this status.
    UpstreamResponse { status: u16 },
    /// The upstream could not be reached.
    UpstreamFailed { reason: String },
    /// The next piece of the upstream body.
    Chunk(Vec<u8>),
    /// The upstream body broke off.
    ChunkError,
    /// The upstream body ended.
    EndOfBody,
}

/// What the handler is to do.
#[derive(Debug, PartialEq, Eq)]
pub enum ProxyAction {
    /// Ask the cache for the key.
    AskCache { key: String },
    /// Answer the client from the cache.
    ServeCached { body: Vec<u8> },
    /// Answer the client with a text.
    RespondText { text: String },
    /// Wait until the fetch of the key that is under way is over.
    WaitForFetch { key: String },
    /// Send a `GET` to the upstream.
    FetchUpstream { endpoint: String },
    /// Hand the upstream response to the client as it is, headers and body.
    Forward,
    /// Answer the client with a status and a text.
    RespondError { status: u16, text: String },
    /// Open a pipe of this size and give its read half to the client as the
    /// body of the response.
    StreamBody { capacity: usize },
    /// Write a piece of the body into the pipe.
    WriteChunk { bytes: Vec<u8> },
    /// Give up the upstream body; the client sees its stream end.
    Abort,
    /// Hand the whole body to the cache.
    StoreInCache { key: String, value: Vec<u8> },
    /// Tell those that wait for the fetch of the key that it is over.
    FetchDone { key: String },
}

pub enum ProxyActionView {
    AskCache { key: Seq<char> },
    ServeCached { body: Seq<u8> },
    RespondText { text: Seq<char> },
    WaitForFetch { key: Seq<char> },
    FetchUpstream { endpoint: Seq<char> },
    Forward,
    RespondError { status: u16, text: Seq<char> },
    StreamBody { capacity: usize },
    WriteChunk { bytes: Seq<u8> },
    Abort,
    StoreInCache { key: Seq<char>, value: Seq<u8> },
    FetchDone { key: Seq<char> },
}

impl View for ProxyAction {
    type V = ProxyActionView;

    open spec fn view(&self) -> ProxyActionView {
        match self {
            ProxyAction::AskCache { key } => ProxyActionView::AskCache { key: key@ },
            ProxyAction::ServeCached { body } => ProxyActionView::ServeCached { body: body@ },
            ProxyAction::RespondText { text } => ProxyActionView::RespondText { text: text@ },
            ProxyAction::WaitForFetch { key } => ProxyActionView::WaitForFetch { key: key@ },
            ProxyAction::FetchUpstream { endpoint } => ProxyActionView::FetchUpstream {
                endpoint: endpoint@,
            },
            ProxyAction::Forward => ProxyActionView::Forward,
            ProxyAction::RespondError { status, text } => ProxyActionView::RespondError {
                status: *status,
                text: text@,
            },
            ProxyAction::StreamBody { capacity } => ProxyActionView::StreamBody {
                capacity: *capacity,
            },
            ProxyAction::WriteChunk { bytes } => ProxyActionView::WriteChunk { bytes: bytes@ },
            ProxyAction::Abort => ProxyActionView::Abort,
            ProxyAction::StoreInCache { key, value } => ProxyActionView::StoreInCache {
                key: key@,
                value: value@,
            },
            ProxyAction::FetchDone { key } => ProxyActionView::FetchDone { key: key@ },
        }
    }
}

/// What a list of actions stands for, in its order.
pub open spec fn action_views(actions: Seq<ProxyAction>) -> Seq<ProxyActionView> {
    Seq::new(actions.len(), |i: int| actions[i]@)
}

/// One request as a mathematical value.
pub struct ProxyView {
    /// The path that was asked for, which is the key of the cache.
    pub key: Seq<char>,
    /// The host that the proxy passes requests to.
    pub upstream: Seq<char>,
    /// Whether the client asked that the cache not be read.
    pub no_cache: bool,
    pub state: ProxyState,
    /// What has come of the upstream body so far.
    pub body: Seq<u8>,
}

/// The request, the keys that are being fetched, and the actions after one
/// input.
pub type ProxyStep = (ProxyView, Set<Seq<u8>>, Seq<ProxyActionView>);

/// What the parser of the HTTP stack says of an address: `None` where it is
/// a URI, else the words of the error.
pub uninterp spec fn uri_error(endpoint: Seq<char>) -> Option<Seq<char>>;

/// The address of `key` at the upstream.
pub open spec fn endpoint_of(upstream: Seq<char>, key: Seq<char>) -> Seq<char> {
    "http://"@ + upstream + "/"@ + key
}

/// The bytes under which the cache and the fetches know a key.
pub open spec fn key_bytes(key: Seq<char>) -> Seq<u8> {
    vstd::utf8::encode_utf8(key)
}

/// The cache has nothing to give, or is not to be read. Where the address
/// is no URI, the client gets the words of the error. Where another request
/// fetches the key, this one waits for it, and then asks the cache whether
/// or not the client forbade reading it: what the cache then holds is as
/// fresh as a fetch of its own would be. Else this request fetches the key
/// from the upstream.
pub open spec fn fetch(
    pre: ProxyView,
    inflight: Set<Seq<u8>>,
    parse_error: Option<Seq<char>>,
) -> ProxyStep {
    match parse_error {
        Some(words) => (
            ProxyView { state: ProxyState::Done, ..pre },
            inflight,
            seq![ProxyActionView::RespondText { text: words }],
        ),
        None => {
            if inflight.contains(key_bytes(pre.key)) {
                (
                    ProxyView { state: ProxyState::AwaitLeader, ..pre },
                    inflight,
                    seq![ProxyActionView::WaitForFetch { key: pre.key }],
                )
            } else {
                (
                    ProxyView { state: ProxyState::AwaitUpstream, ..pre },
                    inflight.insert(key_bytes(pre.key)),
                    seq![
                        ProxyActionView::FetchUpstream {
                            endpoint: endpoint_of(pre.upstream, pre.key),
                        },
                    ],
                )
            }
        },
    }
}

/// The fetch of this request is over: the request is done after `last`, the
/// key is no longer being fetched, and those that wait for it are told.
pub open spec fn fetch_over(
    pre: ProxyView,
    inflight: Set<Seq<u8>>,
    last: ProxyActionView,
) -> ProxyStep {
    (
        ProxyView { state: ProxyState::Done, ..pre },
        inflight.remove(key_bytes(pre.key)),
        seq![last, ProxyActionView::FetchDone { key: pre.key }],
    )
}

/// The longest body that can be gathered.
pub open spec fn body_limit() -> int {
    isize::MAX as int
}

/// One step of the cache path. `inflight` holds the keys that are being
/// fetched when the input comes. `parse_error` is what the parser says of
/// the upstream address of the key; it is read only when the upstream is
/// turned to. An input that the state does not wait for changes nothing.
pub open spec fn proxy_step(
    pre: ProxyView,
    inflight: Set<Seq<u8>>,
    input: ProxyInput,
    parse_error: Option<Seq<char>>,
) -> ProxyStep {
    match (pre.state, input) {
        (ProxyState::Start, ProxyInput::Start) => {
            if pre.no_cache {
                fetch(pre, inflight, parse_error)
            } else {
                (
                    ProxyView { state: ProxyState::AwaitCache, ..pre },
                    inflight,
                    seq![ProxyActionView::AskCache { key: pre.key }],
                )
            }
        },
        (ProxyState::AwaitCache, ProxyInput::CacheReply(Some(body))) => (
            ProxyView { state: ProxyState::Done, ..pre },
            inflight,
            seq![ProxyActionView::ServeCached { body: body@ }],
        ),
        (ProxyState::AwaitCache, ProxyInput::CacheReply(None)) => fetch(
            pre,
            inflight,
            parse_error,
        ),
        (ProxyState::AwaitCache, ProxyInput::CacheUnavailable) => fetch(
            pre,
            inflight,
            parse_error,
        ),
        (ProxyState::AwaitLeader, ProxyInput::FetchFinished) => (
            ProxyView { state: ProxyState::AwaitCache, ..pre },
            inflight,
            seq![ProxyActionView::AskCache { key: pre.key }],
        ),
        (ProxyState::AwaitUpstream, ProxyInput::UpstreamResponse { status }) => {
            if status == STATUS_OK {
                (
                    ProxyView { state: ProxyState::Streaming, body: Seq::empty(), ..pre },
                    inflight,
                    seq![ProxyActionView::StreamBody { capacity: PIPE_CAPACITY }],
                )
            } else {
                fetch_over(pre, inflight, ProxyActionView::Forward)
            }
        },
        (ProxyState::AwaitUpstream, ProxyInput::UpstreamFailed { reason }) => fetch_over(
            pre,
            inflight,
            ProxyActionView::RespondError { status: STATUS_INTERNAL_SERVER_ERROR, text: reason@ },
        ),
        (ProxyState::Streaming, ProxyInput::Chunk(bytes)) => {
            if pre.body.len() + bytes@.len() <= body_limit() {
                (
                    ProxyView { body: pre.body + bytes@, ..pre },
                    inflight,
                    seq![ProxyActionView::WriteChunk { bytes: bytes@ }],
                )
            } else {
                fetch_over(pre, inflight, ProxyActionView::Abort)
            }
        },
        (ProxyState::Streaming, ProxyInput::ChunkError) => fetch_over(
            pre,
            inflight,
            ProxyActionView::Abort,
        ),
        (ProxyState::Streaming, ProxyInput::EndOfBody) => fetch_over(
            pre,
            inflight,
            ProxyActionView::StoreInCache { key: pre.key, value: pre.body },
        ),
        _ => (pre, inflight, Seq::empty()),
    }
}

/// `str::parse` to `hyper::Uri`, and `to_string` of its error: whether the
/// parser of the HTTP stack takes the address for a URI, and if it does not,
/// the words in which it says why. Both depend on the characters of the
/// address alone.
#[verifier::external_body]
fn parse_error_of(endpoint: &str) -> (words: Option<String>)
    ensures
        words is Some <==> uri_error(endpoint@) is Some,
        words matches Some(w) ==> uri_error(endpoint@) == Some(w@),
{
    match endpoint.parse::<hyper::Uri>() {
        Ok(_) => None,
        Err(e) => Some(e.to_string()),
    }
}

/// `bytes::BufMut::put_slice` on a vector: the bytes of `chunk` are added at
/// its end. The vector grows as needed, up to the longest that a vector can
/// be.
#[verifier::external_body]
fn put_chunk(buffer: &mut Vec<u8>, chunk: &[u8])
    requires
        old(buffer)@.len() + chunk@.len() <= isize::MAX,
    ensures
        final(buffer)@ == old(buffer)@ + chunk@,
{
    bytes::BufMut::put_slice(buffer, chunk);
}

/// The keys for which a fetch from the upstream is under way. All requests
/// of a proxy share one such table.
#[derive(Debug)]
pub struct InflightFetches {
    map: ByteMap<()>,
}

impl View for InflightFetches {
    type V = Set<Seq<u8>>;

    closed spec fn view(&self) -> Set<Seq<u8>> {
        self.map@.dom()
    }
}

impl InflightFetches {
    pub closed spec fn wf(&self) -> bool {
        self.map.wf()
    }

    pub fn new() -> (fetches: InflightFetches)
        ensures
            fetches.wf(),
            fetches@ == Set::<Seq<u8>>::empty(),
    {
        let fetches = InflightFetches { map: ByteMap::new() };
        assert(fetches@ =~= Set::<Seq<u8>>::empty());
        fetches
    }

    /// Whether a fetch for `key` is under way.
    pub fn is_fetching(&self, key: &str) -> (busy: bool)
        requires
            self.wf(),
        ensures
            busy == self@.contains(key_bytes(key@)),
    {
        self.map.contains_key(key.as_bytes())
    }

    /// Notes that a fetch for `key` starts. Says whether the caller leads:
    /// it does when no fetch for the key was under way.
    pub fn begin(&mut self, key: &str) -> (leads: bool)
        requires
            old(self).wf(),
        ensures
            final(self).wf(),
            leads == !old(self)@.contains(key_bytes(key@)),
            final(self)@ == old(self)@.insert(key_bytes(key@)),
    {
        let leads = !self.map.contains_key(key.as_bytes());
        if leads {
            self.map.insert(copy_bytes(key.as_bytes()), ());
        }
        assert(self@ =~= old(self)@.insert(key_bytes(key@)));
        leads
    }

    /// Notes that the fetch for `key` is over.
    pub fn finish(&mut self, key: &str)
        requires
            old(self).wf(),
        ensures
            final(self).wf(),
            final(self)@ == old(self)@.remove(key_bytes(key@)),
    {
        self.map.remove(key.as_bytes());
        assert(self@ =~= old(self)@.remove(key_bytes(key@)));
    }
}

/// The words of a parse error as a mathematical value.
pub open spec fn words_view(words: Option<String>) -> Option<Seq<char>> {
    match words {
        Some(w) => Some(w@),
        None => None,
    }
}

/// One `GET` for a key on its way through the cache path.
#[derive(Debug)]
pub struct ProxyPass {
    key: String,
    upstream: String,
    no_cache: bool,
    state: ProxyState,
    body: Vec<u8>,
}

impl View for ProxyPass {
    type V = ProxyView;

    closed spec fn view(&self) -> ProxyView {
        ProxyView {
            key: self.key@,
            upstream: self.upstream@,
            no_cache: self.no_cache,
            state: self.state,
            body: self.body@,
        }
    }
}

impl ProxyPass {
    /// A request for `path`, to be passed to the host `upstream` on a miss.
    /// `no_cache` says that the client forbade reading the cache.
    pub fn new(path: String, upstream: String, no_cache: bool) -> (request: ProxyPass)
        ensures
            request@ == (ProxyView {
                key: path@,
                upstream: upstream@,
                no_cache,
                state: ProxyState::Start,
                body: Seq::empty(),
            }),
    {
        ProxyPass { key: path, upstream, no_cache, state: ProxyState::Start, body: Vec::new() }
    }

    pub fn state(&self) -> (state: ProxyState)
        ensures
            state == self@.state,
    {
        self.state
    }

    /// The address of the key at the upstream.
    pub fn endpoint(&self) -> (endpoint: String)
        ensures
            endpoint@ == endpoint_of(self@.upstream, self@.key),
    {
        let mut endpoint = String::from_str("http://");
        endpoint.append(self.upstream.as_str());
        endpoint.append("/");
        endpoint.append(self.key.as_str());
        endpoint
    }

    /// Turns to the upstream, given what the parser said of its address.
    pub fn fetch_with(&mut self, fetches: &mut InflightFetches, parse_error: Option<String>) -> (actions:
        Vec<ProxyAction>)
        requires
            old(fetches).wf(),
        ensures
            final(fetches).wf(),
            (final(self)@, final(fetches)@, action_views(actions@)) == fetch(
                old(self)@,
                old(fetches)@,
                words_view(parse_error),
            ),
    {
        let mut actions: Vec<ProxyAction> = Vec::new();
        match parse_error {
            Some(words) => {
                self.state = ProxyState::Done;
                actions.push(ProxyAction::RespondText { text: words });
            },
            None => {
                if fetches.begin(self.key.as_str()) {
                    self.state = ProxyState::AwaitUpstream;
                    actions.push(ProxyAction::FetchUpstream { endpoint: self.endpoint() });
                } else {
                    self.state = ProxyState::AwaitLeader;
                    actions.push(ProxyAction::WaitForFetch { key: self.key.clone() });
                    assert(fetches@ =~= old(fetches)@);
                }
            },
        }
        assert(action_views(actions@) =~= fetch(
            old(self)@,
            old(fetches)@,
            words_view(parse_error),
        ).2);
        actions
    }

    /// Ends the fetch of this request after a last action.
    fn end_fetch(&mut self, fetches: &mut InflightFetches, last: ProxyAction) -> (actions: Vec<
        ProxyAction,
    >)
        requires
            old(fetches).wf(),
        ensures
            final(fetches).wf(),
            (final(self)@, final(fetches)@, action_views(actions@)) == fetch_over(
                old(self)@,
                old(fetches)@,
                last@,
            ),
    {
        let mut actions: Vec<ProxyAction> = Vec::new();
        self.state = ProxyState::Done;
        fetches.finish(self.key.as_str());
        actions.push(last);
        actions.push(ProxyAction::FetchDone { key: self.key.clone() });
        assert(action_views(actions@) =~= fetch_over(old(self)@, old(fetches)@, last@).2);
        actions
    }

    /// One step of the cache path, given what the parser said of the
    /// upstream address.
    pub fn step_with(
        &mut self,
        fetches: &mut InflightFetches,
        input: ProxyInput,
        parse_error: Option<String>,
    ) -> (actions: Vec<ProxyAction>)
        requires
            old(fetches).wf(),
        ensures
            final(fetches).wf(),
            (final(self)@, final(fetches)@, action_views(actions@)) == proxy_step(
                old(self)@,
                old(fetches)@,
                input,
                words_view(parse_error),
            ),
    {
        let mut actions: Vec<ProxyAction> = Vec::new();
        match (self.state, input) {
            (ProxyState::Start, ProxyInput::Start) => {
                if self.no_cache {
                    return self.fetch_with(fetches, parse_error);
                }
                self.state = ProxyState::AwaitCache;
                actions.push(ProxyAction::AskCache { key: self.key.clone() });
            },
            (ProxyState::AwaitCache, ProxyInput::CacheReply(Some(body))) => {
                self.state = ProxyState::Done;
                actions.push(ProxyAction::ServeCached { body });
            },
            (ProxyState::AwaitCache, ProxyInput::CacheReply(None)) => {
                return self.fetch_with(fetches, parse_error);
            },
            (ProxyState::AwaitCache, ProxyInput::CacheUnavailable) => {
                return self.fetch_with(fetches, parse_error);
            },
            (ProxyState::AwaitLeader, ProxyInput::FetchFinished) => {
                self.state = ProxyState::AwaitCache;
                actions.push(ProxyAction::AskCache { key: self.key.clone() });
            },
            (ProxyState::AwaitUpstream, ProxyInput::UpstreamResponse { status }) => {
                if status == STATUS_OK {
                    self.state = ProxyState::Streaming;
                    self.body = Vec::new();
                    actions.push(ProxyAction::StreamBody { capacity: PIPE_CAPACITY });
                } else {
                    return self.end_fetch(fetches, ProxyAction::Forward);
                }
            },
            (ProxyState::AwaitUpstream, ProxyInput::UpstreamFailed { reason }) => {
                return self.end_fetch(
                    fetches,
                    ProxyAction::RespondError { status: STATUS_INTERNAL_SERVER_ERROR, text: reason },
                );
            },
            (ProxyState::Streaming, ProxyInput::Chunk(bytes)) => {
                if bytes.len() <= (isize::MAX as usize) && self.body.len() <= (isize::MAX as usize)
                    - bytes.len() {
                    put_chunk(&mut self.body, bytes.as_slice());
                    actions.push(ProxyAction::WriteChunk { bytes });
                } else {
                    return self.end_fetch(fetches, ProxyAction::Abort);
                }
            },
            (ProxyState::Streaming, ProxyInput::ChunkError) => {
                return self.end_fetch(fetches, ProxyAction::Abort);
            },
            (ProxyState::Streaming, ProxyInput::EndOfBody) => {
                let stored = ProxyAction::StoreInCache {
                    key: self.key.clone(),
                    value: copy_bytes(self.body.as_slice()),
                };
                return self.end_fetch(fetches, stored);
            },
            _ => {},
        }
        assert(action_views(actions@) =~= proxy_step(
            old(self)@,
            old(fetches)@,
            input,
            words_view(parse_error),
        ).2);
        actions
    }
}

/// One step of the cache path for one request: what the handler is to do
/// after `input`. `fetches` is the table that all requests share.
pub fn proxy_pass(request: &mut ProxyPass, fetches: &mut InflightFetches, input: ProxyInput) -> (actions:
    Vec<ProxyAction>)
    requires
        old(fetches).wf(),
    ensures
        final(fetches).wf(),
        (final(request)@, final(fetches)@, action_views(actions@)) == proxy_step(
            old(request)@,
            old(fetches)@,
            input,
            uri_error(endpoint_of(old(request)@.upstream, old(request)@.key)),
        ),
{
    let endpoint = request.endpoint();
    let parse_error = parse_error_of(endpoint.as_str());
    request.step_with(fetches, input, parse_error)
}

/// The cache behind the proxy: the body that was stored for each key.
#[derive(Debug)]
pub struct MemoryCache {
    map: ByteMap<Vec<u8>>,
}

impl View for MemoryCache {
    type V = Map<Seq<u8>, Seq<u8>>;

    closed spec fn view(&self) -> Map<Seq<u8>, Seq<u8>> {
        self.map@.map_values(|body: Vec<u8>| body@)
    }
}

/// What the proxy asks of the cache.
#[derive(Debug, PartialEq, Eq)]
pub enum ProxyEvent {
    /// Is there a body for the key?
    GetRequest { key: String },
    /// Keep this body for the key.
    UpstreamData { key: String, value: Vec<u8> },
}

impl MemoryCache {
    pub closed spec fn wf(&self) -> bool {
        self.map.wf()
    }

    pub fn new() -> (cache: MemoryCache)
        ensures
            cache.wf(),
            cache@ == Map::<Seq<u8>, Seq<u8>>::empty(),
    {
        let cache = MemoryCache { map: ByteMap::new() };
        assert(cache@ =~= Map::<Seq<u8>, Seq<u8>>::empty());
        cache
    }

    /// The body that is stored for `key`, if one is.
    pub fn get(&self, key: &str) -> (body: Option<Vec<u8>>)
        requires
            self.wf(),
        ensures
            body is Some <==> self@.contains_key(key_bytes(key@)),
            body matches Some(b) ==> b@ == self@[key_bytes(key@)],
    {
        match self.map.get(key.as_bytes()) {
            Some(body) => Some(copy_bytes(body.as_slice())),
            None => None,
        }
    }

    /// Stores `value` for `key`, in place of what was stored.
    pub fn insert(&mut self, key: &str, value: Vec<u8>)
        requires
            old(self).wf(),
        ensures
            final(self).wf(),
            final(self)@ == old(self)@.insert(key_bytes(key@), value@),
    {
        self.map.insert(copy_bytes(key.as_bytes()), value);
        assert(self@ =~= old(self)@.insert(key_bytes(key@), value@));
    }

    /// Answers a question of the proxy, or keeps what it hands over.
    pub fn handle_proxy_event(&mut self, event: ProxyEvent) -> (reply: Option<Vec<u8>>)
        requires
            old(self).wf(),
        ensures
            final(self).wf(),
            match event {
                ProxyEvent::GetRequest { key } => final(self)@ == old(self)@ && (reply is Some
                    <==> old(self)@.contains_key(key_bytes(key@))) && (reply matches Some(b)
                    ==> b@ == old(self)@[key_bytes(key@)]),
                ProxyEvent::UpstreamData { key, value } => reply is None && final(self)@ == old(
                    self,
                )@.insert(key_bytes(key@), value@),
            },
    {
        match event {
            ProxyEvent::GetRequest { key } => self.get(key.as_str()),
            ProxyEvent::UpstreamData { key, value } => {
                self.insert(key.as_str(), value);
                None
            },
        }
    }

    /// Forgets every body.
    pub fn purge(&mut self)
        ensures
            final(self).wf(),
            final(self)@ == Map::<Seq<u8>, Seq<u8>>::empty(),
    {
        *self = MemoryCache::new();
    }
}

/// The admin operation: empty the cache, and answer `200 OK`.
pub fn purge_cache_handler(cache: &mut MemoryCache) -> (status: u16)
    ensures
        final(cache).wf(),
        final(cache)@ == Map::<Seq<u8>, Seq<u8>>::empty(),
        status == STATUS_OK,
{
    cache.purge();
    STATUS_OK
}

} // verus!

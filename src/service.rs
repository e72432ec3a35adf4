use vstd::prelude::*;
use vstd::utf8::encode_utf8;
use crate::dispatch::GeneratedService;
use crate::message::{
    append_bytes, invalid_format_text, lemma_encode_utf8_concat, lemma_get_cache_request_round_trip,
    ping_tag, request_key, request_store, resp_tag, text_from_bytes, Empty, GetCacheRequest,
    GetCacheResponse, Message, PingResponse,
};

verus! {

broadcast use vstd::utf8::encode_utf8_valid_utf8, vstd::utf8::encode_utf8_decode_utf8;

/// The operations of the health and cache services.
pub trait FfiServer: Sized {
    /// The message that a ping answers with in the present state, or the
    /// error text.
    spec fn ping_outcome(&self) -> Result<Seq<char>, Seq<char>>;

    /// The state after a ping.
    spec fn after_ping(&self) -> Self;

    /// The value that a lookup of `key` in `store` answers with, or the error
    /// text.
    spec fn get_outcome(&self, store: Seq<char>, key: Seq<char>) -> Result<Seq<char>, Seq<char>>;

    /// The state after a lookup of `key` in `store`.
    spec fn after_get(&self, store: Seq<char>, key: Seq<char>) -> Self;

    fn ping(&mut self, request: Empty) -> (r: Result<PingResponse, String>)
        ensures
            match r {
                Ok(p) => old(self).ping_outcome() == Ok::<Seq<char>, Seq<char>>(p.message@),
                Err(e) => old(self).ping_outcome() == Err::<Seq<char>, Seq<char>>(e@),
            },
            *final(self) == old(self).after_ping(),
    ;

    fn get(&mut self, request: GetCacheRequest) -> (r: Result<GetCacheResponse, String>)
        ensures
            match r {
                Ok(p) => old(self).get_outcome(request.store_name@, request.key@) == Ok::<
                    Seq<char>,
                    Seq<char>,
                >(p.value@),
                Err(e) => old(self).get_outcome(request.store_name@, request.key@) == Err::<
                    Seq<char>,
                    Seq<char>,
                >(e@),
            },
            *final(self) == old(self).after_get(request.store_name@, request.key@),
    ;
}

/// The method name of a ping.
pub open spec fn ping_method() -> Seq<char> {
    "/core.v1.HealthService/Ping"@
}

/// The method name of a cache lookup.
pub open spec fn get_method() -> Seq<char> {
    "/core.v1.CacheService/Get"@
}

/// The error text for a method that no operation answers.
pub open spec fn unknown_method_text(method: Seq<char>) -> Seq<char> {
    "unknown method: "@ + method
}

/// What routing `method` with `data` to `s` returns.
pub open spec fn routed<S: FfiServer>(s: S, method: Seq<char>, data: Seq<u8>) -> Result<Seq<u8>, Seq<char>> {
    if method == ping_method() {
        match s.ping_outcome() {
            Ok(m) => Ok(ping_tag() + encode_utf8(m)),
            Err(e) => Err(e),
        }
    } else if method == get_method() {
        if !GetCacheRequest::decodable(data) {
            Err(invalid_format_text())
        } else {
            match s.get_outcome(request_store(data), request_key(data)) {
                Ok(v) => Ok(resp_tag() + encode_utf8(v)),
                Err(e) => Err(e),
            }
        }
    } else {
        Err(unknown_method_text(method))
    }
}

/// The state of `s` after routing `method` with `data` to it.
pub open spec fn routed_state<S: FfiServer>(s: S, method: Seq<char>, data: Seq<u8>) -> S {
    if method == ping_method() {
        s.after_ping()
    } else if method == get_method() && GetCacheRequest::decodable(data) {
        s.after_get(request_store(data), request_key(data))
    } else {
        s
    }
}

/// Whether two texts are equal.
pub fn same_text(a: &str, b: &str) -> (r: bool)
    ensures
        r == (a@ == b@),
{
    let x = a.as_bytes();
    let y = b.as_bytes();
    if x.len() != y.len() {
        return false;
    }
    let mut i: usize = 0;
    while i < x.len()
        invariant
            x@ == encode_utf8(a@),
            y@ == encode_utf8(b@),
            x@.len() == y@.len(),
            i <= x@.len(),
            forall|j: int| 0 <= j < i ==> x@[j] == y@[j],
        decreases x@.len() - i,
    {
        if x[i] != y[i] {
            return false;
        }
        i = i + 1;
    }
    assert(x@ =~= y@);
    assert(vstd::utf8::decode_utf8(encode_utf8(a@)) == a@);
    assert(vstd::utf8::decode_utf8(encode_utf8(b@)) == b@);
    true
}

/// The error text for `method`, which no operation answers.
fn unknown_method(method: &str) -> (r: String)
    ensures
        r@ == unknown_method_text(method@),
{
    let mut bytes: Vec<u8> = Vec::new();
    append_bytes(&mut bytes, "unknown method: ".as_bytes());
    append_bytes(&mut bytes, method.as_bytes());
    proof {
        lemma_encode_utf8_concat("unknown method: "@, method@);
    }
    text_from_bytes(bytes.as_slice())
}

/// Routes `method` to the operation of `server` that it names: the request
/// is decoded, the operation called and its response encoded.
pub fn invoke<S: FfiServer>(server: &mut S, method: &str, data: &[u8]) -> (r: Result<Vec<u8>, String>)
    ensures
        match r {
            Ok(v) => routed(*old(server), method@, data@) == Ok::<Seq<u8>, Seq<char>>(v@),
            Err(e) => routed(*old(server), method@, data@) == Err::<Seq<u8>, Seq<char>>(e@),
        },
        *final(server) == routed_state(*old(server), method@, data@),
{
    if same_text(method, "/core.v1.HealthService/Ping") {
        let request = match Empty::decode(data) {
            Ok(q) => q,
            Err(e) => return Err(e),
        };
        let response = match server.ping(request) {
            Ok(p) => p,
            Err(e) => return Err(e),
        };
        let mut buf: Vec<u8> = Vec::new();
        let _ = response.encode(&mut buf);
        assert(buf@ =~= ping_tag() + encode_utf8(response.message@));
        Ok(buf)
    } else if same_text(method, "/core.v1.CacheService/Get") {
        proof {
            reveal_strlit("/core.v1.HealthService/Ping");
            reveal_strlit("/core.v1.CacheService/Get");
            assert(method@ != ping_method());
        }
        let request = match GetCacheRequest::decode(data) {
            Ok(q) => q,
            Err(e) => return Err(e),
        };
        let response = match server.get(request) {
            Ok(p) => p,
            Err(e) => return Err(e),
        };
        let mut buf: Vec<u8> = Vec::new();
        let _ = response.encode(&mut buf);
        assert(buf@ =~= resp_tag() + encode_utf8(response.value@));
        Ok(buf)
    } else {
        Err(unknown_method(method))
    }
}

} // verus!

verus! {

/// The value stored under `key` in `entries`, where a later entry overrides
/// an earlier one; empty where the key is absent.
pub open spec fn cache_lookup(entries: Seq<(String, String)>, key: Seq<char>) -> Seq<char>
    decreases entries.len(),
{
    if entries.len() == 0 {
        Seq::empty()
    } else if entries.last().0@ == key {
        entries.last().1@
    } else {
        cache_lookup(entries.drop_last(), key)
    }
}

/// One more, unless the count is already at its largest value.
pub open spec fn bumped(n: usize) -> usize {
    if n < usize::MAX {
        (n + 1) as usize
    } else {
        n
    }
}

fn bump(n: usize) -> (r: usize)
    ensures
        r == bumped(n),
{
    if n < usize::MAX {
        n + 1
    } else {
        n
    }
}

/// A service that counts its calls and answers lookups from a cache.
pub struct MockFfiServer {
    pub ping_count: usize,
    pub get_count: usize,
    pub cache_data: Vec<(String, String)>,
}

/// The text of every ping answer.
pub open spec fn pong_text() -> Seq<char> {
    "pong"@
}

impl MockFfiServer {
    /// A service with no calls counted and an empty cache.
    pub fn new() -> (r: MockFfiServer)
        ensures
            r.ping_count == 0,
            r.get_count == 0,
            r.cache_data@ == Seq::<(String, String)>::empty(),
    {
        MockFfiServer { ping_count: 0, get_count: 0, cache_data: Vec::new() }
    }

    /// The value that a lookup of `key` finds.
    pub open spec fn cached(&self, key: Seq<char>) -> Seq<char> {
        cache_lookup(self.cache_data@, key)
    }

    /// Stores `value` under `key`, in place of any earlier value.
    pub fn set_cache(&mut self, key: &str, value: &str)
        ensures
            final(self).ping_count == old(self).ping_count,
            final(self).get_count == old(self).get_count,
            forall|k: Seq<char>|
                #[trigger] final(self).cached(k) == if k == key@ {
                    value@
                } else {
                    old(self).cached(k)
                },
    {
        let entry = (key.to_owned(), value.to_owned());
        self.cache_data.push(entry);
        assert forall|k: Seq<char>|
            #[trigger] self.cached(k) == if k == key@ {
                value@
            } else {
                old(self).cached(k)
            } by {
            assert(self.cache_data@.drop_last() =~= old(self).cache_data@);
        }
    }

    /// The value stored under `key`, or the empty string.
    fn lookup(&self, key: &String) -> (r: String)
        ensures
            r@ == self.cached(key@),
    {
        let mut i: usize = self.cache_data.len();
        assert(self.cache_data@.subrange(0, i as int) =~= self.cache_data@);
        while i > 0
            invariant
                i <= self.cache_data@.len(),
                forall|j: int| i <= j < self.cache_data@.len() ==> #[trigger] self.cache_data@[j].0@ != key@,
                cache_lookup(self.cache_data@.subrange(0, i as int), key@) == self.cached(key@),
            decreases i,
        {
            let ghost before = self.cache_data@.subrange(0, i as int);
            if self.cache_data[i - 1].0 == *key {
                return self.cache_data[i - 1].1.clone();
            }
            assert(before.drop_last() =~= self.cache_data@.subrange(0, i - 1));
            i = i - 1;
        }
        String::new()
    }
}

impl FfiServer for MockFfiServer {
    open spec fn ping_outcome(&self) -> Result<Seq<char>, Seq<char>> {
        Ok(pong_text())
    }

    open spec fn after_ping(&self) -> Self {
        MockFfiServer { ping_count: bumped(self.ping_count), ..*self }
    }

    open spec fn get_outcome(&self, store: Seq<char>, key: Seq<char>) -> Result<Seq<char>, Seq<char>> {
        Ok(self.cached(key))
    }

    open spec fn after_get(&self, store: Seq<char>, key: Seq<char>) -> Self {
        MockFfiServer { get_count: bumped(self.get_count), ..*self }
    }

    fn ping(&mut self, request: Empty) -> (r: Result<PingResponse, String>) {
        self.ping_count = bump(self.ping_count);
        let message = "pong".to_owned();
        proof {
            reveal_strlit("pong");
        }
        Ok(PingResponse { message })
    }

    fn get(&mut self, request: GetCacheRequest) -> (r: Result<GetCacheResponse, String>) {
        self.get_count = bump(self.get_count);
        let value = self.lookup(&request.key);
        Ok(GetCacheResponse { value })
    }
}

impl GeneratedService for MockFfiServer {
    open spec fn answer(&self, method: Seq<char>, data: Seq<u8>) -> Result<Seq<u8>, Seq<char>> {
        routed(*self, method, data)
    }

    open spec fn after(&self, method: Seq<char>, data: Seq<u8>) -> Self {
        routed_state(*self, method, data)
    }

    fn invoke(&mut self, method: &str, data: &[u8]) -> (r: Result<Vec<u8>, String>) {
        invoke(self, method, data)
    }
}

} // verus!

verus! {

/// What a typed call of `method` with the encoded request `req` returns from
/// `s`: the handler's error, or the decoded response.
pub open spec fn call_outcome_ok<S: FfiServer, Resp: Message>(
    s: S,
    method: Seq<char>,
    req: Seq<u8>,
    r: &Result<Resp, String>,
) -> bool {
    match routed(s, method, req) {
        Err(e) => r matches Err(x) && x@ == e,
        Ok(b) => (r is Ok <==> Resp::decodable(b)) && (r matches Ok(m) ==> Resp::decodes_to(b, *m)) && (
        r matches Err(x) ==> x@ == invalid_format_text()),
    }
}

/// A typed channel to a service: requests are encoded, routed by method name
/// and the responses decoded.
pub struct FfiChannel<S: FfiServer> {
    server: S,
}

impl<S: FfiServer> FfiChannel<S> {
    /// The service behind the channel.
    pub closed spec fn state(&self) -> S {
        self.server
    }

    pub fn new(server: S) -> (r: FfiChannel<S>)
        ensures
            r.state() == server,
    {
        FfiChannel { server }
    }

    /// The service behind the channel.
    pub fn server(&self) -> (r: &S)
        ensures
            *r == self.state(),
    {
        &self.server
    }

    /// Encodes `request`, routes it under `method` and decodes the response.
    pub fn invoke<Req: Message, Resp: Message>(&mut self, method: &str, request: &Req) -> (r: Result<
        Resp,
        String,
    >)
        ensures
            call_outcome_ok(old(self).state(), method@, request.encoding(), &r),
            final(self).state() == routed_state(old(self).state(), method@, request.encoding()),
    {
        let mut data: Vec<u8> = Vec::new();
        let _ = request.encode(&mut data);
        assert(data@ =~= request.encoding());
        let result = match invoke(&mut self.server, method, data.as_slice()) {
            Ok(b) => b,
            Err(e) => return Err(e),
        };
        Resp::decode(result.as_slice())
    }
}

/// The typed client of the health service.
pub struct HealthServiceFfiClient<S: FfiServer> {
    channel: FfiChannel<S>,
}

impl<S: FfiServer> HealthServiceFfiClient<S> {
    /// The service behind the client.
    pub closed spec fn state(&self) -> S {
        self.channel.state()
    }

    pub fn new(server: S) -> (r: HealthServiceFfiClient<S>)
        ensures
            r.state() == server,
    {
        HealthServiceFfiClient { channel: FfiChannel::new(server) }
    }

    /// The service behind the client.
    pub fn server(&self) -> (r: &S)
        ensures
            *r == self.state(),
    {
        self.channel.server()
    }

    /// Pings the service.
    pub fn ping(&mut self, request: &Empty) -> (r: Result<PingResponse, String>)
        ensures
            match old(self).state().ping_outcome() {
                Ok(m) => r matches Ok(p) && p.message@ == m,
                Err(e) => r matches Err(x) && x@ == e,
            },
            final(self).state() == old(self).state().after_ping(),
    {
        proof {
            reveal_strlit("/core.v1.HealthService/Ping");
        }
        let r = self.channel.invoke("/core.v1.HealthService/Ping", request);
        proof {
            if let Ok(m) = old(self).state().ping_outcome() {
                let b = ping_tag() + encode_utf8(m);
                assert(b.subrange(ping_tag().len() as int, b.len() as int) =~= encode_utf8(m));
                assert(b.subrange(0, ping_tag().len() as int) =~= ping_tag());
            }
        }
        r
    }
}

/// The typed client of the cache service.
pub struct CacheServiceFfiClient<S: FfiServer> {
    channel: FfiChannel<S>,
}

impl<S: FfiServer> CacheServiceFfiClient<S> {
    /// The service behind the client.
    pub closed spec fn state(&self) -> S {
        self.channel.state()
    }

    pub fn new(server: S) -> (r: CacheServiceFfiClient<S>)
        ensures
            r.state() == server,
    {
        CacheServiceFfiClient { channel: FfiChannel::new(server) }
    }

    /// The service behind the client.
    pub fn server(&self) -> (r: &S)
        ensures
            *r == self.state(),
    {
        self.channel.server()
    }

    /// Looks up the request's key; both fields reach the service as they
    /// were given.
    pub fn get(&mut self, request: &GetCacheRequest) -> (r: Result<GetCacheResponse, String>)
        ensures
            match old(self).state().get_outcome(request.store_name@, request.key@) {
                Ok(v) => r matches Ok(p) && p.value@ == v,
                Err(e) => r matches Err(x) && x@ == e,
            },
            final(self).state() == old(self).state().after_get(request.store_name@, request.key@),
    {
        proof {
            reveal_strlit("/core.v1.CacheService/Get");
            reveal_strlit("/core.v1.HealthService/Ping");
            assert(get_method()[9] != ping_method()[9]);
            lemma_get_cache_request_round_trip(*request, *request);
            let m = old(self).state().get_outcome(request.store_name@, request.key@);
            if let Ok(v) = m {
                let b = resp_tag() + encode_utf8(v);
                assert(b.subrange(resp_tag().len() as int, b.len() as int) =~= encode_utf8(v));
                assert(b.subrange(0, resp_tag().len() as int) =~= resp_tag());
            }
        }
        self.channel.invoke("/core.v1.CacheService/Get", request)
    }
}

} // verus!

verus! {

/// The service after `n` pings.
pub open spec fn pinged(s: MockFfiServer, n: nat) -> MockFfiServer
    decreases n,
{
    if n == 0 {
        s
    } else {
        pinged(s, (n - 1) as nat).after_ping()
    }
}

/// After `n` pings, however they were spread over callers, the ping count
/// has grown by exactly `n` (while it fits), and each answer is `pong`.
pub proof fn lemma_ping_count(s: MockFfiServer, n: nat)
    requires
        s.ping_count + n <= usize::MAX,
    ensures
        pinged(s, n).ping_count == s.ping_count + n,
        pinged(s, n).ping_outcome() == Ok::<Seq<char>, Seq<char>>(pong_text()),
        routed(pinged(s, n), ping_method(), Seq::empty()) == Ok::<Seq<u8>, Seq<char>>(
            ping_tag() + encode_utf8(pong_text()),
        ),
    decreases n,
{
    if n > 0 {
        lemma_ping_count(s, (n - 1) as nat);
    }
}

/// A method name that the service does not know fails, through the
/// dispatcher, with a handler error that names the method, and leaves the
/// service as it was.
pub proof fn lemma_unknown_method(s: MockFfiServer, method: Seq<char>, data: Seq<u8>)
    requires
        method != ping_method(),
        method != get_method(),
    ensures
        crate::dispatch::dispatched(Some(s), method, data) == Err::<
            Seq<u8>,
            crate::dispatch::Failure,
        >(crate::dispatch::Failure::HandlerError(unknown_method_text(method))),
        unknown_method_text(method).subrange(
            unknown_method_text(method).len() - method.len(),
            unknown_method_text(method).len() as int,
        ) == method,
        crate::dispatch::slot_after(Some(s), method, data) == Some(s),
{
    assert(unknown_method_text(method).subrange(
        unknown_method_text(method).len() - method.len(),
        unknown_method_text(method).len() as int,
    ) =~= method);
}

} // verus!

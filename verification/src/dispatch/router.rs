//! The dispatcher: the static store, the cache, the route table and the
//! counters, and the three-tier policy that answers a request from them.

use vstd::prelude::*;
use vstd::string::StringExecFns;
use crate::dispatch::counters::{
    counted, tiers_sum_to_total, CounterSnapshot, Counters, Tier,
};
use crate::dispatch::entries::{
    expired_at, CachedResponse, CachedResponseView, RouteHandler, RouteHandlerView,
    StaticResponse, StaticResponseView, SufastRequest, SufastRequestView, SufastResponse,
    SufastResponseView,
};
use crate::dispatch::envelope::{
    json_object, json_object_text, parse_handler_reply, reply_of, request_envelope,
    request_envelope_text, HandlerReply, HandlerReplyView,
};
use crate::dispatch::responses::{
    build_cached_response, build_dynamic_response, build_handler_failed_response,
    build_not_found_response, build_static_response, cached_response, dynamic_response,
    handler_failed_response, not_found_response, static_response, NANOS_PER_SECOND,
};
use crate::dispatch::route_table::{
    first_answering, registered, well_formed_routes, RouteTable, RouteView,
};
use crate::dispatch::stores::{
    cache_clear, cache_entries, cache_get, cache_insert, cache_len, cache_new, cache_remove,
    static_entries, statics_get, statics_insert, statics_len, statics_new,
    ResponseCache, StaticStore,
};
use crate::routing::matcher::extraction;
use crate::routing::pattern::{compiled, ElementView, RoutePattern};
use crate::string_map::{distinct_names, Pairs, StringMap};
use crate::text::{chars_of, find_char, lemma_first_position};

verus! {

/// The model of a dispatcher.
pub struct RouterView {
    pub statics: Map<Seq<char>, StaticResponseView>,
    pub cache: Map<Seq<char>, CachedResponseView>,
    pub routes: Seq<RouteView>,
    pub counters: CounterSnapshot,
}

/// The model of a call that waits for the foreign handler.
pub struct PendingCallView {
    pub key: Seq<char>,
    pub request_id: u64,
    pub method: Seq<char>,
    pub path: Seq<char>,
    pub handler_name: Seq<char>,
    pub cache_ttl: Option<u64>,
    pub params_json: Seq<char>,
    pub envelope_json: Seq<char>,
}

/// A request that a dynamic route answers, ready for the foreign handler:
/// the composed key, the request id, the route's handler and time to
/// live, the path parameters as a JSON object and the request envelope.
pub struct PendingCall {
    pub key: String,
    pub request_id: u64,
    pub method: String,
    pub path: String,
    pub handler_name: String,
    pub cache_ttl: Option<u64>,
    pub params_json: String,
    pub envelope_json: String,
}

impl View for PendingCall {
    type V = PendingCallView;

    open spec fn view(&self) -> PendingCallView {
        PendingCallView {
            key: self.key@,
            request_id: self.request_id,
            method: self.method@,
            path: self.path@,
            handler_name: self.handler_name@,
            cache_ttl: self.cache_ttl,
            params_json: self.params_json@,
            envelope_json: self.envelope_json@,
        }
    }
}

/// The model of a dispatcher's decision.
pub enum DispatchView {
    Respond(SufastResponseView),
    Invoke(PendingCallView),
}

/// What the dispatcher decided: a response that is ready, or a call to the
/// foreign handler whose reply `Router::complete` turns into one.
pub enum Dispatch {
    Respond(SufastResponse),
    Invoke(PendingCall),
}

impl View for Dispatch {
    type V = DispatchView;

    open spec fn view(&self) -> DispatchView {
        match self {
            Dispatch::Respond(response) => DispatchView::Respond(response@),
            Dispatch::Invoke(call) => DispatchView::Invoke(call@),
        }
    }
}

/// The path that is looked up: `/` for the empty path.
pub open spec fn normalized_path(path: Seq<char>) -> Seq<char> {
    if path.len() == 0 {
        "/"@
    } else {
        path
    }
}

/// The key of the static store and of the cache: `METHOD:path`.
pub open spec fn composed_key(method: Seq<char>, path: Seq<char>) -> Seq<char> {
    method + ":"@ + path
}

/// The entry that `add_static_route` stores.
pub open spec fn static_entry(body: Seq<char>, status: u16, content_type: Option<Seq<char>>)
    -> StaticResponseView {
    StaticResponseView {
        body,
        status,
        headers: seq![
            (
                "content-type"@,
                match content_type {
                    Some(given) => given,
                    None => "application/json"@,
                },
            ),
            ("x-sufast-optimized"@, "static"@),
            ("cache-control"@, "public, max-age=31536000"@),
        ],
    }
}

/// The time to live that a route is registered with: none for zero.
pub open spec fn ttl_of(seconds: u64) -> Option<u64> {
    if seconds > 0 {
        Some(seconds)
    } else {
        None
    }
}

/// The route that `add_dynamic_route` registers.
pub open spec fn dynamic_route(
    method: Seq<char>,
    pattern: Seq<char>,
    handler: Seq<char>,
    ttl_seconds: u64,
    matcher: Seq<ElementView>,
) -> RouteView {
    RouteView {
        record: RouteHandlerView {
            method,
            path: pattern,
            handler_type: handler,
            is_dynamic: pattern.contains('{'),
            cache_ttl: ttl_of(ttl_seconds),
        },
        matcher,
    }
}

/// The entry that seeding stores under each of its keys.
pub open spec fn seeded_entry(body: Seq<char>) -> StaticResponseView {
    StaticResponseView {
        body,
        status: 200,
        headers: seq![
            ("content-type"@, "application/json"@),
            ("x-sufast-precompiled"@, "true"@),
            ("cache-control"@, "public, max-age=31536000"@),
            ("server"@, "sufast-ultra"@),
        ],
    }
}

/// The static store after seeding: the four seeded entries stand under
/// `GET:/`, `GET:/health`, `GET:/about` and `GET:/api/status`.
pub open spec fn seeded(statics: Map<Seq<char>, StaticResponseView>) -> Map<
    Seq<char>,
    StaticResponseView,
> {
    statics.insert(
        "GET:/"@,
        seeded_entry(
            "{\"message\":\"\u{1F680} Welcome to Sufast Ultra v2.0!\",\"optimization\":\"Pre-compiled\",\"server\":\"sufast-ultra\"}"@,
        ),
    ).insert(
        "GET:/health"@,
        seeded_entry(
            "{\"status\":\"healthy\",\"service\":\"sufast-ultra\",\"server\":\"sufast-ultra\"}"@,
        ),
    ).insert(
        "GET:/about"@,
        seeded_entry(
            "{\"page\":\"about\",\"framework\":\"Sufast Ultra\",\"version\":\"2.0\",\"server\":\"sufast-ultra\"}"@,
        ),
    ).insert(
        "GET:/api/status"@,
        seeded_entry(
            "{\"api\":\"active\",\"optimization\":\"fast\",\"status\":\"operational\",\"server\":\"sufast-ultra\"}"@,
        ),
    )
}

/// A reading of the counters and of the sizes of the tables.
#[derive(Debug, Clone, Copy, PartialEq, Eq, Structural)]
pub struct PerformanceStats {
    pub counters: CounterSnapshot,
    pub static_routes: u64,
    pub cached_responses: u64,
    pub dynamic_patterns: u64,
}

/// The dispatcher with an empty cache.
pub open spec fn cleared(router: RouterView) -> RouterView {
    RouterView { cache: Map::<Seq<char>, CachedResponseView>::empty(), ..router }
}

/// The cache without the entry under `key`, where that entry has expired.
pub open spec fn swept(
    cache: Map<Seq<char>, CachedResponseView>,
    key: Seq<char>,
    now: u128,
) -> Map<Seq<char>, CachedResponseView> {
    if cache.contains_key(key) && expired_at(cache[key].cached_at, cache[key].ttl, now) {
        cache.remove(key)
    } else {
        cache
    }
}

/// The tier that answers a request: the static store where it holds the
/// key; else the cache where it holds the key and the entry is fresh; else
/// the first route that answers, if any.
pub open spec fn tier_of(router: RouterView, request: SufastRequestView, now: u128) -> Tier {
    let path = normalized_path(request.path);
    let key = composed_key(request.method, path);
    if router.statics.contains_key(key) {
        Tier::Static
    } else if router.cache.contains_key(key) && !expired_at(
        router.cache[key].cached_at,
        router.cache[key].ttl,
        now,
    ) {
        Tier::Cached
    } else if first_answering(router.routes, request.method, path) < router.routes.len() {
        Tier::Dynamic
    } else {
        Tier::NotFound
    }
}

/// The call that goes to the foreign handler for a request that the route
/// at position `at` answers.
pub open spec fn pending_call(
    router: RouterView,
    request: SufastRequestView,
    at: int,
    id: u64,
) -> PendingCallView {
    let path = normalized_path(request.path);
    let route = router.routes[at];
    let params = extraction(route.matcher, path)->0;
    let normalized = SufastRequestView { path, ..request };
    PendingCallView {
        key: composed_key(request.method, path),
        request_id: id,
        method: request.method,
        path,
        handler_name: route.record.handler_type,
        cache_ttl: route.record.cache_ttl,
        params_json: json_object(params),
        envelope_json: request_envelope(normalized, params),
    }
}

/// The dispatcher after a request, and its decision.
pub open spec fn dispatched(router: RouterView, request: SufastRequestView, now: u128) -> (
    RouterView,
    DispatchView,
) {
    let path = normalized_path(request.path);
    let key = composed_key(request.method, path);
    let tier = tier_of(router, request, now);
    let counters = counted(router.counters, tier);
    let id = counters.total;
    match tier {
        Tier::Static => (
            RouterView { counters, ..router },
            DispatchView::Respond(static_response(router.statics[key], id)),
        ),
        Tier::Cached => (
            RouterView { counters, ..router },
            DispatchView::Respond(cached_response(router.cache[key], id, now)),
        ),
        Tier::Dynamic => (
            RouterView { counters, cache: swept(router.cache, key, now), ..router },
            DispatchView::Invoke(
                pending_call(
                    router,
                    request,
                    first_answering(router.routes, request.method, path) as int,
                    id,
                ),
            ),
        ),
        Tier::NotFound => (
            RouterView { counters, cache: swept(router.cache, key, now), ..router },
            DispatchView::Respond(not_found_response(request.method, path, id)),
        ),
    }
}

/// The entry that a reply is cached as.
pub open spec fn cache_entry(
    status: u16,
    body: Seq<char>,
    headers: Pairs,
    ttl_seconds: u64,
    now: u128,
) -> CachedResponseView {
    CachedResponseView {
        body,
        status,
        headers,
        cached_at: now,
        ttl: (ttl_seconds * NANOS_PER_SECOND) as u128,
    }
}

/// Whether a reply with this status to a call with this time to live is
/// cached: the status is 200 and the time to live is not zero.
pub open spec fn is_cached(status: u16, cache_ttl: Option<u64>) -> bool {
    status == 200 && match cache_ttl {
        Some(seconds) => seconds > 0,
        None => false,
    }
}

/// The dispatcher after the foreign handler's answer to `call`, and the
/// response. Without an answer the request falls back to the 404
/// response. An answer that is no usable envelope gives the 500 response.
/// A reply is passed on, and cached where `is_cached` holds.
pub open spec fn completed(
    router: RouterView,
    call: PendingCallView,
    answer: Option<Seq<char>>,
    now: u128,
) -> (RouterView, SufastResponseView) {
    match answer {
        None => (router, not_found_response(call.method, call.path, call.request_id)),
        Some(text) => match reply_of(text) {
            HandlerReplyView::Failed => (router, handler_failed_response(call.request_id)),
            HandlerReplyView::Reply { status, body, headers } => (
                if is_cached(status, call.cache_ttl) {
                    RouterView {
                        cache: router.cache.insert(
                            call.key,
                            cache_entry(status, body, headers, call.cache_ttl->0, now),
                        ),
                        ..router
                    }
                } else {
                    router
                },
                dynamic_response(status, body, headers, call.request_id, call.handler_name),
            ),
        },
    }
}

/// What holds of every dispatcher: no entry of the static store or of
/// the cache names a header twice, the routes are well formed, and the
/// tier counters sum to the total.
pub open spec fn well_formed_router(router: RouterView) -> bool {
    &&& well_formed_statics(router.statics)
    &&& well_formed_cache(router.cache)
    &&& well_formed_routes(router.routes)
    &&& tiers_sum_to_total(router.counters)
}

/// No entry of the static store names a header twice.
pub open spec fn well_formed_statics(statics: Map<Seq<char>, StaticResponseView>) -> bool {
    forall|key: Seq<char>| #[trigger]
        statics.contains_key(key) ==> distinct_names(statics[key].headers)
}

/// No entry of the cache names a header twice.
pub open spec fn well_formed_cache(cache: Map<Seq<char>, CachedResponseView>) -> bool {
    forall|key: Seq<char>| #[trigger] cache.contains_key(key) ==> distinct_names(cache[key].headers)
}

/// The dispatcher's state: the static store, the cache, the route table
/// and the counters.
pub struct Router {
    statics: StaticStore,
    cache: ResponseCache,
    routes: RouteTable,
    counters: Counters,
}

impl View for Router {
    type V = RouterView;

    closed spec fn view(&self) -> RouterView {
        RouterView {
            statics: static_entries(self.statics),
            cache: cache_entries(self.cache),
            routes: self.routes@,
            counters: self.counters@,
        }
    }
}

/// The composed key of a method and a path.
fn compose_key(method: &str, path: &str) -> (key: String)
    ensures
        key@ == composed_key(method@, path@),
{
    let mut key = String::from_str(method);
    key.append(":");
    key.append(path);
    key
}

impl Router {
    /// What holds of every dispatcher.
    #[verifier::type_invariant]
    pub open spec fn well_formed(&self) -> bool {
        well_formed_router(self@)
    }

    /// A dispatcher without entries, routes or requests.
    pub fn new() -> (router: Router)
        ensures
            well_formed_router(router@),
            router@.statics == Map::<Seq<char>, StaticResponseView>::empty(),
            router@.cache == Map::<Seq<char>, CachedResponseView>::empty(),
            router@.routes == Seq::<RouteView>::empty(),
            router@.counters == (CounterSnapshot {
                total: 0,
                static_hits: 0,
                cache_hits: 0,
                dynamic_hits: 0,
                not_found: 0,
            }),
    {
        Router {
            statics: statics_new(),
            cache: cache_new(),
            routes: RouteTable::new(),
            counters: Counters::new(),
        }
    }

    /// Stores a static response under the composed key `method_path`,
    /// replacing the one that stood there. Without a content type the
    /// entry is JSON.
    pub fn add_static_route(
        &mut self,
        method_path: &str,
        body: &str,
        status: u16,
        content_type: Option<&str>,
    ) -> (stored: bool)
        ensures
            stored,
            final(self)@ == (RouterView {
                statics: old(self)@.statics.insert(
                    method_path@,
                    static_entry(
                        body@,
                        status,
                        match content_type {
                            Some(given) => Some(given@),
                            None => None,
                        },
                    ),
                ),
                ..old(self)@
            }),
            well_formed_router(final(self)@),
    {
        let mut headers = StringMap::new();
        headers.insert(
            String::from_str("content-type"),
            match content_type {
                Some(given) => String::from_str(given),
                None => String::from_str("application/json"),
            },
        );
        headers.insert(String::from_str("x-sufast-optimized"), String::from_str("static"));
        headers.insert(
            String::from_str("cache-control"),
            String::from_str("public, max-age=31536000"),
        );
        proof {
            reveal_strlit("content-type");
            reveal_strlit("x-sufast-optimized");
            reveal_strlit("cache-control");
            assert("content-type"@ != "x-sufast-optimized"@) by {
                assert("content-type"@.len() != "x-sufast-optimized"@.len());
            }
            assert("content-type"@ != "cache-control"@) by {
                assert("content-type"@.len() != "cache-control"@.len());
            }
            assert("x-sufast-optimized"@ != "cache-control"@);
        }
        let entry = StaticResponse { body: String::from_str(body), status, headers };
        assert(entry@.headers =~= static_entry(
            body@,
            status,
            match content_type {
                Some(given) => Some(given@),
                None => None,
            },
        ).headers);
        proof {
            use_type_invariant(&*self);
            use_type_invariant(&entry.headers);
        }
        statics_insert(&mut self.statics, String::from_str(method_path), entry);
        proof {
            use_type_invariant(&*self);
        }
        true
    }

    /// Compiles `pattern` and registers a route for it under `method`,
    /// replacing the route with the same method and pattern. A pattern
    /// that does not compile registers nothing. A time to live of zero
    /// seconds means that replies are not cached.
    pub fn add_dynamic_route(
        &mut self,
        method: &str,
        pattern: &str,
        handler_name: &str,
        cache_ttl_seconds: u64,
    ) -> (registered_it: bool)
        ensures
            registered_it == compiled(pattern@) is Ok,
            !registered_it ==> final(self)@ == old(self)@,
            registered_it ==> final(self)@ == (RouterView {
                routes: registered(
                    old(self)@.routes,
                    dynamic_route(
                        method@,
                        pattern@,
                        handler_name@,
                        cache_ttl_seconds,
                        compiled(pattern@)->Ok_0,
                    ),
                ),
                ..old(self)@
            }),
            well_formed_router(final(self)@),
    {
        proof {
            use_type_invariant(&*self);
        }
        let matcher = match RoutePattern::compile(pattern) {
            Ok(matcher) => matcher,
            Err(_) => {
                return false;
            },
        };
        let text = chars_of(pattern);
        let is_dynamic = find_char(text.as_slice(), '{') < text.len();
        proof {
            lemma_first_position(pattern@, '{');
        }
        let record = RouteHandler {
            method: String::from_str(method),
            path: String::from_str(pattern),
            handler_type: String::from_str(handler_name),
            is_dynamic,
            cache_ttl: if cache_ttl_seconds > 0 {
                Some(cache_ttl_seconds)
            } else {
                None
            },
        };
        let mut routes = RouteTable::new();
        core::mem::swap(&mut self.routes, &mut routes);
        routes.register(record, matcher);
        self.routes = routes;
        proof {
            use_type_invariant(&*self);
        }
        true
    }

    /// Stores one seeded entry.
    fn seed(&mut self, key: &str, body: &str)
        ensures
            final(self)@ == (RouterView {
                statics: old(self)@.statics.insert(key@, seeded_entry(body@)),
                ..old(self)@
            }),
    {
        let mut headers = StringMap::new();
        headers.insert(String::from_str("content-type"), String::from_str("application/json"));
        headers.insert(String::from_str("x-sufast-precompiled"), String::from_str("true"));
        headers.insert(
            String::from_str("cache-control"),
            String::from_str("public, max-age=31536000"),
        );
        headers.insert(String::from_str("server"), String::from_str("sufast-ultra"));
        proof {
            reveal_strlit("content-type");
            reveal_strlit("x-sufast-precompiled");
            reveal_strlit("cache-control");
            reveal_strlit("server");
            assert("content-type"@.len() == 12);
            assert("x-sufast-precompiled"@.len() == 20);
            assert("cache-control"@.len() == 13);
        }
        let entry = StaticResponse { body: String::from_str(body), status: 200, headers };
        assert(entry@.headers =~= seeded_entry(body@).headers);
        proof {
            use_type_invariant(&*self);
            use_type_invariant(&entry.headers);
        }
        statics_insert(&mut self.statics, String::from_str(key), entry);
    }

    /// Seeds the static store with its four fixed entries and returns the
    /// number of entries that the store then holds.
    pub fn precompile_static_routes(&mut self) -> (count: u64)
        ensures
            final(self)@ == (RouterView { statics: seeded(old(self)@.statics), ..old(self)@ }),
            final(self)@.statics.dom().finite(),
            count as nat == final(self)@.statics.len(),
            well_formed_router(final(self)@),
    {
        self.seed(
            "GET:/",
            "{\"message\":\"\u{1F680} Welcome to Sufast Ultra v2.0!\",\"optimization\":\"Pre-compiled\",\"server\":\"sufast-ultra\"}",
        );
        self.seed(
            "GET:/health",
            "{\"status\":\"healthy\",\"service\":\"sufast-ultra\",\"server\":\"sufast-ultra\"}",
        );
        self.seed(
            "GET:/about",
            "{\"page\":\"about\",\"framework\":\"Sufast Ultra\",\"version\":\"2.0\",\"server\":\"sufast-ultra\"}",
        );
        self.seed(
            "GET:/api/status",
            "{\"api\":\"active\",\"optimization\":\"fast\",\"status\":\"operational\",\"server\":\"sufast-ultra\"}",
        );
        proof {
            use_type_invariant(&*self);
        }
        statics_len(&self.statics) as u64
    }

    /// Empties the cache. The counters stay as they are.
    pub fn clear_cache(&mut self) -> (cleared: bool)
        ensures
            cleared,
            final(self)@ == self::cleared(old(self)@),
            well_formed_router(final(self)@),
    {
        proof {
            use_type_invariant(&*self);
        }
        cache_clear(&mut self.cache);
        proof {
            use_type_invariant(&*self);
        }
        true
    }

    /// The number of cached responses.
    pub fn cache_size(&self) -> (n: u64)
        ensures
            self@.cache.dom().finite(),
            n as nat == self@.cache.len(),
    {
        cache_len(&self.cache) as u64
    }

    /// The number of static responses.
    pub fn static_routes_count(&self) -> (n: u64)
        ensures
            self@.statics.dom().finite(),
            n as nat == self@.statics.len(),
    {
        statics_len(&self.statics) as u64
    }

    /// A reading of the counters and of the sizes of the tables.
    pub fn get_performance_stats(&self) -> (stats: PerformanceStats)
        ensures
            stats.counters == self@.counters,
            tiers_sum_to_total(stats.counters),
            self@.statics.dom().finite(),
            stats.static_routes as nat == self@.statics.len(),
            self@.cache.dom().finite(),
            stats.cached_responses as nat == self@.cache.len(),
            stats.dynamic_patterns as nat == self@.routes.len(),
            well_formed_router(self@),
    {
        proof {
            use_type_invariant(self);
        }
        PerformanceStats {
            counters: self.counters.snapshot(),
            static_routes: statics_len(&self.statics) as u64,
            cached_responses: cache_len(&self.cache) as u64,
            dynamic_patterns: self.routes.len() as u64,
        }
    }

    /// Answers a request from the static store, else from the cache, else
    /// through the first route that answers it, else with the 404
    /// response; counts it under the tier that answered.
    pub fn dispatch(&mut self, request: &SufastRequest, now: u128) -> (decision: Dispatch)
        ensures
            dispatched(old(self)@, request@, now) == (final(self)@, decision@),
            well_formed_router(final(self)@),
    {
        proof {
            use_type_invariant(&*self);
        }
        let path: String = if request.path.as_str().is_empty() {
            String::from_str("/")
        } else {
            request.path.clone()
        };
        let key = compose_key(request.method.as_str(), path.as_str());
        if let Some(entry) = statics_get(&self.statics, key.as_str()) {
            let id = self.counters.record(Tier::Static);
            return Dispatch::Respond(build_static_response(entry, id));
        }
        match cache_get(&self.cache, key.as_str()) {
            Some(entry) => {
                if !entry.is_expired(now) {
                    let id = self.counters.record(Tier::Cached);
                    return Dispatch::Respond(build_cached_response(entry, id, now));
                }
                cache_remove(&mut self.cache, key.as_str());
            },
            None => {},
        }
        match self.routes.find(request.method.as_str(), path.as_str()) {
            Some((at, params)) => {
                let id = self.counters.record(Tier::Dynamic);
                let record = self.routes.record_at(at);
                let normalized = SufastRequest {
                    method: request.method.clone(),
                    path: path.clone(),
                    query: request.query.clone(),
                    headers: request.headers.clone(),
                    body: request.body.clone(),
                };
                let call = PendingCall {
                    key,
                    request_id: id,
                    method: request.method.clone(),
                    path,
                    handler_name: record.handler_type.clone(),
                    cache_ttl: record.cache_ttl,
                    params_json: json_object_text(&params),
                    envelope_json: request_envelope_text(&normalized, &params),
                };
                Dispatch::Invoke(call)
            },
            None => {
                let id = self.counters.record(Tier::NotFound);
                Dispatch::Respond(
                    build_not_found_response(request.method.as_str(), path.as_str(), id),
                )
            },
        }
    }

    /// Turns the foreign handler's answer to `call` into the response, and
    /// caches the reply where the route asks for it.
    pub fn complete(&mut self, call: PendingCall, answer: Option<&str>, now: u128) -> (response:
        SufastResponse)
        ensures
            completed(
                old(self)@,
                call@,
                match answer {
                    Some(text) => Some(text@),
                    None => None,
                },
                now,
            ) == (final(self)@, response@),
            well_formed_router(final(self)@),
    {
        proof {
            use_type_invariant(&*self);
        }
        let text = match answer {
            Some(text) => text,
            None => {
                return build_not_found_response(
                    call.method.as_str(),
                    call.path.as_str(),
                    call.request_id,
                );
            },
        };
        match parse_handler_reply(text) {
            HandlerReply::Failed => build_handler_failed_response(call.request_id),
            HandlerReply::Reply { status, body, headers } => {
                if status == 200 {
                    if let Some(seconds) = call.cache_ttl {
                        if seconds > 0 {
                            let entry = CachedResponse {
                                body: body.clone(),
                                status,
                                headers: headers.clone(),
                                cached_at: now,
                                ttl: seconds as u128 * NANOS_PER_SECOND,
                            };
                            proof {
                                use_type_invariant(&*self);
                                use_type_invariant(&entry.headers);
                            }
                            cache_insert(&mut self.cache, call.key.clone(), entry);
                        }
                    }
                }
                build_dynamic_response(
                    status,
                    body,
                    headers,
                    call.request_id,
                    call.handler_name.as_str(),
                )
            },
        }
    }
}

} // verus!

//! The records that the dispatcher keeps: static responses, cached
//! responses and route records.

use vstd::prelude::*;
use crate::string_map::{Pairs, StringMap};

verus! {

/// The model of a static response entry.
pub struct StaticResponseView {
    pub body: Seq<char>,
    pub status: u16,
    pub headers: Pairs,
}

/// A response built once and served as it stands.
pub struct StaticResponse {
    pub body: String,
    pub status: u16,
    pub headers: StringMap,
}

impl View for StaticResponse {
    type V = StaticResponseView;

    open spec fn view(&self) -> StaticResponseView {
        StaticResponseView { body: self.body@, status: self.status, headers: self.headers@ }
    }
}

impl Clone for StaticResponse {
    fn clone(&self) -> (copy: StaticResponse)
        ensures
            copy@ == self@,
    {
        StaticResponse {
            body: self.body.clone(),
            status: self.status,
            headers: self.headers.clone(),
        }
    }
}

/// The model of a cached response entry. Times are in nanoseconds.
pub struct CachedResponseView {
    pub body: Seq<char>,
    pub status: u16,
    pub headers: Pairs,
    pub cached_at: u128,
    pub ttl: u128,
}

/// A response kept for a limited time. `cached_at` is the instant of
/// insertion and `ttl` the time to live, both in nanoseconds.
pub struct CachedResponse {
    pub body: String,
    pub status: u16,
    pub headers: StringMap,
    pub cached_at: u128,
    pub ttl: u128,
}

impl View for CachedResponse {
    type V = CachedResponseView;

    open spec fn view(&self) -> CachedResponseView {
        CachedResponseView {
            body: self.body@,
            status: self.status,
            headers: self.headers@,
            cached_at: self.cached_at,
            ttl: self.ttl,
        }
    }
}

impl Clone for CachedResponse {
    fn clone(&self) -> (copy: CachedResponse)
        ensures
            copy@ == self@,
    {
        CachedResponse {
            body: self.body.clone(),
            status: self.status,
            headers: self.headers.clone(),
            cached_at: self.cached_at,
            ttl: self.ttl,
        }
    }
}

/// The model of a route record.
pub struct RouteHandlerView {
    pub method: Seq<char>,
    pub path: Seq<char>,
    pub handler_type: Seq<char>,
    pub is_dynamic: bool,
    pub cache_ttl: Option<u64>,
}

/// A route record: the method and path pattern that identify it, the name
/// of its handler, whether the pattern holds a `{`, and the time to live
/// of its cached responses in seconds, if they are cached.
pub struct RouteHandler {
    pub method: String,
    pub path: String,
    pub handler_type: String,
    pub is_dynamic: bool,
    pub cache_ttl: Option<u64>,
}

impl View for RouteHandler {
    type V = RouteHandlerView;

    open spec fn view(&self) -> RouteHandlerView {
        RouteHandlerView {
            method: self.method@,
            path: self.path@,
            handler_type: self.handler_type@,
            is_dynamic: self.is_dynamic,
            cache_ttl: self.cache_ttl,
        }
    }
}

impl Clone for RouteHandler {
    fn clone(&self) -> (copy: RouteHandler)
        ensures
            copy@ == self@,
    {
        RouteHandler {
            method: self.method.clone(),
            path: self.path.clone(),
            handler_type: self.handler_type.clone(),
            is_dynamic: self.is_dynamic,
            cache_ttl: self.cache_ttl,
        }
    }
}

/// The model of a request.
pub struct SufastRequestView {
    pub method: Seq<char>,
    pub path: Seq<char>,
    pub query: Pairs,
    pub headers: Pairs,
    pub body: Seq<char>,
}

/// A request as the dispatcher sees it: the method, the path without the
/// query string, the query parameters, the headers and the body as text.
pub struct SufastRequest {
    pub method: String,
    pub path: String,
    pub query: StringMap,
    pub headers: StringMap,
    pub body: String,
}

impl View for SufastRequest {
    type V = SufastRequestView;

    open spec fn view(&self) -> SufastRequestView {
        SufastRequestView {
            method: self.method@,
            path: self.path@,
            query: self.query@,
            headers: self.headers@,
            body: self.body@,
        }
    }
}

impl Clone for SufastRequest {
    fn clone(&self) -> (copy: SufastRequest)
        ensures
            copy@ == self@,
    {
        SufastRequest {
            method: self.method.clone(),
            path: self.path.clone(),
            query: self.query.clone(),
            headers: self.headers.clone(),
            body: self.body.clone(),
        }
    }
}

/// The model of a response.
pub struct SufastResponseView {
    pub status: u16,
    pub headers: Pairs,
    pub body: Seq<char>,
}

/// A response as the dispatcher emits it.
pub struct SufastResponse {
    pub status: u16,
    pub headers: StringMap,
    pub body: String,
}

impl View for SufastResponse {
    type V = SufastResponseView;

    open spec fn view(&self) -> SufastResponseView {
        SufastResponseView { status: self.status, headers: self.headers@, body: self.body@ }
    }
}

impl Clone for SufastResponse {
    fn clone(&self) -> (copy: SufastResponse)
        ensures
            copy@ == self@,
    {
        SufastResponse {
            status: self.status,
            headers: self.headers.clone(),
            body: self.body.clone(),
        }
    }
}

/// The time that has passed at `now` since `since`; none where the clock
/// reads earlier than `since`.
pub open spec fn elapsed(since: u128, now: u128) -> u128 {
    if now >= since {
        (now - since) as u128
    } else {
        0
    }
}

/// Whether an entry inserted at `cached_at` with time to live `ttl` has
/// expired at `now`.
pub open spec fn expired_at(cached_at: u128, ttl: u128, now: u128) -> bool {
    elapsed(cached_at, now) >= ttl
}

impl CachedResponse {
    /// The age of the entry at `now`, in nanoseconds.
    pub fn age(&self, now: u128) -> (age: u128)
        ensures
            age == elapsed(self.cached_at, now),
    {
        if now >= self.cached_at {
            now - self.cached_at
        } else {
            0
        }
    }

    /// Whether the entry has outlived its time to live at `now`.
    pub fn is_expired(&self, now: u128) -> (r: bool)
        ensures
            r == expired_at(self.cached_at, self.ttl, now),
    {
        self.age(now) >= self.ttl
    }
}

} // verus!

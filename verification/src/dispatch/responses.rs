//! The responses that the dispatcher emits, tier by tier.

use vstd::prelude::*;
use vstd::string::StringExecFns;
use crate::dispatch::entries::{
    elapsed, CachedResponse, CachedResponseView, StaticResponse, StaticResponseView,
    SufastResponse, SufastResponseView,
};
use crate::dispatch::envelope::{json_quote, json_string};
use crate::string_map::{has_name, with_entry, Pairs, StringMap};
use crate::text::{decimal, decimal_string};

verus! {

/// The number of nanoseconds in a second.
pub const NANOS_PER_SECOND: u128 = 1_000_000_000;

/// The headers with a content type: their own, or JSON where they have
/// none.
pub open spec fn with_content_type(headers: Pairs) -> Pairs {
    if has_name(headers, "content-type"@) {
        headers
    } else {
        with_entry(headers, "content-type"@, "application/json"@)
    }
}

/// The headers with what every response carries: the tier, the request
/// id and the server's name.
pub open spec fn tagged(headers: Pairs, tier: Seq<char>, id: u64) -> Pairs {
    with_entry(
        with_entry(
            with_entry(with_content_type(headers), "x-sufast-tier"@, tier),
            "x-sufast-request-id"@,
            decimal(id as nat),
        ),
        "server"@,
        "sufast-ultra"@,
    )
}

/// The response for a hit in the static store: the entry as it stands,
/// tagged with the tier `static`.
pub open spec fn static_response(entry: StaticResponseView, id: u64) -> SufastResponseView {
    SufastResponseView {
        status: entry.status,
        headers: tagged(entry.headers, "static"@, id),
        body: entry.body,
    }
}

/// The response for a fresh hit in the cache: the entry as it stands,
/// tagged with the tier `cached` and with its age in whole seconds.
pub open spec fn cached_response(entry: CachedResponseView, id: u64, now: u128)
    -> SufastResponseView {
    SufastResponseView {
        status: entry.status,
        headers: with_entry(
            tagged(entry.headers, "cached"@, id),
            "x-sufast-cache-age"@,
            decimal((elapsed(entry.cached_at, now) / NANOS_PER_SECOND) as nat),
        ),
        body: entry.body,
    }
}

/// The response that passes on a handler's reply, tagged with the tier
/// `dynamic` and the handler's name.
pub open spec fn dynamic_response(
    status: u16,
    body: Seq<char>,
    headers: Pairs,
    id: u64,
    handler: Seq<char>,
) -> SufastResponseView {
    SufastResponseView {
        status,
        headers: with_entry(tagged(headers, "dynamic"@, id), "x-sufast-handler"@, handler),
        body,
    }
}

/// The body of the response for a request that no route answers.
pub open spec fn not_found_body(method: Seq<char>, path: Seq<char>) -> Seq<char> {
    "{\"error\":\"Route not found\",\"status\":404,\"path\":"@ + json_string(path)
        + ",\"method\":"@ + json_string(method) + "}"@
}

/// The response for a request that no route answers.
pub open spec fn not_found_response(method: Seq<char>, path: Seq<char>, id: u64)
    -> SufastResponseView {
    SufastResponseView {
        status: 404,
        headers: tagged(Pairs::empty(), "404"@, id),
        body: not_found_body(method, path),
    }
}

/// The response for a handler that returned nothing usable.
pub open spec fn handler_failed_response(id: u64) -> SufastResponseView {
    SufastResponseView {
        status: 500,
        headers: tagged(Pairs::empty(), "dynamic"@, id),
        body: "{\"error\":\"handler failed\"}"@,
    }
}

/// The response for a request whose body could not be read: such a
/// request reaches no tier.
pub open spec fn bad_request_response() -> SufastResponseView {
    SufastResponseView {
        status: 400,
        headers: with_entry(
            with_entry(Pairs::empty(), "content-type"@, "application/json"@),
            "server"@,
            "sufast-ultra"@,
        ),
        body: "{}"@,
    }
}

/// Tags headers with the tier, the request id and the server's name.
fn tag(headers: StringMap, tier: &str, id: u64) -> (out: StringMap)
    ensures
        out@ == tagged(headers@, tier@, id),
{
    let mut out = headers;
    if !out.contains_key("content-type") {
        out.insert(String::from_str("content-type"), String::from_str("application/json"));
    }
    out.insert(String::from_str("x-sufast-tier"), String::from_str(tier));
    out.insert(String::from_str("x-sufast-request-id"), decimal_string(id as u128));
    out.insert(String::from_str("server"), String::from_str("sufast-ultra"));
    out
}

/// Builds the response for a hit in the static store.
pub fn build_static_response(entry: StaticResponse, id: u64) -> (r: SufastResponse)
    ensures
        r@ == static_response(entry@, id),
{
    let StaticResponse { body, status, headers } = entry;
    SufastResponse { status, headers: tag(headers, "static", id), body }
}

/// Builds the response for a fresh hit in the cache.
pub fn build_cached_response(entry: CachedResponse, id: u64, now: u128) -> (r: SufastResponse)
    ensures
        r@ == cached_response(entry@, id, now),
{
    let age = entry.age(now) / NANOS_PER_SECOND;
    let CachedResponse { body, status, headers, .. } = entry;
    let mut headers = tag(headers, "cached", id);
    headers.insert(String::from_str("x-sufast-cache-age"), decimal_string(age));
    SufastResponse { status, headers, body }
}

/// Builds the response that passes on a handler's reply.
pub fn build_dynamic_response(
    status: u16,
    body: String,
    headers: StringMap,
    id: u64,
    handler: &str,
) -> (r: SufastResponse)
    ensures
        r@ == dynamic_response(status, body@, headers@, id, handler@),
{
    let mut headers = tag(headers, "dynamic", id);
    headers.insert(String::from_str("x-sufast-handler"), String::from_str(handler));
    SufastResponse { status, headers, body }
}

/// Builds the response for a request that no route answers.
pub fn build_not_found_response(method: &str, path: &str, id: u64) -> (r: SufastResponse)
    ensures
        r@ == not_found_response(method@, path@, id),
{
    let mut body = String::from_str("{\"error\":\"Route not found\",\"status\":404,\"path\":");
    body.append(json_quote(path).as_str());
    body.append(",\"method\":");
    body.append(json_quote(method).as_str());
    body.append("}");
    SufastResponse { status: 404, headers: tag(StringMap::new(), "404", id), body }
}

/// Builds the response for a handler that returned nothing usable.
pub fn build_handler_failed_response(id: u64) -> (r: SufastResponse)
    ensures
        r@ == handler_failed_response(id),
{
    SufastResponse {
        status: 500,
        headers: tag(StringMap::new(), "dynamic", id),
        body: String::from_str("{\"error\":\"handler failed\"}"),
    }
}

/// Builds the response for a request whose body could not be read.
pub fn build_bad_request_response() -> (r: SufastResponse)
    ensures
        r@ == bad_request_response(),
{
    let mut headers = StringMap::new();
    headers.insert(String::from_str("content-type"), String::from_str("application/json"));
    headers.insert(String::from_str("server"), String::from_str("sufast-ultra"));
    SufastResponse { status: 400, headers, body: String::from_str("{}") }
}

} // verus!

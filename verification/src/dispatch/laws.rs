//! What holds of the dispatcher in every state.

use vstd::prelude::*;
use crate::dispatch::counters::{
    counted, lemma_counted, not_below, tiers_sum_to_total, Tier,
};
use crate::dispatch::entries::{
    elapsed, StaticResponseView, SufastRequestView,
};
use crate::dispatch::responses::{
    tagged, with_content_type, NANOS_PER_SECOND,
};
use crate::dispatch::envelope::{
    default_reply_headers, envelope_of, overlay, reply_of, };
use crate::dispatch::route_table::{answers, well_formed_routes, RouteView};
use crate::dispatch::router::{
    cleared, completed, composed_key, dispatched, is_cached, normalized_path,
    seeded, static_entry, tier_of, well_formed_router, DispatchView, PendingCallView,
    RouterView,
};
use crate::routing::laws::law_literal_pattern;
use crate::string_map::{distinct_names, has_name, lemma_with_entry, lookup, with_entry, Pairs};

verus! {

/// Tagging sets the tier, keeps a content type that the headers declare,
/// and supplies JSON where they declare none.
pub proof fn lemma_tagged(headers: Pairs, tier: Seq<char>, id: u64)
    requires
        distinct_names(headers),
    ensures
        distinct_names(tagged(headers, tier, id)),
        lookup(tagged(headers, tier, id), "x-sufast-tier"@) == Some(tier),
        lookup(tagged(headers, tier, id), "server"@) == Some("sufast-ultra"@),
        lookup(tagged(headers, tier, id), "content-type"@) == if has_name(
            headers,
            "content-type"@,
        ) {
            lookup(headers, "content-type"@)
        } else {
            Some("application/json"@)
        },
{
    reveal_strlit("content-type");
    reveal_strlit("x-sufast-tier");
    reveal_strlit("x-sufast-request-id");
    reveal_strlit("server");
    assert("content-type"@.len() == 12);
    assert("x-sufast-tier"@.len() == 13);
    let a = with_content_type(headers);
    lemma_with_entry(headers, "content-type"@, "application/json"@);
    let b = with_entry(a, "x-sufast-tier"@, tier);
    lemma_with_entry(a, "x-sufast-tier"@, tier);
    let c = with_entry(b, "x-sufast-request-id"@, crate::text::decimal(id as nat));
    lemma_with_entry(b, "x-sufast-request-id"@, crate::text::decimal(id as nat));
    lemma_with_entry(c, "server"@, "sufast-ultra"@);
}

/// A request whose composed key stands in the static store is answered
/// with the entry's status and body, with the content type that the entry
/// declares, and under the tier `static`, whatever the cache and the
/// route table hold. The entry names no header twice, as every entry of
/// a well-formed dispatcher does.
pub proof fn law_static_entry_is_served(router: RouterView, request: SufastRequestView, now: u128)
    requires
        router.statics.contains_key(
            composed_key(request.method, normalized_path(request.path)),
        ),
        distinct_names(
            router.statics[composed_key(request.method, normalized_path(request.path))].headers,
        ),
    ensures
        ({
            let entry = router.statics[composed_key(
                request.method,
                normalized_path(request.path),
            )];
            let after = dispatched(router, request, now);
            &&& after.1 matches DispatchView::Respond(response)
            &&& response.status == entry.status
            &&& response.body == entry.body
            &&& lookup(response.headers, "x-sufast-tier"@) == Some("static"@)
            &&& has_name(entry.headers, "content-type"@) ==> lookup(
                response.headers,
                "content-type"@,
            ) == lookup(entry.headers, "content-type"@)
            &&& after.0.counters.static_hits == crate::dispatch::counters::bump(
                router.counters.static_hits,
            )
            &&& after.0.statics == router.statics
        }),
{
    let entry = router.statics[composed_key(request.method, normalized_path(request.path))];
    let id = counted(router.counters, Tier::Static).total;
    lemma_tagged(entry.headers, "static"@, id);
}

/// A request whose composed key stands in the cache and not in the static
/// store is answered with the cached body under the tier `cached` while
/// less than the entry's time to live has passed since its insertion;
/// from then on it is not, and the entry leaves the cache. The time to
/// live of an entry is not zero, and the entry names no header twice, as
/// every entry of a well-formed dispatcher does.
pub proof fn law_cached_entry_lives_for_its_ttl(
    router: RouterView,
    request: SufastRequestView,
    now: u128,
)
    requires
        !router.statics.contains_key(
            composed_key(request.method, normalized_path(request.path)),
        ),
        router.cache.contains_key(composed_key(request.method, normalized_path(request.path))),
        distinct_names(
            router.cache[composed_key(request.method, normalized_path(request.path))].headers,
        ),
        router.cache[composed_key(request.method, normalized_path(request.path))].ttl > 0,
    ensures
        ({
            let key = composed_key(request.method, normalized_path(request.path));
            let entry = router.cache[key];
            let after = dispatched(router, request, now);
            &&& now - entry.cached_at < entry.ttl ==> {
                &&& after.1 matches DispatchView::Respond(response)
                &&& response.body == entry.body
                &&& response.status == entry.status
                &&& lookup(response.headers, "x-sufast-tier"@) == Some("cached"@)
                &&& after.0.cache == router.cache
            }
            &&& now >= entry.cached_at + entry.ttl ==> {
                &&& tier_of(router, request, now) != Tier::Cached
                &&& !after.0.cache.contains_key(key)
            }
        }),
{
    let key = composed_key(request.method, normalized_path(request.path));
    let entry = router.cache[key];
    let id = counted(router.counters, Tier::Cached).total;
    lemma_tagged(entry.headers, "cached"@, id);
    lemma_with_entry(
        tagged(entry.headers, "cached"@, id),
        "x-sufast-cache-age"@,
        crate::text::decimal((elapsed(entry.cached_at, now) / NANOS_PER_SECOND) as nat),
    );
    reveal_strlit("x-sufast-cache-age");
    reveal_strlit("x-sufast-tier");
    assert("x-sufast-cache-age"@.len() == 18);
}

/// A reply with status 200 to a call with a time to live of `t` seconds,
/// completed at `now`, stands in the cache under the call's key with the
/// reply's body, inserted at `now`, for `t` seconds. Any other reply, and
/// no reply, leaves the cache as it was.
pub proof fn law_completion_caches(
    router: RouterView,
    call: PendingCallView,
    answer: Option<Seq<char>>,
    now: u128,
)
    ensures
        ({
            let after = completed(router, call, answer, now);
            &&& after.0.statics == router.statics
            &&& after.0.routes == router.routes
            &&& after.0.counters == router.counters
            &&& after.0.cache != router.cache ==> {
                &&& answer is Some
                &&& after.1.status == 200
                &&& is_cached(200, call.cache_ttl)
                &&& after.0.cache.contains_key(call.key)
                &&& after.0.cache[call.key].body == after.1.body
                &&& after.0.cache[call.key].cached_at == now
                &&& after.0.cache[call.key].ttl == call.cache_ttl->0 * NANOS_PER_SECOND
            }
        }),
{
}

/// The headers of a stored static entry have distinct names.
proof fn lemma_static_entry_headers(body: Seq<char>, status: u16, content_type: Option<Seq<char>>)
    ensures
        distinct_names(static_entry(body, status, content_type).headers),
        lookup(static_entry(body, status, content_type).headers, "content-type"@) == Some(
            match content_type {
                Some(given) => given,
                None => "application/json"@,
            },
        ),
{
    reveal_strlit("content-type");
    reveal_strlit("x-sufast-optimized");
    reveal_strlit("cache-control");
    assert("content-type"@.len() == 12);
    assert("x-sufast-optimized"@.len() == 18);
    let headers = static_entry(body, status, content_type).headers;
    crate::string_map::lemma_index_of(headers, 0);
}

/// After a static route has been added, and until it is added again, a
/// request for its method and path is answered with its body, its status
/// and its content type, under the tier `static`.
pub proof fn law_added_static_route_is_served(
    router: RouterView,
    method: Seq<char>,
    path: Seq<char>,
    body: Seq<char>,
    status: u16,
    content_type: Option<Seq<char>>,
    request: SufastRequestView,
    now: u128,
)
    requires
        path.len() > 0,
        request.method == method,
        request.path == path,
        router.statics.contains_key(composed_key(method, path)),
        router.statics[composed_key(method, path)] == static_entry(body, status, content_type),
    ensures
        ({
            let after = dispatched(router, request, now);
            &&& after.1 matches DispatchView::Respond(response)
            &&& response.status == status
            &&& response.body == body
            &&& lookup(response.headers, "x-sufast-tier"@) == Some("static"@)
            &&& lookup(response.headers, "content-type"@) == Some(
                match content_type {
                    Some(given) => given,
                    None => "application/json"@,
                },
            )
        }),
{
    lemma_static_entry_headers(body, status, content_type);
    law_static_entry_is_served(router, request, now);
}

/// Laying members over headers with distinct names keeps the names
/// distinct.
proof fn lemma_overlay_distinct(base: Pairs, members: Seq<(Seq<char>, Option<Seq<char>>)>)
    requires
        distinct_names(base),
    ensures
        distinct_names(overlay(base, members)),
    decreases members.len(),
{
    if members.len() > 0 {
        lemma_overlay_distinct(base, members.drop_last());
        match members.last().1 {
            Some(value) => {
                lemma_with_entry(overlay(base, members.drop_last()), members.last().0, value);
            },
            None => {},
        }
    }
}

/// The headers of a reply have distinct names.
pub proof fn lemma_reply_headers_distinct(answer: Seq<char>)
    requires
        reply_of(answer) is Reply,
    ensures
        distinct_names(reply_of(answer)->headers),
{
    reveal_strlit("content-type");
    reveal_strlit("x-sufast-engine");
    assert("content-type"@.len() == 12);
    let base = default_reply_headers();
    match envelope_of(answer) {
        Some(raw) => match raw.headers {
            Some(members) => {
                lemma_overlay_distinct(base, members);
            },
            None => {},
        },
        None => {},
    }
}

/// A reply with status 200 that was cached at `then` for a call with a
/// time to live of `seconds` answers the requests for the call's key that
/// come less than `seconds` seconds later, and none that comes later than
/// that, as long as the entry is neither replaced nor cleared and no
/// static entry stands under the key.
pub proof fn law_cached_reply_lives_for_its_ttl(
    router: RouterView,
    call: PendingCallView,
    answer: Seq<char>,
    then: u128,
    request: SufastRequestView,
    now: u128,
)
    requires
        is_cached(200, call.cache_ttl),
        reply_of(answer) is Reply,
        reply_of(answer)->status == 200,
        call.key == composed_key(request.method, normalized_path(request.path)),
        !router.statics.contains_key(call.key),
    ensures
        ({
            let cached = completed(router, call, Some(answer), then).0;
            let after = dispatched(cached, request, now);
            let ttl = call.cache_ttl->0 * NANOS_PER_SECOND;
            &&& now - then < ttl ==> {
                &&& after.1 matches DispatchView::Respond(response)
                &&& response.body == reply_of(answer)->body
                &&& lookup(response.headers, "x-sufast-tier"@) == Some("cached"@)
            }
            &&& now >= then + ttl ==> {
                &&& tier_of(cached, request, now) != Tier::Cached
                &&& !after.0.cache.contains_key(call.key)
            }
        }),
{
    lemma_reply_headers_distinct(answer);
    let cached = completed(router, call, Some(answer), then).0;
    law_cached_entry_lives_for_its_ttl(cached, request, now);
}

/// A route whose pattern holds no `{` answers the requests of its method
/// for the very text of its pattern, and no others.
pub proof fn law_exact_route_answers_its_own_text(
    routes: Seq<RouteView>,
    i: int,
    method: Seq<char>,
    path: Seq<char>,
)
    requires
        well_formed_routes(routes),
        0 <= i < routes.len(),
        !routes[i].record.is_dynamic,
    ensures
        answers(routes[i], method, path) <==> routes[i].record.method == method
            && routes[i].record.path == path,
{
    law_literal_pattern(routes[i].record.path, path);
}

/// No request lowers a counter, and neither does the completion of a call.
pub proof fn law_counters_never_decrease(
    router: RouterView,
    request: SufastRequestView,
    call: PendingCallView,
    answer: Option<Seq<char>>,
    now: u128,
)
    ensures
        not_below(router.counters, dispatched(router, request, now).0.counters),
        completed(router, call, answer, now).0.counters == router.counters,
        cleared(router).counters == router.counters,
{
}

/// Each request is counted once in the total and once under the tier that
/// answered it: while the total is below its ceiling, the four tiers sum
/// to it.
pub proof fn law_tiers_sum_to_total(router: RouterView, request: SufastRequestView, now: u128)
    requires
        tiers_sum_to_total(router.counters),
    ensures
        dispatched(router, request, now).0.counters == counted(
            router.counters,
            tier_of(router, request, now),
        ),
        tiers_sum_to_total(dispatched(router, request, now).0.counters),
{
    lemma_counted(router.counters, tier_of(router, request, now));
}

/// What holds of every dispatcher holds after a request: dispatching
/// keeps a well-formed dispatcher well formed.
pub proof fn law_dispatch_keeps_well_formed(
    router: RouterView,
    request: SufastRequestView,
    now: u128,
)
    requires
        well_formed_router(router),
    ensures
        well_formed_router(dispatched(router, request, now).0),
{
    lemma_counted(router.counters, tier_of(router, request, now));
}

/// What holds of every dispatcher holds after a call has been completed:
/// a reply that is cached names no header twice.
pub proof fn law_completion_keeps_well_formed(
    router: RouterView,
    call: PendingCallView,
    answer: Option<Seq<char>>,
    now: u128,
)
    requires
        well_formed_router(router),
    ensures
        well_formed_router(completed(router, call, answer, now).0),
{
    if let Some(text) = answer {
        if reply_of(text) is Reply {
            lemma_reply_headers_distinct(text);
        }
    }
}

/// Seeding a seeded store changes nothing, so the store's size stays what
/// it was after the first seeding.
pub proof fn law_seeding_is_idempotent(statics: Map<Seq<char>, StaticResponseView>)
    ensures
        seeded(seeded(statics)) == seeded(statics),
{
    reveal_strlit("GET:/");
    reveal_strlit("GET:/health");
    reveal_strlit("GET:/about");
    reveal_strlit("GET:/api/status");
}

/// The keys under which seeding stores its entries.
pub open spec fn seeded_keys() -> Set<Seq<char>> {
    set!["GET:/"@, "GET:/health"@, "GET:/about"@, "GET:/api/status"@]
}

/// Seeding adds the four seeded keys to those of the store and no other.
/// A store that held none of them holds four entries more afterwards, so
/// an empty store holds four.
pub proof fn law_seeding_adds_the_seeded_keys(statics: Map<Seq<char>, StaticResponseView>)
    requires
        statics.dom().finite(),
    ensures
        seeded(statics).dom() =~= statics.dom() + seeded_keys(),
        seeded(statics).dom().finite(),
        seeded_keys().len() == 4,
        statics.dom().disjoint(seeded_keys()) ==> seeded(statics).len() == statics.len() + 4,
{
    reveal_strlit("GET:/");
    reveal_strlit("GET:/health");
    reveal_strlit("GET:/about");
    reveal_strlit("GET:/api/status");
    assert("GET:/"@.len() == 5);
    assert("GET:/health"@.len() == 11);
    assert("GET:/about"@.len() == 10);
    assert("GET:/api/status"@.len() == 15);
    let keys = Set::<Seq<char>>::empty().insert("GET:/"@).insert("GET:/health"@).insert(
        "GET:/about"@,
    ).insert("GET:/api/status"@);
    assert(seeded_keys() =~= keys);
    assert(keys.len() == 4);
    assert(seeded(statics).dom() =~= statics.dom() + seeded_keys());
    vstd::set_lib::lemma_set_disjoint_lens(statics.dom(), seeded_keys());
}

/// Clearing a cleared cache changes nothing.
pub proof fn law_clearing_is_idempotent(router: RouterView)
    ensures
        cleared(cleared(router)) == cleared(router),
        cleared(router).cache.len() == 0,
{
}

} // verus!

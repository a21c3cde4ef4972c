use sufast_core::dispatch::counters::{CounterSnapshot, Counters, Tier};
use sufast_core::dispatch::entries::{CachedResponse, SufastRequest, SufastResponse};
use sufast_core::dispatch::envelope::{
    interpret_envelope, json_object_text, parse_handler_reply, request_envelope_text,
    HandlerReply, RawEnvelope,
};
use sufast_core::dispatch::router::{Dispatch, PendingCall, Router};
use sufast_core::string_map::StringMap;

const SECOND: u128 = 1_000_000_000;

fn request(method: &str, path: &str) -> SufastRequest {
    SufastRequest {
        method: method.to_string(),
        path: path.to_string(),
        query: StringMap::new(),
        headers: StringMap::new(),
        body: String::new(),
    }
}

fn respond(decision: Dispatch) -> SufastResponse {
    match decision {
        Dispatch::Respond(response) => response,
        Dispatch::Invoke(_) => panic!("a ready response was expected"),
    }
}

fn invoke(decision: Dispatch) -> PendingCall {
    match decision {
        Dispatch::Invoke(call) => call,
        Dispatch::Respond(_) => panic!("a call to the handler was expected"),
    }
}

fn header<'a>(response: &'a SufastResponse, name: &str) -> Option<&'a str> {
    response.headers.get(name).map(|v| v.as_str())
}

fn counters(router: &Router) -> CounterSnapshot {
    router.get_performance_stats().counters
}

#[test]
fn static_route_is_served_from_the_static_tier() {
    let mut router = Router::new();
    assert!(router.add_static_route("GET:/health", "{\"status\":\"healthy\"}", 200, None));
    let response = respond(router.dispatch(&request("GET", "/health"), 0));
    assert_eq!(response.status, 200);
    assert_eq!(response.body, "{\"status\":\"healthy\"}");
    assert_eq!(header(&response, "x-sufast-tier"), Some("static"));
    assert_eq!(header(&response, "x-sufast-request-id"), Some("1"));
    assert_eq!(header(&response, "server"), Some("sufast-ultra"));
    assert_eq!(header(&response, "content-type"), Some("application/json"));
    assert_eq!(header(&response, "x-sufast-optimized"), Some("static"));
    assert_eq!(
        header(&response, "cache-control"),
        Some("public, max-age=31536000")
    );
    let c = counters(&router);
    assert_eq!(c.static_hits, 1);
    assert_eq!(c.total, 1);
    assert_eq!(c.cache_hits + c.dynamic_hits + c.not_found, 0);
}

#[test]
fn static_route_keeps_its_declared_content_type_and_status() {
    let mut router = Router::new();
    router.add_static_route("POST:/x", "<p>made</p>", 201, Some("text/html"));
    let response = respond(router.dispatch(&request("POST", "/x"), 0));
    assert_eq!(response.status, 201);
    assert_eq!(response.body, "<p>made</p>");
    assert_eq!(header(&response, "content-type"), Some("text/html"));
    // another method has another key
    let response = respond(router.dispatch(&request("GET", "/x"), 0));
    assert_eq!(response.status, 404);
    // registering again overwrites
    router.add_static_route("POST:/x", "again", 200, None);
    let response = respond(router.dispatch(&request("POST", "/x"), 0));
    assert_eq!(response.body, "again");
    assert_eq!(router.static_routes_count(), 1);
}

#[test]
fn dynamic_route_is_cached_for_its_time_to_live() {
    let mut router = Router::new();
    assert!(router.add_dynamic_route("GET", "/users/{id:int}", "get_user", 60));
    let call = invoke(router.dispatch(&request("GET", "/users/42"), 0));
    assert_eq!(call.handler_name, "get_user");
    assert_eq!(call.key, "GET:/users/42");
    assert_eq!(call.params_json, "{\"id\":\"42\"}");
    assert_eq!(call.cache_ttl, Some(60));
    assert_eq!(call.request_id, 1);
    let reply = "{\"status\":200,\"body\":\"{\\\"id\\\":\\\"42\\\"}\",\"headers\":{}}";
    let response = router.complete(call, Some(reply), 5);
    assert_eq!(response.status, 200);
    assert_eq!(response.body, "{\"id\":\"42\"}");
    assert_eq!(header(&response, "x-sufast-tier"), Some("dynamic"));
    assert_eq!(header(&response, "x-sufast-handler"), Some("get_user"));
    assert_eq!(header(&response, "x-sufast-request-id"), Some("1"));
    assert_eq!(header(&response, "content-type"), Some("application/json"));
    assert_eq!(router.cache_size(), 1);

    // within sixty seconds the cache answers
    let second = respond(router.dispatch(&request("GET", "/users/42"), 5 + 59 * SECOND));
    assert_eq!(second.status, 200);
    assert_eq!(second.body, "{\"id\":\"42\"}");
    assert_eq!(header(&second, "x-sufast-tier"), Some("cached"));
    assert_eq!(header(&second, "x-sufast-cache-age"), Some("59"));
    assert_eq!(header(&second, "x-sufast-request-id"), Some("2"));
    let c = counters(&router);
    assert_eq!(c.cache_hits, 1);
    assert_eq!(c.dynamic_hits, 1);
    assert_eq!(c.total, 2);

    // one nanosecond before the time to live has passed: still cached
    let third = respond(router.dispatch(&request("GET", "/users/42"), 5 + 60 * SECOND - 1));
    assert_eq!(header(&third, "x-sufast-tier"), Some("cached"));
    // at the time to live the entry is gone and the handler is asked again
    let call = invoke(router.dispatch(&request("GET", "/users/42"), 5 + 60 * SECOND));
    assert_eq!(router.cache_size(), 0);
    assert_eq!(call.request_id, 4);
    let c = counters(&router);
    assert_eq!(c.cache_hits, 2);
    assert_eq!(c.dynamic_hits, 2);
}

#[test]
fn int_route_does_not_match_letters() {
    let mut router = Router::new();
    router.add_dynamic_route("GET", "/users/{id:int}", "get_user", 0);
    let response = respond(router.dispatch(&request("GET", "/users/abc"), 0));
    assert_eq!(response.status, 404);
    assert!(response.body.starts_with("{\"error\":\"Route not found\","));
    assert_eq!(
        response.body,
        "{\"error\":\"Route not found\",\"status\":404,\"path\":\"/users/abc\",\"method\":\"GET\"}"
    );
    assert_eq!(header(&response, "x-sufast-tier"), Some("404"));
    assert_eq!(header(&response, "content-type"), Some("application/json"));
    let c = counters(&router);
    assert_eq!(c.not_found, 1);
    assert_eq!(c.dynamic_hits, 0);
    assert_eq!(c.total, 1);
}

#[test]
fn first_registered_route_wins() {
    let mut router = Router::new();
    router.add_dynamic_route("GET", "/items/{slug:slug}", "by_slug", 0);
    router.add_dynamic_route("GET", "/items/{id:int}", "by_id", 0);
    let call = invoke(router.dispatch(&request("GET", "/items/42"), 0));
    assert_eq!(call.handler_name, "by_slug");
    assert_eq!(call.params_json, "{\"slug\":\"42\"}");
    // '-' is a slug character, so a negative number is a slug too
    let call = invoke(router.dispatch(&request("GET", "/items/-7"), 0));
    assert_eq!(call.handler_name, "by_slug");
    // registering the first pattern again keeps its place
    router.add_dynamic_route("GET", "/items/{slug:slug}", "by_slug_again", 0);
    let call = invoke(router.dispatch(&request("GET", "/items/42"), 0));
    assert_eq!(call.handler_name, "by_slug_again");
    assert_eq!(router.get_performance_stats().dynamic_patterns, 2);
}

#[test]
fn handler_without_answer_falls_back_to_not_found() {
    let mut router = Router::new();
    router.add_dynamic_route("GET", "/users/{id:int}", "get_user", 60);
    let call = invoke(router.dispatch(&request("GET", "/users/7"), 0));
    let response = router.complete(call, None, 0);
    assert_eq!(response.status, 404);
    assert_eq!(header(&response, "x-sufast-tier"), Some("404"));
    assert_eq!(
        response.body,
        "{\"error\":\"Route not found\",\"status\":404,\"path\":\"/users/7\",\"method\":\"GET\"}"
    );
    assert_eq!(router.cache_size(), 0);
    let c = counters(&router);
    assert_eq!(c.dynamic_hits, 1);
    assert_eq!(c.not_found, 0);
}

#[test]
fn zero_time_to_live_is_never_cached() {
    let mut router = Router::new();
    router.add_dynamic_route("GET", "/now", "now", 0);
    for id in 1..=2u64 {
        let call = invoke(router.dispatch(&request("GET", "/now"), 0));
        assert_eq!(call.cache_ttl, None);
        assert_eq!(call.request_id, id);
        let response = router.complete(call, Some("{\"status\":200,\"body\":\"ok\"}"), 0);
        assert_eq!(response.status, 200);
        assert_eq!(response.body, "ok");
    }
    let c = counters(&router);
    assert_eq!(c.cache_hits, 0);
    assert_eq!(c.dynamic_hits, 2);
    assert_eq!(router.cache_size(), 0);
}

#[test]
fn only_status_200_is_cached() {
    let mut router = Router::new();
    router.add_dynamic_route("GET", "/a", "a", 60);
    let call = invoke(router.dispatch(&request("GET", "/a"), 0));
    let response = router.complete(call, Some("{\"status\":201,\"body\":\"made\"}"), 0);
    assert_eq!(response.status, 201);
    assert_eq!(router.cache_size(), 0);
    let call = invoke(router.dispatch(&request("GET", "/a"), 0));
    let response = router.complete(call, Some("{\"body\":\"plain\"}"), 0);
    assert_eq!(response.status, 200);
    assert_eq!(router.cache_size(), 1);
}

#[test]
fn unusable_reply_gives_500() {
    let mut router = Router::new();
    router.add_dynamic_route("GET", "/a", "a", 60);
    for reply in [
        "not json",
        "{\"status\":99}",
        "{\"status\":600}",
        "{\"status\":-1}",
        "{\"status\":600.5}",
        "{\"status\":1e20}",
        "",
    ] {
        let call = invoke(router.dispatch(&request("GET", "/a"), 0));
        let response = router.complete(call, Some(reply), 0);
        assert_eq!(response.status, 500, "{}", reply);
        assert_eq!(response.body, "{\"error\":\"handler failed\"}");
        assert_eq!(header(&response, "x-sufast-tier"), Some("dynamic"));
        assert_eq!(header(&response, "content-type"), Some("application/json"));
    }
    assert_eq!(router.cache_size(), 0);
}

#[test]
fn static_entry_wins_over_cache_and_routes() {
    let mut router = Router::new();
    router.add_dynamic_route("GET", "/p/{x}", "p", 60);
    let call = invoke(router.dispatch(&request("GET", "/p/1"), 0));
    router.complete(call, Some("{\"body\":\"dynamic\"}"), 0);
    router.add_static_route("GET:/p/1", "static", 200, None);
    let response = respond(router.dispatch(&request("GET", "/p/1"), 1));
    assert_eq!(response.body, "static");
    assert_eq!(header(&response, "x-sufast-tier"), Some("static"));
}

#[test]
fn empty_path_is_the_root() {
    let mut router = Router::new();
    router.add_static_route("GET:/", "root", 200, None);
    let response = respond(router.dispatch(&request("GET", ""), 0));
    assert_eq!(response.body, "root");
    let response = respond(router.dispatch(&request("POST", ""), 0));
    assert_eq!(
        response.body,
        "{\"error\":\"Route not found\",\"status\":404,\"path\":\"/\",\"method\":\"POST\"}"
    );
}

#[test]
fn routes_are_scoped_to_their_method() {
    let mut router = Router::new();
    router.add_dynamic_route("POST", "/users/{id}", "update", 0);
    assert_eq!(respond(router.dispatch(&request("GET", "/users/1"), 0)).status, 404);
    let call = invoke(router.dispatch(&request("POST", "/users/1"), 0));
    assert_eq!(call.handler_name, "update");
    // a route without parameters answers its own text only
    router.add_dynamic_route("GET", "/plain", "plain", 0);
    assert_eq!(
        invoke(router.dispatch(&request("GET", "/plain"), 0)).handler_name,
        "plain"
    );
    assert_eq!(respond(router.dispatch(&request("GET", "/plain/"), 0)).status, 404);
}

#[test]
fn pattern_that_does_not_compile_registers_nothing() {
    let mut router = Router::new();
    assert!(!router.add_dynamic_route("GET", "/{a}/{a}", "dup", 0));
    assert!(!router.add_dynamic_route("GET", "/{a{b}", "nested", 0));
    assert_eq!(router.get_performance_stats().dynamic_patterns, 0);
    assert_eq!(respond(router.dispatch(&request("GET", "/x/x"), 0)).status, 404);
}

#[test]
fn seeding_twice_leaves_the_store_unchanged() {
    let mut router = Router::new();
    assert_eq!(router.precompile_static_routes(), 4);
    assert_eq!(router.precompile_static_routes(), 4);
    assert_eq!(router.precompile_static_routes(), 4);
    assert_eq!(router.static_routes_count(), 4);
    let response = respond(router.dispatch(&request("GET", "/health"), 0));
    assert_eq!(response.status, 200);
    assert_eq!(
        response.body,
        "{\"status\":\"healthy\",\"service\":\"sufast-ultra\",\"server\":\"sufast-ultra\"}"
    );
    assert_eq!(header(&response, "x-sufast-precompiled"), Some("true"));
    for path in ["/", "/about", "/api/status"] {
        let response = respond(router.dispatch(&request("GET", path), 0));
        assert_eq!(header(&response, "x-sufast-tier"), Some("static"), "{}", path);
    }
    // seeding counts what else the store holds
    router.add_static_route("GET:/mine", "x", 200, None);
    assert_eq!(router.precompile_static_routes(), 5);
}

#[test]
fn clearing_the_cache_twice() {
    let mut router = Router::new();
    router.add_dynamic_route("GET", "/a", "a", 60);
    let call = invoke(router.dispatch(&request("GET", "/a"), 0));
    router.complete(call, Some("{}"), 0);
    assert_eq!(router.cache_size(), 1);
    let before = counters(&router);
    assert!(router.clear_cache());
    assert_eq!(router.cache_size(), 0);
    assert!(router.clear_cache());
    assert_eq!(router.cache_size(), 0);
    assert_eq!(counters(&router), before);
    assert_eq!(router.static_routes_count(), 0);
    assert_eq!(router.get_performance_stats().dynamic_patterns, 1);
}

#[test]
fn counters_only_grow_and_sum_to_the_total() {
    let mut router = Router::new();
    router.add_static_route("GET:/s", "s", 200, None);
    router.add_dynamic_route("GET", "/d/{x}", "d", 60);
    let paths = ["/s", "/d/1", "/d/1", "/none", "/s", "/d/2", "/none"];
    let mut last = counters(&router);
    for (i, path) in paths.iter().enumerate() {
        match router.dispatch(&request("GET", path), i as u128) {
            Dispatch::Invoke(call) => {
                router.complete(call, Some("{}"), i as u128);
            }
            Dispatch::Respond(_) => {}
        }
        let now = counters(&router);
        assert!(now.total >= last.total);
        assert!(now.static_hits >= last.static_hits);
        assert!(now.cache_hits >= last.cache_hits);
        assert!(now.dynamic_hits >= last.dynamic_hits);
        assert!(now.not_found >= last.not_found);
        assert_eq!(
            now.total,
            now.static_hits + now.cache_hits + now.dynamic_hits + now.not_found
        );
        last = now;
    }
    assert_eq!(
        last,
        CounterSnapshot {
            total: 7,
            static_hits: 2,
            cache_hits: 1,
            dynamic_hits: 2,
            not_found: 2
        }
    );
}

#[test]
fn counters_stop_at_their_ceiling() {
    let mut counters = Counters::new();
    assert_eq!(counters.record(Tier::Static), 1);
    assert_eq!(counters.record(Tier::NotFound), 2);
    assert_eq!(counters.snapshot().static_hits, 1);
    assert_eq!(counters.snapshot().not_found, 1);
}

#[test]
fn request_envelope_is_json() {
    let mut req = request("POST", "/users/4\"2");
    req.query.insert("q".to_string(), "a b".to_string());
    req.headers.insert("content-type".to_string(), "text/plain".to_string());
    req.headers.insert("x-a".to_string(), "1".to_string());
    req.body = "line\nbreak".to_string();
    let mut params = StringMap::new();
    params.insert("id".to_string(), "4\"2".to_string());
    assert_eq!(
        request_envelope_text(&req, &params),
        "{\"method\":\"POST\",\"path\":\"/users/4\\\"2\",\"path_params\":{\"id\":\"4\\\"2\"},\"query_params\":{\"q\":\"a b\"},\"headers\":{\"content-type\":\"text/plain\",\"x-a\":\"1\"},\"body\":\"line\\nbreak\"}"
    );
    assert_eq!(json_object_text(&StringMap::new()), "{}");
}

#[test]
fn json_text_escapes() {
    let mut router = Router::new();
    let response = respond(router.dispatch(
        &request("GET", "/a\"b\\c\u{8}\t\n\u{c}\r\u{1}\u{1f}\u{0} \u{7f}/\u{e9}\u{1f600}"),
        0,
    ));
    assert_eq!(response.status, 404);
    assert_eq!(
        response.body,
        "{\"error\":\"Route not found\",\"status\":404,\"path\":\"/a\\\"b\\\\c\\b\\t\\n\\f\\r\\u0001\\u001f\\u0000 \u{7f}/\u{e9}\u{1f600}\",\"method\":\"GET\"}"
    );
    let mut members = StringMap::new();
    members.insert("k\u{1b}".to_string(), "\u{10}v\"".to_string());
    assert_eq!(json_object_text(&members), "{\"k\\u001b\":\"\\u0010v\\\"\"}");
}

#[test]
fn reply_envelope_defaults() {
    match parse_handler_reply("{}") {
        HandlerReply::Reply { status, body, headers } => {
            assert_eq!(status, 200);
            assert_eq!(body, "{}");
            assert_eq!(
                headers.get("content-type"),
                Some(&"application/json".to_string())
            );
            assert_eq!(
                headers.get("x-sufast-engine"),
                Some(&"rust-python-ffi".to_string())
            );
        }
        HandlerReply::Failed => panic!("a reply was expected"),
    }
    match parse_handler_reply(
        "{\"status\":599,\"body\":\"b\",\"headers\":{\"content-type\":\"text/plain\",\"x\":1,\"y\":\"z\"}}",
    ) {
        HandlerReply::Reply { status, body, headers } => {
            assert_eq!(status, 599);
            assert_eq!(body, "b");
            assert_eq!(headers.get("content-type"), Some(&"text/plain".to_string()));
            assert_eq!(headers.get("x"), None);
            assert_eq!(headers.get("y"), Some(&"z".to_string()));
        }
        HandlerReply::Failed => panic!("a reply was expected"),
    }
    // a status that is present but no integer counts as missing
    match parse_handler_reply("{\"status\":\"200\",\"body\":5}") {
        HandlerReply::Reply { status, body, .. } => {
            assert_eq!(status, 200);
            assert_eq!(body, "{}");
        }
        HandlerReply::Failed => panic!("a reply was expected"),
    }
    assert!(matches!(parse_handler_reply("{\"status\":100}"), HandlerReply::Reply { status: 100, .. }));
    assert!(matches!(parse_handler_reply("{\"status\":99}"), HandlerReply::Failed));
    assert!(matches!(parse_handler_reply("{\"status\":600}"), HandlerReply::Failed));
    assert!(matches!(parse_handler_reply("{\"status\":-200}"), HandlerReply::Failed));
    assert!(matches!(parse_handler_reply("{\"status\":599}"), HandlerReply::Reply { status: 599, .. }));
    // a number that is no integer, or too large for one, is out of range
    assert!(matches!(parse_handler_reply("{\"status\":600.5}"), HandlerReply::Failed));
    assert!(matches!(parse_handler_reply("{\"status\":200.5}"), HandlerReply::Failed));
    assert!(matches!(parse_handler_reply("{\"status\":200.0}"), HandlerReply::Failed));
    assert!(matches!(parse_handler_reply("{\"status\":1e20}"), HandlerReply::Failed));
    assert!(matches!(parse_handler_reply("{\"status\":70000}"), HandlerReply::Failed));
    assert!(matches!(parse_handler_reply("{\"status\":null}"), HandlerReply::Reply { status: 200, .. }));
    assert!(matches!(parse_handler_reply("{\"status\":true}"), HandlerReply::Reply { status: 200, .. }));
    // an answer that is JSON but no object has no members
    assert!(matches!(parse_handler_reply("[1]"), HandlerReply::Reply { status: 200, .. }));
    assert!(matches!(parse_handler_reply("{"), HandlerReply::Failed));
}

#[test]
fn envelope_interpretation() {
    let raw = RawEnvelope {
        status_number: Some(true),
        status_unsigned: Some(404),
        body: Some("gone".to_string()),
        headers: Some(vec![
            ("a".to_string(), Some("1".to_string())),
            ("b".to_string(), None),
            ("a".to_string(), Some("2".to_string())),
        ]),
    };
    match interpret_envelope(raw) {
        HandlerReply::Reply { status, body, headers } => {
            assert_eq!(status, 404);
            assert_eq!(body, "gone");
            assert_eq!(headers.get("a"), Some(&"2".to_string()));
            assert_eq!(headers.get("b"), None);
            assert_eq!(headers.len(), 3);
        }
        HandlerReply::Failed => panic!("a reply was expected"),
    }
    let raw = RawEnvelope {
        status_number: Some(true),
        status_unsigned: Some(70000),
        body: None,
        headers: None,
    };
    assert!(matches!(interpret_envelope(raw), HandlerReply::Failed));
    // a number that is no unsigned integer
    let raw = RawEnvelope {
        status_number: Some(true),
        status_unsigned: None,
        body: None,
        headers: None,
    };
    assert!(matches!(interpret_envelope(raw), HandlerReply::Failed));
    // a status that is no number counts as missing
    let raw = RawEnvelope {
        status_number: Some(false),
        status_unsigned: None,
        body: None,
        headers: None,
    };
    assert!(matches!(interpret_envelope(raw), HandlerReply::Reply { status: 200, .. }));
    let raw = RawEnvelope { status_number: None, status_unsigned: None, body: None, headers: None };
    assert!(matches!(interpret_envelope(raw), HandlerReply::Reply { status: 200, .. }));
}

#[test]
fn cached_entry_age() {
    let entry = CachedResponse {
        body: String::new(),
        status: 200,
        headers: StringMap::new(),
        cached_at: 100,
        ttl: 50,
    };
    assert!(!entry.is_expired(100));
    assert!(!entry.is_expired(149));
    assert!(entry.is_expired(150));
    assert!(!entry.is_expired(0));
    assert_eq!(entry.age(130), 30);
    assert_eq!(entry.age(10), 0);
}

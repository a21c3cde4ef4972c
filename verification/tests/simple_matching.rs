use sufast_core::handlers::{fill_template, json_response, match_path, replace_all, RouteBook};
use sufast_core::string_map::StringMap;
use sufast_core::routing::simple::{
    match_segments, matcher_source, pattern_matches, pattern_matches_simple,
};

#[test]
fn untyped_patterns() {
    assert!(pattern_matches("/users/{id}", "/users/42"));
    assert!(pattern_matches("/users/{id:int}", "/users/abc"));
    assert!(!pattern_matches("/users/{id}", "/users/"));
    assert!(!pattern_matches("/users/{id}", "/users/4/2"));
    assert!(pattern_matches("/a.b", "/a.b"));
    assert!(!pattern_matches("/a.b", "/axb"));
    assert!(pattern_matches("/{a}/{b}", "/x/y"));
    assert!(pattern_matches("/{a}-{b}", "/x-y-z"));
    assert!(pattern_matches("/open{", "/open{"));
    assert!(pattern_matches("", ""));
    assert!(!pattern_matches("", "/"));
    assert!(pattern_matches("/{a}/{a}", "/x/y"));
}

#[test]
fn matcher_form_of_a_pattern() {
    assert_eq!(matcher_source("/users/{id}"), "^/users/[^/]+$");
    assert_eq!(matcher_source("/a.b/{x}/c+d"), "^/a\\.b/[^/]+/c\\+d$");
    assert_eq!(matcher_source(""), "^$");
    assert_eq!(matcher_source("/[x]|(y)^$*?\\"), "^/\\[x\\]\\|\\(y\\)\\^\\$\\*\\?\\\\$");
    assert_eq!(matcher_source("/{a"), "^/{a$");
}

#[test]
fn matching_in_matcher_form() {
    assert!(match_segments("/users/[^/]+", "/users/42"));
    assert!(!match_segments("/users/[^/]+", "/users/"));
    assert!(!match_segments("/users/[^/]+", "/users/4/2"));
    assert!(match_segments("/a\\.b", "/a.b"));
    assert!(!match_segments("/a\\.b", "/a\\.b"));
    assert!(match_segments("/[^/]+x", "/abx"));
    assert!(match_segments("\\", "\\"));
    assert!(match_segments("", ""));
    assert!(pattern_matches_simple("^/users/[^/]+$", "/users/42"));
    assert!(pattern_matches_simple("/users/[^/]+", "/users/42"));
    assert!(pattern_matches_simple("^$", ""));
    assert!(!pattern_matches_simple("^/a$", "/a$"));
    for (pattern, path) in [
        ("/users/{id}", "/users/42"),
        ("/a.b/{x}", "/a.b/c"),
        ("/a.b/{x}", "/aXb/c"),
        ("/{a}/{b}", "/x"),
    ] {
        assert_eq!(
            pattern_matches_simple(&matcher_source(pattern), path),
            pattern_matches(pattern, path),
            "{} {}",
            pattern,
            path
        );
    }
}

#[test]
fn segment_wise_matching() {
    let params = match_path("/user/{name}", "/user/Bob").unwrap();
    assert_eq!(params.get("name"), Some(&"Bob".to_string()));
    assert_eq!(params.len(), 1);
    assert!(match_path("/user/{name}", "/user/Bob/x").is_none());
    assert!(match_path("/user/{name}", "/users/Bob").is_none());
    // a slash at either end counts
    assert!(match_path("/users", "/users/").is_none());
    assert!(match_path("/users/", "/users").is_none());
    assert_eq!(match_path("/users/", "/users/").unwrap().len(), 0);
    assert!(match_path("/user/{name}", "/user/Bob/").is_none());
    assert!(match_path("/user/{name}/", "/user/Bob").is_none());
    assert!(match_path("user/{name}/", "//user/Bob").is_none());
    assert!(match_path("/", "").is_none());
    assert!(match_path("", "/").is_none());
    assert!(match_path("/", "//").is_none());
    assert_eq!(match_path("/", "/").unwrap().len(), 0);
    assert_eq!(match_path("", "").unwrap().len(), 0);
    assert!(match_path("/a/b", "a/b").is_none());
    assert_eq!(match_path("a/b", "a/b").unwrap().len(), 0);
    // a later placeholder of the same name overwrites
    let params = match_path("/{x}/{x}", "/1/2").unwrap();
    assert_eq!(params.get("x"), Some(&"2".to_string()));
    assert_eq!(params.len(), 1);
    // braces are trimmed at both ends of the name
    let params = match_path("/{{id}}", "/7").unwrap();
    assert_eq!(params.get("id"), Some(&"7".to_string()));
    let params = match_path("/{}", "/7").unwrap();
    assert_eq!(params.get(""), Some(&"7".to_string()));
    // an empty segment is a segment
    assert!(match_path("/a/{x}/b", "/a//b").is_some());
    assert!(match_path("/{id", "/{id").is_some());
    assert!(match_path("/{id", "/7").is_none());
}

#[test]
fn replacing_text() {
    let chars = |s: &str| s.chars().collect::<Vec<char>>();
    let text = |v: Vec<char>| v.into_iter().collect::<String>();
    assert_eq!(text(replace_all(&chars("aXbXc"), &chars("X"), &chars("--"))), "a--b--c");
    assert_eq!(text(replace_all(&chars("aaa"), &chars("aa"), &chars("b"))), "ba");
    assert_eq!(text(replace_all(&chars("abc"), &chars(""), &chars("x"))), "abc");
    assert_eq!(text(replace_all(&chars(""), &chars("a"), &chars("x"))), "");
    assert_eq!(text(replace_all(&chars("abc"), &chars("abcd"), &chars("x"))), "abc");
    assert_eq!(text(replace_all(&chars("abc"), &chars("abc"), &chars(""))), "");
    let mut params = StringMap::new();
    params.insert("name".to_string(), "Bob".to_string());
    params.insert("id".to_string(), "{name}".to_string());
    assert_eq!(
        fill_template("{\"hello\":\"{name}\",\"n\":\"{id}\",\"{other}\":1}", &params),
        "{\"hello\":\"Bob\",\"n\":\"{name}\",\"{other}\":1}"
    );
}

#[test]
fn route_books() {
    assert!(RouteBook::parse(b"").is_none());
    assert!(RouteBook::parse(&[0xff, 0xfe]).is_none());
    assert!(RouteBook::parse(b"not json").is_none());
    assert!(RouteBook::parse(b"{\"GET\":5}").is_none());
    let book = RouteBook::parse(
        b"{\"GET\":{\"/user/{name}\":\"{\\\"hello\\\":\\\"{name}\\\"}\",\"/\":\"{}\"},\"bad method\":{\"/\":\"x\"},\"POST\":{}}",
    )
    .unwrap();
    assert_eq!(book.methods.len(), 2);
    // a method's name is not empty and holds letters, digits and a few signs of ASCII
    let named = RouteBook::parse(
        "{\"M-SEARCH\":{},\"x!#$%&'*+-.^_`|~9\":{},\"\":{},\"G\u{e9}T\":{},\"A/B\":{},\"A:B\":{},\"a-method-name-of-more-than-fifteen-characters\":{}}"
            .as_bytes(),
    )
    .unwrap();
    let mut names: Vec<&str> = named.methods.iter().map(|m| m.0.as_str()).collect();
    names.sort();
    assert_eq!(
        names,
        vec!["M-SEARCH", "a-method-name-of-more-than-fifteen-characters", "x!#$%&'*+-.^_`|~9"]
    );
    assert_eq!(book.resolve("GET", "/"), (200, "{}".to_string()));
    assert_eq!(
        book.resolve("GET", "/user/Bob"),
        (200, "{\"hello\":\"Bob\"}".to_string())
    );
    // the very path of a pattern is an exact route
    assert_eq!(
        book.resolve("GET", "/user/{name}"),
        (200, "{\"hello\":\"{name}\"}".to_string())
    );
    assert_eq!(
        book.resolve("GET", "/nope/x/y"),
        (
            404,
            "{\"error\":\"Route not found\",\"method\":\"GET\",\"path\":\"/nope/x/y\"}".to_string()
        )
    );
    // a slash at the end makes another path
    assert_eq!(book.resolve("GET", "/user/Bob/").0, 404);
    assert_eq!(book.resolve("POST", "/").0, 404);
    assert_eq!(book.resolve("DELETE", "/").0, 404);
    assert_eq!(RouteBook::new().resolve("GET", "/").0, 404);
    let response = json_response(404, "{}".to_string());
    assert_eq!(response.status, 404);
    assert_eq!(response.body, "{}");
    assert_eq!(
        response.headers.get("content-type"),
        Some(&"application/json".to_string())
    );
    assert_eq!(json_response(99, String::new()).status, 200);
    assert_eq!(json_response(1000, String::new()).status, 200);
    assert_eq!(json_response(999, String::new()).status, 999);
    assert_eq!(json_response(100, String::new()).status, 100);
}

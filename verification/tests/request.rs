use sufast_core::dispatch::entries::SufastRequest;
use sufast_core::http::request::{collect_pairs, parse_form_text, FormError, HttpRequest};

#[test]
fn test_request_creation() {
    let request = HttpRequest::new();
    assert_eq!(request.method, "");
    assert_eq!(request.path, "");
    assert_eq!(request.request_id, 0);
}

#[test]
fn test_header_access() {
    let mut request = HttpRequest::new();
    request
        .headers
        .insert("content-type".to_string(), "application/json".to_string());

    assert!(request.has_header("content-type"));
    assert_eq!(
        request.get_header("content-type"),
        Some(&"application/json".to_string())
    );
    assert!(request.is_json());
}

#[test]
fn test_cookie_parsing() {
    let mut request = HttpRequest::new();
    request
        .headers
        .insert("cookie".to_string(), "session=abc123; user=john".to_string());

    let cookies = request.get_cookies();
    assert_eq!(cookies.get("session"), Some(&"abc123".to_string()));
    assert_eq!(cookies.get("user"), Some(&"john".to_string()));
}

#[test]
fn test_bearer_token() {
    let mut request = HttpRequest::new();
    request
        .headers
        .insert("authorization".to_string(), "Bearer abc123xyz".to_string());

    assert_eq!(request.get_bearer_token(), Some("abc123xyz".to_string()));
}

#[test]
fn header_lookup_lowercases_the_name() {
    let mut request = HttpRequest::new();
    request.headers.insert("x-a".to_string(), "1".to_string());
    assert_eq!(request.get_header("X-A"), Some(&"1".to_string()));
    assert!(request.has_header("X-a"));
    assert!(!request.has_header("x-b"));
    request.query_params.insert("q".to_string(), "v".to_string());
    request.path_params.insert("id".to_string(), "7".to_string());
    assert_eq!(request.get_query_param("q"), Some(&"v".to_string()));
    assert_eq!(request.get_query_param("Q"), None);
    assert_eq!(request.get_path_param("id"), Some(&"7".to_string()));
    assert!(request.timestamp > 0);
}

#[test]
fn content_type_predicates() {
    let mut request = HttpRequest::new();
    assert!(!request.is_json());
    request.content_type = "application/x-www-form-urlencoded; charset=utf-8".to_string();
    assert!(request.is_form());
    assert!(!request.is_json());
    assert!(!request.is_multipart());
    request.content_type = "multipart/form-data; boundary=x".to_string();
    assert!(request.is_multipart());
    request.content_type = "text/plain, application/json".to_string();
    assert!(request.is_json());
    // without a content type of its own the request declares that of its header
    request.content_type = String::new();
    assert!(!request.is_json());
    request
        .headers
        .insert("content-type".to_string(), "application/json".to_string());
    assert!(request.is_json());
    assert_eq!(request.declared_content_type(), "application/json");
    request.content_type = "text/html".to_string();
    assert!(!request.is_json());
    assert_eq!(request.declared_content_type(), "text/html");
}

#[test]
fn secure_requests() {
    let mut request = HttpRequest::new();
    assert!(!request.is_secure());
    request
        .headers
        .insert("x-forwarded-proto".to_string(), "http".to_string());
    assert!(!request.is_secure());
    request
        .headers
        .insert("x-forwarded-ssl".to_string(), "on".to_string());
    assert!(request.is_secure());
    request.headers.remove("x-forwarded-ssl");
    request
        .headers
        .insert("x-forwarded-proto".to_string(), "https".to_string());
    assert!(request.is_secure());
}

#[test]
fn cookies_in_detail() {
    let mut request = HttpRequest::new();
    assert_eq!(request.get_cookies().len(), 0);
    request.headers.insert(
        "cookie".to_string(),
        " a=1;b = 2 ;novalue; c=x=y;a=3;".to_string(),
    );
    let cookies = request.get_cookies();
    assert_eq!(cookies.get("a"), Some(&"3".to_string()));
    assert_eq!(cookies.get("b "), Some(&" 2".to_string()));
    assert_eq!(cookies.get("c"), Some(&"x=y".to_string()));
    assert_eq!(cookies.get("novalue"), None);
    assert_eq!(cookies.len(), 3);
}

#[test]
fn authorization_schemes() {
    let mut request = HttpRequest::new();
    assert_eq!(request.get_authorization(), None);
    assert_eq!(request.get_bearer_token(), None);
    assert_eq!(request.get_basic_auth(), None);
    request
        .headers
        .insert("authorization".to_string(), "Basic dXNlcjpwYTpzcw==".to_string());
    assert_eq!(
        request.get_authorization(),
        Some("Basic dXNlcjpwYTpzcw==".to_string())
    );
    assert_eq!(
        request.get_basic_auth(),
        Some(("user".to_string(), "pa:ss".to_string()))
    );
    assert_eq!(request.get_bearer_token(), None);
    // base64 of "nocolon"
    request
        .headers
        .insert("authorization".to_string(), "Basic bm9jb2xvbg==".to_string());
    assert_eq!(request.get_basic_auth(), None);
    request
        .headers
        .insert("authorization".to_string(), "Basic !!!".to_string());
    assert_eq!(request.get_basic_auth(), None);
    // base64 of the bytes ff fe, which are no UTF-8
    request
        .headers
        .insert("authorization".to_string(), "Basic //4=".to_string());
    assert_eq!(request.get_basic_auth(), None);
    request
        .headers
        .insert("authorization".to_string(), "bearer abc".to_string());
    assert_eq!(request.get_bearer_token(), None);
    request
        .headers
        .insert("authorization".to_string(), "Bearer ".to_string());
    assert_eq!(request.get_bearer_token(), Some(String::new()));
}

#[test]
fn forms() {
    let mut request = HttpRequest::new();
    request.body = "name=John+Doe&age=30&name=Jane%21".to_string();
    let fields = request.parse_form().unwrap();
    assert_eq!(fields.get("name"), Some(&"Jane!".to_string()));
    assert_eq!(fields.get("age"), Some(&"30".to_string()));
    assert_eq!(fields.len(), 2);
    assert_eq!(fields.name_at(0), "name");
    assert_eq!(parse_form_text("").unwrap().len(), 0);
    assert_eq!(parse_form_text("a").unwrap().get("a"), Some(&String::new()));
    // a percent sequence that encodes no text is read with a replacement
    assert_eq!(
        parse_form_text("a=%ff").unwrap().get("a"),
        Some(&"\u{fffd}".to_string())
    );
    assert_eq!(FormError::Malformed, FormError::Malformed);
    let map = collect_pairs(vec![
        ("k".to_string(), "1".to_string()),
        ("k".to_string(), "2".to_string()),
    ]);
    assert_eq!(map.get("k"), Some(&"2".to_string()));
}

#[test]
fn request_from_raw_parts() {
    let headers = vec![
        ("Content-Type".to_string(), b"text/plain".to_vec()),
        ("X-Bad".to_string(), vec![0xff, 0xfe]),
        ("content-type".to_string(), b"application/json".to_vec()),
    ];
    let request = SufastRequest::from_parts(
        "POST",
        "/users",
        "page=2&q=a%20b",
        &headers,
        &[b'o', b'k', 0xff],
    );
    assert_eq!(request.method, "POST");
    assert_eq!(request.path, "/users");
    assert_eq!(request.query.get("page"), Some(&"2".to_string()));
    assert_eq!(request.query.get("q"), Some(&"a b".to_string()));
    assert_eq!(
        request.headers.get("content-type"),
        Some(&"application/json".to_string())
    );
    assert_eq!(request.headers.get("x-bad"), Some(&String::new()));
    assert_eq!(request.headers.len(), 2);
    assert_eq!(request.body, "ok\u{fffd}");
    let request = SufastRequest::from_parts("GET", "", "", &Vec::new(), &[]);
    assert_eq!(request.query.len(), 0);
    assert_eq!(request.path, "");
    assert_eq!(request.body, "");
}

use sufast_core::http::response::{CookieOptions, HttpResponse};
use sufast_core::http::security::SecurityHeaders;

#[test]
fn test_html_response() {
    let response = HttpResponse::html("<h1>Hello</h1>");

    assert_eq!(response.status, 200);
    assert_eq!(
        response.headers.get("content-type"),
        Some(&"text/html; charset=utf-8".to_string())
    );
    assert_eq!(response.body, "<h1>Hello</h1>");
}

#[test]
fn test_redirect_response() {
    let response = HttpResponse::redirect("/home");

    assert_eq!(response.status, 302);
    assert_eq!(response.headers.get("location"), Some(&"/home".to_string()));
}

#[test]
fn test_response_chaining() {
    let response = HttpResponse::ok()
        .with_status(201)
        .with_header("x-custom", "value")
        .with_cors();

    assert_eq!(response.status, 201);
    assert_eq!(response.headers.get("x-custom"), Some(&"value".to_string()));
    assert_eq!(
        response.headers.get("access-control-allow-origin"),
        Some(&"*".to_string())
    );
}

#[test]
fn test_cookie_setting() {
    let options = CookieOptions {
        max_age: Some(3600),
        secure: true,
        ..Default::default()
    };

    let response = HttpResponse::ok().with_cookie("session", "abc123", Some(options));

    let cookie_header = response.headers.get("set-cookie").unwrap();
    assert!(cookie_header.contains("session=abc123"));
    assert!(cookie_header.contains("Max-Age=3600"));
    assert!(cookie_header.contains("Secure"));
}

#[test]
fn cookie_text_is_exact() {
    let options = CookieOptions {
        max_age: Some(-5),
        domain: Some("example.com".to_string()),
        path: Some("/app".to_string()),
        secure: true,
        http_only: true,
        same_site: Some("Strict".to_string()),
    };
    let response = HttpResponse::ok().with_cookie("a", "b", Some(options));
    assert_eq!(
        response.headers.get("set-cookie"),
        Some(
            &"a=b; Max-Age=-5; Domain=example.com; Path=/app; Secure; HttpOnly; SameSite=Strict"
                .to_string()
        )
    );
    let response = response.with_cookie("c", "d", None);
    assert_eq!(
        response.headers.get("set-cookie"),
        Some(
            &"a=b; Max-Age=-5; Domain=example.com; Path=/app; Secure; HttpOnly; SameSite=Strict, c=d"
                .to_string()
        )
    );
    let response = HttpResponse::ok().with_cookie("x", "y", Some(CookieOptions::default()));
    assert_eq!(
        response.headers.get("set-cookie"),
        Some(&"x=y; Path=/; HttpOnly; SameSite=Lax".to_string())
    );
    let smallest = CookieOptions {
        max_age: Some(i64::MIN),
        domain: None,
        path: None,
        secure: false,
        http_only: false,
        same_site: None,
    };
    let response = HttpResponse::ok().with_cookie("x", "y", Some(smallest));
    assert_eq!(
        response.headers.get("set-cookie"),
        Some(&"x=y; Max-Age=-9223372036854775808".to_string())
    );
}

#[test]
fn text_and_plain_builders() {
    let response = HttpResponse::text("hi");
    assert_eq!(response.status, 200);
    assert_eq!(
        response.headers.get("content-type"),
        Some(&"text/plain; charset=utf-8".to_string())
    );
    assert_eq!(response.body, "hi");
    assert_eq!(HttpResponse::new().status, 200);
    assert_eq!(HttpResponse::new().headers.len(), 0);
    assert_eq!(HttpResponse::new().body, "");
    assert_eq!(HttpResponse::created().status, 201);
    assert_eq!(HttpResponse::no_content().status, 204);
}

#[test]
fn header_names_are_lowercased() {
    let response = HttpResponse::ok().with_header("X-Custom-Header", "Value");
    assert_eq!(
        response.headers.get("x-custom-header"),
        Some(&"Value".to_string())
    );
    assert_eq!(response.headers.get("X-Custom-Header"), None);
}

#[test]
fn cache_headers() {
    let response = HttpResponse::ok().with_cache_control("max-age=60");
    assert_eq!(
        response.headers.get("cache-control"),
        Some(&"max-age=60".to_string())
    );
    let response = response.no_cache();
    assert_eq!(
        response.headers.get("cache-control"),
        Some(&"no-cache, no-store, must-revalidate".to_string())
    );
    assert_eq!(response.headers.get("pragma"), Some(&"no-cache".to_string()));
    assert_eq!(response.headers.get("expires"), Some(&"0".to_string()));
    let response = response.with_cors();
    assert_eq!(
        response.headers.get("access-control-allow-methods"),
        Some(&"GET, POST, PUT, DELETE, OPTIONS".to_string())
    );
    assert_eq!(
        response.headers.get("access-control-allow-headers"),
        Some(&"*".to_string())
    );
}

#[test]
fn security_headers_are_applied() {
    let config = SecurityHeaders::new();
    let response = config.apply_headers(HttpResponse::ok());
    assert_eq!(
        response.headers.get("strict-transport-security"),
        Some(&"max-age=31536000".to_string())
    );
    assert_eq!(response.headers.get("x-frame-options"), Some(&"DENY".to_string()));
    assert_eq!(
        response.headers.get("x-content-type-options"),
        Some(&"nosniff".to_string())
    );
    assert_eq!(
        response.headers.get("x-xss-protection"),
        Some(&"1; mode=block".to_string())
    );
    assert_eq!(
        response.headers.get("content-security-policy"),
        Some(&"default-src 'self'".to_string())
    );
    let mut none = SecurityHeaders::new();
    none.enable_hsts = false;
    none.enable_xframe = false;
    none.enable_xcontent = false;
    none.enable_xss = false;
    none.enable_csp = false;
    assert_eq!(none.apply_headers(HttpResponse::ok()).headers.len(), 0);
}

#[test]
fn test_json_response() {
    let mut object = serde_json::Map::new();
    object.insert(
        "message".to_string(),
        serde_json::Value::from("Hello, World!"),
    );
    let data = serde_json::Value::Object(object);
    let response = HttpResponse::json(&data);

    assert_eq!(response.status, 200);
    assert_eq!(
        response.headers.get("content-type"),
        Some(&"application/json".to_string())
    );
    assert!(response.body.contains("Hello, World!"));
    assert_eq!(response.body, "{\"message\":\"Hello, World!\"}");
}

#[test]
fn test_error_responses() {
    let response = HttpResponse::not_found("Resource not found");
    assert_eq!(response.status, 404);
    assert!(response.body.contains("Resource not found"));

    let response = HttpResponse::internal_server_error("Something went wrong");
    assert_eq!(response.status, 500);
    assert!(response.body.contains("Something went wrong"));
}

#[test]
fn error_builders() {
    let cases: Vec<(HttpResponse, u16)> = vec![
        (HttpResponse::bad_request("m"), 400),
        (HttpResponse::unauthorized("m"), 401),
        (HttpResponse::forbidden("m"), 403),
        (HttpResponse::not_found("m"), 404),
        (HttpResponse::method_not_allowed("m"), 405),
        (HttpResponse::conflict("m"), 409),
        (HttpResponse::unprocessable_entity("m"), 422),
        (HttpResponse::too_many_requests("m"), 429),
        (HttpResponse::internal_server_error("m"), 500),
        (HttpResponse::not_implemented("m"), 501),
        (HttpResponse::service_unavailable("m"), 503),
        (HttpResponse::error(418, "m"), 418),
    ];
    for (response, status) in cases {
        assert_eq!(response.status, status);
        assert_eq!(response.body, "{\"error\":\"m\"}");
        assert_eq!(
            response.headers.get("content-type"),
            Some(&"application/json".to_string())
        );
    }
    assert_eq!(
        HttpResponse::bad_request("say \"hi\"\n").body,
        "{\"error\":\"say \\\"hi\\\"\\n\"}"
    );
}

#[test]
fn file_responses() {
    let response = HttpResponse::file(b"hello".to_vec(), "text/plain", Some("h.txt"));
    assert_eq!(response.status, 200);
    assert_eq!(response.body, "aGVsbG8=");
    assert_eq!(
        response.headers.get("content-type"),
        Some(&"text/plain".to_string())
    );
    assert_eq!(
        response.headers.get("content-disposition"),
        Some(&"attachment; filename=\"h.txt\"".to_string())
    );
    assert_eq!(
        response.headers.get("x-binary-content"),
        Some(&"base64".to_string())
    );
    let response = HttpResponse::file(vec![0xff], "application/octet-stream", None);
    assert_eq!(response.body, "/w==");
    assert_eq!(response.headers.get("content-disposition"), None);
    assert_eq!(response.headers.len(), 2);
}

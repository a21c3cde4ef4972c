use serde_json::Value;
use sufast_core::http::request::HttpRequest;
use sufast_core::middleware::{
    execute_middleware, AuthMiddleware, CorsMiddleware, LoggingMiddleware, MiddlewareChain,
    MiddlewareDefinition, RateLimitingMiddleware, SecurityHeadersMiddleware,
    ValidationMiddleware,
};

fn strings(items: &[&str]) -> Value {
    Value::Array(items.iter().map(|s| Value::from(*s)).collect())
}

fn object(members: Vec<(&str, Value)>) -> serde_json::Map<String, Value> {
    let mut map = serde_json::Map::new();
    for (key, value) in members {
        map.insert(key.to_string(), value);
    }
    map
}

#[test]
fn test_middleware_chain() {
    let mut chain = MiddlewareChain::new();

    let cors_middleware = MiddlewareDefinition {
        name: "cors".to_string(),
        config: serde_json::Map::new(),
        enabled: true,
        order: 1,
    };

    let auth_middleware = MiddlewareDefinition {
        name: "auth".to_string(),
        config: serde_json::Map::new(),
        enabled: true,
        order: 2,
    };

    chain.add(auth_middleware);
    chain.add(cors_middleware);

    // Should be sorted by order
    assert_eq!(chain.middleware[0].name, "cors");
    assert_eq!(chain.middleware[1].name, "auth");
}

#[test]
fn test_cors_middleware_config() {
    let config = object(vec![
        ("allow_origins", strings(&["https://example.com"])),
        ("allow_methods", strings(&["GET", "POST"])),
        ("max_age", Value::from(3600)),
    ]);

    let cors = CorsMiddleware::new(&config);
    assert_eq!(cors.allow_origins, vec!["https://example.com"]);
    assert_eq!(cors.allow_methods, vec!["GET", "POST"]);
    assert_eq!(cors.max_age, Some(3600));
}

#[test]
fn test_validation_middleware_config() {
    let config = object(vec![
        ("max_content_length", Value::from(1024)),
        ("allowed_content_types", strings(&["application/json"])),
        ("required_headers", strings(&["authorization"])),
    ]);

    let validation = ValidationMiddleware::new(&config);
    assert_eq!(validation.max_content_length, 1024);
    assert_eq!(validation.allowed_content_types, vec!["application/json"]);
    assert_eq!(validation.required_headers, vec!["authorization"]);
}

#[test]
fn settings_default() {
    let empty = serde_json::Map::new();
    let cors = CorsMiddleware::new(&empty);
    assert_eq!(cors.allow_origins, vec!["*"]);
    assert_eq!(
        cors.allow_methods,
        vec!["GET", "POST", "PUT", "DELETE", "OPTIONS"]
    );
    assert_eq!(cors.allow_headers, vec!["*"]);
    assert_eq!(cors.max_age, None);
    let limits = RateLimitingMiddleware::new(&empty);
    assert_eq!(limits.requests_per_minute, 100);
    assert_eq!(limits.window_seconds, 60);
    let auth = AuthMiddleware::new(&empty);
    assert_eq!(auth.secret_key, "default-secret");
    assert_eq!(auth.exclude_paths.len(), 0);
    assert_eq!(auth.header_name, "authorization");
    let headers = SecurityHeadersMiddleware::new(&empty);
    assert_eq!(headers.hsts_max_age, 31536000);
    assert!(headers.content_type_options);
    assert_eq!(headers.frame_options, "DENY");
    assert!(headers.xss_protection);
    let logging = LoggingMiddleware::new(&empty);
    assert_eq!(logging.log_level, "info");
    assert!(!logging.include_body);
    assert!(logging.include_headers);
    let validation = ValidationMiddleware::new(&empty);
    assert_eq!(validation.max_content_length, 10 * 1024 * 1024);
    assert_eq!(validation.allowed_content_types.len(), 0);
    assert_eq!(validation.required_headers.len(), 0);
}

#[test]
fn settings_of_the_wrong_type_fall_back() {
    let config = object(vec![
        ("allow_origins", Value::from("https://example.com")),
        ("allow_methods", Value::Array(vec![Value::from("GET"), Value::from(5), Value::Null])),
        ("max_age", Value::from(-1)),
        ("requests_per_minute", Value::from(4294967296u64 + 7)),
        ("log_level", Value::from(3)),
        ("include_body", Value::from(true)),
    ]);
    let cors = CorsMiddleware::new(&config);
    assert_eq!(cors.allow_origins, vec!["*"]);
    assert_eq!(cors.allow_methods, vec!["GET"]);
    assert_eq!(cors.max_age, None);
    // of a number only the low 32 bits count
    assert_eq!(RateLimitingMiddleware::new(&config).requests_per_minute, 7);
    let logging = LoggingMiddleware::new(&config);
    assert_eq!(logging.log_level, "info");
    assert!(logging.include_body);
}

fn request_with(path: &str, headers: Vec<(&str, &str)>) -> HttpRequest {
    let mut request = HttpRequest::new();
    request.method = "GET".to_string();
    request.path = path.to_string();
    for (name, value) in headers {
        request.headers.insert(name.to_string(), value.to_string());
    }
    request
}

#[test]
fn auth_decisions() {
    let auth = AuthMiddleware::new(&object(vec![("exclude_paths", strings(&["/login"]))]));
    assert!(auth.process(&request_with("/login", vec![])).is_ok());
    let rejected = auth.process(&request_with("/x", vec![])).err().unwrap();
    assert_eq!(rejected.status, 401);
    assert_eq!(rejected.body, "{\"error\":\"Authentication required\"}");
    assert_eq!(
        rejected.headers.get("content-type"),
        Some(&"application/json".to_string())
    );
    assert!(auth
        .process(&request_with("/x", vec![("authorization", "Bearer 12345678901")]))
        .is_ok());
    assert!(auth
        .process(&request_with("/x", vec![("authorization", "Bearer 1234567890")]))
        .is_err());
    assert!(auth
        .process(&request_with("/x", vec![("authorization", "Token 12345678901")]))
        .is_err());
    assert!(auth.validate_token("12345678901"));
    assert!(!auth.validate_token("1234567890"));
    assert!(!auth.validate_token(""));
    // the length is counted in bytes
    assert!(auth.validate_token("\u{e9}\u{e9}\u{e9}\u{e9}\u{e9}\u{e9}"));
    let custom = AuthMiddleware::new(&object(vec![("header_name", Value::from("X-Token"))]));
    assert!(custom
        .process(&request_with("/x", vec![("x-token", "Bearer 12345678901")]))
        .is_ok());
}

#[test]
fn validation_decisions() {
    let validation = ValidationMiddleware::new(&object(vec![
        ("max_content_length", Value::from(10)),
        ("allowed_content_types", strings(&["application/json", "text/"])),
        ("required_headers", strings(&["X-A", "x-b"])),
    ]));
    let mut request = request_with("/", vec![("x-a", "1"), ("x-b", "2")]);
    assert!(validation.process(&request).is_ok());
    request.content_length = 11;
    let rejected = validation.process(&request).err().unwrap();
    assert_eq!(rejected.status, 400);
    assert_eq!(
        rejected.body,
        "{\"error\":\"Content too large. Max allowed: 10 bytes\"}"
    );
    request.content_length = 10;
    request.content_type = "text/plain".to_string();
    assert!(validation.process(&request).is_ok());
    request.content_type = "image/png".to_string();
    let rejected = validation.process(&request).err().unwrap();
    assert_eq!(rejected.body, "{\"error\":\"Invalid content type\"}");
    request.content_type = String::new();
    request.headers.remove("x-b");
    let rejected = validation.process(&request).err().unwrap();
    assert_eq!(rejected.body, "{\"error\":\"Missing required header: x-b\"}");
    request.headers.remove("x-a");
    let rejected = validation.process(&request).err().unwrap();
    assert_eq!(rejected.body, "{\"error\":\"Missing required header: X-A\"}");
}

#[test]
fn chain_is_sorted_stably() {
    let mut chain = MiddlewareChain::new();
    for (name, order) in [("c", 2), ("a", 1), ("d", 2), ("b", 1), ("z", -5)] {
        chain.add(MiddlewareDefinition {
            name: name.to_string(),
            config: serde_json::Map::new(),
            enabled: true,
            order,
        });
    }
    let names: Vec<&str> = chain.middleware.iter().map(|m| m.name.as_str()).collect();
    assert_eq!(names, vec!["z", "a", "b", "c", "d"]);
    // a chain that was put out of order is sorted as a whole
    chain.middleware.swap(0, 4);
    chain.add(MiddlewareDefinition {
        name: "e".to_string(),
        config: serde_json::Map::new(),
        enabled: false,
        order: 1,
    });
    let names: Vec<&str> = chain.middleware.iter().map(|m| m.name.as_str()).collect();
    assert_eq!(names, vec!["z", "a", "b", "e", "d", "c"]);
    chain.clear();
    assert_eq!(chain.middleware.len(), 0);
}

#[test]
fn chain_stops_at_the_first_rejection() {
    let mut chain = MiddlewareChain::new();
    chain.add(MiddlewareDefinition {
        name: "validation".to_string(),
        config: object(vec![("required_headers", strings(&["x-a"]))]),
        enabled: true,
        order: 2,
    });
    chain.add(MiddlewareDefinition {
        name: "auth".to_string(),
        config: serde_json::Map::new(),
        enabled: true,
        order: 1,
    });
    chain.add(MiddlewareDefinition {
        name: "unknown".to_string(),
        config: serde_json::Map::new(),
        enabled: true,
        order: 0,
    });
    for name in ["cors", "rate_limiting", "security_headers", "logging"] {
        chain.add(MiddlewareDefinition {
            name: name.to_string(),
            config: serde_json::Map::new(),
            enabled: true,
            order: 0,
        });
    }
    let rejected = execute_middleware(&chain, &request_with("/", vec![])).err().unwrap();
    assert_eq!(rejected.status, 401);
    let with_token = request_with("/", vec![("authorization", "Bearer 12345678901")]);
    let rejected = execute_middleware(&chain, &with_token).err().unwrap();
    assert_eq!(rejected.status, 400);
    let complete = request_with(
        "/",
        vec![("authorization", "Bearer 12345678901"), ("x-a", "1")],
    );
    assert!(execute_middleware(&chain, &complete).is_ok());
    // a definition that is switched off decides nothing
    chain.middleware[5].enabled = false;
    assert_eq!(chain.middleware[5].name, "auth");
    let rejected = execute_middleware(&chain, &request_with("/", vec![])).err().unwrap();
    assert_eq!(rejected.status, 400);
    assert!(execute_middleware(&MiddlewareChain::new(), &request_with("/", vec![])).is_ok());
}

#[test]
fn log_lines() {
    let mut request = request_with("/p", vec![]);
    request.remote_addr = "10.0.0.1".to_string();
    request.body = "hello".to_string();
    let quiet = LoggingMiddleware::new(&serde_json::Map::new());
    assert_eq!(quiet.message(&request), "GET /p from 10.0.0.1");
    let loud = LoggingMiddleware::new(&object(vec![("include_body", Value::from(true))]));
    assert_eq!(loud.message(&request), "GET /p from 10.0.0.1 Body: hello");
    request.body = String::new();
    assert_eq!(loud.message(&request), "GET /p from 10.0.0.1");
    assert!(loud.process(&request).is_ok());
}

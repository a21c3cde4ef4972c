use sufast_core::routing::matcher::extract_path_params;
use sufast_core::routing::param::{parse_param_type, validate_param_type, ParamType};
use sufast_core::routing::pattern::{PatternError, RoutePattern};

#[test]
fn test_simple_route_pattern() {
    let pattern = RoutePattern::compile("/users/{id:int}").unwrap();
    let params = extract_path_params(&pattern, "/users/123");

    assert!(params.is_some());
    let params = params.unwrap();
    assert_eq!(params.get("id"), Some(&"123".to_string()));
}

#[test]
fn test_multiple_params() {
    let pattern = RoutePattern::compile("/users/{user_id:int}/posts/{post_id:int}").unwrap();
    let params = extract_path_params(&pattern, "/users/123/posts/456");

    assert!(params.is_some());
    let params = params.unwrap();
    assert_eq!(params.get("user_id"), Some(&"123".to_string()));
    assert_eq!(params.get("post_id"), Some(&"456".to_string()));
}

#[test]
fn test_uuid_validation() {
    let pattern = RoutePattern::compile("/users/{id:uuid}").unwrap();
    let valid_uuid = "123e4567-e89b-12d3-a456-426614174000";
    let params = extract_path_params(&pattern, &format!("/users/{}", valid_uuid));

    assert!(params.is_some());
    assert_eq!(params.unwrap().get("id"), Some(&valid_uuid.to_string()));

    // Test invalid UUID
    let invalid_params = extract_path_params(&pattern, "/users/not-a-uuid");
    assert!(invalid_params.is_none());
}

#[test]
fn test_float_validation() {
    let pattern = RoutePattern::compile("/price/{amount:float}").unwrap();
    let params = extract_path_params(&pattern, "/price/19.99");

    assert!(params.is_some());
    assert_eq!(params.unwrap().get("amount"), Some(&"19.99".to_string()));
}

#[test]
fn test_slug_validation() {
    let pattern = RoutePattern::compile("/posts/{slug:slug}").unwrap();
    let params = extract_path_params(&pattern, "/posts/my-awesome-post");

    assert!(params.is_some());
    assert_eq!(
        params.unwrap().get("slug"),
        Some(&"my-awesome-post".to_string())
    );

    // Test invalid slug (contains special characters)
    let invalid_params = extract_path_params(&pattern, "/posts/my post!");
    assert!(invalid_params.is_none());
}

fn matches(pattern: &str, path: &str) -> bool {
    let compiled = RoutePattern::compile(pattern).unwrap();
    extract_path_params(&compiled, path).is_some()
}

#[test]
fn literal_pattern_matches_itself_without_parameters() {
    for p in ["", "/", "/users", "/a}b", "/x.y+z", "/users/"] {
        let compiled = RoutePattern::compile(p).unwrap();
        let params = extract_path_params(&compiled, p).unwrap();
        assert_eq!(params.len(), 0);
    }
}

#[test]
fn empty_pattern_matches_only_the_empty_path() {
    assert!(matches("", ""));
    assert!(!matches("", "/"));
    assert!(!matches("", "a"));
}

#[test]
fn root_pattern_matches_only_root() {
    assert!(matches("/", "/"));
    assert!(!matches("/", ""));
    assert!(!matches("/", "//"));
}

#[test]
fn trailing_slash_is_significant() {
    assert!(matches("/users", "/users"));
    assert!(!matches("/users", "/users/"));
    assert!(!matches("/users/", "/users"));
    assert!(matches("/users/{id}", "/users/7"));
    assert!(!matches("/users/{id}", "/users/7/"));
}

#[test]
fn int_parameter_keeps_minus_zero() {
    let pattern = RoutePattern::compile("/n/{v:int}").unwrap();
    let params = extract_path_params(&pattern, "/n/-0").unwrap();
    assert_eq!(params.get("v"), Some(&"-0".to_string()));
}

#[test]
fn int_parameter_must_fit_sixty_four_bits() {
    assert!(matches("/n/{v:int}", "/n/9223372036854775807"));
    assert!(!matches("/n/{v:int}", "/n/9223372036854775808"));
    assert!(matches("/n/{v:int}", "/n/-9223372036854775808"));
    assert!(!matches("/n/{v:int}", "/n/-9223372036854775809"));
    assert!(matches("/n/{v:int}", "/n/000000000000000000000000000001"));
    assert!(!matches("/n/{v:int}", "/n/abc"));
    assert!(!matches("/n/{v:int}", "/n/-"));
    assert!(!matches("/n/{v:int}", "/n/+5"));
}

#[test]
fn uuid_parameter_rejects_malformed_text() {
    let p = "/u/{id:uuid}";
    assert!(matches(p, "/u/123e4567-e89b-12d3-a456-426614174000"));
    // uppercase only
    assert!(!matches(p, "/u/123E4567-E89B-12D3-A456-426614174000"));
    // mixed case with hyphens in the wrong places
    assert!(!matches(p, "/u/123e4567e-89B-12d3-a456-426614174000"));
    // 36 characters without hyphens
    assert!(!matches(p, "/u/123e4567e89b12d3a4564266141740000000"));
    assert_eq!("123e4567e89b12d3a4564266141740000000".len(), 36);
}

#[test]
fn float_parameter_shapes() {
    let p = "/f/{x:float}";
    assert!(matches(p, "/f/1"));
    assert!(matches(p, "/f/-1.5"));
    assert!(matches(p, "/f/3."));
    assert!(!matches(p, "/f/.5"));
    assert!(!matches(p, "/f/1.2.3"));
    assert!(!matches(p, "/f/1e5"));
}

#[test]
fn string_parameter_is_one_segment() {
    assert!(matches("/a/{x}/b", "/a/hello/b"));
    assert!(!matches("/a/{x}/b", "/a//b"));
    assert!(!matches("/a/{x}/b", "/a/h/i/b"));
    assert!(matches("/a/{x:whatever}", "/a/any thing"));
}

#[test]
fn parameter_takes_the_longest_text_that_lets_the_rest_match() {
    let pattern = RoutePattern::compile("/f/{name}.{ext}").unwrap();
    let params = extract_path_params(&pattern, "/f/a.b.c").unwrap();
    assert_eq!(params.get("name"), Some(&"a.b".to_string()));
    assert_eq!(params.get("ext"), Some(&"c".to_string()));
    let pattern = RoutePattern::compile("/v{major:int}{rest}").unwrap();
    let params = extract_path_params(&pattern, "/v12ab").unwrap();
    assert_eq!(params.get("major"), Some(&"12".to_string()));
    assert_eq!(params.get("rest"), Some(&"ab".to_string()));
}

#[test]
fn unclosed_brace_is_literal() {
    assert!(matches("/a/{b", "/a/{b"));
    assert!(!matches("/a/{b", "/a/x"));
    assert!(matches("/{a}/{b", "/x/{b"));
}

#[test]
fn compile_errors() {
    assert_eq!(
        RoutePattern::compile("/{id}/{id}").err(),
        Some(PatternError::DuplicateParameter)
    );
    assert_eq!(
        RoutePattern::compile("/{id:int}/{id:slug}").err(),
        Some(PatternError::DuplicateParameter)
    );
    assert_eq!(
        RoutePattern::compile("/{a{b}").err(),
        Some(PatternError::UnbalancedBraces)
    );
    assert!(RoutePattern::compile("/{a}/{b}").is_ok());
}

#[test]
fn type_suffix_is_split_at_the_first_colon() {
    // the suffix "int:x" names no known kind, so the parameter is a string
    assert!(matches("/{a:int:x}", "/abc"));
    assert!(matches("/{a:int}", "/5"));
    assert!(!matches("/{a:int}", "/abc"));
}

#[test]
fn parse_param_type_names() {
    assert_eq!(parse_param_type("int"), ParamType::Integer);
    assert_eq!(parse_param_type("float"), ParamType::Float);
    assert_eq!(parse_param_type("uuid"), ParamType::Uuid);
    assert_eq!(parse_param_type("slug"), ParamType::Slug);
    assert_eq!(parse_param_type("string"), ParamType::String);
    assert_eq!(parse_param_type("other"), ParamType::String);
    assert_eq!(parse_param_type(""), ParamType::String);
}

#[test]
fn validate_param_type_cases() {
    assert!(validate_param_type("42", &ParamType::Integer));
    assert!(!validate_param_type("4x", &ParamType::Integer));
    assert!(validate_param_type("my-post-1", &ParamType::Slug));
    assert!(!validate_param_type("my_post", &ParamType::Slug));
    assert!(!validate_param_type("", &ParamType::Slug));
    assert!(validate_param_type("abc", &ParamType::String));
    assert!(!validate_param_type("a/b", &ParamType::String));
    assert!(!validate_param_type("", &ParamType::String));
    assert!(validate_param_type("19.99", &ParamType::Float));
}

#[test]
fn extracted_values_substituted_back_give_the_path() {
    let cases = [
        ("/users/{id:int}/posts/{slug:slug}", "/users/12/posts/hello-world"),
        ("/f/{name}.{ext}", "/f/archive.tar.gz"),
        ("/{a}-{b}", "/x-y-z"),
    ];
    for (pattern, path) in cases {
        let compiled = RoutePattern::compile(pattern).unwrap();
        let params = extract_path_params(&compiled, path).unwrap();
        let mut text = pattern.to_string();
        for i in 0..params.len() {
            let name = params.name_at(i);
            let value = params.value_at(i);
            let start = text.find(&format!("{{{}", name)).unwrap();
            let end = start + text[start..].find('}').unwrap() + 1;
            text.replace_range(start..end, value);
        }
        assert_eq!(text, path);
    }
}

#[test]
fn compiling_twice_gives_the_same_matcher() {
    let patterns = ["/users/{id:int}", "/f/{name}.{ext}", "", "/", "/{a}/{b:slug}/x"];
    let paths = ["/users/1", "/users/x", "/f/a.b", "", "/", "/p/q-r/x", "/p/q_r/x", "/f/.b"];
    for pattern in patterns {
        let first = RoutePattern::compile(pattern).unwrap();
        let second = RoutePattern::compile(pattern).unwrap();
        for path in paths {
            let a = extract_path_params(&first, path);
            let b = extract_path_params(&second, path);
            assert_eq!(a.is_some(), b.is_some(), "{} {}", pattern, path);
            if let (Some(a), Some(b)) = (a, b) {
                assert_eq!(a.len(), b.len());
                for i in 0..a.len() {
                    assert_eq!(a.name_at(i), b.name_at(i));
                    assert_eq!(a.value_at(i), b.value_at(i));
                }
            }
        }
    }
}

#[test]
fn descriptors_of_a_pattern() {
    let pattern = RoutePattern::compile("/a/{x}/b/{y:int}/{z:nope}/{w:uuid}").unwrap();
    let descriptors = sufast_core::routing::matcher::param_descriptors(&pattern);
    assert_eq!(
        descriptors,
        vec![
            ("x".to_string(), ParamType::String),
            ("y".to_string(), ParamType::Integer),
            ("z".to_string(), ParamType::String),
            ("w".to_string(), ParamType::Uuid),
        ]
    );
    assert_eq!(
        sufast_core::routing::matcher::param_descriptors(&RoutePattern::compile("/plain").unwrap()),
        vec![]
    );
}

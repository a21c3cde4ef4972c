use std::path::PathBuf;
use sufast_core::template_values::{TemplateContext, TemplateValue};
use sufast_core::templates::{StaticFileHandler, TemplateEngine, TemplateError};

#[test]
fn test_static_file_handler() {
    let mut handler = StaticFileHandler::new();
    handler.add_directory("/static", "public");

    let file_path = handler.get_file_path("/static/css/style.css");
    assert!(file_path.is_some());
    assert_eq!(
        PathBuf::from(file_path.unwrap()),
        PathBuf::from("public/css/style.css")
    );

    // Test security - should reject path traversal
    let bad_path = handler.get_file_path("/static/../secret.txt");
    assert!(bad_path.is_none());
}

#[test]
fn test_content_type_detection() {
    let handler = StaticFileHandler::new();

    assert_eq!(handler.get_content_type("style.css"), "text/css");
    assert_eq!(
        handler.get_content_type("script.js"),
        "application/javascript"
    );
    assert_eq!(handler.get_content_type("image.png"), "image/png");
    assert_eq!(
        handler.get_content_type("unknown.xyz"),
        "application/octet-stream"
    );
}

#[test]
fn content_types_by_extension() {
    let handler = StaticFileHandler::new();
    let cases = [
        ("a.html", "text/html; charset=utf-8"),
        ("a.json", "application/json"),
        ("a.jpg", "image/jpeg"),
        ("a.jpeg", "image/jpeg"),
        ("a.gif", "image/gif"),
        ("a.svg", "image/svg+xml"),
        ("a.ico", "image/x-icon"),
        ("a.woff", "font/woff"),
        ("a.woff2", "font/woff2"),
        ("a.ttf", "font/ttf"),
        ("a.eot", "application/vnd.ms-fontobject"),
        ("a.pdf", "application/pdf"),
        ("a.txt", "text/plain; charset=utf-8"),
        ("dir.css/noext", "application/octet-stream"),
        (".css", "application/octet-stream"),
        ("a.CSS", "application/octet-stream"),
    ];
    for (path, expected) in cases {
        assert_eq!(handler.get_content_type(path), expected, "{}", path);
    }
}

#[test]
fn file_paths() {
    let mut handler = StaticFileHandler::new();
    assert_eq!(handler.get_file_path("/static/a.txt"), None);
    handler.add_directory("/static", "public");
    handler.add_directory("/assets", "/var/www/assets");
    assert_eq!(
        handler.get_file_path("/assets//img/x.png"),
        Some("/var/www/assets/img/x.png".to_string())
    );
    assert_eq!(handler.get_file_path("/other/x.png"), None);
    assert_eq!(handler.get_file_path("/static/a..b"), None);
    assert_eq!(
        handler.get_file_path("/static/a.b"),
        Some("public/a.b".to_string())
    );
    // the first directory whose prefix fits serves the path
    handler.add_directory("/static/deep", "elsewhere");
    assert_eq!(
        handler.get_file_path("/static/deep/x"),
        Some("public/deep/x".to_string())
    );
    // storing under a prefix again replaces the directory
    handler.add_directory("/static", "site");
    assert_eq!(
        handler.get_file_path("/static/x"),
        Some("site/x".to_string())
    );
    assert_eq!(StaticFileHandler::default().cache_max_age, 3600);
    assert!(StaticFileHandler::default().enable_etag);
}

#[test]
fn file_locations() {
    let mut handler = StaticFileHandler::new();
    assert_eq!(handler.locate("/static/a.txt"), None);
    handler.add_directory("/static", "public");
    handler.add_directory("/assets", "/var/www/assets");
    assert_eq!(
        handler.locate("/assets//img/x.png"),
        Some(("/var/www/assets".to_string(), "img/x.png".to_string()))
    );
    assert_eq!(
        handler.locate("/static"),
        Some(("public".to_string(), String::new()))
    );
    assert_eq!(
        handler.locate("/staticfile"),
        Some(("public".to_string(), "file".to_string()))
    );
    assert_eq!(handler.locate("/stati"), None);
    assert_eq!(handler.locate(""), None);
    assert_eq!(handler.locate("/static/../secret.txt"), None);
    assert_eq!(handler.locate("/static/a..b"), None);
    assert_eq!(
        handler.locate("/static/.a/.b"),
        Some(("public".to_string(), ".a/.b".to_string()))
    );
    for path in ["/static/x", "/static/../x", "/other", "/assets///y/z"] {
        assert_eq!(
            handler.get_file_path(path).is_some(),
            handler.locate(path).is_some(),
            "{}",
            path
        );
    }
}

#[test]
fn engine_settings() {
    let engine = TemplateEngine::new("templates");
    assert_eq!(engine.template_dir, "templates");
    assert!(engine.cache_enabled);
    assert!(engine.auto_escape);
    let engine = engine.with_cache(false).with_auto_escape(false);
    assert!(!engine.cache_enabled);
    assert!(!engine.auto_escape);
}

#[test]
fn html_is_escaped() {
    let engine = TemplateEngine::new("templates");
    assert_eq!(
        engine.escape_html("<script>alert('xss')</script>"),
        "&lt;script&gt;alert(&#x27;xss&#x27;)&lt;/script&gt;"
    );
    assert_eq!(engine.escape_html("a & \"b\""), "a &amp; &quot;b&quot;");
    assert_eq!(engine.escape_html("&amp;"), "&amp;amp;");
    assert_eq!(engine.escape_html(""), "");
}

#[test]
fn template_error_messages() {
    assert_eq!(
        TemplateError::TemplateNotFound("x.html".to_string()).message(),
        "Template not found: x.html"
    );
    assert_eq!(
        TemplateError::IoError("denied".to_string()).message(),
        "IO error: denied"
    );
    assert_eq!(
        TemplateError::RenderError("bad".to_string()).message(),
        "Render error: bad"
    );
}

#[test]
fn entity_tags() {
    let handler = StaticFileHandler::new();
    // the SHA-256 digest of the empty content begins e3b0c44298fc1c14
    assert_eq!(handler.generate_etag(b""), "\"e3b0c44298fc1c14\"");
    // that of "abc" begins ba7816bf8f01cfea
    assert_eq!(handler.generate_etag(b"abc"), "\"ba7816bf8f01cfea\"");
}

fn text(value: &str) -> TemplateValue {
    TemplateValue::Text(value.to_string())
}

#[test]
fn test_simple_variable_substitution() {
    let engine = TemplateEngine::new("templates");
    let template = "Hello, {{ name }}!";
    let mut context = TemplateContext::new();
    context.insert("name".to_string(), text("World"));

    let result = engine.render_string(template, &context).unwrap();
    assert_eq!(result, "Hello, World!");
}

#[test]
fn test_conditional_rendering() {
    let engine = TemplateEngine::new("templates");
    let template = "{% if show_greeting %}Hello, {{ name }}!{% endif %}";
    let mut context = TemplateContext::new();
    context.insert("show_greeting".to_string(), TemplateValue::Bool(true));
    context.insert("name".to_string(), text("World"));

    let result = engine.render_string(template, &context).unwrap();
    assert_eq!(result, "Hello, World!");

    // Test false condition
    context.insert("show_greeting".to_string(), TemplateValue::Bool(false));
    let result = engine.render_string(template, &context).unwrap();
    assert_eq!(result, "");
}

#[test]
fn test_loop_rendering() {
    let engine = TemplateEngine::new("templates");
    let template = "{% for user in users %}Hello {{ user }}! {% endfor %}";
    let mut context = TemplateContext::new();
    context.insert(
        "users".to_string(),
        TemplateValue::Array(vec![text("Alice"), text("Bob"), text("Charlie")]),
    );

    let result = engine.render_string(template, &context).unwrap();
    assert_eq!(result, "Hello Alice! Hello Bob! Hello Charlie! ");
}

#[test]
fn test_html_escaping() {
    let engine = TemplateEngine::new("templates").with_auto_escape(true);
    let template = "{{ content }}";
    let mut context = TemplateContext::new();
    context.insert(
        "content".to_string(),
        text("<script>alert('xss')</script>"),
    );

    let result = engine.render_string(template, &context).unwrap();
    assert!(result.contains("&lt;script&gt;"));
}

#[test]
fn rendering_in_detail() {
    let plain = TemplateEngine::new("t").with_auto_escape(false);
    let mut context = TemplateContext::new();
    context.insert(
        "n".to_string(),
        TemplateValue::Number { text: "3.5".to_string(), nonzero: true },
    );
    context.insert(
        "zero".to_string(),
        TemplateValue::Number { text: "0".to_string(), nonzero: false },
    );
    context.insert("list".to_string(), TemplateValue::Array(vec![text("a"), text("b")]));
    context.insert("none".to_string(), TemplateValue::Array(vec![]));
    context.insert("obj".to_string(), TemplateValue::Object { members: 2 });
    context.insert("nothing".to_string(), TemplateValue::Null);
    context.insert("yes".to_string(), TemplateValue::Bool(true));
    context.insert("empty".to_string(), text(""));
    assert_eq!(
        plain
            .render_string("{{n}}|{{ list }}|{{  obj  }}|{{nothing}}|{{ yes }}|{{missing}}", &context)
            .unwrap(),
        "3.5|[2]|{2}||true|{{ missing }}"
    );
    assert_eq!(
        plain
            .render_string(
                "{% if n %}1{% endif %}{% if zero %}2{% endif %}{% if list %}3{% endif %}{% if none %}4{% endif %}{% if obj %}5{% endif %}{% if nothing %}6{% endif %}{% if empty %}7{% endif %}{% if missing %}8{% endif %}",
                &context
            )
            .unwrap(),
        "135"
    );
    assert_eq!(
        plain
            .render_string("{% for x in list %}<{{ x }}>{% endfor %}{% for x in n %}no{% endfor %}", &context)
            .unwrap(),
        "<a><b>"
    );
    // what a loop renders is escaped once inside and once with the whole
    let escaping = TemplateEngine::new("t");
    let mut context = TemplateContext::new();
    context.insert("list".to_string(), TemplateValue::Array(vec![text("<")]));
    assert_eq!(
        escaping
            .render_string("{% for x in list %}{{ x }}{% endfor %}", &context)
            .unwrap(),
        "&amp;lt;"
    );
    assert_eq!(escaping.variable_text(&context, "list"), "[1]");
    assert_eq!(escaping.variable_text(&context, "x"), "{{ x }}");
    assert_eq!(escaping.conditional_text(&context, "list", "c"), "c");
    assert_eq!(escaping.conditional_text(&context, "x", "c"), "");
    assert_eq!(escaping.loop_text(&context, "x", "list", "{{ x }}!", 1).unwrap(), "&lt;!");
    assert_eq!(escaping.loop_text(&context, "x", "nolist", "{{ x }}!", 1).unwrap(), "");
    assert_eq!(escaping.loop_text(&context, "x", "nolist", "{{ x }}!", 0).unwrap(), "");
    assert!(matches!(
        escaping.loop_text(&context, "x", "list", "{{ x }}!", 0),
        Err(TemplateError::RenderError(_))
    ));
}

#[test]
fn matches_are_replaced_where_they_stand() {
    let plain = TemplateEngine::new("t").with_auto_escape(false);
    let mut context = TemplateContext::new();
    context.insert("a".to_string(), text("1"));
    context.insert("b".to_string(), text(""));
    context.insert("list".to_string(), TemplateValue::Array(vec![text("x"), text("y")]));
    assert_eq!(plain.render_string("", &context).unwrap(), "");
    assert_eq!(plain.render_string("no tags", &context).unwrap(), "no tags");
    assert_eq!(plain.render_string("{{a}}", &context).unwrap(), "1");
    assert_eq!(plain.render_string("{{a}}{{a}}", &context).unwrap(), "11");
    assert_eq!(plain.render_string("<{{a}}|{{b}}|{{ a }}>", &context).unwrap(), "<1||1>");
    assert_eq!(
        plain.render_string("\u{e9}{{ a }}\u{1f600}{{ a }}\u{e9}", &context).unwrap(),
        "\u{e9}1\u{1f600}1\u{e9}"
    );
    assert_eq!(
        plain
            .render_string("-{% if a %}A{% endif %}-{% if b %}B{% endif %}-", &context)
            .unwrap(),
        "-A--"
    );
    assert_eq!(
        plain
            .render_string(
                "[{% for i in list %}{{ i }},{% endfor %}][{% for j in list %}{{ j }}{{ a }};{% endfor %}]",
                &context
            )
            .unwrap(),
        "[x,y,][x1;y1;]"
    );
    // a tag that is not closed stays as it is
    assert_eq!(plain.render_string("{{ a }", &context).unwrap(), "{{ a }");
    assert_eq!(
        plain.render_string("{% for i in list %}{{ i }}", &context).unwrap(),
        "{% for i in list %}{{ i }}"
    );
}

#[test]
fn loops_inside_loops() {
    let plain = TemplateEngine::new("t").with_auto_escape(false);
    let mut context = TemplateContext::new();
    context.insert("outer".to_string(), text("{% for p in items %}<{{ inner }}>{% endfor %}"));
    context.insert("inner".to_string(), text("{% for q in items %}ok{% endfor %}"));
    context.insert(
        "items".to_string(),
        TemplateValue::Array(vec![TemplateValue::Null, TemplateValue::Null]),
    );
    assert_eq!(plain.render_string("{{ outer }}", &context).unwrap(), "<okok><okok>");
    assert_eq!(plain.render_within("{{ outer }}", &context, 2).unwrap(), "<okok><okok>");
    assert!(matches!(
        plain.render_within("{{ outer }}", &context, 1),
        Err(TemplateError::RenderError(_))
    ));
    assert!(matches!(
        plain.render_within("{{ outer }}", &context, 0),
        Err(TemplateError::RenderError(_))
    ));
    assert_eq!(plain.render_within("{{ inner }}", &context, 1).unwrap(), "okok");
    assert_eq!(plain.render_within("no loop", &context, 0).unwrap(), "no loop");
    assert_eq!(
        plain.render_within("{% for q in nothing %}x{% endfor %}", &context, 0).unwrap(),
        ""
    );
}

#[test]
fn a_loop_that_renders_itself_fails() {
    let engine = TemplateEngine::new("t").with_auto_escape(false);
    let mut context = TemplateContext::new();
    context.insert("x".to_string(), text("{% for a in items %}{{ x }}{% endfor %}"));
    context.insert("items".to_string(), TemplateValue::Array(vec![TemplateValue::Null]));
    match engine.render_string("{{ x }}", &context) {
        Err(error) => assert_eq!(error.message(), "Render error: loops are nested too deeply"),
        Ok(text) => panic!("no rendering was expected, got {}", text),
    }
    // with two items at each level the rendering still fails at the first
    context.insert(
        "items".to_string(),
        TemplateValue::Array(vec![TemplateValue::Null, TemplateValue::Null]),
    );
    assert!(matches!(
        engine.render_string("{{ x }}", &context),
        Err(TemplateError::RenderError(_))
    ));
    let escaping = TemplateEngine::new("t");
    assert!(escaping.render_string("{{ x }}", &context).is_err());
}

#[test]
fn template_values() {
    let value = TemplateValue::Array(vec![
        TemplateValue::Null,
        TemplateValue::Array(vec![text("deep")]),
    ]);
    let copy = value.copy();
    assert_eq!(format!("{:?}", copy), format!("{:?}", value));
    assert_eq!(value.to_text(), "[2]");
    assert!(value.is_truthy());
    assert_eq!(TemplateValue::Bool(false).to_text(), "false");
    assert!(!TemplateValue::Object { members: 0 }.is_truthy());
    let mut context = TemplateContext::new();
    assert!(context.get("a").is_none());
    context.insert("a".to_string(), text("1"));
    context.insert("b".to_string(), text("2"));
    context.insert("a".to_string(), text("3"));
    assert_eq!(context.get("a").unwrap().to_text(), "3");
    let copy = context.copy();
    context.insert("b".to_string(), text("4"));
    assert_eq!(copy.get("b").unwrap().to_text(), "2");
    assert_eq!(context.get("b").unwrap().to_text(), "4");
}

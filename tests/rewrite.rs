use http_tunnel::rewrite::{
    CONTEXT_BASE, CONTEXT_CLOSE, CONTEXT_OPEN, CONTEXT_REST,
    inject_base_tag, rewrite_css, rewrite_html, rewrite_html_attributes, rewrite_inline_javascript,
    rewrite_json, rewrite_response_content, should_rewrite_content, RewriteStrategy,
};

#[test]
fn test_should_rewrite_content() {
    assert!(should_rewrite_content("text/html"));
    assert!(should_rewrite_content("text/html; charset=utf-8"));
    assert!(should_rewrite_content("text/css"));
    assert!(should_rewrite_content("application/json"));
    assert!(!should_rewrite_content("application/javascript"));
    assert!(!should_rewrite_content("text/javascript"));
    assert!(!should_rewrite_content("image/png"));
    assert!(!should_rewrite_content("application/octet-stream"));
    assert!(!should_rewrite_content("video/mp4"));
}

#[test]
fn test_inject_base_tag() {
    let html = r#"<html><head><title>Test</title></head><body></body></html>"#;
    let result = inject_base_tag(html, "/abc123").unwrap();
    assert!(result.contains(r#"<base href="/abc123/""#));
    assert!(result.contains("<title>Test</title>"));
}

#[test]
fn test_inject_base_tag_no_head() {
    let html = r#"<html><body>No head tag</body></html>"#;
    let result = inject_base_tag(html, "/abc123").unwrap();
    assert!(result.contains(r#"<base href="/abc123/""#));
}

// The attribute pass alone: the full HTML rewrite also adds the context script.
#[test]
fn test_rewrite_html_href() {
    let html = r#"<a href="/api/users">Users</a>"#;
    let result = rewrite_html_attributes(html, "/abc123");
    assert_eq!(result, r#"<a href="/abc123/api/users">Users</a>"#);
}

#[test]
fn test_rewrite_html_src() {
    let html = r#"<img src="/images/logo.png">"#;
    let result = rewrite_html_attributes(html, "/abc123");
    assert_eq!(result, r#"<img src="/abc123/images/logo.png">"#);
}

#[test]
fn test_rewrite_html_action() {
    let html = r#"<form action="/submit">...</form>"#;
    let result = rewrite_html_attributes(html, "/abc123");
    assert_eq!(result, r#"<form action="/abc123/submit">...</form>"#);
}

#[test]
fn test_dont_rewrite_external_url() {
    let html = r#"<a href="https://example.com/page">External</a>"#;
    assert_eq!(rewrite_html_attributes(html, "/abc123"), html);
}

#[test]
fn test_dont_rewrite_protocol_relative_url() {
    let html = r#"<script src="//cdn.example.com/script.js"></script>"#;
    assert_eq!(rewrite_html_attributes(html, "/abc123"), html);
}

#[test]
fn test_dont_rewrite_data_url() {
    let html = r#"<img src="data:image/png;base64,iVBOR...">"#;
    assert_eq!(rewrite_html_attributes(html, "/abc123"), html);
}

#[test]
fn test_dont_rewrite_anchor() {
    let html = "<a href=\"#section\">Jump</a>";
    assert_eq!(rewrite_html_attributes(html, "/abc123"), html);
}

#[test]
fn test_dont_double_prefix() {
    let html = r#"<a href="/abc123/api/users">Already prefixed</a>"#;
    let result = rewrite_html(html, "/abc123").unwrap();
    assert!(result.ends_with(html));
    assert!(!result.contains("/abc123/abc123"));
}

#[test]
fn test_rewrite_css_url() {
    let css = r#"background: url('/images/bg.png');"#;
    let result = rewrite_css(css, "/abc123").unwrap();
    assert_eq!(result, r#"background: url('/abc123/images/bg.png');"#);
}

#[test]
fn test_rewrite_css_url_no_quotes() {
    let css = r#"background: url(/images/bg.png);"#;
    let result = rewrite_css(css, "/abc123").unwrap();
    assert_eq!(result, r#"background: url(/abc123/images/bg.png);"#);
}

#[test]
fn test_rewrite_css_url_double_quotes() {
    let css = r#"background: url("/images/bg.png");"#;
    let result = rewrite_css(css, "/abc123").unwrap();
    assert_eq!(result, r#"background: url("/abc123/images/bg.png");"#);
}

#[test]
fn test_dont_rewrite_css_external_url() {
    let css = r#"background: url('https://cdn.example.com/bg.png');"#;
    let result = rewrite_css(css, "/abc123").unwrap();
    assert_eq!(result, css);
}

#[test]
fn test_rewrite_json_api_path() {
    let json = r#"{"url": "/api/users"}"#;
    assert_eq!(rewrite_json(json, "/abc123").unwrap(), r#"{"url": "/abc123/api/users"}"#);
}

#[test]
fn test_rewrite_json_versioned_api() {
    let json = r#"{"baseUrl": "/v1/resources"}"#;
    assert_eq!(rewrite_json(json, "/abc123").unwrap(), r#"{"baseUrl": "/abc123/v1/resources"}"#);
}

#[test]
fn test_dont_rewrite_json_arbitrary_path() {
    let json = r#"{"path": "/some/random/path"}"#;
    assert_eq!(rewrite_json(json, "/abc123").unwrap(), json);
}

#[test]
fn test_dont_rewrite_json_url_scheme() {
    let json = r#"{"url": "https://example.com/api"}"#;
    assert_eq!(rewrite_json(json, "/abc123").unwrap(), json);
}

#[test]
fn test_rewrite_response_content_html_full() {
    let html = r#"<html><head></head><body><a href="/api">API</a></body></html>"#;
    let (result, rewritten) =
        rewrite_response_content(html, "text/html", "abc123", RewriteStrategy::FullRewrite)
            .unwrap();
    assert!(rewritten);
    assert!(result.contains(r#"href="/abc123/api""#));
}

#[test]
fn test_rewrite_response_content_html_base_tag() {
    let html = r#"<html><head></head><body><a href="/api">API</a></body></html>"#;
    let (result, rewritten) =
        rewrite_response_content(html, "text/html", "abc123", RewriteStrategy::BaseTag).unwrap();
    assert!(rewritten);
    assert!(result.contains(r#"<base href="/abc123/""#));
}

#[test]
fn test_rewrite_response_content_no_rewrite_strategy() {
    let html = r#"<a href="/api">API</a>"#;
    let (result, rewritten) =
        rewrite_response_content(html, "text/html", "abc123", RewriteStrategy::Disabled).unwrap();
    assert!(!rewritten);
    assert_eq!(result, html);
}

#[test]
fn test_rewrite_response_content_css() {
    let css = r#"div { background: url('/img/bg.png'); }"#;
    let (result, rewritten) =
        rewrite_response_content(css, "text/css", "abc123", RewriteStrategy::FullRewrite).unwrap();
    assert!(rewritten);
    assert!(result.contains("/abc123/img/bg.png"));
}

#[test]
fn test_rewrite_response_content_non_rewritable() {
    let content = "binary data";
    let (result, rewritten) =
        rewrite_response_content(content, "image/png", "abc123", RewriteStrategy::FullRewrite)
            .unwrap();
    assert!(!rewritten);
    assert_eq!(result, content);
}

#[test]
fn test_content_type_with_charset() {
    assert!(should_rewrite_content("text/html; charset=utf-8"));
    assert!(should_rewrite_content("application/json; charset=utf-8"));
    assert!(should_rewrite_content("text/html; charset=utf-8; boundary=something"));
}

#[test]
fn test_rewrite_inline_javascript() {
    let html = "<script>\nconst ui = { url: '/openapi.json', path: '/api/v1' };\n</script>";
    let result = rewrite_html(html, "/abc123").unwrap();
    assert!(result.contains("'/abc123/openapi.json'"));
    assert!(result.contains("'/abc123/api/v1'"));
}

#[test]
fn test_rewrite_swagger_config() {
    let html = r#"<script>
    const ui = SwaggerUIBundle({
        url: '/openapi.json',
        oauth2RedirectUrl: window.location.origin + '/docs/oauth2-redirect',
    })
    </script>"#;
    let result = rewrite_html(html, "/abc123").unwrap();
    assert!(result.contains("url: '/abc123/openapi.json'"));
    assert!(result.contains("+ '/abc123/docs/oauth2-redirect'"));
}

#[test]
fn test_dont_rewrite_short_js_paths() {
    let html = "<script>const x = '/';</script>";
    let result = rewrite_html(html, "/abc123").unwrap();
    assert!(result.contains("const x = '/';"));
}

#[test]
fn test_inject_tunnel_context() {
    let html = "<html><head></head><body></body></html>";
    let result = rewrite_html(html, "/abc123").unwrap();
    assert!(result.contains("window.__TUNNEL_CONTEXT__"));
    assert!(result.contains("tunnelId: 'abc123'"));
    assert!(result.contains("basePath: 'abc123'"));
    assert!(result.contains("window.__TUNNEL_BASE_PATH__"));
}

#[test]
fn test_complex_html_document() {
    let html = "<!DOCTYPE html>\n<html>\n<head>\n    <title>Test Page</title>\n    <link rel=\"stylesheet\" href=\"/static/style.css\">\n    <script src=\"/static/app.js\"></script>\n</head>\n<body>\n    <a href=\"/api/users\">Users</a>\n    <a href=\"https://external.com\">External</a>\n    <a href=\"#section\">Anchor</a>\n    <img src=\"/images/logo.png\">\n    <form action=\"/submit\" method=\"POST\">\n        <input type=\"submit\">\n    </form>\n</body>\n</html>";
    let result = rewrite_html(html, "/abc123").unwrap();
    assert!(result.contains("href=\"/abc123/static/style.css\""));
    assert!(result.contains("src=\"/abc123/static/app.js\""));
    assert!(result.contains("href=\"/abc123/api/users\""));
    assert!(result.contains("src=\"/abc123/images/logo.png\""));
    assert!(result.contains("action=\"/abc123/submit\""));
    assert!(result.contains("href=\"https://external.com\""));
    assert!(result.contains("href=\"#section\""));
}

#[test]
fn prefixed_link_is_left_alone() {
    let html = r#"<a href="/abc123/api/users">"#;
    assert_eq!(rewrite_html_attributes(html, "/abc123"), html);
}

#[test]
fn skipped_values_stay_unchanged() {
    let html = r##"<a href="http://x/y"><a href="https://x/y"><a href="//x/y"><img src="data:x"><a href="#top"><a href=""><a href="/abc123/z"><a href="/abc123">"##;
    assert_eq!(rewrite_html_attributes(html, "/abc123"), html);
    let css = r#"url('//cdn/x.png') url("data:abc") url(/abc123/a.png) url(https://h/a.png)"#;
    assert_eq!(rewrite_css(css, "/abc123").unwrap(), css);
}

#[test]
fn script_literals_outside_scripts_are_left_alone() {
    let html = r#"<p data-x='/api/users'></p><script>fetch("/api/users")</script>"#;
    let out = rewrite_inline_javascript(html, "/abc123").unwrap();
    assert_eq!(
        out,
        r#"<p data-x='/api/users'></p><script>fetch("/abc123/api/users")</script>"#
    );
}

#[test]
fn openapi_servers_url_is_prefixed() {
    let json = r#"{"servers" : [ { "url" : "/api" } ], "paths": {}}"#;
    let out = rewrite_json(json, "/abc123").unwrap();
    assert_eq!(out, r#"{"servers": [{"url": "/abc123/api" } ], "paths": {}}"#);
    let full = r#"{"servers": [{"url": "https://example.com"}]}"#;
    assert_eq!(rewrite_json(full, "/abc123").unwrap(), full);
}

#[test]
fn json_paths_match_case_insensitively() {
    let json = r#"["/API/x", "/Todos/1", "/static/x"]"#;
    assert_eq!(rewrite_json(json, "/t").unwrap(), r#"["/t/API/x", "/t/Todos/1", "/static/x"]"#);
}

#[test]
fn context_script_goes_into_new_head_or_front() {
    let out = rewrite_html("<html><body></body></html>", "/abc").unwrap();
    assert!(out.starts_with("<html><head><script>"));
    assert!(out.ends_with("</script></head><body></body></html>"));
    let bare = rewrite_html("<p>x</p>", "/abc").unwrap();
    assert!(bare.starts_with("<script>"));
    assert!(bare.ends_with("</script><p>x</p>"));
    let upper = rewrite_html("<HTML><HEAD lang=\"en\"></HEAD></HTML>", "/abc").unwrap();
    assert!(upper.starts_with("<HTML><HEAD lang=\"en\"><script>"));
}

#[test]
fn javascript_bodies_are_not_rewritten() {
    let js = "fetch('/api/users')";
    let (out, changed) =
        rewrite_response_content(js, "application/javascript", "abc", RewriteStrategy::FullRewrite)
            .unwrap();
    assert!(!changed);
    assert_eq!(out, js);
}

#[test]
fn content_type_is_trimmed_and_case_folded() {
    assert!(should_rewrite_content("  TEXT/HTML ; charset=utf-8"));
    assert!(!should_rewrite_content("text/htmlx"));
    assert!(!should_rewrite_content(""));
}

#[test]
fn test_content_type_detection() {
    assert!(should_rewrite_content("text/html"));
    assert!(should_rewrite_content("text/html; charset=utf-8"));
    assert!(should_rewrite_content("text/css"));
    assert!(!should_rewrite_content("application/javascript"));
    assert!(!should_rewrite_content("image/png"));
    assert!(!should_rewrite_content("application/pdf"));
    assert!(!should_rewrite_content("application/octet-stream"));
}

fn context(tunnel_id: &str) -> String {
    format!(
        "{}{}{}{}{}{}{}",
        CONTEXT_OPEN, tunnel_id, CONTEXT_BASE, tunnel_id, CONTEXT_REST, tunnel_id, CONTEXT_CLOSE
    )
}

// With neither <head> nor <html>, the full rewrite puts the context script
// in front of the attribute-rewritten document.
#[test]
fn full_rewrite_of_bare_fragments() {
    let cases = [
        (r#"<a href="/api/users">Users</a>"#, r#"<a href="/abc123/api/users">Users</a>"#),
        (r#"<img src="/images/logo.png">"#, r#"<img src="/abc123/images/logo.png">"#),
        (r#"<form action="/submit">...</form>"#, r#"<form action="/abc123/submit">...</form>"#),
        (r#"<a href="https://example.com/page">External</a>"#, r#"<a href="https://example.com/page">External</a>"#),
        (r#"<script src="//cdn.example.com/script.js"></script>"#, r#"<script src="//cdn.example.com/script.js"></script>"#),
        (r#"<img src="data:image/png;base64,iVBOR...">"#, r#"<img src="data:image/png;base64,iVBOR...">"#),
        ("<a href=\"#section\">Jump</a>", "<a href=\"#section\">Jump</a>"),
        (r#"<a href="/abc123/api/users">Already prefixed</a>"#, r#"<a href="/abc123/api/users">Already prefixed</a>"#),
    ];
    for (input, attributes) in cases {
        let out = rewrite_html(input, "/abc123").unwrap();
        assert_eq!(out, format!("{}{}", context("abc123"), attributes));
    }
}

#[test]
fn full_rewrite_puts_context_after_head() {
    let html = r#"<html><head></head><body><a href="/api/x">x</a></body></html>"#;
    let out = rewrite_html(html, "/abc123def456").unwrap();
    assert_eq!(
        out,
        format!(
            "<html><head>{}</head><body><a href=\"/abc123def456/api/x\">x</a></body></html>",
            context("abc123def456")
        )
    );
}

#[test]
fn protocol_relative_script_paths_are_skipped() {
    let html = "<script>load('//cdn.example.com/spec.json')</script>";
    assert_eq!(rewrite_inline_javascript(html, "/abc123").unwrap(), html);
}

use analytics::templates::{
    natural_time_value, asset_path, escape_html, natural_time, request_ctx, url_for, urlencode_filter, ManifestChunk, UrlForError,
    UserCtx,
};

fn kw(pairs: &[(&str, Option<&str>)]) -> Vec<(String, Option<String>)> {
    pairs.iter().map(|(k, v)| (k.to_string(), v.map(|s| s.to_string()))).collect()
}

#[test]
fn escapes_like_jinja2() {
    assert_eq!(escape_html("<a href=\"x\">Tom & Jerry's</a>"), "&lt;a href=&#34;x&#34;&gt;Tom &amp; Jerry&#39;s&lt;/a&gt;");
    assert_eq!(escape_html("plain text 123"), "plain text 123");
    assert_eq!(escape_html(""), "");
}

#[test]
fn escaped_text_has_no_markup() {
    let out = escape_html("<<>>\"'&&");
    assert!(!out.contains('<') && !out.contains('>') && !out.contains('"') && !out.contains('\''));
}

#[test]
fn url_for_known_routes() {
    assert_eq!(url_for("home", &kw(&[])).ok(), Some("/".to_string()));
    assert_eq!(url_for("index", &kw(&[])).ok(), Some("/".to_string()));
    assert_eq!(url_for("login", &kw(&[])).ok(), Some("/login".to_string()));
    assert_eq!(url_for("property", &kw(&[("property_id", Some("abc"))])).ok(), Some("/abc".to_string()));
    assert_eq!(
        url_for("property_delete", &kw(&[("property_id", Some("abc"))])).ok(),
        Some("/properties/abc/delete".to_string())
    );
    assert_eq!(url_for("static", &kw(&[("filename", Some("app.css"))])).ok(), Some("/static/app.css".to_string()));
    assert_eq!(url_for("property", &kw(&[("property_id", None)])).ok(), Some("/".to_string()));
    assert_eq!(url_for("favicon", &kw(&[])).ok(), Some("/favicon.ico".to_string()));
}

#[test]
fn url_for_errors() {
    assert!(matches!(url_for("nope", &kw(&[])), Err(UrlForError::UnknownRoute)));
    assert!(matches!(url_for("login", &kw(&[("next", Some("/x"))])), Err(UrlForError::UnknownKeyword)));
    assert!(matches!(
        url_for("property", &kw(&[("property_id", Some("a")), ("extra", Some("b"))])),
        Err(UrlForError::UnknownKeyword)
    ));
}

#[test]
fn natural_time_buckets() {
    assert_eq!(natural_time(-5), "just now");
    assert_eq!(natural_time(59), "just now");
    assert_eq!(natural_time(60), "1 minute ago");
    assert_eq!(natural_time(150), "2 minutes ago");
    assert_eq!(natural_time(3600), "1 hour ago");
    assert_eq!(natural_time(86400 * 3), "3 days ago");
    assert_eq!(natural_time(2592000 * 2), "2 months ago");
    assert_eq!(natural_time(31536000), "1 year ago");
}

#[test]
fn asset_paths_from_manifest() {
    let chunk = Some(ManifestChunk { first_css: Some("assets/main-abc.css".to_string()), file: Some("assets/main-abc.js".to_string()) });
    assert_eq!(asset_path("static_src/main.js", "css", &chunk), "/static/assets/main-abc.css");
    assert_eq!(asset_path("static_src/main.js", "js", &chunk), "/static/assets/main-abc.js");
    assert_eq!(asset_path("static_src/main.js", "js", &None), "/static/static_src/main.js");
    let no_css = Some(ManifestChunk { first_css: None, file: Some("a.js".to_string()) });
    assert_eq!(asset_path("e", "css", &no_css), "/static/a.js");
}

#[test]
fn urlencode_escapes_reserved_bytes() {
    assert_eq!(urlencode_filter("a b/c?d=é"), "a%20b%2Fc%3Fd%3D%C3%A9");
    assert_eq!(urlencode_filter("AZaz09-_.~"), "AZaz09-_.~");
}

#[test]
fn page_context_defaults() {
    let r = request_ctx("/properties");
    assert_eq!(r.path, "/properties");
    assert_eq!(r.url_root, "/");
    assert_eq!(r.url, "");
    assert!(!UserCtx::anonymous().is_authenticated);
}

#[test]
fn natural_time_of_timestamps() {
    let now = chrono::DateTime::parse_from_rfc3339("2024-03-10T12:00:00Z").unwrap().timestamp();
    assert_eq!(natural_time_value("2024-03-10T11:58:30Z", now, 0), "1 minute ago");
    assert_eq!(natural_time_value("2024-03-07T12:00:00+00:00", now, 0), "3 days ago");
    assert_eq!(natural_time_value("2024-03-10T13:00:00+01:00", now, 0), "just now");
    assert_eq!(natural_time_value("last tuesday", now, 0), "last tuesday");
}

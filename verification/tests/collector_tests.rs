use analytics::collector::{
    allow_origin, apply_geo, apply_ua, bot_event, check_collect_fields, client_ip_candidates,
    normalize_referrer, normalize_referrer_field, preflight_headers, route_event, take_hot_fields,
    user_agent_source, wants_geo, CollectError, Routed,
};
use analytics::event_data::{EventData, JsonValue};
use analytics::ua::ParsedUa;

fn s(v: &str) -> JsonValue {
    JsonValue::Str(v.to_string())
}

fn num(n: i64) -> JsonValue {
    JsonValue::Other { json: n.to_string(), number: Some(n), elements: None }
}

fn get_text(d: &EventData, k: &str) -> Option<String> {
    d.get_str(k)
}

#[test]
fn accepts_well_formed_collect_fields() {
    let r = check_collect_fields(Some("67e55044-10b1-426f-9247-bb680e5fe0c8"), Some("page_view"));
    let (id, ev) = match r {
        Ok(v) => v,
        Err(_) => panic!("rejected"),
    };
    assert_eq!(ev, "page_view");
    assert_eq!(id[0], 0x67);
    assert_eq!(id[15], 0xc8);
}

#[test]
fn rejects_missing_or_bad_collect_fields() {
    assert!(matches!(check_collect_fields(None, Some("x")), Err(CollectError::BadRequest)));
    assert!(matches!(
        check_collect_fields(Some("67e55044-10b1-426f-9247-bb680e5fe0c8"), None),
        Err(CollectError::BadRequest)
    ));
    assert!(matches!(check_collect_fields(Some("not-a-uuid"), Some("x")), Err(CollectError::BadRequest)));
}

#[test]
fn referrer_becomes_bare_host() {
    assert_eq!(normalize_referrer("https://WWW.Google.com/search?q=1"), "google.com");
    assert_eq!(normalize_referrer("news.ycombinator.com/item"), "news.ycombinator.com");
    assert_eq!(normalize_referrer("a://b://www.www.Example.org/x"), "example.org");
    assert_eq!(normalize_referrer(""), "");
}

#[test]
fn referrer_normalization_is_idempotent() {
    for r in ["https://WWW.Google.com/search", "x://www.www.A.b/c", "plain", "http:///"] {
        let once = normalize_referrer(r);
        assert_eq!(normalize_referrer(&once), once);
    }
}

#[test]
fn referrer_field_normalized_in_data() {
    let mut d = EventData::new();
    d.insert("referrer".to_string(), s("http://www.Bing.com/a"));
    d.insert("url".to_string(), s("/x"));
    normalize_referrer_field(&mut d);
    assert_eq!(get_text(&d, "referrer"), Some("bing.com".to_string()));
    assert_eq!(get_text(&d, "url"), Some("/x".to_string()));
}

#[test]
fn client_ip_candidates_order() {
    assert_eq!(
        client_ip_candidates(Some(" 10.0.0.1 , 10.0.0.2"), Some("1.2.3.4")),
        vec!["10.0.0.1".to_string(), "1.2.3.4".to_string()]
    );
    assert_eq!(client_ip_candidates(None, None), Vec::<String>::new());
}

#[test]
fn user_agent_prefers_data_field() {
    let mut d = EventData::new();
    assert_eq!(user_agent_source(&d, Some("hdr")), Some("hdr".to_string()));
    d.insert("user_agent".to_string(), s("from-data"));
    assert_eq!(user_agent_source(&d, Some("hdr")), Some("from-data".to_string()));
    let mut e = EventData::new();
    e.insert("user_agent".to_string(), num(3));
    assert_eq!(user_agent_source(&e, None), None);
}

#[test]
fn geo_only_for_session_start() {
    assert!(wants_geo("session_start"));
    assert!(!wants_geo("page_view"));
}

#[test]
fn cors_headers() {
    assert_eq!(allow_origin(None), "*");
    assert_eq!(allow_origin(Some("https://a.b")), "https://a.b");
    let h = preflight_headers(None, None);
    assert_eq!(h.len(), 4);
    assert_eq!(h[0], ("allow".to_string(), "OPTIONS, POST".to_string()));
    assert_eq!(h[2], ("access-control-allow-headers".to_string(), "Content-Type".to_string()));
    assert_eq!(h[3], ("access-control-allow-origin".to_string(), "*".to_string()));
    let h2 = preflight_headers(Some("https://x.y"), Some("X-A"));
    assert_eq!(h2[2].1, "X-A");
    assert_eq!(h2[3].1, "https://x.y");
}

#[test]
fn geo_enrichment_sets_found_fields() {
    let mut d = EventData::new();
    d.insert("country".to_string(), s("old"));
    apply_geo(&mut d, Some("US".to_string()), None, Some("Austin".to_string()), None);
    assert_eq!(get_text(&d, "country"), Some("US".to_string()));
    assert_eq!(get_text(&d, "region"), None);
    assert_eq!(get_text(&d, "city"), Some("Austin".to_string()));
}

fn bot() -> ParsedUa {
    ParsedUa {
        platform: None,
        browser: Some("Googlebot".to_string()),
        device: None,
        is_bot: true,
        bot_name: Some("Googlebot".to_string()),
    }
}

fn human() -> ParsedUa {
    ParsedUa {
        platform: Some("Windows".to_string()),
        browser: Some("Firefox".to_string()),
        device: Some("Desktop".to_string()),
        is_bot: false,
        bot_name: None,
    }
}

#[test]
fn ua_fields_recorded() {
    let mut d = EventData::new();
    apply_ua(&mut d, &bot());
    assert_eq!(get_text(&d, "bot_name"), Some("Googlebot".to_string()));
    match d.get("is_bot") {
        Some(JsonValue::Other { json, .. }) => assert_eq!(json, "true"),
        _ => panic!("is_bot missing"),
    }
    let mut h = EventData::new();
    apply_ua(&mut h, &human());
    assert!(h.get("is_bot").is_none());
    assert_eq!(get_text(&h, "device"), Some("Desktop".to_string()));
}

#[test]
fn bot_row_columns() {
    let mut d = EventData::new();
    d.insert("url".to_string(), s("/pricing"));
    d.insert("country".to_string(), num(5));
    let b = bot_event(&d, &bot(), "UA");
    assert_eq!(b.url, Some("/pricing".to_string()));
    assert_eq!(b.country, None);
    assert_eq!(b.user_agent, "UA");
    assert_eq!(b.bot_name, Some("Googlebot".to_string()));
}

#[test]
fn bots_go_to_bot_table() {
    let mut d = EventData::new();
    d.insert("url".to_string(), s("/"));
    match route_event(&mut d, Some(("Googlebot/2.1".to_string(), bot()))) {
        Routed::Bot(b) => {
            assert_eq!(b.url, Some("/".to_string()));
            assert_eq!(b.user_agent, "Googlebot/2.1");
        },
        Routed::Human(_) => panic!("bot routed to events"),
    }
    assert!(d.get("is_bot").is_some());
}

#[test]
fn humans_go_to_events_table() {
    let mut d = EventData::new();
    d.insert("url".to_string(), s("/docs"));
    d.insert("screen_width".to_string(), num(1920));
    d.insert("custom".to_string(), s("kept"));
    match route_event(&mut d, Some(("Mozilla/5.0".to_string(), human()))) {
        Routed::Human(h) => {
            assert_eq!(h.url, Some("/docs".to_string()));
            assert_eq!(h.screen_width, Some(1920));
            assert_eq!(h.browser, Some("Firefox".to_string()));
            assert_eq!(h.user_agent, Some("Mozilla/5.0".to_string()));
        },
        Routed::Bot(_) => panic!("human routed to bots"),
    }
    assert_eq!(d.entries().len(), 1);
    assert_eq!(get_text(&d, "custom"), Some("kept".to_string()));
    let mut e = EventData::new();
    assert!(matches!(route_event(&mut e, None), Routed::Human(_)));
}

#[test]
fn hot_fields_leave_the_rest() {
    let mut d = EventData::new();
    d.insert("title".to_string(), s(""));
    d.insert("time_on_page".to_string(), num(1500));
    d.insert("loc".to_string(), JsonValue::Other {
        json: "[1.5,2.5]".to_string(),
        number: None,
        elements: Some(vec!["1.5".to_string(), "2.5".to_string()]),
    });
    d.insert("other".to_string(), num(1));
    let h = take_hot_fields(&mut d, None);
    assert_eq!(h.title, None);
    assert_eq!(h.time_on_page_ms, Some(1500));
    assert_eq!(h.loc, Some(("1.5".to_string(), "2.5".to_string())));
    assert_eq!(d.entries().len(), 1);
}

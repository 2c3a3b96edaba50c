use analytics::ua::{classify_bot_by_ua, classify_client, classify_device, classify_fallback, UaFamilies, UaParser};

const REGEXES: &str = r#"
user_agent_parsers:
  - regex: '(Firefox)/(\d+)\.(\d+)'
  - regex: '(Googlebot)/(\d+)\.(\d+)'
os_parsers:
  - regex: '(Windows NT)'
    os_replacement: 'Windows'
device_parsers:
  - regex: '(Googlebot)'
    device_replacement: 'Spider'
  - regex: '(iPhone)'
    device_replacement: 'iPhone'
"#;

const FIREFOX: &str = "Mozilla/5.0 (Windows NT 10.0; Win64; x64; rv:128.0) Gecko/20100101 Firefox/128.0";

#[test]
fn classify_bot_by_ua_markers() {
    assert!(classify_bot_by_ua("Mozilla/5.0 (compatible; Googlebot/2.1)"));
    assert!(classify_bot_by_ua("UptimeRobot/2.0"));
    assert!(classify_bot_by_ua("Mozilla/5.0 HeadlessChrome/120"));
    assert!(!classify_bot_by_ua(FIREFOX));
    assert!(!classify_bot_by_ua(""));
}

#[test]
fn classify_device_precedence() {
    assert_eq!(classify_device("Mozilla/5.0 (iPad; CPU OS 17_0) Mobile", ""), "Tablet");
    assert_eq!(classify_device("anything", "iPad"), "Tablet");
    assert_eq!(classify_device("Mozilla/5.0 (Linux; Android 14) Mobile Safari", ""), "Mobile");
    assert_eq!(classify_device("x", "Generic Smartphone"), "Mobile");
    assert_eq!(classify_device(FIREFOX, "Other"), "Desktop");
}

#[test]
fn families_to_fields() {
    let fam = UaFamilies { device: "Other".to_string(), os: "Mac OS X".to_string(), user_agent: "Safari".to_string() };
    let p = classify_client("Mozilla/5.0 (Macintosh)", &fam);
    assert_eq!(p.platform, Some("Mac OS X".to_string()));
    assert_eq!(p.browser, Some("Safari".to_string()));
    assert_eq!(p.device, Some("Desktop".to_string()));
    assert!(!p.is_bot);
    assert_eq!(p.bot_name, None);

    let spider = UaFamilies { device: "Spider".to_string(), os: "Other".to_string(), user_agent: "Other".to_string() };
    let b = classify_client("Crawler", &spider);
    assert!(b.is_bot);
    assert_eq!(b.platform, None);
    assert_eq!(b.device, None);
    assert_eq!(b.bot_name, None);
}

#[test]
fn fallback_heuristics() {
    let b = classify_fallback("Mozilla/5.0 (compatible; bingbot/2.0)");
    assert!(b.is_bot);
    assert_eq!(b.bot_name, Some("Unknown bot".to_string()));
    assert_eq!(b.device, None);
    let h = classify_fallback("Mozilla/5.0 (iPhone; CPU iPhone OS 17_4 like Mac OS X)");
    assert!(!h.is_bot);
    assert_eq!(h.device, Some("Mobile".to_string()));
    assert_eq!(h.platform, None);
    assert_eq!(h.browser, None);
}

#[test]
fn parser_without_regexes_falls_back() {
    let p = UaParser::load(None);
    let r = p.parse("Googlebot/2.1");
    assert!(r.is_bot);
    assert_eq!(r.bot_name, Some("Unknown bot".to_string()));
    let bad = UaParser::load(Some(b"not: [valid"));
    let r2 = bad.parse(FIREFOX);
    assert_eq!(r2.browser, None);
    assert_eq!(r2.device, Some("Desktop".to_string()));
}

#[test]
fn parser_with_regexes_reports_families() {
    let p = UaParser::load(Some(REGEXES.as_bytes()));
    let r = p.parse(FIREFOX);
    assert_eq!(r.browser, Some("Firefox".to_string()));
    assert_eq!(r.platform, Some("Windows".to_string()));
    assert_eq!(r.device, Some("Desktop".to_string()));
    assert!(!r.is_bot);

    let g = p.parse("Mozilla/5.0 (compatible; Googlebot/2.1; +http://www.google.com/bot.html)");
    assert!(g.is_bot);
    assert_eq!(g.bot_name, Some("Googlebot".to_string()));
    assert_eq!(g.device, None);
}

#[test]
fn reload_keeps_old_parser_on_failure() {
    let mut p = UaParser::load(Some(REGEXES.as_bytes()));
    p.reload(Some(b"::: broken"));
    assert_eq!(p.parse(FIREFOX).browser, Some("Firefox".to_string()));
    let mut q = UaParser::load(None);
    q.reload(Some(REGEXES.as_bytes()));
    assert_eq!(q.parse(FIREFOX).browser, Some("Firefox".to_string()));
}

use analytics::auth::{
    is_authenticated, next_target, password_matches, resolve_settings, session_value, LoginForm, SettingsError, COOKIE_NAME,
    SESSION_TTL_SECS,
};
use base64::Engine;
use sha2::{Digest, Sha512};

#[test]
fn session_value_format() {
    assert_eq!(session_value(1_700_000_000), "1:1702592000");
    assert_eq!(COOKIE_NAME, "session");
    assert_eq!(SESSION_TTL_SECS, 30 * 24 * 60 * 60);
}

#[test]
fn session_lasts_until_expiry() {
    let now = 1_700_000_000;
    let v = session_value(now);
    assert!(is_authenticated(Some(&v), now));
    assert!(is_authenticated(Some(&v), now + SESSION_TTL_SECS - 1));
    assert!(!is_authenticated(Some(&v), now + SESSION_TTL_SECS));
    assert!(!is_authenticated(Some(&v), now + SESSION_TTL_SECS + 100));
}

#[test]
fn malformed_sessions_rejected() {
    assert!(!is_authenticated(None, 0));
    assert!(!is_authenticated(Some("1"), 0));
    assert!(!is_authenticated(Some("0:99999999999"), 0));
    assert!(!is_authenticated(Some("1:abc"), 0));
    assert!(!is_authenticated(Some("1:"), 0));
    assert!(is_authenticated(Some("1:+5"), 4));
    assert!(!is_authenticated(Some("11:99999999999"), 0));
}

#[test]
fn next_target_only_local_paths() {
    assert_eq!(next_target(Some("/abc?x=1")), "/abc?x=1");
    assert_eq!(next_target(Some("//evil.com")), "/properties");
    assert_eq!(next_target(Some("https://evil.com")), "/properties");
    assert_eq!(next_target(Some("")), "/properties");
    assert_eq!(next_target(None), "/properties");
}

#[test]
fn next_target_always_local() {
    for n in ["/", "//", "/x", "x", "", "\\\\x", "/\\x"] {
        let t = next_target(Some(n));
        assert!(t.starts_with('/') && !t.starts_with("//"));
    }
}

#[test]
fn password_check() {
    let f = LoginForm { password: "hunter2".to_string(), next: None };
    assert!(password_matches(&f.password, "hunter2"));
    assert!(!password_matches("hunter", "hunter2"));
}

#[test]
fn settings_need_a_password() {
    assert!(matches!(resolve_settings(None, None, None), Err(SettingsError::MissingPassword)));
    assert!(matches!(
        resolve_settings(None, Some("https://a.b".to_string()), Some("x".repeat(64))),
        Err(SettingsError::MissingPassword)
    ));
}

#[test]
fn settings_defaults_and_derived_secret() {
    let s = match resolve_settings(Some("admin".to_string()), None, None) {
        Ok(s) => s,
        Err(_) => panic!("refused"),
    };
    assert_eq!(s.password, "admin");
    assert_eq!(s.base_url, "");
    let mut h = Sha512::new();
    h.update(b"analytics-cookie:");
    h.update(b"admin");
    let expected = base64::engine::general_purpose::STANDARD.encode(h.finalize());
    assert_eq!(s.cookie_secret, expected);
    assert_eq!(s.cookie_secret.len(), 88);

    let t = match resolve_settings(Some("pw".to_string()), Some("https://a.b".to_string()), Some("sekret".to_string())) {
        Ok(t) => t,
        Err(_) => panic!("refused"),
    };
    assert_eq!(t.password, "pw");
    assert_eq!(t.base_url, "https://a.b");
    assert_eq!(t.cookie_secret, "sekret");
}

#[test]
fn rotating_password_changes_secret() {
    let a = resolve_settings(Some("one".to_string()), None, None).ok().unwrap();
    let b = resolve_settings(Some("two".to_string()), None, None).ok().unwrap();
    assert_ne!(a.cookie_secret, b.cookie_secret);
}

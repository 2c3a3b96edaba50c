use analytics::properties::{
    active_cutoff, like_pattern, list_totals, property_name, search_term, PropertiesQuery, PropertyCounts,
    PropertyCreateForm, ACTIVE_WINDOW_MS,
};

#[test]
fn search_is_trimmed() {
    let q = PropertiesQuery { q: Some("  blog \n".to_string()) };
    assert_eq!(search_term(q.q.as_deref()), "blog");
    assert_eq!(search_term(None), "");
    assert_eq!(like_pattern("blog"), "%blog%");
    assert_eq!(like_pattern(""), "%%");
}

#[test]
fn new_property_names() {
    assert_eq!(property_name(&PropertyCreateForm { name: "  My Site ".to_string() }), Some("My Site".to_string()));
    assert_eq!(property_name(&PropertyCreateForm { name: " \t ".to_string() }), None);
}

#[test]
fn activity_and_totals() {
    assert_eq!(ACTIVE_WINDOW_MS, 7 * 24 * 60 * 60 * 1000);
    assert_eq!(active_cutoff(1_000_000_000_000), 1_000_000_000_000 - ACTIVE_WINDOW_MS);
    let a = PropertyCounts { total: 10, page_views: 4, session_starts: 2, recent: 0 };
    let b = PropertyCounts { total: 5, page_views: 1, session_starts: 1, recent: 3 };
    assert!(!a.is_active());
    assert!(b.is_active());
    let t = list_totals(&vec![a, b]);
    assert_eq!((t.properties, t.events, t.page_views, t.sessions), (2, 15, 5, 3));
    let e = list_totals(&vec![]);
    assert_eq!((e.properties, e.events), (0, 0));
}

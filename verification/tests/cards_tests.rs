use analytics::cards::{active_custom_events, contains_text, count_cards, custom_card_counts, plan_custom_cards};
use analytics::models::CustomCard;
use analytics::queries::EventCounts;

fn card(e: &str, on: bool) -> CustomCard {
    CustomCard { event: e.to_string(), value: on }
}

fn strings(v: &[&str]) -> Vec<String> {
    v.iter().map(|s| s.to_string()).collect()
}

#[test]
fn five_count_cards_in_order() {
    let cur = EventCounts { session_start: 10, page_view: 20, click: 3, scroll: 4, total: 40 };
    let prev = EventCounts { session_start: 5, page_view: 25, click: 0, scroll: 4, total: 33 };
    let c = count_cards(&cur, &prev);
    let names: Vec<&str> = c.iter().map(|x| x.name.as_str()).collect();
    assert_eq!(names, vec!["Total session starts", "Total page views", "Total clicks", "Total scrolls", "Total events"]);
    assert_eq!((c[0].value, c[0].previous), (10, 5));
    assert_eq!((c[1].value, c[1].previous), (20, 25));
    assert_eq!((c[4].value, c[4].previous), (40, 33));
    assert_eq!(c[1].help_text, "Total pages viewed for your selected date range.");
}

#[test]
fn switched_on_cards_once_each() {
    let cards = vec![card("signup", true), card("buy", false), card("signup", true), card("share", true)];
    let a = active_custom_events(&cards);
    assert_eq!(a, strings(&["signup", "share"]));
    assert!(contains_text(&a, "share"));
    assert!(!contains_text(&a, "buy"));
    assert!(active_custom_events(&vec![card("x", false)]).is_empty());
}

#[test]
fn descriptors_mark_active_events() {
    let names = strings(&["buy", "share", "signup"]);
    let cards = vec![card("signup", true), card("buy", false)];
    let (d, active) = plan_custom_cards(&names, &cards);
    assert_eq!(d.len(), 3);
    assert_eq!((d[0].event.as_str(), d[0].active), ("buy", false));
    assert_eq!((d[1].event.as_str(), d[1].active), ("share", false));
    assert_eq!((d[2].event.as_str(), d[2].active), ("signup", true));
    assert_eq!(active, strings(&["signup"]));
}

#[test]
fn custom_counts_for_both_periods() {
    let active = strings(&["signup", "share"]);
    let cur = vec![("signup".to_string(), 4), ("other".to_string(), 9)];
    let prev = vec![("share".to_string(), 2), ("share".to_string(), 3)];
    let r = custom_card_counts(&active, &cur, &prev);
    assert_eq!(r, vec![("signup".to_string(), 4, 0), ("share".to_string(), 0, 3)]);
}

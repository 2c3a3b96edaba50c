use analytics::queries::{
    built_in_event_names, filter_clause, graph_buckets, graph_points, group_regions, lookup_count, parse_day_rows,
    placeholders, screen_label, tally, top_by_column_sql, utm_column, BotTraffic, EventCounts,
};
use chrono::{Datelike, NaiveDate};

fn day(y: i32, m: u32, d: u32) -> i32 {
    NaiveDate::from_ymd_opt(y, m, d).unwrap().num_days_from_ce()
}

fn rows(v: &[(&str, i64)]) -> Vec<(String, i64)> {
    v.iter().map(|(a, b)| (a.to_string(), *b)).collect()
}

#[test]
fn url_filter_clause() {
    let (sql, bind) = filter_clause(Some("/docs"));
    assert_eq!(sql, " AND url = ?");
    assert_eq!(bind, Some("/docs".to_string()));
    let (sql2, bind2) = filter_clause(None);
    assert_eq!(sql2, "");
    assert_eq!(bind2, None);
}

#[test]
fn placeholder_lists() {
    assert_eq!(placeholders(0), "");
    assert_eq!(placeholders(1), "?");
    assert_eq!(placeholders(5), "?,?,?,?,?");
    assert_eq!(built_in_event_names(), vec!["session_start", "page_view", "page_leave", "click", "scroll"]);
}

#[test]
fn breakdown_sql() {
    assert_eq!(
        top_by_column_sql("device", true, true, false),
        "SELECT device, COUNT(DISTINCT user_id) FROM events WHERE property_id = ? AND created_at >= ? AND created_at <= ? AND device IS NOT NULL AND device != '' AND user_id IS NOT NULL AND event = ? GROUP BY device ORDER BY COUNT(DISTINCT user_id) DESC LIMIT ?"
    );
    assert_eq!(
        top_by_column_sql("url", false, false, true),
        "SELECT url, COUNT(*) FROM events WHERE property_id = ? AND created_at >= ? AND created_at <= ? AND url IS NOT NULL AND url != '' AND url = ? GROUP BY url ORDER BY COUNT(*) DESC LIMIT ?"
    );
}

#[test]
fn utm_columns() {
    assert_eq!(utm_column("source"), Some("utm_source"));
    assert_eq!(utm_column("content"), Some("utm_content"));
    assert_eq!(utm_column("Source"), None);
}

#[test]
fn screen_labels() {
    assert_eq!(screen_label(Some(1920), Some(1080)), "1920x1080");
    assert_eq!(screen_label(None, Some(-2)), "0x-2");
}

#[test]
fn counts_from_aggregate_row() {
    let c = EventCounts::from_row(Some(3), None, Some(1), None, 9);
    assert_eq!((c.session_start, c.page_view, c.click, c.scroll, c.total), (3, 0, 1, 0, 9));
    let b = BotTraffic::empty();
    assert_eq!(b.total, 0);
    assert!(b.top_bots.is_empty() && b.top_pages.is_empty());
}

#[test]
fn day_rows_skip_unparsable() {
    let r = parse_day_rows(&rows(&[("2024-03-01", 4), ("garbage", 9), ("2024-02-30", 1), ("2024-03-02", 5)]));
    assert_eq!(r, vec![(day(2024, 3, 1), 4), (day(2024, 3, 2), 5)]);
}

#[test]
fn daily_buckets_oldest_first() {
    let end = day(2024, 3, 10);
    let b = graph_buckets(&rows(&[("2024-03-10", 2), ("2024-03-08", 7), ("2024-03-01", 100)]), end, 3);
    assert_eq!(b, vec![(day(2024, 3, 8), 7), (day(2024, 3, 9), 0), (end, 2)]);
}

#[test]
fn weekly_buckets_sum_forward() {
    let end = day(2024, 3, 10);
    let r = rows(&[("2024-03-03", 1), ("2024-03-05", 2), ("2024-03-10", 4), ("2024-03-12", 8)]);
    let b = graph_buckets(&r, end, 30);
    assert_eq!(b.len(), 4);
    assert_eq!(b[3], (end, 12));
    assert_eq!(b[2], (day(2024, 3, 3), 3));
    for w in b.windows(2) {
        assert!(w[0].0 < w[1].0);
    }
}

#[test]
fn monthly_buckets() {
    let end = day(2024, 6, 30);
    let b = graph_buckets(&rows(&[]), end, 200);
    assert_eq!(b.len(), 7);
    assert_eq!(b[6], (end, 0));
    assert_eq!(b[0].0, end - 28 * 6);
}

#[test]
fn graph_points_are_labelled() {
    let end = day(2024, 3, 10);
    let p = graph_points(&rows(&[("2024-03-09", 5)]), end, 2);
    assert_eq!(p.len(), 2);
    assert_eq!(p[0].label, "Mar 9");
    assert_eq!(p[0].count, 5);
    assert_eq!(p[1].label, "Mar 10");
    assert_eq!(p[1].count, 0);
    assert!(graph_points(&rows(&[]), end, 0).is_empty());
}

#[test]
fn last_row_wins_in_lookups() {
    let r = rows(&[("signup", 3), ("buy", 1), ("signup", 7)]);
    assert_eq!(lookup_count(&r, "signup"), 7);
    assert_eq!(lookup_count(&r, "buy"), 1);
    assert_eq!(lookup_count(&r, "none"), 0);
}

#[test]
fn tally_collects_like_a_map() {
    let t = tally(&rows(&[("US", 3), ("DE", 1), ("US", 5)]));
    assert_eq!(t.len(), 2);
    assert_eq!((t[0].label.as_str(), t[0].count), ("US", 5));
    assert_eq!((t[1].label.as_str(), t[1].count), ("DE", 1));
    assert!(tally(&rows(&[])).is_empty());
}

#[test]
fn regions_grouped_by_country() {
    let r: Vec<(String, String, i64)> = vec![
        ("US".to_string(), "Texas".to_string(), 2),
        ("GB".to_string(), "England".to_string(), 4),
        ("US".to_string(), "Ohio".to_string(), 1),
        ("US".to_string(), "Texas".to_string(), 6),
    ];
    let g = group_regions(&r);
    assert_eq!(g.len(), 2);
    assert_eq!(g[0].country, "US");
    let us: Vec<(String, i64)> = g[0].regions.iter().map(|x| (x.label.clone(), x.count)).collect();
    assert_eq!(us, vec![("Texas".to_string(), 6), ("Ohio".to_string(), 1)]);
    assert_eq!(g[1].country, "GB");
    assert_eq!(g[1].regions.len(), 1);
    assert_eq!(g[1].regions[0].count, 4);
}

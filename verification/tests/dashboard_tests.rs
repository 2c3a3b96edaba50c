use analytics::dashboard::{
    breakdown_total, can_view, chart_summary, dashboard_period, date_range_days, filter_param, previous_window,
    report_format, top_countries, ReportFormat, DAY_MS, DEFAULT_DATE_RANGE_DAYS,
};
use analytics::queries::{GraphPoint, LabelCount};
use chrono::{Datelike, NaiveDate};

fn lc(l: &str, c: i64) -> LabelCount {
    LabelCount { label: l.to_string(), count: c }
}

fn gp(l: &str, c: i64) -> GraphPoint {
    GraphPoint { label: l.to_string(), count: c }
}

#[test]
fn private_properties_need_login() {
    assert!(can_view(true, false));
    assert!(can_view(false, true));
    assert!(!can_view(false, false));
}

#[test]
fn date_range_parameter() {
    let start = 1_700_000_000_000i64;
    assert_eq!(date_range_days(None, start, start + 7 * DAY_MS + 5), 7);
    assert_eq!(date_range_days(Some("custom"), start, start + 1000), 1);
    assert_eq!(date_range_days(Some("custom"), start, start - 3 * DAY_MS), 1);
    assert_eq!(date_range_days(Some("90"), start, start), 90);
    assert_eq!(date_range_days(Some("-3"), start, start), -3);
    assert_eq!(date_range_days(Some("weekly"), start, start), DEFAULT_DATE_RANGE_DAYS);
}

#[test]
fn comparison_window_shifts_back() {
    let (a, b) = previous_window(10 * DAY_MS, 17 * DAY_MS - 1, 7);
    assert_eq!(a, 3 * DAY_MS);
    assert_eq!(b, 10 * DAY_MS - 1);
    assert_eq!(b - a, 17 * DAY_MS - 1 - 10 * DAY_MS);
}

#[test]
fn empty_filter_is_no_filter() {
    assert_eq!(filter_param(Some("")), None);
    assert_eq!(filter_param(Some("/docs")), Some("/docs"));
    assert_eq!(filter_param(None), None);
}

#[test]
fn report_formats() {
    assert!(report_format(None) == ReportFormat::Page);
    assert!(report_format(Some("")) == ReportFormat::Pdf);
    assert!(report_format(Some("pdf")) == ReportFormat::Pdf);
    assert!(report_format(Some("md")) == ReportFormat::Markdown);
    assert!(report_format(Some("csv")) == ReportFormat::Page);
}

#[test]
fn default_period_is_last_28_days() {
    let today = NaiveDate::from_ymd_opt(2024, 3, 10).unwrap();
    let (s, e) = dashboard_period(None, None, today.num_days_from_ce()).unwrap();
    assert_eq!(s, "2024-02-11");
    assert_eq!(e, "2024-03-10");
    let (s2, e2) = dashboard_period(Some("2024-01-01"), Some("x"), today.num_days_from_ce()).unwrap();
    assert_eq!(s2, "2024-01-01");
    assert_eq!(e2, "x");
    assert!(dashboard_period(None, None, i32::MIN + 3).is_none());
    assert!(dashboard_period(None, None, i32::MAX).is_none());
}

#[test]
fn chart_summary_picks_last_peak() {
    let pts = vec![gp("Mar 1", 3), gp("Mar 2", 9), gp("Mar 3", 9), gp("Mar 4", 1)];
    let s = chart_summary(&pts);
    assert_eq!(s.label_start, "Mar 1");
    assert_eq!(s.label_end, "Mar 4");
    assert_eq!(s.peak_count, 9);
    assert_eq!(s.peak_label, "Mar 3");
    let e = chart_summary(&vec![]);
    assert_eq!(e.peak_count, 0);
    assert_eq!(e.label_start, "");
    assert_eq!(e.peak_label, "");
}

#[test]
fn breakdown_total_at_least_one() {
    assert_eq!(breakdown_total(&vec![lc("a", 3), lc("b", 4)]), 7);
    assert_eq!(breakdown_total(&vec![]), 1);
    assert_eq!(breakdown_total(&vec![lc("a", 0)]), 1);
}

#[test]
fn top_countries_sorted_and_cut() {
    let mut items = Vec::new();
    for i in 0..12 {
        items.push(lc(&format!("C{i}"), (i * 7 % 5) as i64));
    }
    let r = top_countries(items);
    assert_eq!(r.len(), 10);
    for w in r.windows(2) {
        assert!(w[0].count >= w[1].count);
    }
    assert_eq!(r[0].count, 4);
    let ties = top_countries(vec![lc("A", 1), lc("B", 2), lc("C", 1)]);
    let labels: Vec<&str> = ties.iter().map(|x| x.label.as_str()).collect();
    assert_eq!(labels, vec!["B", "A", "C"]);
}

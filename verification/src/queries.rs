//! Dashboard aggregations: the SQL fragments the queries are built from, and
//! the shaping of query rows into cards, breakdowns and the time-series chart.
//! Time arithmetic uses unix milliseconds; chart dates are day numbers.
use vstd::prelude::*;
use crate::dates::{in_calendar, is_valid_day, iso_date_parse, month_day_label, month_day_text, parse_iso_date};
use crate::text::{append, concat, contains_seq, has_prefix, has_suffix, i64_chars, int_text, occurs_at, owned, str_is, string_of};

verus! {

/// A label and how often it occurred.
pub struct LabelCount {
    pub label: String,
    pub count: i64,
}

/// One point of the events chart.
pub struct GraphPoint {
    pub label: String,
    pub count: i64,
}

/// A custom event name seen for a property, and whether its card is on.
pub struct CustomEventDescriptor {
    pub event: String,
    pub active: bool,
}

/// Bot traffic in a period: total, busiest bots, busiest pages.
pub struct BotTraffic {
    pub total: i64,
    pub top_bots: Vec<LabelCount>,
    pub top_pages: Vec<LabelCount>,
}

/// Counts of the built-in events in a period.
pub struct EventCounts {
    pub session_start: i64,
    pub page_view: i64,
    pub click: i64,
    pub scroll: i64,
    pub total: i64,
}

impl BotTraffic {
    /// No bot traffic: what is reported when the period has no bot events.
    pub fn empty() -> (r: BotTraffic)
        ensures
            r.total == 0,
            r.top_bots@.len() == 0,
            r.top_pages@.len() == 0,
    {
        BotTraffic { total: 0, top_bots: Vec::new(), top_pages: Vec::new() }
    }
}

impl EventCounts {
    /// Counts from the aggregation row: a `SUM` over no rows is NULL and
    /// counts as zero.
    pub fn from_row(
        session_start: Option<i64>,
        page_view: Option<i64>,
        click: Option<i64>,
        scroll: Option<i64>,
        total: i64,
    ) -> (r: EventCounts)
        ensures
            r.session_start == (match session_start { Some(v) => v, None => 0 }),
            r.page_view == (match page_view { Some(v) => v, None => 0 }),
            r.click == (match click { Some(v) => v, None => 0 }),
            r.scroll == (match scroll { Some(v) => v, None => 0 }),
            r.total == total,
    {
        EventCounts {
            session_start: match session_start { Some(v) => v, None => 0 },
            page_view: match page_view { Some(v) => v, None => 0 },
            click: match click { Some(v) => v, None => 0 },
            scroll: match scroll { Some(v) => v, None => 0 },
            total,
        }
    }
}

// ---------------------------------------------------------------------------
// SQL fragments
// ---------------------------------------------------------------------------

/// The URL filter: an extra `AND url = ?` condition and the value to bind.
pub fn filter_clause(filter_url: Option<&str>) -> (r: (&'static str, Option<String>))
    ensures
        filter_url is None ==> r.0@ == ""@ && r.1 is None,
        filter_url matches Some(u) ==> (r.0@ == " AND url = ?"@ && (r.1 matches Some(v) && v@ == u@)),
{
    match filter_url {
        Some(u) => (" AND url = ?", Some(owned(u))),
        None => ("", None),
    }
}

/// `n` question marks separated by commas.
pub open spec fn placeholders_spec(n: nat) -> Seq<char>
    decreases n,
{
    if n == 0 {
        Seq::empty()
    } else if n == 1 {
        seq!['?']
    } else {
        placeholders_spec((n - 1) as nat) + seq![',', '?']
    }
}

/// Placeholders for an `IN (...)` list of `n` values.
pub fn placeholders(n: usize) -> (r: String)
    ensures
        r@ == placeholders_spec(n as nat),
{
    let mut v: Vec<char> = Vec::new();
    let mut i: usize = 0;
    while i < n
        invariant
            i <= n,
            v@ == placeholders_spec(i as nat),
        decreases n - i,
    {
        if i > 0 {
            v.push(',');
        }
        v.push('?');
        i = i + 1;
        assert(v@ =~= placeholders_spec(i as nat));
    }
    string_of(v.as_slice())
}

/// The event names built into the collector; anything else is a custom event.
pub open spec fn built_in_events() -> Seq<Seq<char>> {
    seq!["session_start"@, "page_view"@, "page_leave"@, "click"@, "scroll"@]
}

pub fn built_in_event_names() -> (v: Vec<&'static str>)
    ensures
        v@.map_values(|s: &str| s@) == built_in_events(),
{
    let v: Vec<&'static str> = vec!["session_start", "page_view", "page_leave", "click", "scroll"];
    assert(v@.map_values(|s: &str| s@) =~= built_in_events());
    v
}

/// How a breakdown counts: distinct users, or raw events.
pub open spec fn count_expr_spec(distinct_users: bool) -> Seq<char> {
    if distinct_users { "COUNT(DISTINCT user_id)"@ } else { "COUNT(*)"@ }
}

/// The SQL of a top-N breakdown over `column`: rows with a non-empty value in
/// the period, counted per value (by distinct user where `distinct_users`,
/// which also leaves out rows without a user), optionally restricted to one
/// event and to one URL, biggest first. It binds the property, the period's
/// start and end, then the event and the URL where they apply, then the limit.
pub open spec fn top_by_column_sql_spec(column: Seq<char>, distinct_users: bool, has_event: bool, filtered: bool) -> Seq<char> {
    let cnt = count_expr_spec(distinct_users);
    "SELECT "@ + column + ", "@ + cnt
        + " FROM events WHERE property_id = ? AND created_at >= ? AND created_at <= ? AND "@
        + column + " IS NOT NULL AND "@ + column + " != ''"@
        + (if distinct_users { " AND user_id IS NOT NULL"@ } else { Seq::empty() })
        + (if has_event { " AND event = ?"@ } else { Seq::empty() })
        + (if filtered { " AND url = ?"@ } else { Seq::empty() })
        + " GROUP BY "@ + column + " ORDER BY "@ + cnt + " DESC LIMIT ?"@
}

pub fn top_by_column_sql(column: &str, distinct_users: bool, has_event: bool, filtered: bool) -> (r: String)
    ensures
        r@ == top_by_column_sql_spec(column@, distinct_users, has_event, filtered),
{
    let cnt: &str = if distinct_users { "COUNT(DISTINCT user_id)" } else { "COUNT(*)" };
    let mut b: Vec<char> = Vec::new();
    append(&mut b, "SELECT ");
    append(&mut b, column);
    append(&mut b, ", ");
    append(&mut b, cnt);
    append(&mut b, " FROM events WHERE property_id = ? AND created_at >= ? AND created_at <= ? AND ");
    append(&mut b, column);
    append(&mut b, " IS NOT NULL AND ");
    append(&mut b, column);
    append(&mut b, " != ''");
    let ghost head = b@;
    if distinct_users {
        append(&mut b, " AND user_id IS NOT NULL");
    }
    let ghost with_users = b@;
    if has_event {
        append(&mut b, " AND event = ?");
    }
    let ghost with_event = b@;
    if filtered {
        append(&mut b, " AND url = ?");
    }
    let ghost with_url = b@;
    append(&mut b, " GROUP BY ");
    append(&mut b, column);
    append(&mut b, " ORDER BY ");
    append(&mut b, cnt);
    append(&mut b, " DESC LIMIT ?");
    assert(with_users =~= head + (if distinct_users { " AND user_id IS NOT NULL"@ } else { Seq::empty() }));
    assert(with_event =~= with_users + (if has_event { " AND event = ?"@ } else { Seq::empty() }));
    assert(with_url =~= with_event + (if filtered { " AND url = ?"@ } else { Seq::empty() }));
    assert(b@ =~= top_by_column_sql_spec(column@, distinct_users, has_event, filtered));
    string_of(b.as_slice())
}

/// The breakdown's conditions come in the order their values are bound:
/// with both an event and a URL filter, the event condition comes directly
/// before the URL condition, both after the period, and the limit is last.
pub proof fn lemma_breakdown_binds_in_order(column: Seq<char>, distinct_users: bool)
    ensures
        ({
            let sql = top_by_column_sql_spec(column, distinct_users, true, true);
            &&& contains_seq(sql, " AND event = ? AND url = ?"@)
            &&& has_prefix(sql, "SELECT "@)
            &&& has_suffix(sql, " DESC LIMIT ?"@)
            &&& contains_seq(sql, "property_id = ? AND created_at >= ? AND created_at <= ? AND "@)
        }),
{
    let cnt = count_expr_spec(distinct_users);
    let head = "SELECT "@ + column + ", "@ + cnt
        + " FROM events WHERE property_id = ? AND created_at >= ? AND created_at <= ? AND "@
        + column + " IS NOT NULL AND "@ + column + " != ''"@
        + (if distinct_users { " AND user_id IS NOT NULL"@ } else { Seq::empty() });
    let mid = " AND event = ?"@ + " AND url = ?"@;
    let tail = " GROUP BY "@ + column + " ORDER BY "@ + cnt + " DESC LIMIT ?"@;
    let sql = top_by_column_sql_spec(column, distinct_users, true, true);
    assert(sql =~= head + mid + tail);
    reveal_strlit(" AND event = ?");
    reveal_strlit(" AND url = ?");
    reveal_strlit(" AND event = ? AND url = ?");
    reveal_strlit("SELECT ");
    reveal_strlit(" DESC LIMIT ?");
    reveal_strlit("property_id = ? AND created_at >= ? AND created_at <= ? AND ");
    reveal_strlit(" FROM events WHERE property_id = ? AND created_at >= ? AND created_at <= ? AND ");
    assert(mid =~= " AND event = ? AND url = ?"@);
    assert(sql.subrange(head.len() as int, (head.len() + mid.len()) as int) =~= mid);
    assert(occurs_at(sql, " AND event = ? AND url = ?"@, head.len() as int));
    assert(sql.subrange(0, 7) =~= "SELECT "@);
    assert(sql.subrange(sql.len() - 13, sql.len() as int) =~= " DESC LIMIT ?"@);
    let pre = "SELECT "@ + column + ", "@ + cnt;
    let mid2 = " FROM events WHERE property_id = ? AND created_at >= ? AND created_at <= ? AND "@;
    let needle = "property_id = ? AND created_at >= ? AND created_at <= ? AND "@;
    assert(mid2.subrange(19, mid2.len() as int) =~= needle);
    assert(sql.subrange(pre.len() + 19int, (pre.len() + 19 + needle.len()) as int) =~= needle);
    assert(occurs_at(sql, needle, pre.len() + 19int));
}

/// Column of a UTM breakdown field; unknown fields have no breakdown.
pub open spec fn utm_column_spec(field: Seq<char>) -> Option<Seq<char>> {
    if field == "source"@ {
        Some("utm_source"@)
    } else if field == "medium"@ {
        Some("utm_medium"@)
    } else if field == "campaign"@ {
        Some("utm_campaign"@)
    } else if field == "term"@ {
        Some("utm_term"@)
    } else if field == "content"@ {
        Some("utm_content"@)
    } else {
        None
    }
}

pub fn utm_column(field: &str) -> (r: Option<&'static str>)
    ensures
        match r {
            Some(c) => utm_column_spec(field@) == Some(c@),
            None => utm_column_spec(field@) is None,
        },
{
    if crate::text::str_is(field, "source") {
        Some("utm_source")
    } else if crate::text::str_is(field, "medium") {
        Some("utm_medium")
    } else if crate::text::str_is(field, "campaign") {
        Some("utm_campaign")
    } else if crate::text::str_is(field, "term") {
        Some("utm_term")
    } else if crate::text::str_is(field, "content") {
        Some("utm_content")
    } else {
        None
    }
}

/// Label of a screen-size bucket: `WxH`, a missing side written as 0.
pub open spec fn screen_label_spec(w: Option<i64>, h: Option<i64>) -> Seq<char> {
    let a: int = match w { Some(v) => v as int, None => 0 };
    let b: int = match h { Some(v) => v as int, None => 0 };
    int_text(a) + seq!['x'] + int_text(b)
}

pub fn screen_label(w: Option<i64>, h: Option<i64>) -> (r: String)
    ensures
        r@ == screen_label_spec(w, h),
{
    let a = i64_chars(match w { Some(v) => v, None => 0 });
    let b = i64_chars(match h { Some(v) => v, None => 0 });
    let x: Vec<char> = vec!['x'];
    let ax = concat(a.as_slice(), x.as_slice());
    let r = concat(ax.as_slice(), b.as_slice());
    assert(r@ =~= screen_label_spec(w, h));
    string_of(r.as_slice())
}

// ---------------------------------------------------------------------------
// Events chart
// ---------------------------------------------------------------------------

/// `(day, count)` rows of the per-day query whose day text parses, in order.
pub open spec fn parsed_rows(rows: Seq<(String, i64)>) -> Seq<(int, i64)>
    decreases rows.len(),
{
    if rows.len() == 0 {
        Seq::empty()
    } else {
        match iso_date_parse(rows.last().0@) {
            Some(d) => parsed_rows(rows.drop_last()).push((d, rows.last().1)),
            None => parsed_rows(rows.drop_last()),
        }
    }
}

/// Count recorded for a day: the last row for it wins; no row counts zero.
pub open spec fn day_count(p: Seq<(int, i64)>, d: int) -> int
    decreases p.len(),
{
    if p.len() == 0 {
        0
    } else if p.last().0 == d {
        p.last().1 as int
    } else {
        day_count(p.drop_last(), d)
    }
}

/// Sum of the counts of `w` consecutive days from `d`.
pub open spec fn window_sum(p: Seq<(int, i64)>, d: int, w: nat) -> int
    decreases w,
{
    if w == 0 {
        0
    } else {
        window_sum(p, d, (w - 1) as nat) + day_count(p, d + w - 1)
    }
}

/// A day number chrono can step to: within `i32` and the calendar.
pub open spec fn valid_day(d: int) -> bool {
    i32::MIN <= d <= i32::MAX && in_calendar(d)
}

/// Bucketing of a date range: one day per point up to 28 days, one week
/// per point up to 6 × 28 days, four weeks per point beyond.
/// Gives (step between points, days per point, number of points).
pub open spec fn graph_plan(range_days: int) -> (int, int, int) {
    if range_days <= 28 {
        (1, 1, if range_days < 0 { 0 } else { range_days })
    } else if range_days <= 6 * 28 {
        (7, 7, range_days / 7)
    } else {
        (28, 28, range_days / 28)
    }
}

/// Points stepping backwards from `end`, newest first; steps that leave the
/// calendar are skipped.
pub open spec fn raw_points(p: Seq<(int, i64)>, end: int, step: int, width: int, k: nat) -> Seq<(int, int)>
    decreases k,
{
    if k == 0 {
        Seq::empty()
    } else {
        let prev = raw_points(p, end, step, width, (k - 1) as nat);
        let d = end - step * (k - 1);
        if valid_day(d) {
            prev.push((d, window_sum(p, d, width as nat)))
        } else {
            prev
        }
    }
}

/// The chart's buckets, oldest first.
pub open spec fn graph_buckets_spec(rows: Seq<(String, i64)>, end: int, range_days: int) -> Seq<(int, int)> {
    let plan = graph_plan(range_days);
    raw_points(parsed_rows(rows), end, plan.0, plan.1, plan.2 as nat).reverse()
}

/// The bucket sums are computed in `i64` without overflow.
pub open spec fn graph_sums_fit(rows: Seq<(String, i64)>, end: int, range_days: int) -> bool {
    let plan = graph_plan(range_days);
    forall|k: int, j: int|
        0 <= k < plan.2 && 0 <= j <= plan.1 && valid_day(end - plan.0 * k) ==> i64::MIN <= #[trigger] window_sum(
            parsed_rows(rows),
            end - plan.0 * k,
            j as nat,
        ) <= i64::MAX
}

/// The step offsets stay within what `chrono::TimeDelta::days` accepts.
pub open spec fn graph_steps_fit(range_days: int) -> bool {
    range_days > 6 * 28 ==> 28 * (range_days / 28 - 1) <= 106751991167
}

pub open spec fn days_view(v: Seq<(i32, i64)>) -> Seq<(int, i64)> {
    v.map_values(|e: (i32, i64)| (e.0 as int, e.1))
}

/// The per-day rows whose day parses.
pub fn parse_day_rows(rows: &Vec<(String, i64)>) -> (r: Vec<(i32, i64)>)
    ensures
        days_view(r@) == parsed_rows(rows@),
        forall|i: int| 0 <= i < r@.len() ==> in_calendar((#[trigger] r@[i]).0 as int),
{
    let mut r: Vec<(i32, i64)> = Vec::new();
    for i in 0..rows.len()
        invariant
            days_view(r@) == parsed_rows(rows@.take(i as int)),
            forall|k: int| 0 <= k < r@.len() ==> in_calendar((#[trigger] r@[k]).0 as int),
    {
        let ghost before = r@;
        assert(rows@.take((i + 1) as int).drop_last() =~= rows@.take(i as int));
        match parse_iso_date(rows[i].0.as_str()) {
            Some(d) => {
                r.push((d, rows[i].1));
                assert(days_view(r@) =~= days_view(before).push((d as int, rows@[i as int].1)));
            },
            None => {},
        }
    }
    assert(rows@.take(rows@.len() as int) =~= rows@);
    r
}

fn day_count_exec(p: &Vec<(i32, i64)>, d: i64) -> (c: i64)
    ensures
        c as int == day_count(days_view(p@), d as int),
{
    let mut i: usize = p.len();
    assert(days_view(p@).take(p@.len() as int) =~= days_view(p@));
    while i > 0
        invariant
            i <= p@.len(),
            day_count(days_view(p@), d as int) == day_count(days_view(p@).take(i as int), d as int),
        decreases i,
    {
        let ghost t = days_view(p@).take(i as int);
        assert(t.drop_last() =~= days_view(p@).take(i - 1));
        if p[i - 1].0 as i64 == d {
            return p[i - 1].1;
        }
        i = i - 1;
    }
    assert(days_view(p@).take(0) =~= Seq::<(int, i64)>::empty());
    0
}

fn window_sum_exec(p: &Vec<(i32, i64)>, d: i64, w: i64) -> (s: i64)
    requires
        0 <= w <= 28,
        i32::MIN <= d <= i32::MAX,
        forall|j: int| 0 <= j <= w ==> i64::MIN <= #[trigger] window_sum(days_view(p@), d as int, j as nat) <= i64::MAX,
    ensures
        s as int == window_sum(days_view(p@), d as int, w as nat),
{
    let mut acc: i64 = 0;
    let mut j: i64 = 0;
    while j < w
        invariant
            0 <= j <= w <= 28,
            i32::MIN <= d <= i32::MAX,
            forall|k: int| 0 <= k <= w ==> i64::MIN <= #[trigger] window_sum(days_view(p@), d as int, k as nat) <= i64::MAX,
            acc as int == window_sum(days_view(p@), d as int, j as nat),
        decreases w - j,
    {
        let c = day_count_exec(p, d + j);
        assert(window_sum(days_view(p@), d as int, (j + 1) as nat) == acc + c);
        assert(i64::MIN <= window_sum(days_view(p@), d as int, (j + 1) as nat) <= i64::MAX);
        acc = acc + c;
        j = j + 1;
    }
    acc
}

pub open spec fn buckets_view(v: Seq<(i32, i64)>) -> Seq<(int, int)> {
    v.map_values(|e: (i32, i64)| (e.0 as int, e.1 as int))
}

proof fn lemma_raw_points_desc(p: Seq<(int, i64)>, end: int, step: int, width: int, k: nat)
    requires
        step > 0,
    ensures
        forall|a: int, b: int|
            0 <= a < b < raw_points(p, end, step, width, k).len() ==> (#[trigger] raw_points(p, end, step, width, k)[a]).0
                > (#[trigger] raw_points(p, end, step, width, k)[b]).0,
        forall|a: int|
            0 <= a < raw_points(p, end, step, width, k).len() ==> (#[trigger] raw_points(p, end, step, width, k)[a]).0
                > end - step * k,
    decreases k,
{
    if k > 0 {
        lemma_raw_points_desc(p, end, step, width, (k - 1) as nat);
        let prev = raw_points(p, end, step, width, (k - 1) as nat);
        assert forall|a: int| 0 <= a < prev.len() implies (#[trigger] prev[a]).0 > end - step * k by {
            assert(end - step * (k - 1) > end - step * k) by (nonlinear_arith)
                requires step > 0, k > 0;
        }
        assert(end - step * (k - 1) > end - step * k) by (nonlinear_arith)
            requires step > 0, k > 0;
    }
}

/// The chart's buckets as `(day, count)`, oldest first: per day up to 28
/// days, per week (summing the week from each point on) up to 168 days,
/// per four weeks beyond, stepping back from `end_day`.
pub fn graph_buckets(rows: &Vec<(String, i64)>, end_day: i32, range_days: i64) -> (r: Vec<(i32, i64)>)
    requires
        graph_steps_fit(range_days as int),
        graph_sums_fit(rows@, end_day as int, range_days as int),
    ensures
        buckets_view(r@) == graph_buckets_spec(rows@, end_day as int, range_days as int),
        forall|a: int, b: int| 0 <= a < b < r@.len() ==> (#[trigger] r@[a]).0 < (#[trigger] r@[b]).0,
{
    let p = parse_day_rows(rows);
    let ghost pv = parsed_rows(rows@);
    let (step, width, n): (i64, i64, i64) = if range_days <= 28 {
        (1, 1, if range_days < 0 { 0 } else { range_days })
    } else if range_days <= 6 * 28 {
        (7, 7, range_days / 7)
    } else {
        (28, 28, range_days / 28)
    };
    assert((step as int, width as int, n as int) == graph_plan(range_days as int));
    let mut out: Vec<(i32, i64)> = Vec::new();
    let mut k: i64 = 0;
    while k < n
        invariant
            0 <= k <= n,
            (step as int, width as int, n as int) == graph_plan(range_days as int),
            1 <= step <= 28,
            1 <= width <= 28,
            step == width,
            days_view(p@) == pv,
            pv == parsed_rows(rows@),
            graph_steps_fit(range_days as int),
            graph_sums_fit(rows@, end_day as int, range_days as int),
            buckets_view(out@) == raw_points(pv, end_day as int, step as int, width as int, k as nat),
        decreases n - k,
    {
        assert(step * k <= 106751991167 + 28) by (nonlinear_arith)
            requires
                (step == 1 && k < 28) || (step == 7 && k < 24) || (step == 28 && 28 * (n - 1) <= 106751991167 && k < n),
                0 <= k;
        let dd: i64 = end_day as i64 - step * k;
        if dd >= i32::MIN as i64 && dd <= i32::MAX as i64 && is_valid_day(dd as i32) {
            assert forall|j: int| 0 <= j <= width implies i64::MIN <= #[trigger] window_sum(pv, dd as int, j as nat)
                <= i64::MAX by {
                let kk = k as int;
                assert(0 <= kk < graph_plan(range_days as int).2);
                assert(dd as int == end_day as int - graph_plan(range_days as int).0 * kk);
                assert(i64::MIN <= window_sum(
                    parsed_rows(rows@),
                    end_day as int - graph_plan(range_days as int).0 * kk,
                    j as nat,
                ) <= i64::MAX);
            }
            let s = window_sum_exec(&p, dd, width);
            let ghost before = out@;
            out.push((dd as i32, s));
            assert(buckets_view(out@) =~= buckets_view(before).push((dd as int, s as int)));
        }
        k = k + 1;
    }
    let ghost raw = raw_points(pv, end_day as int, step as int, width as int, n as nat);
    proof {
        lemma_raw_points_desc(pv, end_day as int, step as int, width as int, n as nat);
    }
    let mut r: Vec<(i32, i64)> = Vec::new();
    let mut i: usize = out.len();
    while i > 0
        invariant
            i <= out@.len(),
            buckets_view(out@) == raw,
            buckets_view(r@) == raw.reverse().take((out@.len() - i) as int),
        decreases i,
    {
        let ghost r0 = r@;
        assert(buckets_view(out@)[i - 1] == raw[i - 1]);
        assert(raw.reverse()[out@.len() - i] == raw[i - 1]);
        r.push(out[i - 1]);
        i = i - 1;
        assert(buckets_view(r@) =~= buckets_view(r0).push(raw[i as int]));
        assert(raw.reverse().take((out@.len() - i) as int) =~= raw.reverse().take((out@.len() - i - 1) as int).push(
            raw[i as int],
        ));
        assert(buckets_view(r@) =~= raw.reverse().take((out@.len() - i) as int));
    }
    assert(raw.reverse().take(out@.len() as int) =~= raw.reverse());
    assert forall|a: int, b: int| 0 <= a < b < r@.len() implies (#[trigger] r@[a]).0 < (#[trigger] r@[b]).0 by {
        assert(buckets_view(r@)[a] == raw[raw.len() - 1 - a]);
        assert(buckets_view(r@)[b] == raw[raw.len() - 1 - b]);
    }
    r
}

/// The events chart: the buckets of `graph_buckets`, labelled `Mon D`.
pub fn graph_points(rows: &Vec<(String, i64)>, end_day: i32, range_days: i64) -> (r: Vec<GraphPoint>)
    requires
        graph_steps_fit(range_days as int),
        graph_sums_fit(rows@, end_day as int, range_days as int),
    ensures
        r@.len() == graph_buckets_spec(rows@, end_day as int, range_days as int).len(),
        forall|i: int|
            0 <= i < r@.len() ==> (#[trigger] r@[i]).label@ == month_day_text(
                graph_buckets_spec(rows@, end_day as int, range_days as int)[i].0,
            ) && r@[i].count as int == graph_buckets_spec(rows@, end_day as int, range_days as int)[i].1,
{
    let b = graph_buckets(rows, end_day, range_days);
    let ghost g = graph_buckets_spec(rows@, end_day as int, range_days as int);
    let mut r: Vec<GraphPoint> = Vec::new();
    for i in 0..b.len()
        invariant
            buckets_view(b@) == g,
            g == graph_buckets_spec(rows@, end_day as int, range_days as int),
            r@.len() == i,
            forall|k: int|
                0 <= k < i ==> (#[trigger] r@[k]).label@ == month_day_text(g[k].0) && r@[k].count as int == g[k].1,
    {
        assert(buckets_view(b@)[i as int] == (b@[i as int].0 as int, b@[i as int].1 as int));
        assert(g.len() == b@.len());
        proof {
            lemma_buckets_valid(rows@, end_day as int, range_days as int, i as int);
        }
        let label = month_day_label(b[i].0);
        r.push(GraphPoint { label, count: b[i].1 });
    }
    r
}

proof fn lemma_raw_points_valid(p: Seq<(int, i64)>, end: int, step: int, width: int, k: nat)
    ensures
        forall|a: int| 0 <= a < raw_points(p, end, step, width, k).len() ==> valid_day(
            (#[trigger] raw_points(p, end, step, width, k)[a]).0,
        ),
    decreases k,
{
    if k > 0 {
        lemma_raw_points_valid(p, end, step, width, (k - 1) as nat);
        let prev = raw_points(p, end, step, width, (k - 1) as nat);
        let d = end - step * (k - 1);
        let cur = raw_points(p, end, step, width, k);
        assert forall|a: int| 0 <= a < cur.len() implies valid_day((#[trigger] cur[a]).0) by {
            if valid_day(d) {
                assert(cur == prev.push((d, window_sum(p, d, width as nat))));
                if a < prev.len() {
                    assert(cur[a] == prev[a]);
                }
            } else {
                assert(cur == prev);
            }
        }
    }
}

proof fn lemma_buckets_valid(rows: Seq<(String, i64)>, end: int, range_days: int, i: int)
    requires
        0 <= i < graph_buckets_spec(rows, end, range_days).len(),
    ensures
        in_calendar(graph_buckets_spec(rows, end, range_days)[i].0),
{
    let plan = graph_plan(range_days);
    let raw = raw_points(parsed_rows(rows), end, plan.0, plan.1, plan.2 as nat);
    lemma_raw_points_valid(parsed_rows(rows), end, plan.0, plan.1, plan.2 as nat);
    assert(graph_buckets_spec(rows, end, range_days)[i] == raw[raw.len() - 1 - i]);
}

proof fn lemma_raw_points_sums(p: Seq<(int, i64)>, end: int, step: int, width: int, k: nat)
    ensures
        forall|a: int| 0 <= a < raw_points(p, end, step, width, k).len() ==> (#[trigger] raw_points(
            p,
            end,
            step,
            width,
            k,
        )[a]).1 == window_sum(p, raw_points(p, end, step, width, k)[a].0, width as nat),
    decreases k,
{
    if k > 0 {
        lemma_raw_points_sums(p, end, step, width, (k - 1) as nat);
        let prev = raw_points(p, end, step, width, (k - 1) as nat);
        let d = end - step * (k - 1);
        let cur = raw_points(p, end, step, width, k);
        assert forall|a: int| 0 <= a < cur.len() implies (#[trigger] cur[a]).1 == window_sum(
            p,
            cur[a].0,
            width as nat,
        ) by {
            if valid_day(d) {
                assert(cur == prev.push((d, window_sum(p, d, width as nat))));
                if a < prev.len() {
                    assert(cur[a] == prev[a]);
                }
            } else {
                assert(cur == prev);
            }
        }
    }
}

/// Every point of the events chart counts the events of whole days from its
/// own day on: one day per point up to 28 days, the seven days starting at
/// the point from 29 to 168 days (so no day of a week is lost), and the
/// 28 days starting at the point beyond.
pub proof fn lemma_chart_points_cover_their_days(rows: Seq<(String, i64)>, end: int, range_days: int)
    ensures
        forall|i: int| 0 <= i < graph_buckets_spec(rows, end, range_days).len() ==> {
            let pt = #[trigger] graph_buckets_spec(rows, end, range_days)[i];
            let days: nat = if range_days <= 28 { 1 } else if range_days <= 168 { 7 } else { 28 };
            pt.1 == window_sum(parsed_rows(rows), pt.0, days)
        },
{
    let plan = graph_plan(range_days);
    let raw = raw_points(parsed_rows(rows), end, plan.0, plan.1, plan.2 as nat);
    lemma_raw_points_sums(parsed_rows(rows), end, plan.0, plan.1, plan.2 as nat);
    assert forall|i: int| 0 <= i < graph_buckets_spec(rows, end, range_days).len() implies {
        let pt = #[trigger] graph_buckets_spec(rows, end, range_days)[i];
        let days: nat = if range_days <= 28 { 1 } else if range_days <= 168 { 7 } else { 28 };
        pt.1 == window_sum(parsed_rows(rows), pt.0, days)
    } by {
        assert(graph_buckets_spec(rows, end, range_days)[i] == raw[raw.len() - 1 - i]);
    }
}

proof fn lemma_raw_points_all_valid(p: Seq<(int, i64)>, end: int, step: int, width: int, k: nat)
    requires
        forall|j: int| 0 <= j < k ==> valid_day(#[trigger] (end - step * j)),
    ensures
        raw_points(p, end, step, width, k).len() == k,
        forall|a: int| 0 <= a < k ==> #[trigger] raw_points(p, end, step, width, k)[a] == (
            end - step * a,
            window_sum(p, end - step * a, width as nat),
        ),
    decreases k,
{
    if k > 0 {
        lemma_raw_points_all_valid(p, end, step, width, (k - 1) as nat);
        let d = end - step * (k - 1);
        assert(valid_day(end - step * (k - 1)));
        let prev = raw_points(p, end, step, width, (k - 1) as nat);
        let cur = raw_points(p, end, step, width, k);
        assert(cur == prev.push((d, window_sum(p, d, width as nat))));
        assert forall|a: int| 0 <= a < k implies #[trigger] cur[a] == (
            end - step * a,
            window_sum(p, end - step * a, width as nat),
        ) by {
            if a < k - 1 {
                assert(cur[a] == prev[a]);
            }
        }
    }
}

/// Where every day of the range is a calendar day, the chart tiles the
/// range back from `end` without gap or overlap: the last point is `end`,
/// each point lies one bucket width (1, 7 or 28 days, as the range is at
/// most 28 days, at most 168, or longer) after the one before, there are as
/// many points as whole buckets fit in the range, and each counts the days
/// of its own bucket.
pub proof fn lemma_chart_tiles_range(rows: Seq<(String, i64)>, end: int, range_days: int)
    requires
        range_days >= 0,
        forall|j: int| 0 <= j <= range_days ==> valid_day(#[trigger] (end - j)),
    ensures
        ({
            let g = graph_buckets_spec(rows, end, range_days);
            let days: int = if range_days <= 28 { 1 } else if range_days <= 168 { 7 } else { 28 };
            &&& g.len() == range_days / days
            &&& forall|i: int| 0 <= i < g.len() ==> #[trigger] g[i] == (
                end - days * (g.len() - 1 - i),
                window_sum(parsed_rows(rows), end - days * (g.len() - 1 - i), days as nat),
            )
        }),
{
    let plan = graph_plan(range_days);
    let days: int = if range_days <= 28 { 1 } else if range_days <= 168 { 7 } else { 28 };
    let k = plan.2;
    assert(plan.0 == days && plan.1 == days && k == range_days / days);
    assert forall|j: int| 0 <= j < k implies valid_day(#[trigger] (end - plan.0 * j)) by {
        assert(days * j <= days * k) by (nonlinear_arith)
            requires 0 <= j < k, days >= 1;
        assert(days * k <= range_days) by (nonlinear_arith)
            requires k == range_days / days, days >= 1, range_days >= 0;
        assert(0 <= days * j) by (nonlinear_arith)
            requires 0 <= j, days >= 1;
        assert(valid_day(end - days * j));
    }
    let p = parsed_rows(rows);
    lemma_raw_points_all_valid(p, end, plan.0, plan.1, k as nat);
    let raw = raw_points(p, end, plan.0, plan.1, k as nat);
    let g = graph_buckets_spec(rows, end, range_days);
    assert(g == raw.reverse());
    assert forall|i: int| 0 <= i < g.len() implies #[trigger] g[i] == (
        end - days * (g.len() - 1 - i),
        window_sum(p, end - days * (g.len() - 1 - i), days as nat),
    ) by {
        assert(g[i] == raw[raw.len() - 1 - i]);
    }
}

// ---------------------------------------------------------------------------
// Grouped counts
// ---------------------------------------------------------------------------

/// The `(label, count)` values of query rows.
pub open spec fn pairs(rows: Seq<(String, i64)>) -> Seq<(Seq<char>, i64)> {
    Seq::new(rows.len(), |i: int| (rows[i].0@, rows[i].1))
}

/// The count that rows give `name` once collected into a map: that of the
/// last row for it, or 0 when it has none.
pub open spec fn last_count(p: Seq<(Seq<char>, i64)>, name: Seq<char>) -> i64
    decreases p.len(),
{
    if p.len() == 0 {
        0
    } else if p.last().0 == name {
        p.last().1
    } else {
        last_count(p.drop_last(), name)
    }
}

/// Some row is for `name`.
pub open spec fn has_label(p: Seq<(Seq<char>, i64)>, name: Seq<char>) -> bool {
    exists|k: int| 0 <= k < p.len() && #[trigger] p[k].0 == name
}

/// The count the rows give `name` (see `last_count`).
pub fn lookup_count(rows: &Vec<(String, i64)>, name: &str) -> (c: i64)
    ensures
        c == last_count(pairs(rows@), name@),
{
    let ghost p = pairs(rows@);
    let mut i: usize = rows.len();
    assert(p.take(i as int) =~= p);
    while i > 0
        invariant
            i <= rows@.len(),
            p == pairs(rows@),
            last_count(p, name@) == last_count(p.take(i as int), name@),
        decreases i,
    {
        assert(p.take(i as int).drop_last() =~= p.take(i as int - 1));
        assert(p.take(i as int).last() == p[i as int - 1]);
        if str_is(rows[i - 1].0.as_str(), name) {
            return rows[i - 1].1;
        }
        i = i - 1;
    }
    0
}

/// `out` holds, once each, every label the rows have, with the count the
/// rows give it.
pub open spec fn tallies(out: Seq<LabelCount>, p: Seq<(Seq<char>, i64)>) -> bool {
    &&& forall|i: int, j: int| 0 <= i < j < out.len() ==> (#[trigger] out[i]).label@ != (#[trigger] out[j]).label@
    &&& forall|i: int| 0 <= i < out.len() ==> has_label(p, (#[trigger] out[i]).label@)
        && out[i].count == last_count(p, out[i].label@)
    &&& forall|k: int| 0 <= k < p.len() ==> exists|i: int| 0 <= i < out.len() && (#[trigger] out[i]).label@ == #[trigger] p[k].0
}

fn find_label(out: &Vec<LabelCount>, name: &str) -> (r: Option<usize>)
    ensures
        match r {
            Some(i) => i < out@.len() && out@[i as int].label@ == name@,
            None => forall|i: int| 0 <= i < out@.len() ==> (#[trigger] out@[i]).label@ != name@,
        },
{
    let mut i: usize = 0;
    while i < out.len()
        invariant
            i <= out@.len(),
            forall|j: int| 0 <= j < i ==> (#[trigger] out@[j]).label@ != name@,
        decreases out.len() - i,
    {
        if str_is(out[i].label.as_str(), name) {
            return Some(i);
        }
        i = i + 1;
    }
    None
}

/// The rows collected into a map, as a list: each label once, in the order
/// labels first occur, with the count of its last row.
pub fn tally(rows: &Vec<(String, i64)>) -> (out: Vec<LabelCount>)
    ensures
        tallies(out@, pairs(rows@)),
{
    let ghost p = pairs(rows@);
    let mut out: Vec<LabelCount> = Vec::new();
    for k in 0..rows.len()
        invariant
            p == pairs(rows@),
            tallies(out@, p.take(k as int)),
    {
        let ghost before = out@;
        let ghost q = p.take(k as int);
        let ghost q1 = p.take(k as int + 1);
        let ghost name = rows@[k as int].0@;
        let ghost n = rows@[k as int].1;
        assert(q1.drop_last() =~= q);
        assert(q1.last() == (name, n));
        assert(forall|m: Seq<char>| m != name ==> last_count(q1, m) == #[trigger] last_count(q, m));
        assert(last_count(q1, name) == n);
        assert(forall|j: int| 0 <= j < k ==> #[trigger] q1[j] == q[j]);
        assert(has_label(q1, name)) by {
            assert(q1[k as int].0 == name);
        }
        assert(forall|m: Seq<char>| #[trigger] has_label(q, m) ==> has_label(q1, m)) by {
            assert forall|m: Seq<char>| #[trigger] has_label(q, m) implies has_label(q1, m) by {
                let j = choose|j: int| 0 <= j < q.len() && #[trigger] q[j].0 == m;
                assert(q1[j].0 == m);
            }
        }
        match find_label(&out, rows[k].0.as_str()) {
            Some(i) => {
                let item = LabelCount { label: owned(rows[k].0.as_str()), count: rows[k].1 };
                out.set(i, item);
                assert(tallies(out@, q1)) by {
                    assert forall|j: int| 0 <= j < out@.len() implies (#[trigger] out@[j]).label@ == before[j].label@ by {}
                    assert forall|kk: int| 0 <= kk < q1.len() implies exists|ii: int| 0 <= ii < out@.len()
                        && (#[trigger] out@[ii]).label@ == #[trigger] q1[kk].0 by {
                        if kk < k {
                            let ii = choose|ii: int| 0 <= ii < before.len() && (#[trigger] before[ii]).label@ == q[kk].0;
                            assert(out@[ii].label@ == q1[kk].0);
                        } else {
                            assert(out@[i as int].label@ == q1[kk].0);
                        }
                    }
                }
            },
            None => {
                let item = LabelCount { label: owned(rows[k].0.as_str()), count: rows[k].1 };
                out.push(item);
                assert(tallies(out@, q1)) by {
                    assert forall|kk: int| 0 <= kk < q1.len() implies exists|ii: int| 0 <= ii < out@.len()
                        && (#[trigger] out@[ii]).label@ == #[trigger] q1[kk].0 by {
                        if kk < k {
                            let ii = choose|ii: int| 0 <= ii < before.len() && (#[trigger] before[ii]).label@ == q[kk].0;
                            assert(out@[ii] == before[ii]);
                        } else {
                            assert(out@[before.len() as int].label@ == q1[kk].0);
                        }
                    }
                    assert forall|i: int| 0 <= i < out@.len() implies has_label(q1, (#[trigger] out@[i]).label@)
                        && out@[i].count == last_count(q1, out@[i].label@) by {
                        if i < before.len() {
                            assert(out@[i] == before[i]);
                            assert(before[i].label@ != name);
                        }
                    }
                }
            },
        }
    }
    assert(p.take(rows@.len() as int) =~= p);
    out
}

/// Session starts of one country, by region.
pub struct CountryRegions {
    pub country: String,
    pub regions: Vec<LabelCount>,
}

/// The `(region, count)` rows of `country`, in order.
pub open spec fn rows_in(rows: Seq<(String, String, i64)>, country: Seq<char>) -> Seq<(Seq<char>, i64)>
    decreases rows.len(),
{
    if rows.len() == 0 {
        Seq::empty()
    } else {
        let rest = rows_in(rows.drop_last(), country);
        if rows.last().0@ == country {
            rest.push((rows.last().1@, rows.last().2))
        } else {
            rest
        }
    }
}

/// The countries of the rows.
pub open spec fn countries_of(rows: Seq<(String, String, i64)>) -> Set<Seq<char>> {
    Set::new(|c: Seq<char>| exists|k: int| 0 <= k < rows.len() && #[trigger] rows[k].0@ == c)
}

fn rows_of_country(rows: &Vec<(String, String, i64)>, country: &str) -> (r: Vec<(String, i64)>)
    ensures
        pairs(r@) == rows_in(rows@, country@),
{
    let mut r: Vec<(String, i64)> = Vec::new();
    assert(pairs(r@) =~= rows_in(rows@.take(0), country@));
    for k in 0..rows.len()
        invariant
            pairs(r@) == rows_in(rows@.take(k as int), country@),
    {
        assert(rows@.take(k as int + 1).drop_last() =~= rows@.take(k as int));
        if str_is(rows[k].0.as_str(), country) {
            let ghost before = r@;
            r.push((owned(rows[k].1.as_str()), rows[k].2));
            assert(pairs(r@) =~= pairs(before).push((rows@[k as int].1@, rows@[k as int].2)));
        }
    }
    assert(rows@.take(rows@.len() as int) =~= rows@);
    r
}

fn find_country(out: &Vec<CountryRegions>, c: &str) -> (r: bool)
    ensures
        r == exists|i: int| 0 <= i < out@.len() && (#[trigger] out@[i]).country@ == c@,
{
    let mut i: usize = 0;
    while i < out.len()
        invariant
            i <= out@.len(),
            forall|j: int| 0 <= j < i ==> (#[trigger] out@[j]).country@ != c@,
        decreases out.len() - i,
    {
        if str_is(out[i].country.as_str(), c) {
            return true;
        }
        i = i + 1;
    }
    false
}

/// The countries `out` lists.
pub open spec fn listed(out: Seq<CountryRegions>) -> Set<Seq<char>> {
    Set::new(|c: Seq<char>| exists|i: int| 0 <= i < out.len() && #[trigger] out[i].country@ == c)
}

/// Session starts by country and region: each country of the rows once, in
/// the order countries first occur, with its regions tallied as a map would
/// collect them (see `tally`).
pub fn group_regions(rows: &Vec<(String, String, i64)>) -> (out: Vec<CountryRegions>)
    ensures
        forall|i: int, j: int| 0 <= i < j < out@.len() ==> (#[trigger] out@[i]).country@ != (#[trigger] out@[j]).country@,
        listed(out@) == countries_of(rows@),
        forall|i: int| 0 <= i < out@.len() ==> tallies((#[trigger] out@[i]).regions@, rows_in(rows@, out@[i].country@)),
{
    let mut out: Vec<CountryRegions> = Vec::new();
    assert(listed(out@) =~= countries_of(rows@.take(0)));
    let mut k: usize = 0;
    while k < rows.len()
        invariant
            k <= rows@.len(),
            forall|i: int, j: int| 0 <= i < j < out@.len() ==> (#[trigger] out@[i]).country@ != (#[trigger] out@[j]).country@,
            listed(out@) == countries_of(rows@.take(k as int)),
            forall|i: int| 0 <= i < out@.len() ==> tallies((#[trigger] out@[i]).regions@, rows_in(rows@, out@[i].country@)),
        decreases rows.len() - k,
    {
        let ghost before = out@;
        let ghost c = rows@[k as int].0@;
        assert(countries_of(rows@.take(k as int + 1)) =~= countries_of(rows@.take(k as int)).insert(c)) by {
            assert forall|d: Seq<char>| #[trigger] countries_of(rows@.take(k as int + 1)).contains(d)
                implies countries_of(rows@.take(k as int)).insert(c).contains(d) by {
                let kk = choose|kk: int| 0 <= kk < k + 1 && #[trigger] rows@.take(k as int + 1)[kk].0@ == d;
                if kk < k {
                    assert(rows@.take(k as int)[kk].0@ == d);
                }
            }
            assert forall|d: Seq<char>| #[trigger] countries_of(rows@.take(k as int)).insert(c).contains(d)
                implies countries_of(rows@.take(k as int + 1)).contains(d) by {
                if d == c {
                    assert(rows@.take(k as int + 1)[k as int].0@ == d);
                } else {
                    let kk = choose|kk: int| 0 <= kk < k && #[trigger] rows@.take(k as int)[kk].0@ == d;
                    assert(rows@.take(k as int + 1)[kk].0@ == d);
                }
            }
        }
        if find_country(&out, rows[k].0.as_str()) {
            assert(listed(out@).contains(c));
            assert(listed(out@).insert(c) =~= listed(out@));
        } else {
            let mine = rows_of_country(rows, rows[k].0.as_str());
            let regions = tally(&mine);
            out.push(CountryRegions { country: owned(rows[k].0.as_str()), regions });
            assert forall|i: int| 0 <= i < out@.len() implies tallies((#[trigger] out@[i]).regions@, rows_in(rows@, out@[i].country@)) by {
                if i < before.len() {
                    assert(out@[i] == before[i]);
                }
            }
            assert(listed(out@) =~= listed(before).insert(c)) by {
                assert forall|d: Seq<char>| #[trigger] listed(out@).contains(d) implies listed(before).insert(c).contains(d) by {
                    let i = choose|i: int| 0 <= i < out@.len() && #[trigger] out@[i].country@ == d;
                    if i < before.len() {
                        assert(before[i].country@ == d);
                    }
                }
                assert forall|d: Seq<char>| #[trigger] listed(before).insert(c).contains(d) implies listed(out@).contains(d) by {
                    if d == c {
                        assert(out@[before.len() as int].country@ == d);
                    } else {
                        let i = choose|i: int| 0 <= i < before.len() && #[trigger] before[i].country@ == d;
                        assert(out@[i].country@ == d);
                    }
                }
            }
            assert forall|i: int, j: int| 0 <= i < j < out@.len() implies (#[trigger] out@[i]).country@ != (#[trigger] out@[j]).country@ by {
                if j == before.len() {
                    assert(out@[i] == before[i]);
                    assert(!listed(before).contains(c));
                    if before[i].country@ == c {
                        assert(listed(before).contains(c));
                    }
                } else {
                    assert(out@[i] == before[i] && out@[j] == before[j]);
                }
            }
        }
        k = k + 1;
    }
    assert(rows@.take(rows@.len() as int) =~= rows@);
    out
}

} // verus!

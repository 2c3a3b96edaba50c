//! Decisions of the property dashboard: who may see it, the period it
//! covers and the one it is compared with, the export format, and the
//! summaries the print template shows beside the chart.
use vstd::prelude::*;
use crate::dates::{in_calendar, is_valid_day, iso_date_string, iso_text};
use crate::queries::{GraphPoint, LabelCount};
use crate::text::{chars_of, owned, parse_i64, parse_int};

verus! {

/// Query parameters of the dashboard.
pub struct DashboardQuery {
    pub date_start: Option<String>,
    pub date_end: Option<String>,
    pub date_range: Option<String>,
    pub filter_url: Option<String>,
    pub report: Option<String>,
}

/// Milliseconds per day.
pub const DAY_MS: i64 = 86400000;

/// Look-back in days when none is given.
pub const DEFAULT_DATE_RANGE_DAYS: i64 = 28;

/// The period's bounds as given, or by default the day 28 days before
/// `today` and `today` itself, written `YYYY-MM-DD`.
pub fn period_dates(date_start: Option<&str>, date_end: Option<&str>, today: i32) -> (r: (String, String))
    requires
        today - 28 >= i32::MIN,
        in_calendar(today as int),
        in_calendar(today - 28),
    ensures
        r.0@ == match date_start {
            Some(s) => s@,
            None => iso_text(today - 28),
        },
        r.1@ == match date_end {
            Some(s) => s@,
            None => iso_text(today as int),
        },
{
    let start = match date_start {
        Some(s) => owned(s),
        None => iso_date_string(today - 28),
    };
    let end = match date_end {
        Some(s) => owned(s),
        None => iso_date_string(today),
    };
    (start, end)
}

/// `period_dates` where `today` and the day 28 days before it are calendar
/// days; `None` where they are not (no date can be written for them).
pub fn dashboard_period(date_start: Option<&str>, date_end: Option<&str>, today: i32) -> (r: Option<(String, String)>)
    ensures
        r is Some <==> (today - 28 >= i32::MIN && in_calendar(today as int) && in_calendar(today - 28)),
        r matches Some(p) ==> p.0@ == match date_start {
            Some(s) => s@,
            None => iso_text(today - 28),
        } && p.1@ == match date_end {
            Some(s) => s@,
            None => iso_text(today as int),
        },
{
    if today < i32::MIN + 28 {
        return None;
    }
    if is_valid_day(today) && is_valid_day(today - 28) {
        Some(period_dates(date_start, date_end, today))
    } else {
        None
    }
}

/// A private property is shown to the signed-in operator only; a public one
/// to anyone.
pub open spec fn may_view(is_public: bool, authed: bool) -> bool {
    is_public || authed
}

pub fn can_view(is_public: bool, authed: bool) -> (b: bool)
    ensures
        b == may_view(is_public, authed),
{
    is_public || authed
}

/// Who sees a dashboard: anyone sees a public property, the signed-in
/// operator sees every property, and only a private property asked for by a
/// visitor who is not signed in is refused.
pub proof fn lemma_view_access(is_public: bool, authed: bool)
    ensures
        may_view(true, authed),
        may_view(is_public, true),
        !may_view(false, false),
{
}

/// Rust's `/` on integers: the quotient rounded toward zero.
pub open spec fn trunc_div(a: int, b: int) -> int {
    if a >= 0 {
        a / b
    } else {
        -((-a) / b)
    }
}

/// Length in days of the viewed period: for `custom` (or no parameter) the
/// whole days between start and end, at least one; otherwise the parameter,
/// or 28 when it is not an integer.
pub open spec fn date_range_spec(param: Option<Seq<char>>, start_ms: int, end_ms: int) -> int {
    let span = trunc_div(end_ms - start_ms, DAY_MS as int);
    let custom = if span < 1 { 1 } else { span };
    match param {
        None => custom,
        Some(p) => if p == "custom"@ {
            custom
        } else {
            match parse_int(p) {
                Some(v) => v,
                None => DEFAULT_DATE_RANGE_DAYS as int,
            }
        },
    }
}

/// A custom period (or one given without a length) is never shorter than
/// one day, whatever its bounds.
pub proof fn lemma_custom_range_positive(param: Option<Seq<char>>, start_ms: int, end_ms: int)
    requires
        param is None || param == Some("custom"@),
    ensures
        date_range_spec(param, start_ms, end_ms) >= 1,
{
}

pub fn date_range_days(param: Option<&str>, start_ms: i64, end_ms: i64) -> (r: i64)
    requires
        i64::MIN <= end_ms - start_ms <= i64::MAX,
    ensures
        r as int == date_range_spec(
            match param {
                Some(p) => Some(p@),
                None => None,
            },
            start_ms as int,
            end_ms as int,
        ),
{
    let diff: i128 = end_ms as i128 - start_ms as i128;
    let span: i128 = if diff >= 0 {
        diff / 86400000
    } else {
        -((-diff) / 86400000)
    };
    let custom: i64 = if span < 1 {
        1
    } else {
        span as i64
    };
    match param {
        None => custom,
        Some(p) => {
            if crate::text::str_is(p, "custom") {
                custom
            } else {
                match parse_i64(chars_of(p).as_slice()) {
                    Some(v) => v,
                    None => DEFAULT_DATE_RANGE_DAYS,
                }
            }
        },
    }
}

/// The comparison period: the viewed one shifted back by its length in days.
pub fn previous_window(start_ms: i64, end_ms: i64, range_days: i64) -> (r: (i64, i64))
    requires
        i64::MIN <= range_days * DAY_MS <= i64::MAX,
        i64::MIN <= start_ms - range_days * DAY_MS <= i64::MAX,
        i64::MIN <= end_ms - range_days * DAY_MS <= i64::MAX,
    ensures
        r.0 == start_ms - range_days * DAY_MS,
        r.1 == end_ms - range_days * DAY_MS,
{
    let shift = range_days * DAY_MS;
    (start_ms - shift, end_ms - shift)
}

/// The URL filter: an empty parameter means no filter.
pub fn filter_param(filter_url: Option<&str>) -> (r: Option<&str>)
    ensures
        match filter_url {
            Some(u) => if u@.len() == 0 { r is None } else { r == Some(u) },
            None => r is None,
        },
{
    match filter_url {
        Some(u) => if u.is_empty() {
            None
        } else {
            Some(u)
        },
        None => None,
    }
}

/// How the dashboard answers.
#[derive(PartialEq, Eq, Structural)]
pub enum ReportFormat {
    /// The HTML dashboard.
    Page,
    /// A markdown report.
    Markdown,
    /// A PDF report.
    Pdf,
}

/// `?report=md` exports markdown, `?report=pdf` or an empty `?report=` a
/// PDF; any other value, or none, shows the page.
pub open spec fn report_format_spec(report: Option<Seq<char>>) -> ReportFormat {
    match report {
        None => ReportFormat::Page,
        Some(f) => if f.len() == 0 || f == "pdf"@ {
            ReportFormat::Pdf
        } else if f == "md"@ {
            ReportFormat::Markdown
        } else {
            ReportFormat::Page
        },
    }
}

pub fn report_format(report: Option<&str>) -> (r: ReportFormat)
    ensures
        r == report_format_spec(
            match report {
                Some(f) => Some(f@),
                None => None,
            },
        ),
{
    match report {
        None => ReportFormat::Page,
        Some(f) => {
            if f.is_empty() || crate::text::str_is(f, "pdf") {
                ReportFormat::Pdf
            } else if crate::text::str_is(f, "md") {
                ReportFormat::Markdown
            } else {
                ReportFormat::Page
            }
        },
    }
}

// ---------------------------------------------------------------------------
// Chart summaries
// ---------------------------------------------------------------------------

/// `i` is the last point with the largest count (what `max_by_key` picks).
pub open spec fn is_last_peak(s: Seq<GraphPoint>, i: int) -> bool {
    &&& 0 <= i < s.len()
    &&& forall|j: int| 0 <= j < s.len() ==> (#[trigger] s[j]).count <= s[i].count
    &&& forall|j: int| i < j < s.len() ==> (#[trigger] s[j]).count < s[i].count
}

/// First label, last label, and the count and label of the peak of the chart.
pub struct ChartSummary {
    pub label_start: String,
    pub label_end: String,
    pub peak_count: i64,
    pub peak_label: String,
}

pub fn chart_summary(points: &Vec<GraphPoint>) -> (r: ChartSummary)
    ensures
        points@.len() == 0 ==> r.label_start@ == Seq::<char>::empty() && r.label_end@ == Seq::<char>::empty()
            && r.peak_count == 0 && r.peak_label@ == Seq::<char>::empty(),
        points@.len() > 0 ==> r.label_start@ == points@[0].label@ && r.label_end@ == points@.last().label@
            && exists|i: int| is_last_peak(points@, i) && r.peak_count == points@[i].count && r.peak_label@
                == points@[i].label@,
{
    let n = points.len();
    if n == 0 {
        let e = owned("");
        proof {
            reveal_strlit("");
        }
        return ChartSummary { label_start: e.clone(), label_end: e.clone(), peak_count: 0, peak_label: e };
    }
    let mut best: usize = 0;
    let mut i: usize = 1;
    while i < n
        invariant
            n == points@.len(),
            1 <= i <= n,
            best < i,
            forall|j: int| 0 <= j < i ==> (#[trigger] points@[j]).count <= points@[best as int].count,
            forall|j: int| best < j < i ==> (#[trigger] points@[j]).count < points@[best as int].count,
        decreases n - i,
    {
        if points[i].count >= points[best].count {
            best = i;
        }
        i = i + 1;
    }
    assert(is_last_peak(points@, best as int));
    ChartSummary {
        label_start: points[0].label.clone(),
        label_end: points[n - 1].label.clone(),
        peak_count: points[best].count,
        peak_label: points[best].label.clone(),
    }
}

/// Sum of the first `k` counts.
pub open spec fn sum_counts(s: Seq<LabelCount>, k: int) -> int
    decreases k,
{
    if k <= 0 {
        0
    } else {
        sum_counts(s, k - 1) + s[k - 1].count
    }
}

/// Denominator of a breakdown's shares: the sum of its counts, at least 1.
pub fn breakdown_total(items: &Vec<LabelCount>) -> (t: i64)
    requires
        forall|k: int| 0 <= k <= items@.len() ==> i64::MIN <= #[trigger] sum_counts(items@, k) <= i64::MAX,
    ensures
        t as int == if sum_counts(items@, items@.len() as int) < 1 {
            1
        } else {
            sum_counts(items@, items@.len() as int)
        },
{
    let mut acc: i64 = 0;
    for i in 0..items.len()
        invariant
            forall|k: int| 0 <= k <= items@.len() ==> i64::MIN <= #[trigger] sum_counts(items@, k) <= i64::MAX,
            acc as int == sum_counts(items@, i as int),
    {
        assert(sum_counts(items@, (i + 1) as int) == acc + items@[i as int].count);
        assert(i64::MIN <= sum_counts(items@, (i + 1) as int) <= i64::MAX);
        acc = acc + items[i].count;
    }
    if acc < 1 {
        1
    } else {
        acc
    }
}

// ---------------------------------------------------------------------------
// Top countries
// ---------------------------------------------------------------------------

pub open spec fn lc_view(s: Seq<LabelCount>) -> Seq<(Seq<char>, i64)> {
    s.map_values(|x: LabelCount| (x.label@, x.count))
}

pub open spec fn non_increasing(s: Seq<(Seq<char>, i64)>) -> bool {
    forall|a: int, b: int| 0 <= a < b < s.len() ==> (#[trigger] s[a]).1 >= (#[trigger] s[b]).1
}

/// `s` is `input` sorted by count, most first, keeping the input order among
/// equal counts (a stable sort); `idx[k]` is where `s[k]` stood in `input`.
pub open spec fn stable_desc(s: Seq<(Seq<char>, i64)>, input: Seq<(Seq<char>, i64)>, idx: Seq<int>) -> bool {
    &&& s.len() == input.len()
    &&& idx.len() == s.len()
    &&& forall|k: int| 0 <= k < s.len() ==> 0 <= #[trigger] idx[k] < input.len() && s[k] == input[idx[k]]
    &&& forall|k: int, l: int| 0 <= k < l < s.len() ==> #[trigger] idx[k] != #[trigger] idx[l]
    &&& non_increasing(s)
    &&& forall|k: int, l: int| 0 <= k < l < s.len() && (#[trigger] s[k]).1 == (#[trigger] s[l]).1 ==> idx[k] < idx[l]
}

/// The ten countries with the most session starts, most first: the list
/// sorted by count, descending and stably (equal counts keep their order),
/// and cut to ten.
pub fn top_countries(items: Vec<LabelCount>) -> (r: Vec<LabelCount>)
    requires
        forall|i: int| 0 <= i < items@.len() ==> (#[trigger] items@[i]).count > i64::MIN,
    ensures
        r@.len() == if items@.len() < 10 { items@.len() } else { 10 },
        non_increasing(lc_view(r@)),
        exists|sorted: Seq<(Seq<char>, i64)>, idx: Seq<int>|
            sorted.to_multiset() == lc_view(items@).to_multiset() && #[trigger] stable_desc(
                sorted,
                lc_view(items@),
                idx,
            ) && lc_view(r@) == sorted.take(r@.len() as int),
{
    let ghost input = lc_view(items@);
    let mut res: Vec<LabelCount> = Vec::new();
    let mut rest = items;
    let ghost mut idx: Seq<int> = Seq::empty();
    // Move the items out in order, inserting each after every item whose
    // count is at least its own (a stable insertion sort, descending).
    let n = rest.len();
    assert(rest@ =~= items@.subrange(0, n as int));
    proof {
        assert(lc_view(res@) =~= Seq::<(Seq<char>, i64)>::empty());
        assert(input.take(0) =~= Seq::<(Seq<char>, i64)>::empty());
    }
    let mut i: usize = 0;
    while i < n
        invariant
            n == items@.len(),
            i <= n,
            input == lc_view(items@),
            rest@ == items@.subrange(i as int, n as int),
            non_increasing(lc_view(res@)),
            lc_view(res@).to_multiset() == input.take(i as int).to_multiset(),
            res@.len() == i,
            idx.len() == i,
            forall|k: int| 0 <= k < i ==> 0 <= #[trigger] idx[k] < i && lc_view(res@)[k] == input[idx[k]],
            forall|k: int, l: int| 0 <= k < l < i ==> #[trigger] idx[k] != #[trigger] idx[l],
            forall|k: int, l: int|
                0 <= k < l < i && (#[trigger] lc_view(res@)[k]).1 == (#[trigger] lc_view(res@)[l]).1 ==> idx[k]
                    < idx[l],
        decreases n - i,
    {
        let x = rest.remove(0);
        assert(x == items@[i as int]);
        let mut j: usize = 0;
        while j < res.len() && res[j].count >= x.count
            invariant
                j <= res@.len(),
                forall|k: int| 0 <= k < j ==> (#[trigger] res@[k]).count >= x.count,
            decreases res@.len() - j,
        {
            j = j + 1;
        }
        let ghost before = res@;
        let ghost v = lc_view(before);
        let ghost old_idx = idx;
        let ghost xv = (x.label@, x.count);
        res.insert(j, x);
        proof {
            idx = old_idx.insert(j as int, i as int);
            assert(lc_view(res@) =~= v.insert(j as int, xv));
            assert(input.take((i + 1) as int) =~= input.take(i as int).push(xv));
            vstd::seq_lib::to_multiset_insert(v, j as int, xv);
            vstd::seq_lib::to_multiset_build(input.take(i as int), xv);
            let w = lc_view(res@);
            assert forall|k: int| j < k < w.len() implies (#[trigger] w[k]).1 < xv.1 by {
                assert(w[k] == v[k - 1]);
                assert(v[j as int].1 < xv.1);
                if k - 1 > j {
                    assert(v[j as int].1 >= v[k - 1].1);
                }
            }
            assert forall|a: int, b: int| 0 <= a < b < w.len() implies (#[trigger] w[a]).1 >= (#[trigger] w[b]).1 by {
                if b < j {
                    assert(w[a] == v[a] && w[b] == v[b]);
                } else if b == j {
                    assert(w[a] == v[a]);
                } else if a == j {
                } else if a < j {
                    assert(w[a] == v[a] && w[b] == v[b - 1]);
                } else {
                    assert(w[a] == v[a - 1] && w[b] == v[b - 1]);
                }
            }
            assert forall|k: int| 0 <= k < i + 1 implies 0 <= #[trigger] idx[k] < i + 1 && w[k] == input[idx[k]] by {
                if k < j {
                    assert(idx[k] == old_idx[k] && w[k] == v[k]);
                } else if k > j {
                    assert(idx[k] == old_idx[k - 1] && w[k] == v[k - 1]);
                }
            }
            assert forall|k: int, l: int| 0 <= k < l < i + 1 implies #[trigger] idx[k] != #[trigger] idx[l] by {
                if k < j && l < j {
                    assert(idx[k] == old_idx[k] && idx[l] == old_idx[l]);
                } else if k < j && l == j {
                    assert(idx[k] == old_idx[k]);
                } else if k < j {
                    assert(idx[k] == old_idx[k] && idx[l] == old_idx[l - 1]);
                } else if k == j {
                    assert(idx[l] == old_idx[l - 1]);
                } else {
                    assert(idx[k] == old_idx[k - 1] && idx[l] == old_idx[l - 1]);
                }
            }
            assert forall|k: int, l: int|
                0 <= k < l < i + 1 && (#[trigger] w[k]).1 == (#[trigger] w[l]).1 implies idx[k] < idx[l] by {
                if k < j && l < j {
                    assert(idx[k] == old_idx[k] && idx[l] == old_idx[l]);
                    assert(w[k] == v[k] && w[l] == v[l]);
                } else if k < j && l == j {
                    assert(idx[k] == old_idx[k]);
                } else if k < j {
                    assert(idx[k] == old_idx[k] && idx[l] == old_idx[l - 1]);
                    assert(w[k] == v[k] && w[l] == v[l - 1]);
                } else if k == j {
                } else {
                    assert(idx[k] == old_idx[k - 1] && idx[l] == old_idx[l - 1]);
                    assert(w[k] == v[k - 1] && w[l] == v[l - 1]);
                }
            }
        }
        i = i + 1;
        assert(rest@ =~= items@.subrange(i as int, n as int));
    }
    assert(input.take(n as int) =~= input);
    let ghost sorted = lc_view(res@);
    assert(stable_desc(sorted, input, idx));
    res.truncate(10);
    proof {
        if n >= 10 {
            assert(lc_view(res@) =~= sorted.take(10));
        } else {
            assert(lc_view(res@) =~= sorted.take(n as int));
        }
    }
    res
}

} // verus!

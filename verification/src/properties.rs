//! The properties page: the search box, creating a property, and the list of
//! properties with their event counts and the totals over all of them.
use vstd::prelude::*;
use crate::text::{append, chars_of, string_of, trim, trimmed};

verus! {

/// Query string of the properties page: an optional name search.
pub struct PropertiesQuery {
    pub q: Option<String>,
}

/// Form that creates a property.
pub struct PropertyCreateForm {
    pub name: String,
}

/// Milliseconds in a week: a property with an event this recent is active.
pub const ACTIVE_WINDOW_MS: i64 = 604800000;

/// The search the page runs: the `q` parameter trimmed of whitespace, or
/// nothing when it is absent.
pub fn search_term(q: Option<&str>) -> (r: String)
    ensures
        r@ == match q {
            Some(s) => trimmed(s@),
            None => Seq::<char>::empty(),
        },
{
    match q {
        Some(s) => {
            let c = chars_of(s);
            let t = trim(c.as_slice());
            string_of(t.as_slice())
        },
        None => {
            let v: Vec<char> = Vec::new();
            string_of(v.as_slice())
        },
    }
}

/// The `LIKE` pattern that finds names containing `search`.
pub fn like_pattern(search: &str) -> (r: String)
    ensures
        r@ == seq!['%'] + search@ + seq!['%'],
{
    let mut b: Vec<char> = Vec::new();
    b.push('%');
    append(&mut b, search);
    b.push('%');
    assert(b@ =~= seq!['%'] + search@ + seq!['%']);
    string_of(b.as_slice())
}

/// The name a new property gets: the submitted name trimmed of whitespace.
/// A name that is blank creates nothing.
pub fn property_name(form: &PropertyCreateForm) -> (r: Option<String>)
    ensures
        trimmed(form.name@).len() == 0 ==> r is None,
        trimmed(form.name@).len() > 0 ==> (r matches Some(n) && n@ == trimmed(form.name@)),
{
    let c = chars_of(form.name.as_str());
    let t = trim(c.as_slice());
    if t.len() == 0 {
        None
    } else {
        Some(string_of(t.as_slice()))
    }
}

/// The earliest event time that still makes a property active at `now_ms`.
pub fn active_cutoff(now_ms: i64) -> (r: i64)
    requires
        now_ms >= i64::MIN + ACTIVE_WINDOW_MS,
    ensures
        r == now_ms - ACTIVE_WINDOW_MS,
{
    now_ms - ACTIVE_WINDOW_MS
}

/// Event counts of one property: all its events, its page views, its session
/// starts, and its events since the active cutoff.
pub struct PropertyCounts {
    pub total: i64,
    pub page_views: i64,
    pub session_starts: i64,
    pub recent: i64,
}

impl PropertyCounts {
    /// Active: some event since the cutoff.
    pub fn is_active(&self) -> (b: bool)
        ensures
            b == (self.recent > 0),
    {
        self.recent > 0
    }
}

/// The totals shown above the list.
pub struct ListTotals {
    pub properties: usize,
    pub events: i64,
    pub page_views: i64,
    pub sessions: i64,
}

/// Sum of the event counts of the first `k` properties.
pub open spec fn sum_events(s: Seq<PropertyCounts>, k: int) -> int
    decreases k,
{
    if k <= 0 { 0 } else { sum_events(s, k - 1) + s[k - 1].total }
}

/// Sum of the page-view counts of the first `k` properties.
pub open spec fn sum_page_views(s: Seq<PropertyCounts>, k: int) -> int
    decreases k,
{
    if k <= 0 { 0 } else { sum_page_views(s, k - 1) + s[k - 1].page_views }
}

/// Sum of the session-start counts of the first `k` properties.
pub open spec fn sum_sessions(s: Seq<PropertyCounts>, k: int) -> int
    decreases k,
{
    if k <= 0 { 0 } else { sum_sessions(s, k - 1) + s[k - 1].session_starts }
}

/// Every partial sum of the list's counts fits in an `i64` (the running
/// totals never overflow).
pub open spec fn totals_fit(s: Seq<PropertyCounts>) -> bool {
    forall|k: int| 0 <= k <= s.len() ==> i64::MIN <= #[trigger] sum_events(s, k) <= i64::MAX
        && i64::MIN <= sum_page_views(s, k) <= i64::MAX
        && i64::MIN <= sum_sessions(s, k) <= i64::MAX
}

/// The number of properties and the sums of their counts.
pub fn list_totals(counts: &Vec<PropertyCounts>) -> (t: ListTotals)
    requires
        totals_fit(counts@),
    ensures
        t.properties == counts@.len(),
        t.events == sum_events(counts@, counts@.len() as int),
        t.page_views == sum_page_views(counts@, counts@.len() as int),
        t.sessions == sum_sessions(counts@, counts@.len() as int),
{
    let mut events: i64 = 0;
    let mut page_views: i64 = 0;
    let mut sessions: i64 = 0;
    for i in 0..counts.len()
        invariant
            totals_fit(counts@),
            events == sum_events(counts@, i as int),
            page_views == sum_page_views(counts@, i as int),
            sessions == sum_sessions(counts@, i as int),
    {
        assert(i64::MIN <= sum_events(counts@, i as int + 1) <= i64::MAX);
        events = events + counts[i].total;
        page_views = page_views + counts[i].page_views;
        sessions = sessions + counts[i].session_starts;
    }
    ListTotals { properties: counts.len(), events, page_views, sessions }
}

} // verus!

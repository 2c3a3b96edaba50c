//! Fake traffic for trying the dashboard out: weighted choices among
//! candidate values, and the events of one made-up visit. The random draws
//! themselves come from the caller.
use vstd::prelude::*;

verus! {

/// Sum of the first `k` weights.
pub open spec fn weight_sum(w: Seq<u32>, k: int) -> int
    decreases k,
{
    if k <= 0 { 0 } else { weight_sum(w, k - 1) + w[k - 1] }
}

proof fn lemma_weight_sum_monotone(w: Seq<u32>, a: int, b: int)
    requires
        0 <= a <= b <= w.len(),
    ensures
        weight_sum(w, a) <= weight_sum(w, b),
    decreases b - a,
{
    if a < b {
        lemma_weight_sum_monotone(w, a, b - 1);
    }
}

/// The total of the weights, which a draw must stay below.
pub fn total_weight(weights: &[u32]) -> (t: u32)
    requires
        weight_sum(weights@, weights@.len() as int) <= u32::MAX,
    ensures
        t == weight_sum(weights@, weights@.len() as int),
{
    let mut t: u32 = 0;
    for i in 0..weights.len()
        invariant
            weight_sum(weights@, weights@.len() as int) <= u32::MAX,
            t == weight_sum(weights@, i as int),
    {
        proof {
            lemma_weight_sum_monotone(weights@, i as int + 1, weights@.len() as int);
        }
        t = t + weights[i];
    }
    t
}

/// The choice a draw below the total makes: the item whose share of the
/// running total holds the draw, so each item is chosen by as many draws as
/// its weight.
pub fn weighted_index(weights: &[u32], pick: u32) -> (i: usize)
    requires
        pick < weight_sum(weights@, weights@.len() as int),
    ensures
        i < weights@.len(),
        weight_sum(weights@, i as int) <= pick < weight_sum(weights@, i as int + 1),
{
    let mut rest: u32 = pick;
    let mut i: usize = 0;
    while i < weights.len()
        invariant
            i <= weights@.len(),
            pick < weight_sum(weights@, weights@.len() as int),
            rest == pick - weight_sum(weights@, i as int),
            weight_sum(weights@, i as int) <= pick,
        decreases weights.len() - i,
    {
        if rest < weights[i] {
            return i;
        }
        rest = rest - weights[i];
        i = i + 1;
    }
    i
}

/// What happened in a made-up visit.
pub enum SeedKind {
    SessionStart,
    PageView,
    Click,
    PageLeave,
}

/// The draws for one page of a visit: which page, how long the visitor stayed
/// (milliseconds), when they clicked if they did, and the pause before the
/// next page.
pub struct PageDraw {
    pub page: usize,
    pub time_on_page: i64,
    pub click_offset: Option<i64>,
    pub gap: i64,
}

/// One event of a made-up visit: its kind and time, the page it is on,
/// whether it carries the visit's referrer and its UTM tags, and, for a page
/// leave, the time spent on the page.
pub struct SeedEvent {
    pub kind: SeedKind,
    pub at: i64,
    pub page: usize,
    pub with_referrer: bool,
    pub with_utm: bool,
    pub time_on_page: Option<i64>,
}

/// When page `i` of the visit is viewed.
pub open spec fn page_start(p: Seq<PageDraw>, start: int, i: int) -> int
    decreases i,
{
    if i <= 0 { start } else { page_start(p, start, i - 1) + p[i - 1].time_on_page + p[i - 1].gap }
}

/// The events of page `i` seen at `t`: the view (with the referrer on the
/// first page, and the UTM tags), the click if there was one, the leave.
pub open spec fn page_events(d: PageDraw, t: int, first: bool) -> Seq<SeedEvent> {
    let view = SeedEvent { kind: SeedKind::PageView, at: t as i64, page: d.page, with_referrer: first,
        with_utm: true, time_on_page: None };
    let leave = SeedEvent { kind: SeedKind::PageLeave, at: (t + d.time_on_page) as i64, page: d.page,
        with_referrer: false, with_utm: false, time_on_page: Some(d.time_on_page) };
    match d.click_offset {
        Some(o) => seq![view, SeedEvent { kind: SeedKind::Click, at: (t + o) as i64, page: d.page,
            with_referrer: false, with_utm: false, time_on_page: None }, leave],
        None => seq![view, leave],
    }
}

/// The session start on the first page, then the events of the first `k` pages.
pub open spec fn visit_events(p: Seq<PageDraw>, start: int, k: int) -> Seq<SeedEvent>
    decreases k,
{
    if k <= 0 {
        seq![SeedEvent { kind: SeedKind::SessionStart, at: start as i64, page: p[0].page, with_referrer: true,
            with_utm: true, time_on_page: None }]
    } else {
        visit_events(p, start, k - 1) + page_events(p[k - 1], page_start(p, start, k - 1), k - 1 == 0)
    }
}

/// Every time the visit reaches fits in an `i64`.
pub open spec fn visit_fits(p: Seq<PageDraw>, start: int) -> bool {
    forall|i: int| 0 <= i < p.len() ==> {
        let t = #[trigger] page_start(p, start, i);
        &&& i64::MIN <= t + p[i].time_on_page <= i64::MAX
        &&& i64::MIN <= t + p[i].time_on_page + p[i].gap <= i64::MAX
        &&& (p[i].click_offset matches Some(o) ==> i64::MIN <= t + o <= i64::MAX)
    }
}

/// The events of a visit that starts at `start` and goes through `pages`.
pub fn visit(pages: &Vec<PageDraw>, start: i64) -> (r: Vec<SeedEvent>)
    requires
        pages@.len() >= 1,
        visit_fits(pages@, start as int),
    ensures
        r@ == visit_events(pages@, start as int, pages@.len() as int),
{
    let mut r: Vec<SeedEvent> = Vec::new();
    r.push(SeedEvent { kind: SeedKind::SessionStart, at: start, page: pages[0].page, with_referrer: true,
        with_utm: true, time_on_page: None });
    assert(r@ =~= visit_events(pages@, start as int, 0));
    let mut t: i64 = start;
    for i in 0..pages.len()
        invariant
            pages@.len() >= 1,
            visit_fits(pages@, start as int),
            t == page_start(pages@, start as int, i as int),
            r@ == visit_events(pages@, start as int, i as int),
    {
        let d = &pages[i];
        let ghost before = r@;
        assert(i64::MIN <= t + d.time_on_page <= i64::MAX);
        r.push(SeedEvent { kind: SeedKind::PageView, at: t, page: d.page, with_referrer: i == 0, with_utm: true,
            time_on_page: None });
        match d.click_offset {
            Some(o) => {
                r.push(SeedEvent { kind: SeedKind::Click, at: t + o, page: d.page, with_referrer: false,
                    with_utm: false, time_on_page: None });
            },
            None => {},
        }
        r.push(SeedEvent { kind: SeedKind::PageLeave, at: t + d.time_on_page, page: d.page,
            with_referrer: false, with_utm: false, time_on_page: Some(d.time_on_page) });
        assert(r@ =~= before + page_events(pages@[i as int], t as int, i == 0));
        t = t + d.time_on_page + d.gap;
    }
    r
}

} // verus!

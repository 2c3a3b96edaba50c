//! The numbers behind the dashboard's event cards: the built-in count cards,
//! which custom events get a card, and the counts each custom card shows for
//! the current and the previous period.
use vstd::prelude::*;
use crate::models::CustomCard;
use crate::queries::{last_count, lookup_count, pairs, CustomEventDescriptor, EventCounts};
use crate::text::{owned, str_is};

verus! {

// ---------------------------------------------------------------------------
// Built-in count cards
// ---------------------------------------------------------------------------

/// A card that shows a count for the selected period beside the count for the
/// period before it (from which the card's percent change is worked out).
pub struct CountCard {
    pub name: String,
    pub value: i64,
    pub previous: i64,
    pub help_text: String,
}

/// The five count cards, in the order the dashboard shows them: session
/// starts, page views, clicks, scrolls, all events.
pub fn count_cards(cur: &EventCounts, prev: &EventCounts) -> (r: Vec<CountCard>)
    ensures
        r@.len() == 5,
        r@[0].name@ == "Total session starts"@,
        r@[0].value == cur.session_start,
        r@[0].previous == prev.session_start,
        r@[0].help_text@ == "Unique users visiting your site for your selected date range."@,
        r@[1].name@ == "Total page views"@,
        r@[1].value == cur.page_view,
        r@[1].previous == prev.page_view,
        r@[1].help_text@ == "Total pages viewed for your selected date range."@,
        r@[2].name@ == "Total clicks"@,
        r@[2].value == cur.click,
        r@[2].previous == prev.click,
        r@[2].help_text@ == "Total clicks users made on all your pages for your selected date range."@,
        r@[3].name@ == "Total scrolls"@,
        r@[3].value == cur.scroll,
        r@[3].previous == prev.scroll,
        r@[3].help_text@ == "Total scrolls users made on all your pages for your selected date range."@,
        r@[4].name@ == "Total events"@,
        r@[4].value == cur.total,
        r@[4].previous == prev.total,
        r@[4].help_text@ == "All events for your selected date range, including custom events."@,
{
    let mut r: Vec<CountCard> = Vec::new();
    r.push(CountCard {
        name: owned("Total session starts"),
        value: cur.session_start,
        previous: prev.session_start,
        help_text: owned("Unique users visiting your site for your selected date range."),
    });
    r.push(CountCard {
        name: owned("Total page views"),
        value: cur.page_view,
        previous: prev.page_view,
        help_text: owned("Total pages viewed for your selected date range."),
    });
    r.push(CountCard {
        name: owned("Total clicks"),
        value: cur.click,
        previous: prev.click,
        help_text: owned("Total clicks users made on all your pages for your selected date range."),
    });
    r.push(CountCard {
        name: owned("Total scrolls"),
        value: cur.scroll,
        previous: prev.scroll,
        help_text: owned("Total scrolls users made on all your pages for your selected date range."),
    });
    r.push(CountCard {
        name: owned("Total events"),
        value: cur.total,
        previous: prev.total,
        help_text: owned("All events for your selected date range, including custom events."),
    });
    r
}

// ---------------------------------------------------------------------------
// Custom event cards
// ---------------------------------------------------------------------------

/// The events among the first `k` cards whose card is switched on.
pub open spec fn active_upto(cards: Seq<CustomCard>, k: int) -> Set<Seq<char>> {
    Set::new(|e: Seq<char>| exists|i: int| 0 <= i < k && #[trigger] cards[i].value && cards[i].event@ == e)
}

/// The events whose card is switched on.
pub open spec fn active_events(cards: Seq<CustomCard>) -> Set<Seq<char>> {
    active_upto(cards, cards.len() as int)
}

/// The texts of a vector of strings.
pub open spec fn texts(v: Seq<String>) -> Seq<Seq<char>> {
    Seq::new(v.len(), |i: int| v[i]@)
}

/// Whether some string of `v` reads `s`.
pub fn contains_text(v: &Vec<String>, s: &str) -> (b: bool)
    ensures
        b == texts(v@).contains(s@),
{
    let mut i: usize = 0;
    while i < v.len()
        invariant
            i <= v@.len(),
            forall|j: int| 0 <= j < i ==> v@[j]@ != s@,
        decreases v.len() - i,
    {
        if str_is(v[i].as_str(), s) {
            assert(texts(v@)[i as int] == s@);
            return true;
        }
        i = i + 1;
    }
    assert(!texts(v@).contains(s@)) by {
        if texts(v@).contains(s@) {
            let j = choose|j: int| 0 <= j < texts(v@).len() && texts(v@)[j] == s@;
            assert(v@[j]@ == s@);
        }
    }
    false
}

/// The events whose card is on, each once, in the order their first switched-on
/// card comes.
pub fn active_custom_events(cards: &Vec<CustomCard>) -> (r: Vec<String>)
    ensures
        texts(r@).to_set() == active_events(cards@),
        texts(r@).no_duplicates(),
{
    let mut r: Vec<String> = Vec::new();
    assert(texts(r@).to_set() =~= active_upto(cards@, 0));
    for k in 0..cards.len()
        invariant
            texts(r@).to_set() == active_upto(cards@, k as int),
            texts(r@).no_duplicates(),
    {
        let ghost before = texts(r@);
        if cards[k].value && !contains_text(&r, cards[k].event.as_str()) {
            let e = owned(cards[k].event.as_str());
            r.push(e);
            assert(texts(r@) =~= before.push(e@));
        }
        assert(texts(r@).to_set() =~= active_upto(cards@, k as int + 1)) by {
            assert forall|e: Seq<char>| texts(r@).to_set().contains(e) implies active_upto(cards@, k as int + 1).contains(e) by {
                if before.contains(e) {
                    assert(before.to_set().contains(e));
                    let i = choose|i: int| 0 <= i < k && #[trigger] cards@[i].value && cards@[i].event@ == e;
                    assert(0 <= i < k + 1 && cards@[i].value && cards@[i].event@ == e);
                } else {
                    let j = choose|j: int| 0 <= j < texts(r@).len() && texts(r@)[j] == e;
                    assert(j == before.len());
                    assert(cards@[k as int].value && cards@[k as int].event@ == e);
                }
            }
            assert forall|e: Seq<char>| active_upto(cards@, k as int + 1).contains(e) implies texts(r@).to_set().contains(e) by {
                let i = choose|i: int| 0 <= i < k + 1 && #[trigger] cards@[i].value && cards@[i].event@ == e;
                if i < k {
                    assert(active_upto(cards@, k as int).contains(e));
                    assert(before.to_set().contains(e));
                    let j = choose|j: int| 0 <= j < before.len() && before[j] == e;
                    assert(texts(r@)[j] == e);
                } else {
                    if before.contains(e) {
                        let j = choose|j: int| 0 <= j < before.len() && before[j] == e;
                        assert(texts(r@)[j] == e);
                    } else {
                        assert(texts(r@)[before.len() as int] == e);
                    }
                }
            }
        }
    }
    assert(active_upto(cards@, cards@.len() as int) == active_events(cards@));
    r
}

/// Which custom events get a card: one descriptor per event name seen for the
/// property, in the order given, marked active when its card is switched on;
/// and the switched-on events themselves, each once.
pub fn plan_custom_cards(names: &Vec<String>, cards: &Vec<CustomCard>) -> (r: (Vec<CustomEventDescriptor>, Vec<String>))
    ensures
        r.0@.len() == names@.len(),
        forall|i: int| 0 <= i < names@.len() ==> (#[trigger] r.0@[i]).event@ == names@[i]@
            && r.0@[i].active == active_events(cards@).contains(names@[i]@),
        texts(r.1@).to_set() == active_events(cards@),
        texts(r.1@).no_duplicates(),
{
    let active = active_custom_events(cards);
    let mut descriptors: Vec<CustomEventDescriptor> = Vec::new();
    for i in 0..names.len()
        invariant
            texts(active@).to_set() == active_events(cards@),
            descriptors@.len() == i,
            forall|j: int| 0 <= j < i ==> (#[trigger] descriptors@[j]).event@ == names@[j]@
                && descriptors@[j].active == active_events(cards@).contains(names@[j]@),
    {
        let on = contains_text(&active, names[i].as_str());
        proof {
            if on {
                assert(texts(active@).to_set().contains(names@[i as int]@));
            } else {
                assert(!texts(active@).to_set().contains(names@[i as int]@));
            }
        }
        descriptors.push(CustomEventDescriptor { event: owned(names[i].as_str()), active: on });
    }
    (descriptors, active)
}

/// For each switched-on event, in order: its name, its count in the current
/// period and its count in the previous one.
pub fn custom_card_counts(
    active: &Vec<String>,
    current: &Vec<(String, i64)>,
    previous: &Vec<(String, i64)>,
) -> (r: Vec<(String, i64, i64)>)
    ensures
        r@.len() == active@.len(),
        forall|i: int| 0 <= i < active@.len() ==> (#[trigger] r@[i]).0@ == active@[i]@
            && r@[i].1 == last_count(pairs(current@), active@[i]@)
            && r@[i].2 == last_count(pairs(previous@), active@[i]@),
{
    let mut r: Vec<(String, i64, i64)> = Vec::new();
    for i in 0..active.len()
        invariant
            r@.len() == i,
            forall|j: int| 0 <= j < i ==> (#[trigger] r@[j]).0@ == active@[j]@
                && r@[j].1 == last_count(pairs(current@), active@[j]@)
                && r@[j].2 == last_count(pairs(previous@), active@[j]@),
    {
        let name = active[i].as_str();
        let c = lookup_count(current, name);
        let p = lookup_count(previous, name);
        r.push((owned(name), c, p));
    }
    r
}

} // verus!

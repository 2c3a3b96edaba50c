//! The free-form `data` object that the collector receives with each event,
//! held as a map from field names to JSON values.
use vstd::prelude::*;
use crate::text::{chars_eq, chars_of};

verus! {

/// A JSON value as far as the collector reads it. Strings are kept as text;
/// every other value is kept by its JSON text, with the integer reading of a
/// number (`as_i64`, else `as_f64` truncated toward zero and saturated) and
/// the JSON texts of an array's elements.
pub enum JsonValue {
    Str(String),
    Other { json: String, number: Option<i64>, elements: Option<Vec<String>> },
}

pub enum JsonView {
    Str(Seq<char>),
    Other { json: Seq<char>, number: Option<i64>, elements: Option<Seq<Seq<char>>> },
}

pub open spec fn strings_view(v: Vec<String>) -> Seq<Seq<char>> {
    v@.map_values(|s: String| s@)
}

impl View for JsonValue {
    type V = JsonView;

    open spec fn view(&self) -> JsonView {
        match self {
            JsonValue::Str(s) => JsonView::Str(s@),
            JsonValue::Other { json, number, elements } => JsonView::Other {
                json: json@,
                number: *number,
                elements: match elements {
                    Some(e) => Some(strings_view(*e)),
                    None => None,
                },
            },
        }
    }
}

/// `serde_json::Value::as_str`.
pub open spec fn as_str(v: JsonView) -> Option<Seq<char>> {
    match v {
        JsonView::Str(s) => Some(s),
        JsonView::Other { .. } => None,
    }
}

/// The value of the last entry with key `k`.
pub open spec fn lookup(s: Seq<(String, JsonValue)>, k: Seq<char>) -> Option<JsonView>
    decreases s.len(),
{
    if s.len() == 0 {
        None
    } else if s.last().0@ == k {
        Some(s.last().1@)
    } else {
        lookup(s.drop_last(), k)
    }
}

pub open spec fn distinct_keys(s: Seq<(String, JsonValue)>) -> bool {
    forall|i: int, j: int| 0 <= i < j < s.len() ==> (#[trigger] s[i]).0@ != (#[trigger] s[j]).0@
}

pub open spec fn entries_map(s: Seq<(String, JsonValue)>) -> Map<Seq<char>, JsonView> {
    Map::new(|k: Seq<char>| lookup(s, k) is Some, |k: Seq<char>| lookup(s, k).unwrap())
}

proof fn lemma_lookup_none(s: Seq<(String, JsonValue)>, k: Seq<char>)
    requires
        forall|i: int| 0 <= i < s.len() ==> (#[trigger] s[i]).0@ != k,
    ensures
        lookup(s, k) is None,
    decreases s.len(),
{
    if s.len() > 0 {
        let t = s.drop_last();
        assert forall|i: int| 0 <= i < t.len() implies (#[trigger] t[i]).0@ != k by {
            assert(t[i] == s[i]);
        }
        lemma_lookup_none(t, k);
    }
}

proof fn lemma_lookup_at(s: Seq<(String, JsonValue)>, k: Seq<char>, i: int)
    requires
        0 <= i < s.len(),
        s[i].0@ == k,
        forall|j: int| i < j < s.len() ==> (#[trigger] s[j]).0@ != k,
    ensures
        lookup(s, k) == Some(s[i].1@),
    decreases s.len(),
{
    if i < s.len() - 1 {
        let t = s.drop_last();
        assert forall|j: int| i < j < t.len() implies (#[trigger] t[j]).0@ != k by {
            assert(t[j] == s[j]);
        }
        assert(t[i] == s[i]);
        lemma_lookup_at(t, k, i);
    }
}

/// With distinct keys, the value at `k` is the one of the entry named `k`.
proof fn lemma_lookup_distinct(s: Seq<(String, JsonValue)>, k: Seq<char>)
    requires
        distinct_keys(s),
    ensures
        (forall|i: int| 0 <= i < s.len() ==> (#[trigger] s[i]).0@ != k) ==> lookup(s, k) is None,
        forall|i: int| 0 <= i < s.len() && (#[trigger] s[i]).0@ == k ==> lookup(s, k) == Some(s[i].1@),
{
    if forall|i: int| 0 <= i < s.len() ==> (#[trigger] s[i]).0@ != k {
        lemma_lookup_none(s, k);
    }
    assert forall|i: int| 0 <= i < s.len() && (#[trigger] s[i]).0@ == k implies lookup(s, k) == Some(
        s[i].1@,
    ) by {
        assert forall|j: int| i < j < s.len() implies (#[trigger] s[j]).0@ != k by {
            assert(s[i].0@ != s[j].0@);
        }
        lemma_lookup_at(s, k, i);
    }
}

/// The collector's event data: entries with distinct keys.
pub struct EventData {
    entries: Vec<(String, JsonValue)>,
}

impl View for EventData {
    type V = Map<Seq<char>, JsonView>;

    closed spec fn view(&self) -> Map<Seq<char>, JsonView> {
        entries_map(self.entries@)
    }
}

impl EventData {
    #[verifier::type_invariant]
    closed spec fn wf(&self) -> bool {
        distinct_keys(self.entries@)
    }

    /// Empty data.
    pub fn new() -> (r: EventData)
        ensures
            r@ == Map::<Seq<char>, JsonView>::empty(),
    {
        let r = EventData { entries: Vec::new() };
        assert(r@ =~= Map::<Seq<char>, JsonView>::empty()) by {
            assert forall|k: Seq<char>| lookup(r.entries@, k) is None by {}
        }
        r
    }

    /// The entries, each key once, in no particular order.
    pub fn entries(&self) -> (r: &Vec<(String, JsonValue)>)
        ensures
            distinct_keys(r@),
            entries_map(r@) == self@,
    {
        proof {
            use_type_invariant(self);
        }
        &self.entries
    }

    /// Whether no key is present.
    pub fn is_empty(&self) -> (b: bool)
        ensures
            b == (self@.dom() == Set::<Seq<char>>::empty()),
    {
        proof {
            use_type_invariant(self);
        }
        let b = self.entries.len() == 0;
        if b {
            assert(self@.dom() =~= Set::<Seq<char>>::empty()) by {
                assert forall|k: Seq<char>| !self@.dom().contains(k) by {}
            }
        } else {
            let ghost k = self.entries@[0].0@;
            proof {
                lemma_lookup_distinct(self.entries@, k);
            }
            assert(self@.dom().contains(k));
        }
        b
    }

    fn find(&self, key: &[char]) -> (r: Option<usize>)
        ensures
            r matches Some(i) ==> i < self.entries@.len() && self.entries@[i as int].0@ == key@,
            r is None ==> forall|i: int| 0 <= i < self.entries@.len() ==> (#[trigger] self.entries@[i]).0@ != key@,
    {
        let mut i: usize = 0;
        while i < self.entries.len()
            invariant
                i <= self.entries@.len(),
                forall|j: int| 0 <= j < i ==> (#[trigger] self.entries@[j]).0@ != key@,
            decreases self.entries@.len() - i,
        {
            let k = chars_of(self.entries[i].0.as_str());
            if chars_eq(k.as_slice(), key) {
                return Some(i);
            }
            i = i + 1;
        }
        None
    }

    /// The value at `key`.
    pub fn get(&self, key: &str) -> (r: Option<&JsonValue>)
        ensures
            r matches Some(v) ==> self@.contains_key(key@) && self@[key@] == v@,
            r is None ==> !self@.contains_key(key@),
    {
        proof {
            use_type_invariant(self);
            lemma_lookup_distinct(self.entries@, key@);
        }
        let k = chars_of(key);
        match self.find(k.as_slice()) {
            Some(i) => Some(&self.entries[i].1),
            None => None,
        }
    }

    /// `get(key).and_then(as_str)`.
    pub fn get_str(&self, key: &str) -> (r: Option<String>)
        ensures
            opt_chars(r) == (if self@.contains_key(key@) { as_str(self@[key@]) } else { None }),
    {
        match self.get(key) {
            Some(JsonValue::Str(s)) => Some(s.clone()),
            _ => None,
        }
    }

    /// Removes `key` and returns the value it had.
    pub fn remove(&mut self, key: &str) -> (r: Option<JsonValue>)
        ensures
            final(self)@ == old(self)@.remove(key@),
            r matches Some(v) ==> old(self)@.contains_key(key@) && old(self)@[key@] == v@,
            r is None ==> !old(self)@.contains_key(key@),
    {
        proof {
            use_type_invariant(&*self);
            lemma_lookup_distinct(self.entries@, key@);
        }
        let k = chars_of(key);
        match self.find(k.as_slice()) {
            Some(i) => {
                let ghost s = self.entries@;
                let mut es: Vec<(String, JsonValue)> = Vec::new();
                std::mem::swap(&mut es, &mut self.entries);
                let e = es.remove(i);
                let ghost t = es@;
                assert(t =~= s.remove(i as int));
                proof {
                    assert(distinct_keys(t)) by {
                        assert forall|a: int, b: int| 0 <= a < b < t.len() implies (#[trigger] t[a]).0@
                            != (#[trigger] t[b]).0@ by {
                            let a2 = if a < i { a } else { a + 1 };
                            let b2 = if b < i { b } else { b + 1 };
                            assert(t[a] == s[a2]);
                            assert(t[b] == s[b2]);
                            assert(s[a2].0@ != s[b2].0@);
                        }
                    }
                    assert forall|k2: Seq<char>| lookup(t, k2) == (if k2 == key@ {
                        None
                    } else {
                        lookup(s, k2)
                    }) by {
                        lemma_lookup_distinct(s, k2);
                        lemma_lookup_distinct(t, k2);
                        if k2 == key@ {
                            assert forall|j: int| 0 <= j < t.len() implies (#[trigger] t[j]).0@ != k2 by {
                                let j2 = if j < i { j } else { j + 1 };
                                assert(t[j] == s[j2]);
                                assert(s[j2].0@ != s[i as int].0@);
                            }
                        } else {
                            if exists|j: int| 0 <= j < s.len() && (#[trigger] s[j]).0@ == k2 {
                                let j = choose|j: int| 0 <= j < s.len() && (#[trigger] s[j]).0@ == k2;
                                let j2 = if j < i { j } else { j - 1 };
                                assert(t[j2] == s[j]);
                            } else {
                                assert forall|j: int| 0 <= j < t.len() implies (#[trigger] t[j]).0@ != k2 by {
                                    let j2 = if j < i { j } else { j + 1 };
                                    assert(t[j] == s[j2]);
                                }
                            }
                        }
                    }
                    assert(entries_map(t) =~= entries_map(s).remove(key@));
                }
                self.entries = es;
                Some(e.1)
            },
            None => None,
        }
    }

    /// Sets `key` to `v`, replacing what it held.
    pub fn insert(&mut self, key: String, v: JsonValue)
        ensures
            final(self)@ == old(self)@.insert(key@, v@),
    {
        proof {
            use_type_invariant(&*self);
        }
        let k = chars_of(key.as_str());
        let ghost s = self.entries@;
        let ghost kv = key@;
        let ghost vv = v@;
        let found = self.find(k.as_slice());
        let mut es: Vec<(String, JsonValue)> = Vec::new();
        std::mem::swap(&mut es, &mut self.entries);
        match found {
            Some(i) => {
                es.set(i, (key, v));
                let ghost t = es@;
                proof {
                    assert(t =~= s.update(i as int, t[i as int]));
                    assert(distinct_keys(t)) by {
                        assert forall|a: int, b: int| 0 <= a < b < t.len() implies (#[trigger] t[a]).0@
                            != (#[trigger] t[b]).0@ by {
                            if a != i && b != i {
                                assert(t[a] == s[a] && t[b] == s[b]);
                            } else if a == i {
                                assert(t[b] == s[b]);
                                assert(s[i as int].0@ != s[b].0@);
                            } else {
                                assert(t[a] == s[a]);
                                assert(s[a].0@ != s[i as int].0@);
                            }
                        }
                    }
                    assert forall|k2: Seq<char>| lookup(t, k2) == (if k2 == kv {
                        Some(vv)
                    } else {
                        lookup(s, k2)
                    }) by {
                        lemma_lookup_distinct(s, k2);
                        lemma_lookup_distinct(t, k2);
                        if k2 == kv {
                            assert(t[i as int].0@ == k2);
                        } else {
                            if exists|j: int| 0 <= j < s.len() && (#[trigger] s[j]).0@ == k2 {
                                let j = choose|j: int| 0 <= j < s.len() && (#[trigger] s[j]).0@ == k2;
                                assert(t[j] == s[j]);
                            } else {
                                assert forall|j: int| 0 <= j < t.len() implies (#[trigger] t[j]).0@ != k2 by {
                                    if j != i {
                                        assert(t[j] == s[j]);
                                    }
                                }
                            }
                        }
                    }
                    assert(entries_map(t) =~= entries_map(s).insert(kv, vv));
                }
            },
            None => {
                es.push((key, v));
                let ghost t = es@;
                proof {
                    assert(t =~= s.push(t.last()));
                    assert(distinct_keys(t)) by {
                        assert forall|a: int, b: int| 0 <= a < b < t.len() implies (#[trigger] t[a]).0@
                            != (#[trigger] t[b]).0@ by {
                            assert(t[a] == s[a]);
                            if b < s.len() {
                                assert(t[b] == s[b]);
                            }
                        }
                    }
                    assert forall|k2: Seq<char>| lookup(t, k2) == (if k2 == kv {
                        Some(vv)
                    } else {
                        lookup(s, k2)
                    }) by {
                        assert(t.drop_last() =~= s);
                    }
                    assert(entries_map(t) =~= entries_map(s).insert(kv, vv));
                }
            },
        }
        self.entries = es;
    }
}

pub open spec fn opt_chars(o: Option<String>) -> Option<Seq<char>> {
    match o {
        Some(s) => Some(s@),
        None => None,
    }
}

} // verus!

//! The event collector's decisions: which requests are accepted, how the
//! referrer is reduced to a host name, what geo and user-agent data is added,
//! whether an event goes to the bot table, and which fields become columns.
use vstd::prelude::*;
use crate::event_data::{as_str, opt_chars, EventData, JsonValue, JsonView};
use crate::ids::{parse_uuid, uuid_parse};
use crate::text::{
    lower_char, ascii_lower, ascii_lowercase, chars_of, has_prefix, is_ws, matches_at, occurs_at, owned, slice_chars,
    string_of, trim, trimmed,
};
use crate::ua::{opt_view, ParsedUa, ParsedUaView};

verus! {

// ---------------------------------------------------------------------------
// Request validation
// ---------------------------------------------------------------------------

/// Why the collector rejects a request.
#[derive(PartialEq, Eq, Structural)]
pub enum CollectError {
    /// 400: no `collectorId`, no `event`, or a `collectorId` that is not a UUID.
    BadRequest,
}

/// The property id and event name of a collect request: both fields must be
/// present and the collector id must parse as a UUID.
pub fn check_collect_fields(collector_id: Option<&str>, event: Option<&str>) -> (r: Result<
    ([u8; 16], String),
    CollectError,
>)
    ensures
        r is Ok <==> (collector_id is Some && event is Some && uuid_parse(collector_id.unwrap()@) is Some),
        r matches Ok((id, e)) ==> uuid_parse(collector_id.unwrap()@) == Some(id@) && e@ == event.unwrap()@,
{
    let cid = match collector_id {
        Some(c) => c,
        None => return Err(CollectError::BadRequest),
    };
    let ev = match event {
        Some(e) => e,
        None => return Err(CollectError::BadRequest),
    };
    match parse_uuid(cid) {
        Some(id) => Ok((id, owned(ev))),
        None => Err(CollectError::BadRequest),
    }
}

// ---------------------------------------------------------------------------
// Referrer normalization
// ---------------------------------------------------------------------------

pub open spec fn scheme_sep() -> Seq<char> {
    seq![':', '/', '/']
}

pub open spec fn www() -> Seq<char> {
    seq!['w', 'w', 'w', '.']
}

/// Largest `i < k` at which `p` occurs in `s`, or -1.
pub open spec fn last_occ(s: Seq<char>, p: Seq<char>, k: int) -> int
    decreases k,
{
    if k <= 0 {
        -1
    } else if occurs_at(s, p, k - 1) {
        k - 1
    } else {
        last_occ(s, p, k - 1)
    }
}

/// `s.split("://").last()`: what follows the last `://`, or all of `s`.
pub open spec fn after_scheme(s: Seq<char>) -> Seq<char> {
    let i = last_occ(s, scheme_sep(), s.len() as int);
    if i < 0 {
        s
    } else {
        s.subrange(i + 3, s.len() as int)
    }
}

/// Index of the first `c` in `s`, or its length.
pub open spec fn first_idx(s: Seq<char>, c: char) -> nat
    decreases s.len(),
{
    if s.len() == 0 {
        0
    } else if s[0] == c {
        0
    } else {
        1 + first_idx(s.drop_first(), c)
    }
}

/// `s.split(c).next()`: everything before the first `c`.
pub open spec fn before_char(s: Seq<char>, c: char) -> Seq<char> {
    s.subrange(0, first_idx(s, c) as int)
}

/// `s.trim_start_matches("www.")`: every leading `www.` removed.
pub open spec fn strip_www(s: Seq<char>) -> Seq<char>
    decreases s.len(),
{
    if has_prefix(s, www()) {
        strip_www(s.subrange(4, s.len() as int))
    } else {
        s
    }
}

/// The host a referrer is stored as: after the last `://`, before the first
/// `/`, lower-cased, without leading `www.`.
pub open spec fn referrer_host(r: Seq<char>) -> Seq<char> {
    strip_www(ascii_lower(before_char(after_scheme(r), '/')))
}

pub proof fn lemma_first_idx(s: Seq<char>, c: char, k: int)
    requires
        0 <= k <= s.len(),
        forall|j: int| 0 <= j < k ==> s[j] != c,
    ensures
        first_idx(s, c) >= k,
        first_idx(s, c) <= s.len(),
        k < s.len() && s[k] == c ==> first_idx(s, c) == k,
        k == s.len() ==> first_idx(s, c) == k,
        first_idx(s, c) < s.len() ==> s[first_idx(s, c) as int] == c,
        forall|j: int| 0 <= j < first_idx(s, c) ==> s[j] != c,
    decreases s.len(),
{
    if s.len() > 0 {
        let t = s.drop_first();
        if s[0] != c {
            lemma_first_idx(t, c, if k > 0 { k - 1 } else { 0 });
            assert forall|j: int| 0 <= j < first_idx(s, c) implies s[j] != c by {
                if j > 0 {
                    assert(s[j] == t[j - 1]);
                }
            }
            if first_idx(s, c) < s.len() {
                assert(s[first_idx(s, c) as int] == t[first_idx(t, c) as int]);
            }
        }
    }
}

fn after_scheme_exec(s: &[char]) -> (r: Vec<char>)
    ensures
        r@ == after_scheme(s@),
{
    let sep: Vec<char> = vec![':', '/', '/'];
    assert(sep@ =~= scheme_sep());
    let n = s.len();
    let mut last: Option<usize> = None;
    let mut i: usize = 0;
    while i < n
        invariant
            n == s@.len(),
            sep@ == scheme_sep(),
            i <= n,
            match last {
                Some(j) => last_occ(s@, scheme_sep(), i as int) == j && j < i,
                None => last_occ(s@, scheme_sep(), i as int) == -1,
            },
        decreases n - i,
    {
        if n >= 3 && i <= n - 3 && matches_at(s, sep.as_slice(), i) {
            last = Some(i);
        }
        i = i + 1;
    }
    match last {
        Some(j) => {
            assert(occurs_at(s@, scheme_sep(), j as int)) by {
                lemma_last_occ_is_occ(s@, scheme_sep(), n as int);
            }
            slice_chars(s, j + 3, n)
        },
        None => slice_chars(s, 0, n),
    }
}

proof fn lemma_last_occ_is_occ(s: Seq<char>, p: Seq<char>, k: int)
    requires
        0 <= k,
    ensures
        last_occ(s, p, k) >= 0 ==> occurs_at(s, p, last_occ(s, p, k)),
        last_occ(s, p, k) < k,
    decreases k,
{
    if k > 0 && !occurs_at(s, p, k - 1) {
        lemma_last_occ_is_occ(s, p, k - 1);
    }
}

fn before_char_exec(s: &[char], c: char) -> (r: Vec<char>)
    ensures
        r@ == before_char(s@, c),
{
    let n = s.len();
    let mut i: usize = 0;
    while i < n && s[i] != c
        invariant
            n == s@.len(),
            i <= n,
            forall|j: int| 0 <= j < i ==> s@[j] != c,
        decreases n - i,
    {
        i = i + 1;
    }
    proof {
        lemma_first_idx(s@, c, i as int);
    }
    slice_chars(s, 0, i)
}

fn strip_www_exec(s: &[char]) -> (r: Vec<char>)
    ensures
        r@ == strip_www(s@),
{
    let w: Vec<char> = vec!['w', 'w', 'w', '.'];
    assert(w@ =~= www());
    let n = s.len();
    let mut p: usize = 0;
    assert(s@.subrange(0, n as int) =~= s@);
    while n - p >= 4 && matches_at(s, w.as_slice(), p)
        invariant
            n == s@.len(),
            w@ == www(),
            p <= n,
            strip_www(s@) == strip_www(s@.subrange(p as int, n as int)),
        decreases n - p,
    {
        let ghost t = s@.subrange(p as int, n as int);
        assert(t.subrange(0, 4) =~= s@.subrange(p as int, p + 4));
        assert(has_prefix(t, www()));
        assert(t.subrange(4, t.len() as int) =~= s@.subrange(p + 4, n as int));
        p = p + 4;
    }
    let ghost t = s@.subrange(p as int, n as int);
    if n - p >= 4 {
        assert(t.subrange(0, 4) =~= s@.subrange(p as int, p + 4));
    }
    assert(!has_prefix(t, www()));
    slice_chars(s, p, n)
}

/// No `/` in `s`.
pub open spec fn no_slash(s: Seq<char>) -> bool {
    forall|i: int| 0 <= i < s.len() ==> s[i] != '/'
}

proof fn lemma_strip_www_suffix(s: Seq<char>)
    ensures
        exists|k: int| 0 <= k <= s.len() && strip_www(s) == s.subrange(k, s.len() as int),
        !has_prefix(strip_www(s), www()),
    decreases s.len(),
{
    if has_prefix(s, www()) {
        let t = s.subrange(4, s.len() as int);
        lemma_strip_www_suffix(t);
        let k = choose|k: int| 0 <= k <= t.len() && strip_www(t) == t.subrange(k, t.len() as int);
        assert(strip_www(s) == s.subrange(k + 4, s.len() as int));
    } else {
        assert(strip_www(s) == s.subrange(0, s.len() as int));
    }
}

proof fn lemma_no_scheme(s: Seq<char>, k: int)
    requires
        no_slash(s),
        0 <= k <= s.len(),
    ensures
        last_occ(s, scheme_sep(), k) == -1,
    decreases k,
{
    if k > 0 {
        if occurs_at(s, scheme_sep(), k - 1) {
            assert(s.subrange(k - 1, k + 2)[1] == '/');
            assert(s[k] == '/');
        }
        lemma_no_scheme(s, k - 1);
    }
}

proof fn lemma_lower_fixed(s: Seq<char>)
    ensures
        ascii_lower(ascii_lower(s)) == ascii_lower(s),
{
    assert forall|i: int| 0 <= i < s.len() implies lower_char(lower_char(s[i])) == lower_char(s[i]) by {
        let c = s[i];
        if 'A' <= c && c <= 'Z' {
            assert(lower_char(c) as u32 == (c as u32) + 32);
        }
    }
    assert(ascii_lower(ascii_lower(s)) =~= ascii_lower(s));
}

/// A stored referrer host normalizes to itself: normalizing twice is
/// normalizing once.
pub proof fn lemma_referrer_host_idempotent(r: Seq<char>)
    ensures
        referrer_host(referrer_host(r)) == referrer_host(r),
{
    let a = after_scheme(r);
    let b = before_char(a, '/');
    lemma_first_idx(a, '/', 0);
    assert(no_slash(b));
    let l = ascii_lower(b);
    assert(no_slash(l)) by {
        assert forall|i: int| 0 <= i < l.len() implies l[i] != '/' by {
            assert(b[i] != '/');
        }
    }
    lemma_lower_fixed(b);
    let h = strip_www(l);
    lemma_strip_www_suffix(l);
    let k = choose|k: int| 0 <= k <= l.len() && h == l.subrange(k, l.len() as int);
    assert(no_slash(h));
    assert(ascii_lower(h) =~= h) by {
        assert forall|i: int| 0 <= i < h.len() implies lower_char(h[i]) == h[i] by {
            assert(h[i] == l[i + k]);
            assert(ascii_lower(l)[i + k] == l[i + k]);
        }
    }
    lemma_no_scheme(h, h.len() as int);
    assert(after_scheme(h) == h);
    lemma_first_idx(h, '/', h.len() as int);
    assert(before_char(h, '/') =~= h);
    assert(!has_prefix(h, www()));
    assert(strip_www(h) == h);
}

/// The referrer reduced to a bare, lower-case host name.
pub fn normalize_referrer(r: &str) -> (h: String)
    ensures
        h@ == referrer_host(r@),
{
    let s = chars_of(r);
    let a = after_scheme_exec(s.as_slice());
    let b = before_char_exec(a.as_slice(), '/');
    let c = ascii_lowercase(b.as_slice());
    let d = strip_www_exec(c.as_slice());
    string_of(d.as_slice())
}

/// Replaces a string `referrer` in the event data with its host.
pub fn normalize_referrer_field(data: &mut EventData)
    ensures
        old(data)@.contains_key("referrer"@) && as_str(old(data)@["referrer"@]) is Some ==> final(data)@
            == old(data)@.insert("referrer"@, JsonView::Str(referrer_host(as_str(old(data)@["referrer"@])->0))),
        !(old(data)@.contains_key("referrer"@) && as_str(old(data)@["referrer"@]) is Some) ==> final(data)@
            == old(data)@,
{
    if let Some(r) = data.get_str("referrer") {
        let h = normalize_referrer(r.as_str());
        data.insert(owned("referrer"), JsonValue::Str(h));
    }
}

// ---------------------------------------------------------------------------
// Client address, user agent and CORS
// ---------------------------------------------------------------------------

/// The addresses to try, in order, as the client's IP: the first entry of
/// `X-Forwarded-For` (trimmed), then `X-Real-IP`. The first that parses as an
/// IP address is the client's.
pub open spec fn ip_candidates(xff: Option<Seq<char>>, real_ip: Option<Seq<char>>) -> Seq<Seq<char>> {
    let a: Seq<Seq<char>> = match xff {
        Some(x) => seq![trimmed(before_char(x, ','))],
        None => Seq::empty(),
    };
    let b: Seq<Seq<char>> = match real_ip {
        Some(r) => seq![r],
        None => Seq::empty(),
    };
    a + b
}

pub fn client_ip_candidates(xff: Option<&str>, real_ip: Option<&str>) -> (r: Vec<String>)
    ensures
        r@.map_values(|s: String| s@) == ip_candidates(opt_str(xff), opt_str(real_ip)),
{
    let mut r: Vec<String> = Vec::new();
    if let Some(x) = xff {
        let cs = chars_of(x);
        let first = before_char_exec(cs.as_slice(), ',');
        let t = trim(first.as_slice());
        r.push(string_of(t.as_slice()));
    }
    if let Some(rip) = real_ip {
        r.push(owned(rip));
    }
    assert(r@.map_values(|s: String| s@) =~= ip_candidates(opt_str(xff), opt_str(real_ip)));
    r
}

pub open spec fn opt_str(o: Option<&str>) -> Option<Seq<char>> {
    match o {
        Some(s) => Some(s@),
        None => None,
    }
}

/// The user agent to parse: a string `user_agent` in the data, else the
/// request's `User-Agent` header.
pub fn user_agent_source(data: &EventData, header: Option<&str>) -> (r: Option<String>)
    ensures
        opt_chars(r) == (if data@.contains_key("user_agent"@) && as_str(data@["user_agent"@]) is Some {
            as_str(data@["user_agent"@])
        } else {
            opt_str(header)
        }),
{
    match data.get_str("user_agent") {
        Some(s) => Some(s),
        None => match header {
            Some(h) => Some(owned(h)),
            None => None,
        },
    }
}

/// Whether an event gets GeoIP enrichment: only `session_start` does.
pub fn wants_geo(event: &str) -> (b: bool)
    ensures
        b == (event@ == "session_start"@),
{
    crate::text::str_is(event, "session_start")
}

/// `Access-Control-Allow-Origin` for a collector response: the request's
/// `Origin`, or `*`.
pub fn allow_origin(origin: Option<&str>) -> (r: String)
    ensures
        r@ == (match origin {
            Some(o) => o@,
            None => "*"@,
        }),
{
    match origin {
        Some(o) => owned(o),
        None => owned("*"),
    }
}

/// Headers of the answer to a CORS preflight on `/collect`.
pub fn preflight_headers(origin: Option<&str>, request_headers: Option<&str>) -> (r: Vec<(String, String)>)
    ensures
        r@.len() == 4,
        r@[0].0@ == "allow"@ && r@[0].1@ == "OPTIONS, POST"@,
        r@[1].0@ == "access-control-allow-methods"@ && r@[1].1@ == "OPTIONS, POST"@,
        r@[2].0@ == "access-control-allow-headers"@ && r@[2].1@ == (match request_headers {
            Some(h) => h@,
            None => "Content-Type"@,
        }),
        r@[3].0@ == "access-control-allow-origin"@ && r@[3].1@ == (match origin {
            Some(o) => o@,
            None => "*"@,
        }),
{
    let allow_headers = match request_headers {
        Some(h) => owned(h),
        None => owned("Content-Type"),
    };
    let mut r: Vec<(String, String)> = Vec::new();
    r.push((owned("allow"), owned("OPTIONS, POST")));
    r.push((owned("access-control-allow-methods"), owned("OPTIONS, POST")));
    r.push((owned("access-control-allow-headers"), allow_headers));
    r.push((owned("access-control-allow-origin"), allow_origin(origin)));
    r
}

// ---------------------------------------------------------------------------
// Enrichment
// ---------------------------------------------------------------------------

pub open spec fn put_str(m: Map<Seq<char>, JsonView>, k: Seq<char>, v: Option<Seq<char>>) -> Map<
    Seq<char>,
    JsonView,
> {
    match v {
        Some(s) => m.insert(k, JsonView::Str(s)),
        None => m,
    }
}

fn put_opt(data: &mut EventData, key: &str, v: Option<String>)
    ensures
        final(data)@ == put_str(old(data)@, key@, opt_chars(v)),
{
    if let Some(s) = v {
        data.insert(owned(key), JsonValue::Str(s));
    }
}

/// Data after GeoIP enrichment: found country, region and city names and the
/// `[lat, lon]` location are set.
pub open spec fn with_geo(
    m: Map<Seq<char>, JsonView>,
    country: Option<Seq<char>>,
    region: Option<Seq<char>>,
    city: Option<Seq<char>>,
    loc: Option<JsonView>,
) -> Map<Seq<char>, JsonView> {
    let m1 = put_str(put_str(put_str(m, "country"@, country), "region"@, region), "city"@, city);
    match loc {
        Some(l) => m1.insert("loc"@, l),
        None => m1,
    }
}

/// Adds what a GeoIP lookup found.
pub fn apply_geo(
    data: &mut EventData,
    country: Option<String>,
    region: Option<String>,
    city: Option<String>,
    loc: Option<JsonValue>,
)
    ensures
        final(data)@ == with_geo(
            old(data)@,
            opt_chars(country),
            opt_chars(region),
            opt_chars(city),
            match loc {
                Some(l) => Some(l@),
                None => None,
            },
        ),
{
    put_opt(data, "country", country);
    put_opt(data, "region", region);
    put_opt(data, "city", city);
    if let Some(l) = loc {
        data.insert(owned("loc"), l);
    }
}

pub open spec fn json_true() -> JsonView {
    JsonView::Other { json: "true"@, number: None, elements: None }
}

/// Data after user-agent parsing: platform, browser and device when known,
/// and for a bot `is_bot: true` and its name.
pub open spec fn with_ua(m: Map<Seq<char>, JsonView>, p: ParsedUaView) -> Map<Seq<char>, JsonView> {
    let m1 = put_str(put_str(put_str(m, "platform"@, p.platform), "browser"@, p.browser), "device"@, p.device);
    if p.is_bot {
        put_str(m1.insert("is_bot"@, json_true()), "bot_name"@, p.bot_name)
    } else {
        m1
    }
}

/// Records the parsed user agent in the data.
pub fn apply_ua(data: &mut EventData, p: &ParsedUa)
    ensures
        final(data)@ == with_ua(old(data)@, p@),
{
    put_opt(data, "platform", p.platform.clone());
    put_opt(data, "browser", p.browser.clone());
    put_opt(data, "device", p.device.clone());
    if p.is_bot {
        data.insert(
            owned("is_bot"),
            JsonValue::Other { json: owned("true"), number: None, elements: None },
        );
        put_opt(data, "bot_name", p.bot_name.clone());
    }
}

// ---------------------------------------------------------------------------
// Bot rows
// ---------------------------------------------------------------------------

/// The columns of a `bot_events` row besides the property, event and time;
/// `extra` is the whole data object.
pub struct BotEvent {
    pub bot_name: Option<String>,
    pub url: Option<String>,
    pub user_agent: String,
    pub country: Option<String>,
}

pub open spec fn str_at(m: Map<Seq<char>, JsonView>, k: Seq<char>) -> Option<Seq<char>> {
    if m.contains_key(k) {
        as_str(m[k])
    } else {
        None
    }
}

/// A bot event is stored with its bot name, and the string `url` and
/// `country` of its data.
pub fn bot_event(data: &EventData, p: &ParsedUa, ua: &str) -> (r: BotEvent)
    ensures
        opt_chars(r.bot_name) == p@.bot_name,
        opt_chars(r.url) == str_at(data@, "url"@),
        r.user_agent@ == ua@,
        opt_chars(r.country) == str_at(data@, "country"@),
{
    BotEvent {
        bot_name: p.bot_name.clone(),
        url: data.get_str("url"),
        user_agent: owned(ua),
        country: data.get_str("country"),
    }
}

// ---------------------------------------------------------------------------
// Hot fields of a human event
// ---------------------------------------------------------------------------

/// A removed value as a column: a string as is, any other value by its JSON
/// text; empty text counts as absent.
pub open spec fn column_text(v: Option<JsonView>) -> Option<Seq<char>> {
    match v {
        None => None,
        Some(j) => {
            let s = match j {
                JsonView::Str(s) => s,
                JsonView::Other { json, .. } => json,
            };
            if s.len() == 0 {
                None
            } else {
                Some(s)
            }
        },
    }
}

/// A removed value as an integer column: the integer reading of a number.
pub open spec fn column_int(v: Option<JsonView>) -> Option<i64> {
    match v {
        Some(JsonView::Other { number, .. }) => number,
        _ => None,
    }
}

/// `loc` as a pair of element texts, when it is an array of two or more.
pub open spec fn column_loc(v: Option<JsonView>) -> Option<(Seq<char>, Seq<char>)> {
    match v {
        Some(JsonView::Other { elements: Some(e), .. }) => if e.len() >= 2 {
            Some((e[0], e[1]))
        } else {
            None
        },
        _ => None,
    }
}

pub open spec fn at(m: Map<Seq<char>, JsonView>, k: Seq<char>) -> Option<JsonView> {
    if m.contains_key(k) {
        Some(m[k])
    } else {
        None
    }
}

/// The keys that become columns of `events`; everything else stays in `extra`.
pub open spec fn hot_keys() -> Set<Seq<char>> {
    set![
        "user_id"@, "url"@, "title"@, "referrer"@, "user_agent"@, "platform"@, "browser"@, "device"@,
        "screen_width"@, "screen_height"@, "country"@, "region"@, "city"@, "loc"@, "utm_source"@,
        "utm_medium"@, "utm_campaign"@, "utm_term"@, "utm_content"@, "time_on_page"@,
    ]
}

/// The typed columns of an `events` row.
pub struct HotFields {
    pub user_id: Option<String>,
    pub url: Option<String>,
    pub title: Option<String>,
    pub referrer: Option<String>,
    pub user_agent: Option<String>,
    pub platform: Option<String>,
    pub browser: Option<String>,
    pub device: Option<String>,
    pub screen_width: Option<i64>,
    pub screen_height: Option<i64>,
    pub country: Option<String>,
    pub region: Option<String>,
    pub city: Option<String>,
    /// JSON texts of the latitude and longitude elements.
    pub loc: Option<(String, String)>,
    pub utm_source: Option<String>,
    pub utm_medium: Option<String>,
    pub utm_campaign: Option<String>,
    pub utm_term: Option<String>,
    pub utm_content: Option<String>,
    pub time_on_page_ms: Option<i64>,
}

pub open spec fn loc_view(l: Option<(String, String)>) -> Option<(Seq<char>, Seq<char>)> {
    match l {
        Some((a, b)) => Some((a@, b@)),
        None => None,
    }
}

/// `h` holds the columns that data `m` yields, with `ua` as the user agent.
pub open spec fn hot_fields_match(h: HotFields, m: Map<Seq<char>, JsonView>, ua: Option<Seq<char>>) -> bool {
    &&& opt_chars(h.user_id) == column_text(at(m, "user_id"@))
    &&& opt_chars(h.url) == column_text(at(m, "url"@))
    &&& opt_chars(h.title) == column_text(at(m, "title"@))
    &&& opt_chars(h.referrer) == column_text(at(m, "referrer"@))
    &&& opt_chars(h.user_agent) == ua
    &&& opt_chars(h.platform) == column_text(at(m, "platform"@))
    &&& opt_chars(h.browser) == column_text(at(m, "browser"@))
    &&& opt_chars(h.device) == column_text(at(m, "device"@))
    &&& h.screen_width == column_int(at(m, "screen_width"@))
    &&& h.screen_height == column_int(at(m, "screen_height"@))
    &&& opt_chars(h.country) == column_text(at(m, "country"@))
    &&& opt_chars(h.region) == column_text(at(m, "region"@))
    &&& opt_chars(h.city) == column_text(at(m, "city"@))
    &&& loc_view(h.loc) == column_loc(at(m, "loc"@))
    &&& opt_chars(h.utm_source) == column_text(at(m, "utm_source"@))
    &&& opt_chars(h.utm_medium) == column_text(at(m, "utm_medium"@))
    &&& opt_chars(h.utm_campaign) == column_text(at(m, "utm_campaign"@))
    &&& opt_chars(h.utm_term) == column_text(at(m, "utm_term"@))
    &&& opt_chars(h.utm_content) == column_text(at(m, "utm_content"@))
    &&& h.time_on_page_ms == column_int(at(m, "time_on_page"@))
}

fn text_col(data: &EventData, key: &str) -> (r: Option<String>)
    ensures
        opt_chars(r) == column_text(at(data@, key@)),
{
    match data.get(key) {
        None => None,
        Some(v) => {
            let s = match v {
                JsonValue::Str(s) => s.clone(),
                JsonValue::Other { json, .. } => json.clone(),
            };
            if s.as_str().is_empty() {
                None
            } else {
                Some(s)
            }
        },
    }
}

fn int_col(data: &EventData, key: &str) -> (r: Option<i64>)
    ensures
        r == column_int(at(data@, key@)),
{
    match data.get(key) {
        Some(JsonValue::Other { number, .. }) => *number,
        _ => None,
    }
}

fn loc_col(data: &EventData) -> (r: Option<(String, String)>)
    ensures
        loc_view(r) == column_loc(at(data@, "loc"@)),
{
    match data.get("loc") {
        Some(JsonValue::Other { elements: Some(e), .. }) => {
            if e.len() >= 2 {
                let a = e[0].clone();
                let b = e[1].clone();
                Some((a, b))
            } else {
                None
            }
        },
        _ => None,
    }
}

fn hot_key_list() -> (v: Vec<&'static str>)
    ensures
        v@.map_values(|k: &str| k@).to_set() == hot_keys(),
{
    let v: Vec<&'static str> = vec![
        "user_id", "url", "title", "referrer", "user_agent", "platform", "browser", "device",
        "screen_width", "screen_height", "country", "region", "city", "loc", "utm_source",
        "utm_medium", "utm_campaign", "utm_term", "utm_content", "time_on_page",
    ];
    let ghost w = v@.map_values(|k: &str| k@);
    assert(w.to_set() =~= hot_keys()) by {
        assert forall|k: Seq<char>| hot_keys().contains(k) implies w.contains(k) by {
            if k == "user_id"@ { assert(w[0] == k); }
            else if k == "url"@ { assert(w[1] == k); }
            else if k == "title"@ { assert(w[2] == k); }
            else if k == "referrer"@ { assert(w[3] == k); }
            else if k == "user_agent"@ { assert(w[4] == k); }
            else if k == "platform"@ { assert(w[5] == k); }
            else if k == "browser"@ { assert(w[6] == k); }
            else if k == "device"@ { assert(w[7] == k); }
            else if k == "screen_width"@ { assert(w[8] == k); }
            else if k == "screen_height"@ { assert(w[9] == k); }
            else if k == "country"@ { assert(w[10] == k); }
            else if k == "region"@ { assert(w[11] == k); }
            else if k == "city"@ { assert(w[12] == k); }
            else if k == "loc"@ { assert(w[13] == k); }
            else if k == "utm_source"@ { assert(w[14] == k); }
            else if k == "utm_medium"@ { assert(w[15] == k); }
            else if k == "utm_campaign"@ { assert(w[16] == k); }
            else if k == "utm_term"@ { assert(w[17] == k); }
            else if k == "utm_content"@ { assert(w[18] == k); }
            else { assert(w[19] == k); }
        }
    }
    v
}

/// Removes every key of `keys` from the data.
pub fn remove_all(data: &mut EventData, keys: &Vec<&str>)
    ensures
        final(data)@ == old(data)@.remove_keys(keys@.map_values(|k: &str| k@).to_set()),
{
    let ghost m0 = data@;
    let ghost w = keys@.map_values(|k: &str| k@);
    for i in 0..keys.len()
        invariant
            w == keys@.map_values(|k: &str| k@),
            data@ == m0.remove_keys(w.take(i as int).to_set()),
    {
        let _ = data.remove(keys[i]);
        assert(data@ =~= m0.remove_keys(w.take((i + 1) as int).to_set())) by {
            assert(w.take((i + 1) as int) =~= w.take(i as int).push(w[i as int]));
            w.take(i as int).lemma_push_to_set_commute(w[i as int]);
            assert(keys@[i as int]@ == w[i as int]);
        }
    }
    assert(w.take(keys@.len() as int) =~= w);
}

/// Moves the hot fields out of the data into typed columns; what is left
/// goes to `extra`.
pub fn take_hot_fields(data: &mut EventData, user_agent: Option<String>) -> (h: HotFields)
    ensures
        hot_fields_match(h, old(data)@, opt_chars(user_agent)),
        final(data)@ == old(data)@.remove_keys(hot_keys()),
{
    let h = HotFields {
        user_id: text_col(data, "user_id"),
        url: text_col(data, "url"),
        title: text_col(data, "title"),
        referrer: text_col(data, "referrer"),
        user_agent,
        platform: text_col(data, "platform"),
        browser: text_col(data, "browser"),
        device: text_col(data, "device"),
        screen_width: int_col(data, "screen_width"),
        screen_height: int_col(data, "screen_height"),
        country: text_col(data, "country"),
        region: text_col(data, "region"),
        city: text_col(data, "city"),
        loc: loc_col(data),
        utm_source: text_col(data, "utm_source"),
        utm_medium: text_col(data, "utm_medium"),
        utm_campaign: text_col(data, "utm_campaign"),
        utm_term: text_col(data, "utm_term"),
        utm_content: text_col(data, "utm_content"),
        time_on_page_ms: int_col(data, "time_on_page"),
    };
    let keys = hot_key_list();
    remove_all(data, &keys);
    h
}

/// Data key `k` holds the non-empty string `s`.
pub open spec fn holds_text(m: Map<Seq<char>, JsonView>, k: Seq<char>, s: Seq<char>) -> bool {
    m.contains_key(k) && m[k] == JsonView::Str(s) && s.len() > 0
}

/// Data key `k` holds a JSON number whose integer reading is `n`.
pub open spec fn holds_int(m: Map<Seq<char>, JsonView>, k: Seq<char>, n: i64) -> bool {
    m.contains_key(k) && (m[k] matches JsonView::Other { number: Some(x), .. } && x == n)
}

/// Each typed column is filled from the data key of its own name, and a
/// column whose key is missing stays empty: a string under `region` lands in
/// the region column, one under `city` in the city column, and so on for
/// every column (`time_on_page` fills the milliseconds column). So two keys
/// with different values give two columns with different values.
pub proof fn lemma_columns_from_their_own_keys(
    h: HotFields,
    m: Map<Seq<char>, JsonView>,
    ua: Option<Seq<char>>,
    s: Seq<char>,
    n: i64,
)
    requires
        hot_fields_match(h, m, ua),
    ensures
        holds_text(m, "region"@, s) ==> opt_chars(h.region) == Some(s),
        holds_text(m, "city"@, s) ==> opt_chars(h.city) == Some(s),
        holds_text(m, "country"@, s) ==> opt_chars(h.country) == Some(s),
        holds_text(m, "user_id"@, s) ==> opt_chars(h.user_id) == Some(s),
        holds_text(m, "url"@, s) ==> opt_chars(h.url) == Some(s),
        holds_text(m, "title"@, s) ==> opt_chars(h.title) == Some(s),
        holds_text(m, "referrer"@, s) ==> opt_chars(h.referrer) == Some(s),
        holds_text(m, "platform"@, s) ==> opt_chars(h.platform) == Some(s),
        holds_text(m, "browser"@, s) ==> opt_chars(h.browser) == Some(s),
        holds_text(m, "device"@, s) ==> opt_chars(h.device) == Some(s),
        holds_text(m, "utm_source"@, s) ==> opt_chars(h.utm_source) == Some(s),
        holds_text(m, "utm_medium"@, s) ==> opt_chars(h.utm_medium) == Some(s),
        holds_text(m, "utm_campaign"@, s) ==> opt_chars(h.utm_campaign) == Some(s),
        holds_text(m, "utm_term"@, s) ==> opt_chars(h.utm_term) == Some(s),
        holds_text(m, "utm_content"@, s) ==> opt_chars(h.utm_content) == Some(s),
        holds_int(m, "screen_width"@, n) ==> h.screen_width == Some(n),
        holds_int(m, "screen_height"@, n) ==> h.screen_height == Some(n),
        holds_int(m, "time_on_page"@, n) ==> h.time_on_page_ms == Some(n),
        !m.contains_key("region"@) ==> h.region is None,
        !m.contains_key("city"@) ==> h.city is None,
        !m.contains_key("country"@) ==> h.country is None,
        !m.contains_key("url"@) ==> h.url is None,
        !m.contains_key("loc"@) ==> h.loc is None,
        opt_chars(h.user_agent) == ua,
{
}

// ---------------------------------------------------------------------------
// Routing
// ---------------------------------------------------------------------------

/// Where an event is written: a bot's goes to `bot_events`, with the whole
/// data as its extra; a human's goes to `events` as typed columns, with the
/// rest of the data as its extra.
pub enum Routed {
    Bot(BotEvent),
    Human(HotFields),
}

/// Records the parsed user agent, when there is one, and routes the event:
/// to the bot table exactly when the user agent parses as a bot's, so that
/// human dashboards never see bot traffic. `ua` is the user agent with its
/// parse.
pub fn route_event(data: &mut EventData, ua: Option<(String, ParsedUa)>) -> (r: Routed)
    ensures
        (r is Bot) <==> (ua matches Some((_, p)) && p.is_bot),
        ua is None ==> (r matches Routed::Human(h) && hot_fields_match(h, old(data)@, None)
            && final(data)@ == old(data)@.remove_keys(hot_keys())),
        ua matches Some((u, p)) ==> {
            let m = with_ua(old(data)@, p@);
            if p.is_bot {
                &&& final(data)@ == m
                &&& r matches Routed::Bot(b)
                &&& opt_chars(b.bot_name) == p@.bot_name
                &&& opt_chars(b.url) == str_at(m, "url"@)
                &&& b.user_agent@ == u@
                &&& opt_chars(b.country) == str_at(m, "country"@)
            } else {
                &&& r matches Routed::Human(h)
                &&& hot_fields_match(h, m, Some(u@))
                &&& final(data)@ == m.remove_keys(hot_keys())
            }
        },
{
    match ua {
        None => Routed::Human(take_hot_fields(data, None)),
        Some((u, p)) => {
            apply_ua(data, &p);
            if p.is_bot {
                Routed::Bot(bot_event(data, &p, u.as_str()))
            } else {
                Routed::Human(take_hot_fields(data, Some(u)))
            }
        },
    }
}

} // verus!

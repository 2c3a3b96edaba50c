//! Template helpers: Jinja2-style HTML escaping, route URLs, human-friendly
//! times, asset paths from the Vite manifest, and URL encoding.
use vstd::prelude::*;
use vstd::utf8::encode_utf8;
use crate::text::{chars_of, concat, decimal, decimal_chars, int_text, owned, str_is, string_of};

verus! {

/// The `request` object templates see.
pub struct RequestCtx {
    pub url: String,
    pub url_root: String,
    pub base_url: String,
    pub path: String,
}

/// The `user` object templates see.
pub struct UserCtx {
    pub is_authenticated: bool,
}

/// The request context of a page at `path`.
pub fn request_ctx(path: &str) -> (r: RequestCtx)
    ensures
        r.url@ == Seq::<char>::empty(),
        r.url_root@ == "/"@,
        r.base_url@ == Seq::<char>::empty(),
        r.path@ == path@,
{
    proof {
        reveal_strlit("");
    }
    RequestCtx { url: owned(""), url_root: owned("/"), base_url: owned(""), path: owned(path) }
}

impl UserCtx {
    /// The default user: not signed in.
    pub fn anonymous() -> (r: UserCtx)
        ensures
            !r.is_authenticated,
    {
        UserCtx { is_authenticated: false }
    }
}

// ---------------------------------------------------------------------------
// HTML escaping
// ---------------------------------------------------------------------------

/// Jinja2's escaping of one character; `/` is left alone.
pub open spec fn escape_char(c: char) -> Seq<char> {
    if c == '&' {
        "&amp;"@
    } else if c == '<' {
        "&lt;"@
    } else if c == '>' {
        "&gt;"@
    } else if c == '"' {
        "&#34;"@
    } else if c == '\'' {
        "&#39;"@
    } else {
        seq![c]
    }
}

pub open spec fn escape_spec(s: Seq<char>) -> Seq<char>
    decreases s.len(),
{
    if s.len() == 0 {
        Seq::empty()
    } else {
        escape_spec(s.drop_last()) + escape_char(s.last())
    }
}

/// The characters that escaping removes from text.
pub open spec fn is_markup(c: char) -> bool {
    c == '<' || c == '>' || c == '"' || c == '\''
}

/// Escaped text never holds a raw `<`, `>`, `"` or `'`, so it cannot open a
/// tag or leave an attribute value.
pub proof fn lemma_escape_inert(s: Seq<char>)
    ensures
        forall|i: int| 0 <= i < escape_spec(s).len() ==> !is_markup(#[trigger] escape_spec(s)[i]),
    decreases s.len(),
{
    reveal_strlit("&amp;");
    reveal_strlit("&lt;");
    reveal_strlit("&gt;");
    reveal_strlit("&#34;");
    reveal_strlit("&#39;");
    if s.len() > 0 {
        lemma_escape_inert(s.drop_last());
        let a = escape_spec(s.drop_last());
        let b = escape_char(s.last());
        assert(forall|j: int| 0 <= j < b.len() ==> !is_markup(#[trigger] b[j]));
        assert forall|i: int| 0 <= i < escape_spec(s).len() implies !is_markup(#[trigger] escape_spec(s)[i]) by {
            if i < a.len() {
                assert(escape_spec(s)[i] == a[i]);
            } else {
                assert(escape_spec(s)[i] == b[i - a.len()]);
            }
        }
    }
}

/// Text without `&`, `<`, `>`, `"` or `'` is written as it is.
pub proof fn lemma_escape_plain(s: Seq<char>)
    requires
        forall|i: int| 0 <= i < s.len() ==> !is_markup(#[trigger] s[i]) && s[i] != '&',
    ensures
        escape_spec(s) == s,
    decreases s.len(),
{
    if s.len() > 0 {
        lemma_escape_plain(s.drop_last());
        assert(escape_char(s.last()) == seq![s.last()]);
        assert(escape_spec(s) =~= s.drop_last().push(s.last()));
    }
}

fn escape_char_exec(c: char) -> (r: Vec<char>)
    ensures
        r@ == escape_char(c),
{
    let s: &str = if c == '&' {
        "&amp;"
    } else if c == '<' {
        "&lt;"
    } else if c == '>' {
        "&gt;"
    } else if c == '"' {
        "&#34;"
    } else if c == '\'' {
        "&#39;"
    } else {
        let mut v: Vec<char> = Vec::new();
        v.push(c);
        assert(v@ =~= seq![c]);
        return v;
    };
    chars_of(s)
}

/// HTML-escapes text the way Jinja2 does: `&`, `<`, `>`, `"` and `'` become
/// entities; `/` stays as it is so asset URLs come through clean.
pub fn escape_html(s: &str) -> (r: String)
    ensures
        r@ == escape_spec(s@),
{
    let cs = chars_of(s);
    let mut out: Vec<char> = Vec::new();
    for i in 0..cs.len()
        invariant
            cs@ == s@,
            out@ == escape_spec(s@.take(i as int)),
    {
        let e = escape_char_exec(cs[i]);
        out = concat(out.as_slice(), e.as_slice());
        assert(s@.take((i + 1) as int).drop_last() =~= s@.take(i as int));
    }
    assert(s@.take(s@.len() as int) =~= s@);
    string_of(out.as_slice())
}

// ---------------------------------------------------------------------------
// Route URLs
// ---------------------------------------------------------------------------

/// Why `url_for` fails.
#[derive(PartialEq, Eq, Structural)]
pub enum UrlForError {
    /// The route name is not one the templates use.
    UnknownRoute,
    /// A keyword argument the route does not take was passed.
    UnknownKeyword,
}

/// The keyword argument a route takes, if any.
pub open spec fn route_param(endpoint: Seq<char>) -> Option<Seq<char>> {
    if endpoint == "property"@ || endpoint == "property_delete"@ || endpoint == "property_cards"@
        || endpoint == "property_public"@ {
        Some("property_id"@)
    } else if endpoint == "static"@ {
        Some("filename"@)
    } else {
        None
    }
}

/// The path of a route, given the text of its argument.
pub open spec fn route_path(endpoint: Seq<char>, arg: Seq<char>) -> Option<Seq<char>> {
    if endpoint == "home"@ || endpoint == "index"@ {
        Some("/"@)
    } else if endpoint == "login"@ {
        Some("/login"@)
    } else if endpoint == "logout"@ {
        Some("/logout"@)
    } else if endpoint == "properties"@ {
        Some("/properties"@)
    } else if endpoint == "property"@ {
        Some(seq!['/'] + arg)
    } else if endpoint == "property_delete"@ {
        Some("/properties/"@ + arg + "/delete"@)
    } else if endpoint == "property_cards"@ {
        Some("/properties/"@ + arg + "/cards"@)
    } else if endpoint == "property_public"@ {
        Some("/properties/"@ + arg + "/public"@)
    } else if endpoint == "documentation"@ {
        Some("/documentation"@)
    } else if endpoint == "changelog"@ {
        Some("/changelog"@)
    } else if endpoint == "favicon"@ {
        Some("/favicon.ico"@)
    } else if endpoint == "static"@ {
        Some("/static/"@ + arg)
    } else {
        None
    }
}

/// First keyword argument named `k`: its display text, or `None` when it is
/// none/undefined.
pub open spec fn kwarg(kw: Seq<(Seq<char>, Option<Seq<char>>)>, k: Seq<char>) -> Option<Option<Seq<char>>>
    decreases kw.len(),
{
    if kw.len() == 0 {
        None
    } else if kw[0].0 == k {
        Some(kw[0].1)
    } else {
        kwarg(kw.drop_first(), k)
    }
}

/// The text a route's argument contributes: empty when it is missing,
/// none or undefined.
pub open spec fn arg_text(kw: Seq<(Seq<char>, Option<Seq<char>>)>, endpoint: Seq<char>) -> Seq<char> {
    match route_param(endpoint) {
        Some(p) => match kwarg(kw, p) {
            Some(Some(t)) => t,
            _ => Seq::empty(),
        },
        None => Seq::empty(),
    }
}

/// `url_for(endpoint, **kwargs)`: an unknown route fails; a known one fails
/// if a keyword argument other than its own was passed.
pub open spec fn url_for_spec(endpoint: Seq<char>, kw: Seq<(Seq<char>, Option<Seq<char>>)>) -> Result<
    Seq<char>,
    UrlForError,
> {
    match route_path(endpoint, arg_text(kw, endpoint)) {
        None => Err(UrlForError::UnknownRoute),
        Some(path) => if exists|i: int|
            0 <= i < kw.len() && Some((#[trigger] kw[i]).0) != route_param(endpoint) {
            Err(UrlForError::UnknownKeyword)
        } else {
            Ok(path)
        },
    }
}

/// Every URL that `url_for` builds is a path on this site: it starts with `/`.
pub proof fn lemma_url_for_absolute(endpoint: Seq<char>, kw: Seq<(Seq<char>, Option<Seq<char>>)>)
    ensures
        url_for_spec(endpoint, kw) matches Ok(p) ==> p.len() > 0 && p[0] == '/',
{
    reveal_strlit("/");
    reveal_strlit("/login");
    reveal_strlit("/logout");
    reveal_strlit("/properties");
    reveal_strlit("/properties/");
    reveal_strlit("/documentation");
    reveal_strlit("/changelog");
    reveal_strlit("/favicon.ico");
    reveal_strlit("/static/");
    let a = arg_text(kw, endpoint);
    if let Some(p) = route_path(endpoint, a) {
        if endpoint == "property_delete"@ || endpoint == "property_cards"@ || endpoint == "property_public"@ {
            assert(p[0] == "/properties/"@[0]);
        } else if endpoint == "static"@ {
            assert(p[0] == "/static/"@[0]);
        }
    }
}

pub open spec fn kw_view(kw: Seq<(String, Option<String>)>) -> Seq<(Seq<char>, Option<Seq<char>>)> {
    kw.map_values(
        |e: (String, Option<String>)|
            (
                e.0@,
                match e.1 {
                    Some(s) => Some(s@),
                    None => None,
                },
            ),
    )
}

fn kwarg_exec(kw: &Vec<(String, Option<String>)>, k: &str) -> (r: Option<Option<String>>)
    ensures
        match r {
            None => kwarg(kw_view(kw@), k@) is None,
            Some(None) => kwarg(kw_view(kw@), k@) == Some(None::<Seq<char>>),
            Some(Some(t)) => kwarg(kw_view(kw@), k@) == Some(Some(t@)),
        },
{
    let ghost v = kw_view(kw@);
    let mut i: usize = 0;
    assert(v.subrange(0, v.len() as int) =~= v);
    while i < kw.len()
        invariant
            v == kw_view(kw@),
            i <= kw@.len(),
            kwarg(v, k@) == kwarg(v.subrange(i as int, v.len() as int), k@),
        decreases kw@.len() - i,
    {
        let ghost t = v.subrange(i as int, v.len() as int);
        assert(t.drop_first() =~= v.subrange(i + 1, v.len() as int));
        assert(t[0] == v[i as int]);
        if str_is(kw[i].0.as_str(), k) {
            return Some(kw[i].1.clone());
        }
        i = i + 1;
    }
    None
}

fn join3(a: &str, b: &[char], c: &str) -> (r: Vec<char>)
    ensures
        r@ == a@ + b@ + c@,
{
    let ac = chars_of(a);
    let cc = chars_of(c);
    let ab = concat(ac.as_slice(), b);
    concat(ab.as_slice(), cc.as_slice())
}

/// The URL of a named route, for the templates' `url_for`. `kwargs` holds
/// each keyword argument's name and display text (`None` for none/undefined).
pub fn url_for(endpoint: &str, kwargs: &Vec<(String, Option<String>)>) -> (r: Result<String, UrlForError>)
    ensures
        match r {
            Ok(p) => url_for_spec(endpoint@, kw_view(kwargs@)) == Ok::<Seq<char>, UrlForError>(p@),
            Err(e) => url_for_spec(endpoint@, kw_view(kwargs@)) == Err::<Seq<char>, UrlForError>(e),
        },
{
    let ghost kv = kw_view(kwargs@);
    let param: Option<&str> = if str_is(endpoint, "property") || str_is(endpoint, "property_delete") || str_is(
        endpoint,
        "property_cards",
    ) || str_is(endpoint, "property_public") {
        Some("property_id")
    } else if str_is(endpoint, "static") {
        Some("filename")
    } else {
        None
    };
    assert(match param {
        Some(p) => route_param(endpoint@) == Some(p@),
        None => route_param(endpoint@) is None,
    });
    let arg: Vec<char> = match param {
        Some(p) => match kwarg_exec(kwargs, p) {
            Some(Some(t)) => chars_of(t.as_str()),
            _ => Vec::new(),
        },
        None => Vec::new(),
    };
    assert(arg@ =~= arg_text(kv, endpoint@));
    let path: Vec<char> = if str_is(endpoint, "home") || str_is(endpoint, "index") {
        chars_of("/")
    } else if str_is(endpoint, "login") {
        chars_of("/login")
    } else if str_is(endpoint, "logout") {
        chars_of("/logout")
    } else if str_is(endpoint, "properties") {
        chars_of("/properties")
    } else if str_is(endpoint, "property") {
        let mut s: Vec<char> = Vec::new();
        s.push('/');
        let r = concat(s.as_slice(), arg.as_slice());
        assert(r@ =~= seq!['/'] + arg@);
        r
    } else if str_is(endpoint, "property_delete") {
        join3("/properties/", arg.as_slice(), "/delete")
    } else if str_is(endpoint, "property_cards") {
        join3("/properties/", arg.as_slice(), "/cards")
    } else if str_is(endpoint, "property_public") {
        join3("/properties/", arg.as_slice(), "/public")
    } else if str_is(endpoint, "documentation") {
        chars_of("/documentation")
    } else if str_is(endpoint, "changelog") {
        chars_of("/changelog")
    } else if str_is(endpoint, "favicon") {
        chars_of("/favicon.ico")
    } else if str_is(endpoint, "static") {
        let pre = chars_of("/static/");
        concat(pre.as_slice(), arg.as_slice())
    } else {
        return Err(UrlForError::UnknownRoute);
    };
    assert(route_path(endpoint@, arg@) == Some(path@));
    let mut i: usize = 0;
    while i < kwargs.len()
        invariant
            kv == kw_view(kwargs@),
            i <= kwargs@.len(),
            route_path(endpoint@, arg_text(kv, endpoint@)) == Some(path@),
            match param {
                Some(p) => route_param(endpoint@) == Some(p@),
                None => route_param(endpoint@) is None,
            },
            forall|j: int| 0 <= j < i ==> Some((#[trigger] kv[j]).0) == route_param(endpoint@),
        decreases kwargs@.len() - i,
    {
        let used = match param {
            Some(p) => str_is(kwargs[i].0.as_str(), p),
            None => false,
        };
        if !used {
            assert(Some(kv[i as int].0) != route_param(endpoint@));
            return Err(UrlForError::UnknownKeyword);
        }
        i = i + 1;
    }
    Ok(string_of(path.as_slice()))
}

// ---------------------------------------------------------------------------
// Human-friendly times
// ---------------------------------------------------------------------------

/// `n unit` or `n units ago`.
pub open spec fn ago(n: int, unit: Seq<char>) -> Seq<char> {
    int_text(n) + seq![' '] + unit + (if n == 1 { Seq::empty() } else { seq!['s'] }) + " ago"@
}

/// Django's `naturaltime` for a time `secs` seconds in the past.
pub open spec fn natural_time_spec(secs: int) -> Seq<char> {
    if secs < 60 {
        "just now"@
    } else if secs < 3600 {
        ago(secs / 60, "minute"@)
    } else if secs < 86400 {
        ago(secs / 3600, "hour"@)
    } else if secs < 2592000 {
        ago(secs / 86400, "day"@)
    } else if secs < 31536000 {
        ago(secs / 2592000, "month"@)
    } else {
        ago(secs / 31536000, "year"@)
    }
}

fn ago_exec(n: i64, unit: &str) -> (r: String)
    requires
        n >= 1,
    ensures
        r@ == ago(n as int, unit@),
{
    let d = decimal_chars(n as u64);
    let mut sp: Vec<char> = Vec::new();
    sp.push(' ');
    let u = chars_of(unit);
    let a = concat(d.as_slice(), sp.as_slice());
    let b = concat(a.as_slice(), u.as_slice());
    let c = if n == 1 {
        b
    } else {
        let mut s: Vec<char> = Vec::new();
        s.push('s');
        concat(b.as_slice(), s.as_slice())
    };
    let tail = chars_of(" ago");
    let r = concat(c.as_slice(), tail.as_slice());
    assert(int_text(n as int) == decimal(n as nat));
    assert(r@ =~= ago(n as int, unit@));
    string_of(r.as_slice())
}

/// How long ago something happened, given the seconds since then.
pub fn natural_time(secs: i64) -> (r: String)
    ensures
        r@ == natural_time_spec(secs as int),
{
    if secs < 60 {
        owned("just now")
    } else if secs < 3600 {
        ago_exec(secs / 60, "minute")
    } else if secs < 86400 {
        ago_exec(secs / 3600, "hour")
    } else if secs < 2592000 {
        ago_exec(secs / 86400, "day")
    } else if secs < 31536000 {
        ago_exec(secs / 2592000, "month")
    } else {
        ago_exec(secs / 31536000, "year")
    }
}

// ---------------------------------------------------------------------------
// Vite assets
// ---------------------------------------------------------------------------

/// Whole seconds from the instant an RFC 3339 text names to the UTC instant
/// `now_secs` (unix seconds) plus `now_nanos`, or `None` when the text is not
/// RFC 3339 or `now` is not an instant chrono represents.
pub uninterp spec fn rfc3339_age(text: Seq<char>, now_secs: int, now_nanos: int) -> Option<int>;

/// `DateTime::parse_from_rfc3339`, then chrono's `signed_duration_since` from
/// that instant to `now`, in whole seconds (`num_seconds`). The arithmetic on
/// instants (leap seconds included) is chrono's and is only named here.
#[verifier::external_body]
fn age_seconds(text: &str, now_secs: i64, now_nanos: u32) -> (r: Option<i64>)
    ensures
        match r {
            Some(a) => rfc3339_age(text@, now_secs as int, now_nanos as int) == Some(a as int),
            None => rfc3339_age(text@, now_secs as int, now_nanos as int) is None,
        },
{
    let then = chrono::DateTime::parse_from_rfc3339(text).ok()?.with_timezone(&chrono::Utc);
    let now = chrono::DateTime::<chrono::Utc>::from_timestamp(now_secs, now_nanos)?;
    Some(now.signed_duration_since(then).num_seconds())
}

/// The templates' `naturaltime` filter at the instant `now`: how long ago the
/// RFC 3339 time `text` was, or `text` itself when it is not such a time.
pub fn natural_time_value(text: &str, now_secs: i64, now_nanos: u32) -> (r: String)
    ensures
        r@ == match rfc3339_age(text@, now_secs as int, now_nanos as int) {
            Some(a) => natural_time_spec(a),
            None => text@,
        },
{
    match age_seconds(text, now_secs, now_nanos) {
        Some(a) => natural_time(a),
        None => owned(text),
    }
}

/// What the Vite manifest says of one entry: its first CSS file and its file.
pub struct ManifestChunk {
    pub first_css: Option<String>,
    pub file: Option<String>,
}

/// `vite_asset(entry, kind)`: a CSS request takes the entry's first CSS file,
/// otherwise its file; an entry missing from the manifest is served as is.
pub open spec fn asset_path_spec(
    entry: Seq<char>,
    kind: Seq<char>,
    chunk: Option<(Option<Seq<char>>, Option<Seq<char>>)>,
) -> Seq<char> {
    let fallback = "/static/"@ + entry;
    match chunk {
        None => fallback,
        Some((css, file)) => if kind == "css"@ && css is Some {
            "/static/"@ + css->0
        } else {
            match file {
                Some(f) => "/static/"@ + f,
                None => fallback,
            }
        },
    }
}

pub open spec fn chunk_view(c: Option<ManifestChunk>) -> Option<(Option<Seq<char>>, Option<Seq<char>>)> {
    match c {
        None => None,
        Some(m) => Some(
            (
                match m.first_css {
                    Some(s) => Some(s@),
                    None => None,
                },
                match m.file {
                    Some(s) => Some(s@),
                    None => None,
                },
            ),
        ),
    }
}

fn static_path(name: &str) -> (r: String)
    ensures
        r@ == "/static/"@ + name@,
{
    let pre = chars_of("/static/");
    let n = chars_of(name);
    let r = concat(pre.as_slice(), n.as_slice());
    string_of(r.as_slice())
}

pub fn asset_path(entry: &str, kind: &str, chunk: &Option<ManifestChunk>) -> (r: String)
    ensures
        r@ == asset_path_spec(entry@, kind@, chunk_view(*chunk)),
{
    match chunk {
        None => static_path(entry),
        Some(m) => {
            if str_is(kind, "css") && m.first_css.is_some() {
                match &m.first_css {
                    Some(c) => static_path(c.as_str()),
                    None => static_path(entry),
                }
            } else {
                match &m.file {
                    Some(f) => static_path(f.as_str()),
                    None => static_path(entry),
                }
            }
        },
    }
}

// ---------------------------------------------------------------------------
// URL encoding
// ---------------------------------------------------------------------------

/// Bytes that `urlencoding` leaves as they are.
pub open spec fn unreserved(b: u8) -> bool {
    (48 <= b <= 57) || (65 <= b <= 90) || (97 <= b <= 122) || b == 45 || b == 46 || b == 95 || b == 126
}

pub open spec fn hex_upper(n: u8) -> char {
    if n < 10 {
        (48 + n) as char
    } else {
        (55 + n) as char
    }
}

/// Percent-encoding of a byte sequence.
pub open spec fn percent_encode(b: Seq<u8>) -> Seq<char>
    decreases b.len(),
{
    if b.len() == 0 {
        Seq::empty()
    } else {
        let x = b.last();
        percent_encode(b.drop_last()) + if unreserved(x) {
            seq![x as char]
        } else {
            seq!['%', hex_upper(x / 16), hex_upper(x % 16)]
        }
    }
}

/// `urlencoding::encode`: every UTF-8 byte except ASCII alphanumerics and
/// `-`, `.`, `_`, `~` is written `%XX` with upper-case hex digits; the
/// contract states that encoding.
#[verifier::external_body]
fn url_encode(s: &str) -> (r: String)
    ensures
        r@ == percent_encode(encode_utf8(s@)),
{
    urlencoding::encode(s).into_owned()
}

/// The templates' `urlencode` filter on a value's text.
pub fn urlencode_filter(s: &str) -> (r: String)
    ensures
        r@ == percent_encode(encode_utf8(s@)),
{
    url_encode(s)
}

} // verus!

//! Operator authentication: the session cookie's value and validity, where
//! to go after logging in, and the settings the server starts from.
use vstd::prelude::*;
use vstd::string::StringSliceAdditionalSpecFns;
use vstd::utf8::encode_utf8;
use base64::Engine;
use sha2::{Digest, Sha512};
use crate::collector::first_idx;
use crate::text::{
    chars_eq, chars_of, concat, has_prefix, i64_chars, int_text, owned, parse_i64, parse_int, slice_chars,
    starts_with, string_of,
};

verus! {

/// The login form.
pub struct LoginForm {
    pub password: String,
    pub next: Option<String>,
}

/// Name of the session cookie.
pub const COOKIE_NAME: &'static str = "session";

/// How long a session lasts, in seconds: 30 days.
pub const SESSION_TTL_SECS: i64 = 2592000;

/// A session cookie value `1:<expiry>` is valid while `now` (unix seconds)
/// is before the expiry.
pub open spec fn session_ok(v: Seq<char>, now: int) -> bool {
    let i = first_idx(v, ':') as int;
    &&& i < v.len()
    &&& v.subrange(0, i) == seq!['1']
    &&& parse_int(v.subrange(i + 1, v.len() as int)) matches Some(exp) && now < exp
}

/// Whether the request carries a valid, unexpired session: `session` is the
/// value of the signed cookie when its signature checked out.
pub fn is_authenticated(session: Option<&str>, now_secs: i64) -> (b: bool)
    ensures
        b == (session matches Some(v) && session_ok(v@, now_secs as int)),
{
    let v = match session {
        Some(v) => v,
        None => return false,
    };
    let cs = chars_of(v);
    let n = cs.len();
    let mut i: usize = 0;
    while i < n && cs[i] != ':'
        invariant
            n == cs@.len(),
            cs@ == v@,
            i <= n,
            forall|j: int| 0 <= j < i ==> cs@[j] != ':',
        decreases n - i,
    {
        i = i + 1;
    }
    proof {
        crate::collector::lemma_first_idx(v@, ':', i as int);
    }
    if i == n {
        return false;
    }
    let flag = slice_chars(cs.as_slice(), 0, i);
    let one: Vec<char> = vec!['1'];
    assert(one@ =~= seq!['1']);
    assert(first_idx(v@, ':') == i);
    if !chars_eq(flag.as_slice(), one.as_slice()) {
        return false;
    }
    let exp = slice_chars(cs.as_slice(), i + 1, n);
    match parse_i64(exp.as_slice()) {
        Some(e) => now_secs < e,
        None => false,
    }
}

/// Value stored in a fresh session cookie: `1:` and the expiry in unix seconds.
pub open spec fn session_value_spec(now: int) -> Seq<char> {
    seq!['1', ':'] + int_text(now + SESSION_TTL_SECS)
}

pub fn session_value(now_secs: i64) -> (r: String)
    requires
        now_secs + SESSION_TTL_SECS <= i64::MAX,
    ensures
        r@ == session_value_spec(now_secs as int),
{
    let exp = i64_chars(now_secs + SESSION_TTL_SECS);
    let head: Vec<char> = vec!['1', ':'];
    let v = concat(head.as_slice(), exp.as_slice());
    string_of(v.as_slice())
}

/// A session issued at `now` lets its holder in at every time before its
/// expiry, `now` plus thirty days, and at none after.
pub proof fn lemma_session_lasts(now: int, t: int)
    requires
        i64::MIN <= now + SESSION_TTL_SECS <= i64::MAX,
    ensures
        session_ok(session_value_spec(now), t) <==> t < now + SESSION_TTL_SECS,
{
    let v = session_value_spec(now);
    crate::text::lemma_parse_int_text(now + SESSION_TTL_SECS);
    crate::collector::lemma_first_idx(v, ':', 1);
    assert(v[1] == ':');
    assert(v.subrange(0, 1) =~= seq!['1']);
    assert(v.subrange(2, v.len() as int) =~= int_text(now + SESSION_TTL_SECS));
}

/// Where to go after logging in: `next` when it is a local path (starts with
/// `/` but not `//`), else the property list.
pub open spec fn next_target_spec(next: Option<Seq<char>>) -> Seq<char> {
    match next {
        Some(n) => if has_prefix(n, seq!['/']) && !has_prefix(n, seq!['/', '/']) {
            n
        } else {
            "/properties"@
        },
        None => "/properties"@,
    }
}

/// Whatever `next` a login carries, it sends the browser to a path of this
/// site: one that starts with `/` but not with `//`.
pub proof fn lemma_next_target_local(next: Option<Seq<char>>)
    ensures
        has_prefix(next_target_spec(next), seq!['/']),
        !has_prefix(next_target_spec(next), seq!['/', '/']),
{
    reveal_strlit("/properties");
    let p = "/properties"@;
    assert(p.subrange(0, 1) =~= seq!['/']);
    assert(p.subrange(0, 2) != seq!['/', '/']) by {
        assert(p.subrange(0, 2)[1] == 'p');
    }
}

pub fn next_target(next: Option<&str>) -> (r: String)
    ensures
        r@ == next_target_spec(
            match next {
                Some(n) => Some(n@),
                None => None,
            },
        ),
{
    match next {
        Some(n) => {
            let cs = chars_of(n);
            let one: Vec<char> = vec!['/'];
            let two: Vec<char> = vec!['/', '/'];
            assert(one@ =~= seq!['/']);
            assert(two@ =~= seq!['/', '/']);
            if starts_with(cs.as_slice(), one.as_slice()) && !starts_with(cs.as_slice(), two.as_slice()) {
                owned(n)
            } else {
                owned("/properties")
            }
        },
        None => owned("/properties"),
    }
}

/// Whether the submitted password is the configured one.
pub fn password_matches(given: &str, expected: &str) -> (b: bool)
    ensures
        b == (given@ == expected@),
{
    crate::text::str_is(given, expected)
}

// ---------------------------------------------------------------------------
// Settings
// ---------------------------------------------------------------------------

/// SHA-512 digest of a byte sequence.
pub uninterp spec fn sha512_digest(data: Seq<u8>) -> Seq<u8>;

/// Hashes bytes with `sha2::Sha512::digest`. SHA-512 is named, not spelled
/// out; the contract adds that a digest is 64 bytes.
#[verifier::external_body]
fn sha512(data: &[u8]) -> (r: Vec<u8>)
    ensures
        r@ == sha512_digest(data@),
        r@.len() == 64,
{
    Sha512::digest(data).to_vec()
}

/// A character of the standard base64 alphabet.
pub open spec fn b64_char(n: int) -> char {
    if n < 26 {
        (65 + n) as char
    } else if n < 52 {
        (97 + n - 26) as char
    } else if n < 62 {
        (48 + n - 52) as char
    } else if n == 62 {
        '+'
    } else {
        '/'
    }
}

/// Standard base64 with `=` padding (RFC 4648, section 4).
pub open spec fn base64_spec(s: Seq<u8>) -> Seq<char>
    decreases s.len(),
{
    if s.len() == 0 {
        Seq::empty()
    } else {
        let a = s[0] as int;
        let b = if s.len() > 1 { s[1] as int } else { 0 };
        let c = if s.len() > 2 { s[2] as int } else { 0 };
        if s.len() == 1 {
            seq![b64_char(a / 4), b64_char((a % 4) * 16), '=', '=']
        } else if s.len() == 2 {
            seq![b64_char(a / 4), b64_char((a % 4) * 16 + b / 16), b64_char((b % 16) * 4), '=']
        } else {
            seq![b64_char(a / 4), b64_char((a % 4) * 16 + b / 16), b64_char((b % 16) * 4 + c / 64), b64_char(c % 64)]
                + base64_spec(s.subrange(3, s.len() as int))
        }
    }
}

/// Encodes bytes with `base64::engine::general_purpose::STANDARD`, the
/// standard alphabet with padding; the contract states that encoding.
#[verifier::external_body]
fn base64_standard(data: &[u8]) -> (r: String)
    ensures
        r@ == base64_spec(data@),
{
    base64::engine::general_purpose::STANDARD.encode(data)
}

/// The cookie-signing secret derived from the password when none is
/// configured: base64 of SHA-512 over `analytics-cookie:` and the password.
pub open spec fn derived_secret(password: Seq<char>) -> Seq<char> {
    base64_spec(sha512_digest(encode_utf8("analytics-cookie:"@) + encode_utf8(password)))
}

/// Settings the server starts from, after defaults.
pub struct Settings {
    pub password: String,
    pub base_url: String,
    pub cookie_secret: String,
}

/// Why the server cannot start from its settings.
#[derive(PartialEq, Eq, Structural)]
pub enum SettingsError {
    /// No operator password is configured; it is a required setting.
    MissingPassword,
}

/// The settings: the password is required; the base URL defaults to empty,
/// and the cookie secret to one derived from the password.
pub fn resolve_settings(password: Option<String>, base_url: Option<String>, cookie_secret: Option<String>) -> (r:
    Result<Settings, SettingsError>)
    ensures
        password is None <==> r == Err::<Settings, SettingsError>(SettingsError::MissingPassword),
        r matches Ok(st) ==> {
            &&& password matches Some(p) && st.password@ == p@
            &&& st.base_url@ == (match base_url {
                Some(b) => b@,
                None => Seq::<char>::empty(),
            })
            &&& st.cookie_secret@ == (match cookie_secret {
                Some(c) => c@,
                None => derived_secret(st.password@),
            })
        },
{
    let password = match password {
        Some(p) => p,
        None => return Err(SettingsError::MissingPassword),
    };
    let base_url = match base_url {
        Some(b) => b,
        None => {
            proof {
                reveal_strlit("");
            }
            owned("")
        },
    };
    let cookie_secret = match cookie_secret {
        Some(c) => c,
        None => {
            let prefix = "analytics-cookie:".as_bytes();
            let pw = password.as_str().as_bytes();
            let mut data: Vec<u8> = Vec::new();
            for i in 0..prefix.len()
                invariant
                    data@ == prefix@.take(i as int),
            {
                data.push(prefix[i]);
                assert(data@ =~= prefix@.take((i + 1) as int));
            }
            assert(prefix@.take(prefix@.len() as int) =~= prefix@);
            for i in 0..pw.len()
                invariant
                    data@ == prefix@ + pw@.take(i as int),
            {
                data.push(pw[i]);
                assert(data@ =~= prefix@ + pw@.take((i + 1) as int));
            }
            assert(pw@.take(pw@.len() as int) =~= pw@);
            let digest = sha512(data.as_slice());
            base64_standard(digest.as_slice())
        },
    };
    Ok(Settings { password, base_url, cookie_secret })
}

} // verus!

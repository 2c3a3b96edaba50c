//! Property identifiers: 16-byte UUIDs stored as BLOBs, written in the
//! hyphenated lower-case form in URLs and settings.
use vstd::prelude::*;
use uuid::Uuid;

verus! {

/// Bytes of the UUID that `uuid::Uuid::parse_str` reads from a text, or
/// `None` when it rejects the text.
pub uninterp spec fn uuid_parse(s: Seq<char>) -> Option<Seq<u8>>;

/// Parses a UUID with `uuid::Uuid::parse_str` (simple, hyphenated, URN or
/// braced forms) and returns its 16 bytes. The accepted grammar is named, not
/// spelled out.
#[verifier::external_body]
pub(crate) fn parse_uuid(s: &str) -> (r: Option<[u8; 16]>)
    ensures
        r matches Some(b) ==> uuid_parse(s@) == Some(b@),
        r is None ==> uuid_parse(s@) is None,
{
    match Uuid::parse_str(s) {
        Ok(u) => Some(*u.as_bytes()),
        Err(_) => None,
    }
}

pub open spec fn hex_digit(n: u8) -> char {
    if n < 10 {
        ((n as u32) + 48) as char
    } else {
        ((n as u32) + 87) as char
    }
}

/// Two lower-case hex digits of a byte.
pub open spec fn hex_byte(b: u8) -> Seq<char> {
    seq![hex_digit(b / 16), hex_digit(b % 16)]
}

pub open spec fn hex_bytes(s: Seq<u8>) -> Seq<char>
    decreases s.len(),
{
    if s.len() == 0 {
        Seq::empty()
    } else {
        hex_bytes(s.drop_last()) + hex_byte(s.last())
    }
}

/// The hyphenated form `xxxxxxxx-xxxx-xxxx-xxxx-xxxxxxxxxxxx` in lower case.
pub open spec fn hyphenated(b: Seq<u8>) -> Seq<char> {
    hex_bytes(b.subrange(0, 4)) + seq!['-'] + hex_bytes(b.subrange(4, 6)) + seq!['-'] + hex_bytes(
        b.subrange(6, 8),
    ) + seq!['-'] + hex_bytes(b.subrange(8, 10)) + seq!['-'] + hex_bytes(b.subrange(10, 16))
}

/// Formats a UUID with `Uuid::to_string`, whose `Display` writes the
/// hyphenated lower-case form; the contract states that form.
#[verifier::external_body]
pub(crate) fn uuid_text(id: &[u8; 16]) -> (r: String)
    ensures
        r@ == hyphenated(id@),
{
    Uuid::from_bytes(*id).to_string()
}

/// The proprium property recorded in the settings table: the stored text
/// read as a UUID, or `None` when nothing is stored or it does not parse
/// (then a new proprium property is made).
pub fn stored_proprium(value: Option<&str>) -> (r: Option<[u8; 16]>)
    ensures
        value is None ==> r is None,
        value matches Some(v) ==> match uuid_parse(v@) {
            Some(b) => r matches Some(a) && a@ == b,
            None => r is None,
        },
{
    match value {
        Some(v) => parse_uuid(v),
        None => None,
    }
}

/// `Uuid::from_slice`: a UUID from exactly 16 bytes.
pub fn uuid_from_slice(b: &[u8]) -> (r: Option<[u8; 16]>)
    ensures
        b@.len() == 16 <==> r is Some,
        r matches Some(a) ==> a@ == b@,
{
    if b.len() != 16 {
        return None;
    }
    let mut a: [u8; 16] = [0u8; 16];
    for i in 0..16
        invariant
            b@.len() == 16,
            a@.len() == 16,
            forall|k: int| 0 <= k < i ==> a@[k] == b@[k],
    {
        a[i] = b[i];
    }
    assert(a@ =~= b@);
    Some(a)
}

} // verus!

//! The GeoIP database: when to fetch a fresh copy, which monthly DB-IP files
//! to try, unpacking the download, and how a lookup's region is labelled.
use std::io::Read;
use vstd::prelude::*;
use crate::text::{append, concat, decimal, decimal_chars, i64_chars, int_text, owned, string_of};

verus! {

/// Seconds in 30 days: a database file younger than this is kept.
pub const DB_MAX_AGE_SECS: u64 = 2592000;

/// The first year `chrono::NaiveDate` represents.
pub const CALENDAR_MIN_YEAR: i32 = -262143;

/// The last year `chrono::NaiveDate` represents.
pub const CALENDAR_MAX_YEAR: i32 = 262142;

/// Whether the database must be fetched: when there is no file (or its age
/// could not be read), or when the file is 30 days old or older.
pub fn needs_download(age_secs: Option<u64>) -> (b: bool)
    ensures
        b == match age_secs {
            None => true,
            Some(a) => a >= DB_MAX_AGE_SECS,
        },
{
    match age_secs {
        None => true,
        Some(a) => a >= DB_MAX_AGE_SECS,
    }
}

/// `chrono::NaiveDate::from_ymd_opt(year, month, 1)` exists. Its source
/// accepts month 1 to 12 with day 1 exactly when the year lies in
/// `MIN_YEAR..=MAX_YEAR`, which it defines as -262143 and 262142.
#[verifier::external_body]
fn first_of_month_exists(year: i32, month: u32) -> (b: bool)
    ensures
        b == (1 <= month <= 12 && CALENDAR_MIN_YEAR <= year <= CALENDAR_MAX_YEAR),
{
    chrono::NaiveDate::from_ymd_opt(year, month, 1).is_some()
}

/// How many years back `offset` months before `month` falls.
pub open spec fn years_back(month: int, offset: int) -> int {
    let m = month - offset;
    if m > 0 { 0 } else { (-m) / 12 + 1 }
}

/// The first of the month `offset` months before `(year, month)`, or the
/// date itself when that month lies outside the calendar's years.
pub open spec fn month_offset_spec(year: int, month: int, day: int, offset: int) -> (int, int, int) {
    let k = years_back(month, offset);
    let y = year - k;
    let m = month - offset + 12 * k;
    if CALENDAR_MIN_YEAR <= y <= CALENDAR_MAX_YEAR {
        (y, m, 1)
    } else {
        (year, month, day)
    }
}

/// The first of the month `offset` months before the date
/// `(year, month, day)`, or that date when the month found has no first day
/// in the calendar.
pub fn month_offset(year: i32, month: u32, day: u32, offset: i64) -> (r: (i32, u32, u32))
    requires
        1 <= month <= 12,
        0 <= offset,
        year - offset / 12 - 1 >= i32::MIN,
    ensures
        (r.0 as int, r.1 as int, r.2 as int) == month_offset_spec(year as int, month as int, day as int, offset as int),
        1 <= r.1 <= 12,
{
    let m0: i64 = month as i64 - offset;
    let k: i64 = if m0 > 0 { 0 } else { (-m0) / 12 + 1 };
    assert(k <= offset / 12 + 1) by {
        if m0 <= 0 {
            assert((-m0) <= offset);
        }
    }
    let m: i64 = m0 + 12 * k;
    assert(1 <= m <= 12) by {
        if m0 <= 0 {
            assert((-m0) == 12 * ((-m0) / 12) + (-m0) % 12);
        }
    }
    let y: i64 = year as i64 - k;
    let yy = y as i32;
    let mm = m as u32;
    if first_of_month_exists(yy, mm) {
        (yy, mm, 1)
    } else {
        (year, month, day)
    }
}

/// A number written with at least two digits, as `{:02}` writes it.
pub open spec fn two_digits(n: nat) -> Seq<char> {
    if n < 10 { seq!['0'] + decimal(n) } else { decimal(n) }
}

/// The DB-IP City Lite file of a month.
pub open spec fn dbip_url_spec(year: int, month: nat) -> Seq<char> {
    "https://download.db-ip.com/free/dbip-city-lite-"@ + int_text(year) + seq!['-'] + two_digits(month)
        + ".mmdb.gz"@
}

pub fn dbip_url(year: i32, month: u32) -> (r: String)
    ensures
        r@ == dbip_url_spec(year as int, month as nat),
{
    let mut b: Vec<char> = Vec::new();
    append(&mut b, "https://download.db-ip.com/free/dbip-city-lite-");
    let y = i64_chars(year as i64);
    let mut b2 = concat(b.as_slice(), y.as_slice());
    b2.push('-');
    let ghost head = b2@;
    if month < 10 {
        b2.push('0');
    }
    let d = decimal_chars(month as u64);
    let mut b3 = concat(b2.as_slice(), d.as_slice());
    let ghost body = b3@;
    append(&mut b3, ".mmdb.gz");
    assert(body =~= head + two_digits(month as nat));
    assert(b3@ =~= dbip_url_spec(year as int, month as nat));
    string_of(b3.as_slice())
}

/// The files to try, in order: this month's, last month's, and the one
/// before (a month's file appears some hours after the month begins).
pub fn candidate_urls(year: i32, month: u32, day: u32) -> (r: Vec<String>)
    requires
        1 <= month <= 12,
        year - 1 >= i32::MIN,
    ensures
        r@.len() == 3,
        forall|i: int| 0 <= i < 3 ==> {
            let t = month_offset_spec(year as int, month as int, day as int, i);
            (#[trigger] r@[i])@ == dbip_url_spec(t.0, t.1 as nat)
        },
{
    let mut r: Vec<String> = Vec::new();
    let mut off: i64 = 0;
    while off < 3
        invariant
            0 <= off <= 3,
            1 <= month <= 12,
            year - 1 >= i32::MIN,
            r@.len() == off,
            forall|i: int| 0 <= i < off ==> {
                let t = month_offset_spec(year as int, month as int, day as int, i);
                (#[trigger] r@[i])@ == dbip_url_spec(t.0, t.1 as nat)
            },
        decreases 3 - off,
    {
        let t = month_offset(year, month, day, off);
        r.push(dbip_url(t.0, t.1));
        off = off + 1;
    }
    r
}

/// What gunzipping `data` gives: the decompressed bytes, or `None` when
/// `data` is not a complete gzip stream.
pub uninterp spec fn gzip_decode(data: Seq<u8>) -> Option<Seq<u8>>;

/// `flate2::read::GzDecoder` read to its end over `data`. Its header parser
/// refuses input shorter than the ten-byte gzip header and input that does
/// not begin with the gzip magic bytes 0x1f 0x8b; beyond that the contract
/// only ties the result to `gzip_decode` of the input.
#[verifier::external_body]
fn gunzip(data: &[u8]) -> (r: Option<Vec<u8>>)
    ensures
        match r {
            Some(v) => gzip_decode(data@) == Some(v@),
            None => gzip_decode(data@) is None,
        },
        data@.len() < 10 || data@[0] != 0x1f || data@[1] != 0x8b ==> r is None,
{
    let mut decoder = flate2::read::GzDecoder::new(data);
    let mut out: Vec<u8> = Vec::new();
    match decoder.read_to_end(&mut out) {
        Ok(_) => Some(out),
        Err(_) => None,
    }
}

/// The database file a download unpacks to, or `None` when the download is
/// not a gzip stream.
pub fn unpack_db(download: &[u8]) -> (r: Option<Vec<u8>>)
    ensures
        match r {
            Some(v) => gzip_decode(download@) == Some(v@),
            None => gzip_decode(download@) is None,
        },
        download@.len() < 10 || download@[0] != 0x1f || download@[1] != 0x8b ==> r is None,
{
    gunzip(download)
}

/// The region of a lookup: the first subdivision's English name, else its
/// ISO code.
pub fn region_label(name_en: Option<&str>, iso_code: Option<&str>) -> (r: Option<String>)
    ensures
        match name_en {
            Some(n) => r matches Some(s) && s@ == n@,
            None => match iso_code {
                Some(c) => r matches Some(s) && s@ == c@,
                None => r is None,
            },
        },
{
    match name_en {
        Some(n) => Some(owned(n)),
        None => match iso_code {
            Some(c) => Some(owned(c)),
            None => None,
        },
    }
}

} // verus!

//! The sitemap of the public pages.
use vstd::prelude::*;
use crate::text::{append, string_of};

verus! {

/// `s` without its trailing slashes.
pub open spec fn strip_slashes(s: Seq<char>) -> Seq<char>
    decreases s.len(),
{
    if s.len() > 0 && s.last() == '/' {
        strip_slashes(s.drop_last())
    } else {
        s
    }
}

/// The site root the sitemap lists pages under: `/` when no base URL is
/// configured, else the base URL with exactly one trailing slash.
pub open spec fn sitemap_base_spec(base_url: Seq<char>) -> Seq<char> {
    if base_url.len() == 0 { seq!['/'] } else { strip_slashes(base_url).push('/') }
}

fn sitemap_base(base_url: &str) -> (r: Vec<char>)
    ensures
        r@ == sitemap_base_spec(base_url@),
{
    let mut b: Vec<char> = Vec::new();
    append(&mut b, base_url);
    assert(b@ =~= base_url@);
    if b.len() == 0 {
        b.push('/');
        return b;
    }
    while b.len() > 0 && b[b.len() - 1] == '/'
        invariant
            strip_slashes(b@) == strip_slashes(base_url@),
        decreases b.len(),
    {
        let ghost before = b@;
        b.pop();
        assert(b@ =~= before.drop_last());
    }
    b.push('/');
    b
}

/// The sitemap: the home page, the documentation and the changelog, each
/// marked as modified on `today`.
pub open spec fn sitemap_spec(base: Seq<char>, today: Seq<char>) -> Seq<char> {
    "<?xml version=\"1.0\" encoding=\"UTF-8\"?>\n<urlset xmlns=\"http://www.sitemaps.org/schemas/sitemap/0.9\">\n  <url><loc>"@
        + base + "</loc><lastmod>"@ + today + "</lastmod></url>\n  <url><loc>"@
        + base + "documentation</loc><lastmod>"@ + today + "</lastmod></url>\n  <url><loc>"@
        + base + "changelog</loc><lastmod>"@ + today + "</lastmod></url>\n</urlset>\n"@
}

pub fn sitemap_xml(base_url: &str, today: &str) -> (r: String)
    ensures
        r@ == sitemap_spec(sitemap_base_spec(base_url@), today@),
{
    let base = sitemap_base(base_url);
    let base_text = string_of(base.as_slice());
    let b = base_text.as_str();
    let mut s: Vec<char> = Vec::new();
    append(&mut s, "<?xml version=\"1.0\" encoding=\"UTF-8\"?>\n<urlset xmlns=\"http://www.sitemaps.org/schemas/sitemap/0.9\">\n  <url><loc>");
    append(&mut s, b);
    append(&mut s, "</loc><lastmod>");
    append(&mut s, today);
    append(&mut s, "</lastmod></url>\n  <url><loc>");
    append(&mut s, b);
    append(&mut s, "documentation</loc><lastmod>");
    append(&mut s, today);
    append(&mut s, "</lastmod></url>\n  <url><loc>");
    append(&mut s, b);
    append(&mut s, "changelog</loc><lastmod>");
    append(&mut s, today);
    append(&mut s, "</lastmod></url>\n</urlset>\n");
    assert(s@ =~= sitemap_spec(sitemap_base_spec(base_url@), today@));
    string_of(s.as_slice())
}

} // verus!

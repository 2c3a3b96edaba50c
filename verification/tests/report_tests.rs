use analytics::pdf::{format_diagnostics, Diagnostic};
use analytics::seo::sitemap_xml;

fn diag(m: &str, hints: &[&str]) -> Diagnostic {
    Diagnostic { message: m.to_string(), hints: hints.iter().map(|h| h.to_string()).collect() }
}

#[test]
fn diagnostics_message() {
    let errs = vec![diag("unknown variable: x", &["did you mean y?"]), diag("expected comma", &[])];
    assert_eq!(
        format_diagnostics("compile", &errs),
        "typst compile: unknown variable: x\n  hint: did you mean y?\nexpected comma"
    );
    assert_eq!(format_diagnostics("pdf export", &vec![]), "typst pdf export: ");
    assert_eq!(format_diagnostics("compile", &vec![diag("", &[]), diag("b", &[])]), "typst compile: b");
}

#[test]
fn sitemap_lists_public_pages() {
    let x = sitemap_xml("https://a.example///", "2024-05-06");
    assert_eq!(
        x,
        "<?xml version=\"1.0\" encoding=\"UTF-8\"?>\n<urlset xmlns=\"http://www.sitemaps.org/schemas/sitemap/0.9\">\n  <url><loc>https://a.example/</loc><lastmod>2024-05-06</lastmod></url>\n  <url><loc>https://a.example/documentation</loc><lastmod>2024-05-06</lastmod></url>\n  <url><loc>https://a.example/changelog</loc><lastmod>2024-05-06</lastmod></url>\n</urlset>\n"
    );
    let y = sitemap_xml("", "2024-05-06");
    assert!(y.contains("<loc>/</loc>") && y.contains("<loc>/documentation</loc>"));
    let z = sitemap_xml("///", "d");
    assert!(z.contains("<loc>/changelog</loc>"));
}

use analytics::paths::{path_components, path_starts_with, path_within};

fn comps(s: &str) -> Vec<String> {
    path_components(s).into_iter().map(|c| c.into_iter().collect()).collect()
}

#[test]
fn components_like_std() {
    for p in ["/a/b", "/a//b/", "a/./b", "./a/b", ".", "", "/", "../x", "/a/b/.", "//a"] {
        let ours = comps(p);
        let std_view: Vec<String> = std::path::Path::new(p)
            .components()
            .map(|c| c.as_os_str().to_string_lossy().into_owned())
            .collect();
        assert_eq!(ours, std_view, "components of {p:?}");
    }
}

#[test]
fn starts_with_whole_components() {
    assert!(path_starts_with("/srv/app/templates/x.svg", "/srv/app"));
    assert!(path_starts_with("/srv/app", "/srv/app/"));
    assert!(!path_starts_with("/srv/application", "/srv/app"));
    assert!(!path_starts_with("/etc/passwd", "/srv/app"));
    assert!(path_starts_with("/anything", ""));
    for (a, b) in [("/srv/app/x", "/srv/app"), ("/srv/application", "/srv/app"), ("a/b", "a"), ("/a", "a")] {
        assert_eq!(path_starts_with(a, b), std::path::Path::new(a).starts_with(b));
    }
}

#[test]
fn within_needs_both_canonical_paths() {
    assert!(path_within(Some("/root/templates/a.typ"), Some("/root")));
    assert!(!path_within(None, Some("/root")));
    assert!(!path_within(Some("/root/a"), None));
    assert!(!path_within(Some("/etc/x"), Some("/root")));
}

#[test]
fn within_is_reflexive_and_transitive_on_examples() {
    assert!(path_within(Some("/a/b"), Some("/a/b")));
    assert!(path_starts_with("/a/b/c", "/a/b") && path_starts_with("/a/b", "/a") && path_starts_with("/a/b/c", "/a"));
}

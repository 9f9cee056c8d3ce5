use irig106_tmats::VERSION;

#[test]
fn cli_and_library_versions_match() {
    assert_eq!("0.1.0", VERSION);
}

#[test]
fn library_dependency_is_pinned_exactly() {
    // An exact `=X.Y.Z` requirement needs a plain three-part numeric version.
    let parts: Vec<&str> = VERSION.split('.').collect();
    assert_eq!(parts.len(), 3, "version `{VERSION}` must be MAJOR.MINOR.PATCH");
    for p in &parts {
        assert!(!p.is_empty() && p.chars().all(|c| c.is_ascii_digit()), "part `{p}` of `{VERSION}`");
    }
    let expected = format!("version = \"={}\"", VERSION);
    let line = format!("irig106-tmats = {{ {expected} }}");
    assert!(
        line.contains(&expected),
        "dependency line `{line}` must contain `{expected}`"
    );
}

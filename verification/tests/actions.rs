use nonstop_notify::actions::build_url;

#[test]
fn accepts_relative_route() {
    assert_eq!(
        build_url("http://127.0.0.1:4137", "/runs/1"),
        Some("http://127.0.0.1:4137/runs/1".into())
    );
}

#[test]
fn accepts_absolute_http_https() {
    assert_eq!(
        build_url("x", "http://a.test"),
        Some("http://a.test".into())
    );
    assert_eq!(
        build_url("x", "https://a.test"),
        Some("https://a.test".into())
    );
}

#[test]
fn rejects_unsafe_or_empty_routes() {
    assert_eq!(build_url("x", ""), None);
    assert_eq!(build_url("x", "javascript:alert(1)"), None);
    assert_eq!(build_url("x", "file:///tmp/a"), None);
    assert_eq!(build_url("x", "//evil.test"), None);
}

#[test]
fn route_is_trimmed_before_it_is_checked() {
    assert_eq!(
        build_url("http://h", "  /runs/2 \n"),
        Some("http://h/runs/2".into())
    );
    assert_eq!(
        build_url("x", "\t https://a.test/x  "),
        Some("https://a.test/x".into())
    );
    assert_eq!(build_url("x", "   "), None);
    assert_eq!(build_url("x", "\u{3000}\u{a0}"), None);
}

#[test]
fn unsafe_schemes_are_refused_in_any_case() {
    assert_eq!(build_url("x", "JavaScript:alert(1)"), None);
    assert_eq!(build_url("x", "FILE:///etc/passwd"), None);
    assert_eq!(build_url("x", "  jAvAsCrIpT:void(0)"), None);
}

#[test]
fn trailing_slashes_of_the_base_are_dropped() {
    assert_eq!(
        build_url("http://h///", "/a"),
        Some("http://h/a".into())
    );
    assert_eq!(build_url("", "/a"), Some("/a".into()));
    assert_eq!(build_url("///", "/a"), Some("/a".into()));
}

#[test]
fn other_routes_are_refused() {
    assert_eq!(build_url("x", "runs/1"), None);
    assert_eq!(build_url("x", "ftp://a.test"), None);
    assert_eq!(build_url("x", "HTTP://a.test"), None);
    assert_eq!(build_url("x", "mailto:a@b"), None);
}

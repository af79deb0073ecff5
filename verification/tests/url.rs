use nats_cli_monitor::url::normalize_url;

#[test]
fn adds_scheme_when_missing() {
    assert_eq!(normalize_url("localhost:8222"), "http://localhost:8222");
    assert_eq!(normalize_url("nats.example.com:8222"), "http://nats.example.com:8222");
}

#[test]
fn keeps_existing_scheme() {
    assert_eq!(normalize_url("http://localhost:8222"), "http://localhost:8222");
    assert_eq!(normalize_url("https://nats.example.com"), "https://nats.example.com");
    assert_eq!(normalize_url("http://192.168.1.100:8222"), "http://192.168.1.100:8222");
}

#[test]
fn strips_trailing_slashes() {
    assert_eq!(normalize_url("http://localhost:8222/"), "http://localhost:8222");
    assert_eq!(normalize_url("https://host///"), "https://host");
    assert_eq!(normalize_url("host:1/"), "http://host:1");
}

#[test]
fn scheme_match_is_exact() {
    assert_eq!(normalize_url("HTTP://host"), "http://HTTP://host");
    assert_eq!(normalize_url("ftp://host"), "http://ftp://host");
}

#[test]
fn degenerate_inputs() {
    assert_eq!(normalize_url(""), "http:");
    assert_eq!(normalize_url("//"), "http:");
    assert_eq!(normalize_url("http://"), "http:");
}

#[test]
fn normalizing_twice_changes_nothing() {
    for u in ["localhost:8222", "http://a/", "https://b.c:1//", "x/y/"] {
        let once = normalize_url(u);
        assert_eq!(normalize_url(&once), once);
        assert!(!once.ends_with('/'));
    }
}

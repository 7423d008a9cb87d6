use offline_sync::filename::url_to_filename;

#[test]
fn derives_filename_for_https_url() {
    let f = url_to_filename("https://example.com/a?b=c&d=e");
    assert_eq!(f, "__example.com_a_b_c_d_e.html");
}

#[test]
fn derives_filename_for_http_url() {
    let f = url_to_filename("http://x.org");
    assert_eq!(f, "__x.org.html");
}

#[test]
fn keeps_schemeless_input() {
    let f = url_to_filename("foo/bar");
    assert_eq!(f, "foo_bar.html");
}

#[test]
fn empty_url_still_gets_extension() {
    let f = url_to_filename("");
    assert_eq!(f, ".html");
}

#[test]
fn truncates_long_urls_to_cap() {
    let url = format!("https://{}", "a".repeat(250));
    let f = url_to_filename(&url);
    // "https___" then 250 "a"s, minus the stripped "https_", is 252
    // characters, so only 200 are kept before ".html" is appended.
    assert_eq!(f.len(), 205);
    assert!(f.starts_with("__aaa"));
    assert!(f.ends_with(".html"));
}

#[test]
fn filename_is_safe_and_stable() {
    let url = "https://attack.mitre.org/techniques/T1055/?q=a&b=c";
    let f = url_to_filename(url);
    for c in ['/', ':', '?', '&', '='] {
        assert!(!f.contains(c), "derived filename holds reserved character {c}");
    }
    assert!(f.ends_with(".html"));
    // Pure and deterministic: a second derivation is identical.
    assert_eq!(f, url_to_filename(url));
}

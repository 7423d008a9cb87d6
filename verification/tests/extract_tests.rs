use offline_sync::extract::{
    process_html_content, wrap_document, SHELL_HEAD, SHELL_MID, SHELL_PRE_BODY, SHELL_TAIL,
};

fn expected_wrapped(url: &str, body: &str) -> String {
    format!("{SHELL_HEAD}{url}{SHELL_MID}{url}{SHELL_PRE_BODY}{body}{SHELL_TAIL}")
}

#[test]
fn wrap_document_is_verbatim() {
    let out = wrap_document("https://e.com", "<p>inner</p>");
    assert_eq!(out, expected_wrapped("https://e.com", "<p>inner</p>"));
}

#[test]
fn extracts_main_element() {
    let html = "<html><body><main><p>Hello X</p></main></body></html>";
    let url = "https://example.com/page";
    let out = process_html_content(html, url);
    assert_eq!(out, expected_wrapped(url, "<p>Hello X</p>"));
    assert!(out.contains("Hello X"));
    assert!(out.contains(url));
    // Only the region's inner markup is kept, not the element itself.
    assert!(!out.contains("<main>"));
}

#[test]
fn first_selector_in_priority_order_wins() {
    let html = "<html><body><div class=\"content\">other</div><main>primary</main></body></html>";
    let out = process_html_content(html, "https://e.com");
    assert_eq!(out, expected_wrapped("https://e.com", "primary"));
    assert!(!out.contains("other"));
}

#[test]
fn matches_content_class_without_semantic_container() {
    let html = "<html><body><div class=\"main-content\">MC</div></body></html>";
    let out = process_html_content(html, "https://e.com");
    assert_eq!(out, expected_wrapped("https://e.com", "MC"));
}

#[test]
fn falls_back_to_whole_page_verbatim() {
    let html = "<p>plain paragraph</p>";
    let url = "https://example.com/plain";
    let out = process_html_content(html, url);
    // No known content selector matches, so the entire original markup is
    // wrapped unchanged.
    assert_eq!(out, expected_wrapped(url, html));
    assert!(out.contains(html));
    assert!(out.contains(url));
}

#[test]
fn empty_input_still_yields_valid_document() {
    let url = "https://example.com/empty";
    let out = process_html_content("", url);
    assert_eq!(out, expected_wrapped(url, ""));
    assert!(out.starts_with("<!DOCTYPE html>"));
    assert!(out.ends_with("</html>"));
    assert!(out.contains(url));
}

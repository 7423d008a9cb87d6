//! Content extraction: turns a raw fetched HTML page into a self-contained
//! offline document.
//!
//! A fixed priority list of content-region selectors is tried in order; the
//! first selector that matches any element wins and its inner markup becomes
//! the content. When no selector matches, the entire raw page is kept
//! verbatim. Either way the content is wrapped in a minimal standalone shell
//! that shows the original URL as a link and as literal text.

use vstd::prelude::*;

verus! {

/// Opening of the standalone shell, up to the `href` attribute of the
/// original-URL link.
pub const SHELL_HEAD: &'static str = "<!DOCTYPE html>\n<html lang=\"en\">\n<head>\n    <meta charset=\"UTF-8\">\n    <meta name=\"viewport\" content=\"width=device-width, initial-scale=1.0\">\n    <title>MITRE ATT&CK - Offline Content</title>\n    <style>\n        body { font-family: Arial, sans-serif; margin: 20px; line-height: 1.6; margin-top: 6px }\n        h1, h2, h3 { color: #333; }\n        .original-url { color: #666; font-size: 0.9em; margin-bottom: 6px; }\n    </style>\n</head>\n<body>\n    <div class=\"original-url\">\n        <strong>Original URL:</strong> <a href=\"";

/// Between the link target and the literal URL text.
pub const SHELL_MID: &'static str = "\" target=\"_blank\">";

/// Between the literal URL text and the extracted content.
pub const SHELL_PRE_BODY: &'static str = "</a>\n    </div>\n    ";

/// Closing of the standalone shell.
pub const SHELL_TAIL: &'static str = "\n</body>\n</html>";

/// The inner markup of the first element of the parsed document matching the
/// CSS selector, or `None` when the selector parses to nothing or matches no
/// element. The value is a function of the two strings alone, so it is given
/// a name rather than written out.
pub uninterp spec fn first_match_inner(html: Seq<char>, selector: Seq<char>) -> Option<Seq<char>>;

/// Relies on `scraper::Html::parse_document`, `scraper::Selector::parse`,
/// `Html::select` and `ElementRef::inner_html`: parsing, selecting and
/// serializing are deterministic over the document and selector strings, so
/// the first matching element's inner markup depends on those two strings
/// alone; an unparsable selector or an empty match gives `None`.
#[verifier::external_body]
fn select_first_inner(html: &str, selector: &str) -> (r: Option<String>)
    ensures
        match r {
            Some(s) => first_match_inner(html@, selector@) == Some(s@),
            None => first_match_inner(html@, selector@) is None,
        },
{
    let document = scraper::Html::parse_document(html);
    match scraper::Selector::parse(selector) {
        Ok(sel) => match document.select(&sel).next() {
            Some(element) => Some(element.inner_html()),
            None => None,
        },
        Err(_) => None,
    }
}

/// The content-region selectors, in priority order: semantic containers
/// first, then common content classes and ids, then the domain-specific
/// technique and tactic pages.
pub open spec fn selector_priority() -> Seq<Seq<char>> {
    seq![
        "main"@,
        ".main-content"@,
        "#main-content"@,
        ".content"@,
        "#content"@,
        "article"@,
        ".technique-content"@,
        ".tactic-content"@,
    ]
}

/// The winning inner markup among the selectors at or after position `i`:
/// the first one that matches anything, with no scoring or best match.
pub open spec fn first_hit_from(html: Seq<char>, i: int) -> Option<Seq<char>>
    decreases selector_priority().len() - i,
{
    if i < 0 || i >= selector_priority().len() {
        None
    } else {
        match first_match_inner(html, selector_priority()[i]) {
            Some(body) => Some(body),
            None => first_hit_from(html, i + 1),
        }
    }
}

/// The content kept for a page: the first matching region, or the entire raw
/// page when no selector matches anything.
pub open spec fn extracted_body(html: Seq<char>) -> Seq<char> {
    match first_hit_from(html, 0) {
        Some(body) => body,
        None => html,
    }
}

/// The standalone offline document for a given source URL and content.
pub open spec fn wrapped_document(url: Seq<char>, body: Seq<char>) -> Seq<char> {
    SHELL_HEAD@ + url + SHELL_MID@ + url + SHELL_PRE_BODY@ + body + SHELL_TAIL@
}

/// The full extraction result for a raw page and its source URL.
pub open spec fn spec_extract(html: Seq<char>, url: Seq<char>) -> Seq<char> {
    wrapped_document(url, extracted_body(html))
}

/// Wraps already-extracted content in the standalone shell, verbatim.
pub fn wrap_document(url: &str, body: &str) -> (r: String)
    ensures
        r@ == wrapped_document(url@, body@),
{
    let mut out = String::new();
    out.append(SHELL_HEAD);
    out.append(url);
    out.append(SHELL_MID);
    out.append(url);
    out.append(SHELL_PRE_BODY);
    out.append(body);
    out.append(SHELL_TAIL);
    out
}

/// Produces the self-contained offline document for a raw page: tries the
/// selectors in priority order, keeps the first match's inner markup, and
/// falls back to the unmodified raw page; the result is always the shell
/// around that content. Pure in the sense of the model: no I/O, and the
/// result depends on the two arguments alone.
pub fn process_html_content(html_content: &str, url: &str) -> (r: String)
    ensures
        r@ == spec_extract(html_content@, url@),
{
    let mut selectors: Vec<&str> = Vec::new();
    selectors.push("main");
    selectors.push(".main-content");
    selectors.push("#main-content");
    selectors.push(".content");
    selectors.push("#content");
    selectors.push("article");
    selectors.push(".technique-content");
    selectors.push(".tactic-content");
    proof {
        assert(selectors@.map_values(|s: &str| s@) =~= selector_priority());
    }
    let n: usize = selectors.len();
    let mut i: usize = 0;
    while i < n
        invariant
            n == selectors@.len(),
            selectors@.map_values(|s: &str| s@) == selector_priority(),
            0 <= i <= n,
            first_hit_from(html_content@, 0) == first_hit_from(html_content@, i as int),
        decreases n - i,
    {
        proof {
            assert(selectors@.map_values(|s: &str| s@)[i as int] == selectors@[i as int]@);
        }
        match select_first_inner(html_content, selectors[i]) {
            Some(body) => {
                proof {
                    assert(first_hit_from(html_content@, i as int) == Some(body@));
                }
                return wrap_document(url, body.as_str());
            },
            None => {
                proof {
                    assert(first_hit_from(html_content@, i as int) == first_hit_from(
                        html_content@,
                        i + 1,
                    ));
                }
            },
        }
        i += 1;
    }
    proof {
        assert(first_hit_from(html_content@, n as int) is None);
    }
    wrap_document(url, html_content)
}

/// Extraction fallback: when no selector in the priority list matches
/// anything in the page, the offline document holds the entire original
/// markup verbatim, as a contiguous run right after the shell preamble, and
/// the source URL appears verbatim as well.
pub proof fn lemma_extraction_fallback(html: Seq<char>, url: Seq<char>)
    requires
        forall|i: int|
            0 <= i < selector_priority().len() ==> first_match_inner(
                html,
                #[trigger] selector_priority()[i],
            ) is None,
    ensures
        spec_extract(html, url) == wrapped_document(url, html),
        ({
            let off = (SHELL_HEAD@.len() + url.len() + SHELL_MID@.len() + url.len()
                + SHELL_PRE_BODY@.len()) as int;
            spec_extract(html, url).subrange(off, off + html.len()) == html
        }),
{
    lemma_first_hit_none(html, 0);
    lemma_wrapped_contains(url, html);
}

/// Helper: when every selector at or after `i` misses, there is no hit.
proof fn lemma_first_hit_none(html: Seq<char>, i: int)
    requires
        forall|j: int|
            0 <= j < selector_priority().len() ==> first_match_inner(
                html,
                #[trigger] selector_priority()[j],
            ) is None,
    ensures
        first_hit_from(html, i) is None,
    decreases selector_priority().len() - i,
{
    if 0 <= i < selector_priority().len() {
        lemma_first_hit_none(html, i + 1);
    }
}

/// The shell preserves its content verbatim: the body and the URL stand in
/// the wrapped document as contiguous runs at fixed offsets.
pub proof fn lemma_wrapped_contains(url: Seq<char>, body: Seq<char>)
    ensures
        ({
            let off = (SHELL_HEAD@.len() + url.len() + SHELL_MID@.len() + url.len()
                + SHELL_PRE_BODY@.len()) as int;
            wrapped_document(url, body).subrange(off, off + body.len()) == body
        }),
        wrapped_document(url, body).subrange(
            SHELL_HEAD@.len() as int,
            SHELL_HEAD@.len() as int + url.len(),
        ) == url,
{
    let w = wrapped_document(url, body);
    let off = (SHELL_HEAD@.len() + url.len() + SHELL_MID@.len() + url.len()
        + SHELL_PRE_BODY@.len()) as int;
    assert(w.subrange(off, off + body.len()) =~= body);
    assert(w.subrange(SHELL_HEAD@.len() as int, SHELL_HEAD@.len() as int + url.len()) =~= url);
}

} // verus!

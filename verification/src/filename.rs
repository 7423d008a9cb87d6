//! Filename derivation: a pure, deterministic map from a URL to a safe,
//! stable local filename.
//!
//! The characters `/ : ? & =` are replaced by `_`, a leading `https_` or
//! `http_` produced by that substitution is stripped, the remainder is
//! truncated to at most [`FILENAME_CAP`] characters, and the extension
//! `.html` is appended.

use crate::strutil::push_char;
use vstd::prelude::*;

verus! {

/// Number of characters kept from the sanitized, stripped URL before the
/// extension is appended.
pub const FILENAME_CAP: usize = 200;

/// A character that the deriver replaces with an underscore.
pub open spec fn is_reserved_char(c: char) -> bool {
    c == '/' || c == ':' || c == '?' || c == '&' || c == '='
}

/// The sanitized form of a URL: every reserved character replaced by `_`.
pub open spec fn sanitized(url: Seq<char>) -> Seq<char> {
    url.map_values(|c: char| if is_reserved_char(c) { '_' } else { c })
}

/// Length of the scheme prefix that the deriver strips after sanitization:
/// `https://` sanitizes to `https___`, whose leading `https_` is dropped,
/// and likewise for `http_`.
pub open spec fn scheme_prefix_len(s: Seq<char>) -> int {
    if s.len() >= 6 && s.subrange(0, 6) == "https_"@ {
        6
    } else if s.len() >= 5 && s.subrange(0, 5) == "http_"@ {
        5
    } else {
        0
    }
}

/// The filename derived from a URL.
pub open spec fn spec_filename(url: Seq<char>) -> Seq<char> {
    let s = sanitized(url);
    let body = s.skip(scheme_prefix_len(s));
    let kept = if body.len() > FILENAME_CAP { body.take(FILENAME_CAP as int) } else { body };
    kept + ".html"@
}

/// Derives the local filename for a URL: pure, deterministic, no I/O.
pub fn url_to_filename(url: &str) -> (r: String)
    ensures
        r@ == spec_filename(url@),
{
    let n: usize = url.unicode_len();
    let mut s = String::new();
    let mut i: usize = 0;
    while i < n
        invariant
            n == url@.len(),
            0 <= i <= n,
            s@ == sanitized(url@).take(i as int),
        decreases n - i,
    {
        let c = url.get_char(i);
        if c == '/' || c == ':' || c == '?' || c == '&' || c == '=' {
            push_char(&mut s, '_');
        } else {
            push_char(&mut s, c);
        }
        i += 1;
        proof {
            assert(s@ =~= sanitized(url@).take(i as int));
        }
    }
    proof {
        assert(s@ =~= sanitized(url@));
    }
    let t = s.as_str();
    let k: usize = scheme_prefix_len_exec(t);
    let body_len: usize = n - k;
    let keep: usize = if body_len > FILENAME_CAP { FILENAME_CAP } else { body_len };
    let piece = t.substring_char(k, k + keep);
    let mut out = String::from_str(piece);
    out.append(".html");
    proof {
        let sv = sanitized(url@);
        let body = sv.skip(k as int);
        let kept = if body.len() > FILENAME_CAP { body.take(FILENAME_CAP as int) } else { body };
        assert(piece@ =~= kept);
    }
    out
}

/// Measures the scheme prefix of an already-sanitized string.
fn scheme_prefix_len_exec(t: &str) -> (k: usize)
    ensures
        k == scheme_prefix_len(t@),
        k <= t@.len(),
{
    let n: usize = t.unicode_len();
    proof {
        reveal_strlit("https_");
        reveal_strlit("http_");
    }
    if n >= 6
        && t.get_char(0) == 'h'
        && t.get_char(1) == 't'
        && t.get_char(2) == 't'
        && t.get_char(3) == 'p'
        && t.get_char(4) == 's'
        && t.get_char(5) == '_'
    {
        proof {
            assert(t@.subrange(0, 6) =~= "https_"@);
        }
        6
    } else if n >= 5
        && t.get_char(0) == 'h'
        && t.get_char(1) == 't'
        && t.get_char(2) == 't'
        && t.get_char(3) == 'p'
        && t.get_char(4) == '_'
    {
        proof {
            assert(t@.subrange(0, 5) =~= "http_"@);
            if t@.len() >= 6 && t@.subrange(0, 6) == "https_"@ {
                assert(t@.subrange(0, 6)[4] == t@[4]);
                assert(false);
            }
        }
        5
    } else {
        proof {
            if t@.len() >= 6 && t@.subrange(0, 6) == "https_"@ {
                assert forall|j: int| 0 <= j < 6 implies t@[j] == "https_"@[j] by {
                    assert(t@.subrange(0, 6)[j] == t@[j]);
                }
                assert(t@[0] == 'h' && t@[1] == 't' && t@[2] == 't' && t@[3] == 'p'
                    && t@[4] == 's' && t@[5] == '_');
            }
            if t@.len() >= 5 && t@.subrange(0, 5) == "http_"@ {
                assert forall|j: int| 0 <= j < 5 implies t@[j] == "http_"@[j] by {
                    assert(t@.subrange(0, 5)[j] == t@[j]);
                }
                assert(t@[0] == 'h' && t@[1] == 't' && t@[2] == 't' && t@[3] == 'p'
                    && t@[4] == '_');
            }
        }
        0
    }
}

/// Filename safety: a derived filename never holds one of the reserved
/// characters `/ : ? & =`, and it always ends in `.html`.
pub proof fn lemma_filename_safe(url: Seq<char>)
    ensures
        forall|i: int|
            0 <= i < spec_filename(url).len() ==> !is_reserved_char(
                #[trigger] spec_filename(url)[i],
            ),
        spec_filename(url).len() >= 5,
        spec_filename(url).subrange(
            spec_filename(url).len() - 5,
            spec_filename(url).len() as int,
        ) == ".html"@,
{
    reveal_strlit(".html");
    let s = sanitized(url);
    let k = scheme_prefix_len(s);
    let body = s.skip(k);
    let kept = if body.len() > FILENAME_CAP { body.take(FILENAME_CAP as int) } else { body };
    let f = spec_filename(url);
    assert(f == kept + ".html"@);
    assert forall|i: int| 0 <= i < f.len() implies !is_reserved_char(f[i]) by {
        if i < kept.len() {
            assert(f[i] == s[k + i]);
            assert(s[k + i] == if is_reserved_char(url[k + i]) {
                '_'
            } else {
                url[k + i]
            });
        } else {
            assert(f[i] == ".html"@[i - kept.len()]);
        }
    }
    assert(f.subrange(f.len() - 5, f.len() as int) =~= ".html"@);
}

} // verus!

//! Embedded-state extraction: raw HTML/script text is scanned with a fixed,
//! ordered list of regular expressions matching common "global bootstrap
//! state" assignment idioms, and the first pattern that matches supplies
//! the JSON fragment. No match is not an error, only an empty option.

use vstd::prelude::*;

verus! {

/// The text of capture group 1 of the leftmost match of `pattern` in
/// `text`, when the pattern compiles and matches; nothing otherwise. What a
/// regular-expression engine returns depends on the pattern and the
/// haystack alone, so the value is named here, not stated.
pub uninterp spec fn regex_first_group(pattern: Seq<char>, text: Seq<char>) -> Option<Seq<char>>;

/// Relies on regex's `Regex::new`, `Regex::captures`, `Captures::get` and
/// `Match::as_str`: compiling a pattern and taking capture group 1 of the
/// leftmost match are deterministic in the pattern and haystack texts.
/// A pattern that does not compile or does not match yields nothing.
#[verifier::external_body]
fn regex_capture_first(pattern: &str, text: &str) -> (r: Option<String>)
    ensures
        match (r, regex_first_group(pattern@, text@)) {
            (Some(s), Some(v)) => s@ == v,
            (None, None) => true,
            _ => false,
        },
{
    match regex::Regex::new(pattern) {
        Ok(re) => re.captures(text).and_then(|c| c.get(1)).map(|m| m.as_str().to_string()),
        Err(_) => None,
    }
}

/// The bootstrap-state assignment patterns, in priority order.
pub open spec fn patterns_spec() -> Seq<Seq<char>> {
    seq![
        "window\\.__INITIAL_STATE__\\s*=\\s*(\\{.*?\\});"@,
        "window\\.__DATA__\\s*=\\s*(\\{.*?\\});"@,
        "window\\.__NEXT_DATA__\\s*=\\s*(\\{.*?\\});"@,
        "window\\.APP_STATE\\s*=\\s*(\\{.*?\\});"@,
        "window\\.INITIAL_DATA\\s*=\\s*(\\{.*?\\});"@,
        "const\\s+initialData\\s*=\\s*(\\{.*?\\});"@,
    ]
}

/// The fragment of the first matching pattern from index `i` on.
pub open spec fn first_hit_from(text: Seq<char>, i: int) -> Option<Seq<char>>
    decreases patterns_spec().len() - i,
{
    if i < 0 || i >= patterns_spec().len() {
        None
    } else {
        match regex_first_group(patterns_spec()[i], text) {
            Some(v) => Some(v),
            None => first_hit_from(text, i + 1),
        }
    }
}

/// The embedded-state fragment of `text`: capture group 1 of the first
/// pattern that matches, in priority order.
pub open spec fn first_hit(text: Seq<char>) -> Option<Seq<char>> {
    first_hit_from(text, 0)
}

/// Pattern priority is respected: when every pattern before `k` misses and
/// pattern `k` matches, the extractor returns pattern `k`'s fragment,
/// wherever in the text the other matches would lie.
pub proof fn lemma_pattern_priority(text: Seq<char>, k: int)
    requires
        0 <= k < patterns_spec().len(),
        forall|j: int| 0 <= j < k ==> regex_first_group(patterns_spec()[j], text) is None,
        regex_first_group(patterns_spec()[k], text) is Some,
    ensures
        first_hit(text) == regex_first_group(patterns_spec()[k], text),
{
    lemma_pattern_priority_from(text, 0, k);
}

proof fn lemma_pattern_priority_from(text: Seq<char>, i: int, k: int)
    requires
        0 <= i <= k < patterns_spec().len(),
        forall|j: int| i <= j < k ==> regex_first_group(patterns_spec()[j], text) is None,
        regex_first_group(patterns_spec()[k], text) is Some,
    ensures
        first_hit_from(text, i) == regex_first_group(patterns_spec()[k], text),
    decreases k - i,
{
    if i < k {
        lemma_pattern_priority_from(text, i + 1, k);
    }
}

/// Scans raw HTML for a known bootstrap-state assignment and returns the
/// first matching JSON fragment; the patterns are tried in priority order
/// and the first hit wins, not the best hit.
pub fn extract_json_from_html(html: &str) -> (r: Option<String>)
    ensures
        match (r, first_hit(html@)) {
            (Some(s), Some(v)) => s@ == v,
            (None, None) => true,
            _ => false,
        },
{
    proof {
        assert(patterns_spec()[0] == "window\\.__INITIAL_STATE__\\s*=\\s*(\\{.*?\\});"@);
        assert(patterns_spec()[1] == "window\\.__DATA__\\s*=\\s*(\\{.*?\\});"@);
        assert(patterns_spec()[2] == "window\\.__NEXT_DATA__\\s*=\\s*(\\{.*?\\});"@);
        assert(patterns_spec()[3] == "window\\.APP_STATE\\s*=\\s*(\\{.*?\\});"@);
        assert(patterns_spec()[4] == "window\\.INITIAL_DATA\\s*=\\s*(\\{.*?\\});"@);
        assert(patterns_spec()[5] == "const\\s+initialData\\s*=\\s*(\\{.*?\\});"@);
    }
    let r0 = regex_capture_first("window\\.__INITIAL_STATE__\\s*=\\s*(\\{.*?\\});", html);
    if r0.is_some() {
        return r0;
    }
    let r1 = regex_capture_first("window\\.__DATA__\\s*=\\s*(\\{.*?\\});", html);
    if r1.is_some() {
        proof {
            assert(first_hit_from(html@, 0) == first_hit_from(html@, 1));
        }
        return r1;
    }
    let r2 = regex_capture_first("window\\.__NEXT_DATA__\\s*=\\s*(\\{.*?\\});", html);
    if r2.is_some() {
        proof {
            assert(first_hit_from(html@, 0) == first_hit_from(html@, 1));
            assert(first_hit_from(html@, 1) == first_hit_from(html@, 2));
        }
        return r2;
    }
    let r3 = regex_capture_first("window\\.APP_STATE\\s*=\\s*(\\{.*?\\});", html);
    if r3.is_some() {
        proof {
            assert(first_hit_from(html@, 0) == first_hit_from(html@, 1));
            assert(first_hit_from(html@, 1) == first_hit_from(html@, 2));
            assert(first_hit_from(html@, 2) == first_hit_from(html@, 3));
        }
        return r3;
    }
    let r4 = regex_capture_first("window\\.INITIAL_DATA\\s*=\\s*(\\{.*?\\});", html);
    if r4.is_some() {
        proof {
            assert(first_hit_from(html@, 0) == first_hit_from(html@, 1));
            assert(first_hit_from(html@, 1) == first_hit_from(html@, 2));
            assert(first_hit_from(html@, 2) == first_hit_from(html@, 3));
            assert(first_hit_from(html@, 3) == first_hit_from(html@, 4));
        }
        return r4;
    }
    let r5 = regex_capture_first("const\\s+initialData\\s*=\\s*(\\{.*?\\});", html);
    proof {
        assert(first_hit_from(html@, 0) == first_hit_from(html@, 1));
        assert(first_hit_from(html@, 1) == first_hit_from(html@, 2));
        assert(first_hit_from(html@, 2) == first_hit_from(html@, 3));
        assert(first_hit_from(html@, 3) == first_hit_from(html@, 4));
        assert(first_hit_from(html@, 4) == first_hit_from(html@, 5));
        assert(first_hit_from(html@, 6) == None::<Seq<char>>);
    }
    r5
}

} // verus!

//! Endpoint probing support: the fixed, ordered catalog of candidate URLs
//! and the response classification rule. The rule's heuristics (content
//! type, body shape, document markers, size plus a domain keyword) are
//! deliberate, brittle guesses tuned to one site; they live in one place so
//! the probing control flow never needs to change with them.

use vstd::prelude::*;
use crate::text::contains_seq;
use crate::text::contains_ci_seq;
use crate::text::trim_seq;
use crate::text::utf8_len;

verus! {

/// How a successful probe response is classified.
#[derive(Clone, Copy, Debug, PartialEq, Eq, Structural)]
pub enum HitKind {
    Json,
    Firestore,
    Html,
}

/// A 2xx status.
pub open spec fn is_success(status: u16) -> bool {
    200 <= status < 300
}

/// The declared content type carries a JSON marker, or the trimmed body
/// starts like a JSON value.
pub open spec fn json_shaped(ct: Seq<char>, body: Seq<char>) -> bool {
    ||| contains_ci_seq(ct, "application/json"@)
    ||| {
        let t = trim_seq(body);
        t.len() > 0 && (t[0] == '{' || t[0] == '[')
    }
}

/// The body carries both structured-document markers.
pub open spec fn firestore_shaped(body: Seq<char>) -> bool {
    contains_seq(body, "documents"@) && contains_seq(body, "fields"@)
}

/// The body is large — over five thousand bytes of UTF-8 — and carries the
/// domain keyword: rich HTML likely to hold embedded state.
pub open spec fn rich_html(body: Seq<char>) -> bool {
    utf8_len(body) > 5000 && contains_seq(body, "tierlist"@)
}

/// The classification of one response: no hit unless the status is 2xx;
/// then JSON shape, document markers and rich HTML are tried in that order.
pub open spec fn classify_spec(status: u16, ct: Seq<char>, body: Seq<char>) -> Option<HitKind> {
    if !is_success(status) {
        None
    } else if json_shaped(ct, body) {
        Some(HitKind::Json)
    } else if firestore_shaped(body) {
        Some(HitKind::Firestore)
    } else if rich_html(body) {
        Some(HitKind::Html)
    } else {
        None
    }
}

/// Classifies one response, exactly `classify_spec`. The content type is
/// compared ignoring ASCII case; the body length counts UTF-8 bytes.
pub fn classify_response(status: u16, content_type: &str, body: &str) -> (r: Option<HitKind>)
    ensures
        r == classify_spec(status, content_type@, body@),
{
    if !(200 <= status && status < 300) {
        return None;
    }
    let ct = crate::text::str_chars(content_type);
    let bd = crate::text::str_chars(body);
    let json_marker = crate::text::str_chars("application/json");
    if crate::text::contains_ci_chars(&ct, &json_marker) {
        return Some(HitKind::Json);
    }
    let t = crate::text::trim_chars(&bd);
    if t.len() > 0 {
        let c0 = t[0];
        if c0 == '{' || c0 == '[' {
            return Some(HitKind::Json);
        }
    }
    proof {
        assert(!json_shaped(content_type@, body@));
    }
    let doc_marker = crate::text::str_chars("documents");
    let fld_marker = crate::text::str_chars("fields");
    if crate::text::contains_chars(&bd, &doc_marker) && crate::text::contains_chars(
        &bd,
        &fld_marker,
    ) {
        return Some(HitKind::Firestore);
    }
    let kw = crate::text::str_chars("tierlist");
    if crate::text::utf8_len_chars(&bd) > 5000 && crate::text::contains_chars(&bd, &kw) {
        return Some(HitKind::Html);
    }
    None
}

/// The canonical page URL, the probe's last resort and the target of the
/// final unconditional fallback request.
pub open spec fn page_url_spec() -> Seq<char> {
    "https://illuvilytics.web.app/tierlist/comps"@
}

/// The candidate endpoints, in probe order: REST-style guesses, Firestore
/// documents, static data files, GraphQL, REST prefixes, backend
/// subdomains, CDN paths, and the original page last.
pub open spec fn catalog_spec() -> Seq<Seq<char>> {
    seq![
        "https://illuvilytics.web.app/api/tierlist"@,
        "https://illuvilytics.web.app/api/comps"@,
        "https://illuvilytics.web.app/api/builds"@,
        "https://illuvilytics.web.app/api/v1/tierlist"@,
        "https://illuvilytics.web.app/api/v1/comps"@,
        "https://firestore.googleapis.com/v1/projects/illuvilytics/databases/(default)/documents/tierlist"@,
        "https://firestore.googleapis.com/v1/projects/illuvilytics/databases/(default)/documents/comps"@,
        "https://illuvilytics.web.app/data/tierlist.json"@,
        "https://illuvilytics.web.app/data/comps.json"@,
        "https://illuvilytics.web.app/data/builds.json"@,
        "https://illuvilytics.web.app/assets/data/tierlist.json"@,
        "https://illuvilytics.web.app/assets/data/comps.json"@,
        "https://illuvilytics.web.app/graphql"@,
        "https://illuvilytics.web.app/rest/tierlist"@,
        "https://illuvilytics.web.app/rest/comps"@,
        "https://api.illuvilytics.web.app/tierlist"@,
        "https://api.illuvilytics.web.app/comps"@,
        "https://backend.illuvilytics.web.app/tierlist"@,
        "https://server.illuvilytics.web.app/tierlist"@,
        "https://cdn.illuvilytics.web.app/data/tierlist.json"@,
        "https://storage.googleapis.com/illuvilytics.appspot.com/tierlist.json"@,
        "https://illuvilytics.web.app/tierlist/comps"@,
    ]
}

/// The default candidate catalog as plain values, exactly `catalog_spec`,
/// ready to be handed to the prober (or replaced by a caller's own list).
#[verifier::rlimit(60)]
pub fn default_catalog() -> (r: Vec<String>)
    ensures
        r@.map_values(|s: String| s@) == catalog_spec(),
{
    let mut v: Vec<String> = Vec::new();
    v.push("https://illuvilytics.web.app/api/tierlist".to_owned());
    v.push("https://illuvilytics.web.app/api/comps".to_owned());
    v.push("https://illuvilytics.web.app/api/builds".to_owned());
    v.push("https://illuvilytics.web.app/api/v1/tierlist".to_owned());
    v.push("https://illuvilytics.web.app/api/v1/comps".to_owned());
    v.push(
        "https://firestore.googleapis.com/v1/projects/illuvilytics/databases/(default)/documents/tierlist".to_owned(),
    );
    v.push(
        "https://firestore.googleapis.com/v1/projects/illuvilytics/databases/(default)/documents/comps".to_owned(),
    );
    v.push("https://illuvilytics.web.app/data/tierlist.json".to_owned());
    v.push("https://illuvilytics.web.app/data/comps.json".to_owned());
    v.push("https://illuvilytics.web.app/data/builds.json".to_owned());
    v.push("https://illuvilytics.web.app/assets/data/tierlist.json".to_owned());
    v.push("https://illuvilytics.web.app/assets/data/comps.json".to_owned());
    v.push("https://illuvilytics.web.app/graphql".to_owned());
    v.push("https://illuvilytics.web.app/rest/tierlist".to_owned());
    v.push("https://illuvilytics.web.app/rest/comps".to_owned());
    v.push("https://api.illuvilytics.web.app/tierlist".to_owned());
    v.push("https://api.illuvilytics.web.app/comps".to_owned());
    v.push("https://backend.illuvilytics.web.app/tierlist".to_owned());
    v.push("https://server.illuvilytics.web.app/tierlist".to_owned());
    v.push("https://cdn.illuvilytics.web.app/data/tierlist.json".to_owned());
    v.push("https://storage.googleapis.com/illuvilytics.appspot.com/tierlist.json".to_owned());
    v.push("https://illuvilytics.web.app/tierlist/comps".to_owned());
    proof {
        assert(v@.map_values(|s: String| s@) =~= catalog_spec());
    }
    v
}

/// The catalog ends with the canonical page URL as the last resort.
pub proof fn lemma_catalog_last_is_page()
    ensures
        catalog_spec().len() > 0,
        catalog_spec().last() == page_url_spec(),
{
}

} // verus!

//! The acquisition orchestrator, as an explicit state machine: the caller
//! performs the outside work (rendering, one GET per step) and feeds each
//! outcome back as an event; this module decides everything. Attempt one is
//! the render path (pattern extraction, then structural extraction);
//! attempt two probes the candidate catalog in order and falls back to one
//! final unconditional request for the page shell. Only a hard failure on
//! both paths fails the pipeline.

use vstd::prelude::*;
use crate::json::records_json;
use crate::pattern::first_hit;
use crate::probe::classify_spec;
use crate::probe::is_success;
use crate::probe::HitKind;
use crate::structural::extract_spec;

verus! {

/// The outcome of the render attempt, as the caller reports it.
pub enum RenderEvent {
    /// The fully rendered HTML after script execution.
    Rendered(String),
    /// The browser could not be launched, a tab not opened, or navigation
    /// failed; the message describes the failure.
    RenderFailed(String),
}

/// The outcome of one GET request, as the caller reports it.
pub enum HttpEvent {
    /// A response arrived: its status code, the status line text (code and
    /// canonical reason), the declared content type (empty when absent,
    /// already lower-cased or not — the classifier ignores ASCII case), and
    /// the body text.
    Response { status: u16, status_text: String, content_type: String, body: String },
    /// The request failed in transport; the message describes the failure.
    Transport(String),
    /// The response arrived with a success status but its body could not be
    /// read.
    ReadFailed(String),
}

/// The model of a render event.
pub enum RenderEventV {
    Rendered(Seq<char>),
    RenderFailed(Seq<char>),
}

/// The model of an HTTP event.
pub enum HttpEventV {
    Response { status: u16, status_text: Seq<char>, content_type: Seq<char>, body: Seq<char> },
    Transport(Seq<char>),
    ReadFailed(Seq<char>),
}

impl View for RenderEvent {
    type V = RenderEventV;

    open spec fn view(&self) -> RenderEventV {
        match self {
            RenderEvent::Rendered(h) => RenderEventV::Rendered(h@),
            RenderEvent::RenderFailed(m) => RenderEventV::RenderFailed(m@),
        }
    }
}

impl View for HttpEvent {
    type V = HttpEventV;

    open spec fn view(&self) -> HttpEventV {
        match self {
            HttpEvent::Response { status, status_text, content_type, body } => {
                HttpEventV::Response {
                    status: *status,
                    status_text: status_text@,
                    content_type: content_type@,
                    body: body@,
                }
            },
            HttpEvent::Transport(m) => HttpEventV::Transport(m@),
            HttpEvent::ReadFailed(m) => HttpEventV::ReadFailed(m@),
        }
    }
}

/// What the pipeline asks the caller to do next.
pub enum Step {
    /// Done: the tagged payload.
    Emit(String),
    /// Request the catalog entry with this index next.
    Probe(usize),
    /// Request the canonical page unconditionally.
    Fallback,
}

/// The model of a step.
pub enum StepV {
    Emit(Seq<char>),
    Probe(int),
    Fallback,
}

impl View for Step {
    type V = StepV;

    open spec fn view(&self) -> StepV {
        match self {
            Step::Emit(p) => StepV::Emit(p@),
            Step::Probe(i) => StepV::Probe(*i as int),
            Step::Fallback => StepV::Fallback,
        }
    }
}

/// The tag prefix for raw JSON payloads.
pub open spec fn json_tag() -> Seq<char> {
    "JSON_DATA:"@
}

/// The tag prefix for structured-document payloads.
pub open spec fn firestore_tag() -> Seq<char> {
    "FIRESTORE_DATA:"@
}

/// The tag prefix for rich HTML payloads.
pub open spec fn html_tag() -> Seq<char> {
    "HTML_DATA:"@
}

/// The tag prefix for the final page-shell payload.
pub open spec fn shell_tag() -> Seq<char> {
    "HTML_SHELL:"@
}

/// Where probing goes after candidate `idx` yielded nothing: the next
/// candidate, or the final fallback once the catalog is exhausted.
pub open spec fn next_probe(catalog_len: int, idx: int) -> StepV {
    if idx + 1 < catalog_len {
        StepV::Probe(idx + 1)
    } else {
        StepV::Fallback
    }
}

/// The first probe step: the first candidate, or the final fallback on an
/// empty catalog.
pub open spec fn probe_begin_spec(catalog_len: int) -> StepV {
    if catalog_len > 0 {
        StepV::Probe(0)
    } else {
        StepV::Fallback
    }
}

/// The decision after the render attempt: a pattern hit is returned at
/// once; otherwise at least one structural record is serialized and
/// returned; otherwise — and on render failure — probing begins.
pub open spec fn render_step_spec(catalog_len: int, ev: RenderEventV) -> StepV {
    match ev {
        RenderEventV::Rendered(h) => match first_hit(h) {
            Some(frag) => StepV::Emit(json_tag() + frag),
            None => {
                let recs = extract_spec(h);
                if recs.len() > 0 {
                    StepV::Emit(json_tag() + records_json(recs))
                } else {
                    probe_begin_spec(catalog_len)
                }
            },
        },
        RenderEventV::RenderFailed(_) => probe_begin_spec(catalog_len),
    }
}

/// The decision after probing candidate `idx`: a classified 2xx response is
/// tagged and returned; a transport failure, a body that could not be read,
/// and an unclassified response all move to the next candidate — no single
/// candidate ever aborts the probe.
pub open spec fn probe_step_spec(catalog_len: int, idx: int, ev: HttpEventV) -> StepV {
    match ev {
        HttpEventV::Response { status, status_text, content_type, body } => {
            match classify_spec(status, content_type, body) {
                Some(HitKind::Json) => StepV::Emit(json_tag() + body),
                Some(HitKind::Firestore) => StepV::Emit(firestore_tag() + body),
                Some(HitKind::Html) => StepV::Emit(html_tag() + body),
                None => next_probe(catalog_len, idx),
            }
        },
        HttpEventV::Transport(_) => next_probe(catalog_len, idx),
        HttpEventV::ReadFailed(_) => next_probe(catalog_len, idx),
    }
}

/// The decision on the final unconditional request: any success status
/// returns the body as the page shell; anything else is the pipeline's
/// failure, carrying the concrete error.
pub open spec fn fallback_step_spec(ev: HttpEventV) -> Result<Seq<char>, Seq<char>> {
    match ev {
        HttpEventV::Response { status, status_text, content_type, body } => {
            if is_success(status) {
                Ok(shell_tag() + body)
            } else {
                Err("HTTP error: "@ + status_text)
            }
        },
        HttpEventV::Transport(m) => Err("HTTP request failed: "@ + m),
        HttpEventV::ReadFailed(m) => Err("Failed to read response: "@ + m),
    }
}

/// An executable result agrees with a modelled one.
pub open spec fn res_matches(r: Result<String, String>, s: Result<Seq<char>, Seq<char>>) -> bool {
    match (r, s) {
        (Ok(a), Ok(b)) => a@ == b,
        (Err(a), Err(b)) => a@ == b,
        _ => false,
    }
}

/// The decision after the render attempt, exactly `render_step_spec`.
pub fn on_render(catalog_len: usize, ev: &RenderEvent) -> (r: Step)
    ensures
        r@ == render_step_spec(catalog_len as int, ev@),
{
    match ev {
        RenderEvent::Rendered(h) => {
            match crate::pattern::extract_json_from_html(h.as_str()) {
                Some(frag) => {
                    let mut p = "JSON_DATA:".to_owned();
                    p.append(frag.as_str());
                    Step::Emit(p)
                },
                None => {
                    let recs = crate::structural::parse_tierlist_html(h.as_str());
                    if recs.len() > 0 {
                        let body = crate::json::records_to_json(&recs);
                        let mut p = "JSON_DATA:".to_owned();
                        p.append(body.as_str());
                        Step::Emit(p)
                    } else {
                        probe_begin(catalog_len)
                    }
                },
            }
        },
        RenderEvent::RenderFailed(_) => probe_begin(catalog_len),
    }
}

/// The first probe step, exactly `probe_begin_spec`.
pub fn probe_begin(catalog_len: usize) -> (r: Step)
    ensures
        r@ == probe_begin_spec(catalog_len as int),
{
    if catalog_len > 0 {
        Step::Probe(0)
    } else {
        Step::Fallback
    }
}

/// The decision after probing candidate `idx`, exactly `probe_step_spec`.
pub fn on_probe(catalog_len: usize, idx: usize, ev: &HttpEvent) -> (r: Step)
    requires
        idx < catalog_len,
    ensures
        r@ == probe_step_spec(catalog_len as int, idx as int, ev@),
{
    match ev {
        HttpEvent::Response { status, status_text, content_type, body } => {
            match crate::probe::classify_response(*status, content_type.as_str(), body.as_str()) {
                Some(HitKind::Json) => {
                    let mut p = "JSON_DATA:".to_owned();
                    p.append(body.as_str());
                    Step::Emit(p)
                },
                Some(HitKind::Firestore) => {
                    let mut p = "FIRESTORE_DATA:".to_owned();
                    p.append(body.as_str());
                    Step::Emit(p)
                },
                Some(HitKind::Html) => {
                    let mut p = "HTML_DATA:".to_owned();
                    p.append(body.as_str());
                    Step::Emit(p)
                },
                None => {
                    if idx + 1 < catalog_len {
                        Step::Probe(idx + 1)
                    } else {
                        Step::Fallback
                    }
                },
            }
        },
        HttpEvent::Transport(_) => {
            if idx + 1 < catalog_len {
                Step::Probe(idx + 1)
            } else {
                Step::Fallback
            }
        },
        HttpEvent::ReadFailed(_) => {
            if idx + 1 < catalog_len {
                Step::Probe(idx + 1)
            } else {
                Step::Fallback
            }
        },
    }
}

/// The decision on the final unconditional request, exactly
/// `fallback_step_spec`.
pub fn on_fallback(ev: &HttpEvent) -> (r: Result<String, String>)
    ensures
        res_matches(r, fallback_step_spec(ev@)),
{
    match ev {
        HttpEvent::Response { status, status_text, content_type, body } => {
            if 200 <= *status && *status < 300 {
                let mut p = "HTML_SHELL:".to_owned();
                p.append(body.as_str());
                Ok(p)
            } else {
                let mut m = "HTTP error: ".to_owned();
                m.append(status_text.as_str());
                Err(m)
            }
        },
        HttpEvent::Transport(msg) => {
            let mut m = "HTTP request failed: ".to_owned();
            m.append(msg.as_str());
            Err(m)
        },
        HttpEvent::ReadFailed(msg) => {
            let mut m = "Failed to read response: ".to_owned();
            m.append(msg.as_str());
            Err(m)
        },
    }
}

/// The whole probe phase on given per-candidate events, from candidate
/// `idx` on: the first classified hit wins; exhaustion reaches the final
/// fallback event.
pub open spec fn probe_run_spec(
    catalog_len: int,
    evs: Seq<HttpEventV>,
    fb: HttpEventV,
    idx: int,
) -> Result<Seq<char>, Seq<char>>
    decreases catalog_len - idx,
{
    if !(0 <= idx < catalog_len && evs.len() == catalog_len) {
        fallback_step_spec(fb)
    } else {
        match probe_step_spec(catalog_len, idx, evs[idx]) {
            StepV::Emit(p) => Ok(p),
            StepV::Probe(j) => probe_run_spec(catalog_len, evs, fb, idx + 1),
            StepV::Fallback => fallback_step_spec(fb),
        }
    }
}

/// The whole pipeline on given events: the render decision, then the probe
/// phase when the render path yields nothing usable.
pub open spec fn run_spec(
    catalog_len: int,
    render: RenderEventV,
    evs: Seq<HttpEventV>,
    fb: HttpEventV,
) -> Result<Seq<char>, Seq<char>> {
    match render_step_spec(catalog_len, render) {
        StepV::Emit(p) => Ok(p),
        StepV::Probe(j) => probe_run_spec(catalog_len, evs, fb, 0),
        StepV::Fallback => fallback_step_spec(fb),
    }
}

/// Runs the whole pipeline against given outcomes: `http[i]` answers the
/// request for catalog entry `i`, and `fb` answers the final unconditional
/// page request. The caller that performs real network work drives the step
/// functions one event at a time instead; this driver shows the decisions
/// are a function of the upstream's answers and nothing else.
pub fn run_pipeline(
    catalog: &Vec<String>,
    render: &RenderEvent,
    http: &Vec<HttpEvent>,
    fb: &HttpEvent,
) -> (r: Result<String, String>)
    requires
        http@.len() == catalog@.len(),
    ensures
        res_matches(r, run_spec(catalog@.len() as int, render@, http@.map_values(|e: HttpEvent| e@), fb@)),
{
    let cl: usize = catalog.len();
    let ghost evs = http@.map_values(|e: HttpEvent| e@);
    let step0 = on_render(cl, render);
    let mut idx: usize;
    match step0 {
        Step::Emit(p) => {
            return Ok(p);
        },
        Step::Fallback => {
            return on_fallback(fb);
        },
        Step::Probe(i0) => {
            idx = i0;
        },
    }
    proof {
        assert(probe_begin_spec(cl as int) == StepV::Probe(idx as int));
        assert(idx == 0 && cl > 0);
    }
    loop
        invariant
            0 <= idx < cl,
            cl == catalog@.len() == http@.len(),
            evs == http@.map_values(|e: HttpEvent| e@),
            evs[idx as int] == http@[idx as int]@,
            run_spec(cl as int, render@, evs, fb@) == probe_run_spec(cl as int, evs, fb@, idx as int),
        decreases cl - idx,
    {
        let st = on_probe(cl, idx, &http[idx]);
        match st {
            Step::Emit(p) => {
                return Ok(p);
            },
            Step::Fallback => {
                return on_fallback(fb);
            },
            Step::Probe(j) => {
                proof {
                    assert(probe_step_spec(cl as int, idx as int, evs[idx as int]) == StepV::Probe(
                        j as int,
                    ));
                    assert(j as int == idx + 1 && (j as int) < cl as int);
                }
                idx = j;
            },
        }
    }
}

/// The probe returns the first classified hit: when every candidate before
/// `k` transport-fails, cannot be read, or draws an unclassified response,
/// and candidate `k`'s response classifies as JSON data, the probe's result
/// is exactly candidate `k`'s body under the JSON tag.
pub proof fn lemma_probe_first_json_hit(
    catalog_len: int,
    evs: Seq<HttpEventV>,
    fb: HttpEventV,
    k: int,
)
    requires
        0 <= k < catalog_len,
        evs.len() == catalog_len,
        forall|j: int| 0 <= j < k ==> #[trigger] probe_misses(catalog_len, j, evs[j]),
        match evs[k] {
            HttpEventV::Response { status, status_text, content_type, body } => classify_spec(
                status,
                content_type,
                body,
            ) == Some(HitKind::Json),
            _ => false,
        },
    ensures
        probe_run_spec(catalog_len, evs, fb, 0) == match evs[k] {
            HttpEventV::Response { status, status_text, content_type, body } => Ok::<
                Seq<char>,
                Seq<char>,
            >(json_tag() + body),
            _ => Err(Seq::<char>::empty()),
        },
{
    lemma_probe_first_json_hit_from(catalog_len, evs, fb, 0, k);
}

/// Candidate `j` yields no classified hit: the probe moves on.
pub open spec fn probe_misses(catalog_len: int, j: int, ev: HttpEventV) -> bool {
    probe_step_spec(catalog_len, j, ev) == next_probe(catalog_len, j)
}

proof fn lemma_probe_first_json_hit_from(
    catalog_len: int,
    evs: Seq<HttpEventV>,
    fb: HttpEventV,
    i: int,
    k: int,
)
    requires
        0 <= i <= k < catalog_len,
        evs.len() == catalog_len,
        forall|j: int| i <= j < k ==> #[trigger] probe_misses(catalog_len, j, evs[j]),
        match evs[k] {
            HttpEventV::Response { status, status_text, content_type, body } => classify_spec(
                status,
                content_type,
                body,
            ) == Some(HitKind::Json),
            _ => false,
        },
    ensures
        probe_run_spec(catalog_len, evs, fb, i) == match evs[k] {
            HttpEventV::Response { status, status_text, content_type, body } => Ok::<
                Seq<char>,
                Seq<char>,
            >(json_tag() + body),
            _ => Err(Seq::<char>::empty()),
        },
    decreases k - i,
{
    if i < k {
        assert(probe_misses(catalog_len, i, evs[i]));
        lemma_probe_first_json_hit_from(catalog_len, evs, fb, i + 1, k);
    }
}

/// Candidates after a hit are never consulted: two runs over event lists
/// that agree up to and including the first deciding candidate, whatever
/// stands after it and whatever the fallback answers would be, give the
/// same result.
pub proof fn lemma_probe_stops_at_hit(
    catalog_len: int,
    evs1: Seq<HttpEventV>,
    evs2: Seq<HttpEventV>,
    fb1: HttpEventV,
    fb2: HttpEventV,
    k: int,
)
    requires
        0 <= k < catalog_len,
        evs1.len() == catalog_len,
        evs2.len() == catalog_len,
        forall|j: int| 0 <= j <= k ==> evs1[j] == evs2[j],
        forall|j: int| 0 <= j < k ==> #[trigger] probe_misses(catalog_len, j, evs1[j]),
        probe_step_spec(catalog_len, k, evs1[k]) is Emit,
    ensures
        probe_run_spec(catalog_len, evs1, fb1, 0) == probe_run_spec(catalog_len, evs2, fb2, 0),
{
    lemma_probe_stops_at_hit_from(catalog_len, evs1, evs2, fb1, fb2, 0, k);
}

proof fn lemma_probe_stops_at_hit_from(
    catalog_len: int,
    evs1: Seq<HttpEventV>,
    evs2: Seq<HttpEventV>,
    fb1: HttpEventV,
    fb2: HttpEventV,
    i: int,
    k: int,
)
    requires
        0 <= i <= k < catalog_len,
        evs1.len() == catalog_len,
        evs2.len() == catalog_len,
        forall|j: int| 0 <= j <= k ==> evs1[j] == evs2[j],
        forall|j: int| i <= j < k ==> #[trigger] probe_misses(catalog_len, j, evs1[j]),
        probe_step_spec(catalog_len, k, evs1[k]) is Emit,
    ensures
        probe_run_spec(catalog_len, evs1, fb1, i) == probe_run_spec(catalog_len, evs2, fb2, i),
    decreases k - i,
{
    if i < k {
        assert(probe_misses(catalog_len, i, evs1[i]));
        lemma_probe_stops_at_hit_from(catalog_len, evs1, evs2, fb1, fb2, i + 1, k);
    }
}

/// The pipeline fails only when both paths fail: every error it returns is
/// the final fallback's. No candidate's transport failure, unreadable body
/// or status aborts the probe, and a render failure alone is absorbed; an
/// error implies the render path yielded nothing usable and the final
/// unconditional request itself failed.
pub proof fn lemma_failure_only_from_fallback(
    catalog_len: int,
    render: RenderEventV,
    evs: Seq<HttpEventV>,
    fb: HttpEventV,
)
    ensures
        run_spec(catalog_len, render, evs, fb) is Err ==> {
            &&& !(render_step_spec(catalog_len, render) is Emit)
            &&& run_spec(catalog_len, render, evs, fb) == fallback_step_spec(fb)
            &&& fallback_step_spec(fb) is Err
        },
{
    lemma_probe_err_is_fallback(catalog_len, evs, fb, 0);
}

proof fn lemma_probe_err_is_fallback(catalog_len: int, evs: Seq<HttpEventV>, fb: HttpEventV, i: int)
    ensures
        probe_run_spec(catalog_len, evs, fb, i) is Err ==> probe_run_spec(catalog_len, evs, fb, i)
            == fallback_step_spec(fb),
    decreases catalog_len - i,
{
    if 0 <= i < catalog_len && evs.len() == catalog_len {
        lemma_probe_err_is_fallback(catalog_len, evs, fb, i + 1);
    }
}

/// The pipeline is deterministic: two runs against the same upstream
/// answers return the same tagged payload (or the same failure), byte for
/// byte.
pub proof fn lemma_pipeline_idempotent(
    r1: Result<String, String>,
    r2: Result<String, String>,
    catalog_len: int,
    render: RenderEventV,
    evs: Seq<HttpEventV>,
    fb: HttpEventV,
)
    requires
        res_matches(r1, run_spec(catalog_len, render, evs, fb)),
        res_matches(r2, run_spec(catalog_len, render, evs, fb)),
    ensures
        match (r1, r2) {
            (Ok(a), Ok(b)) => a@ == b@,
            (Err(a), Err(b)) => a@ == b@,
            _ => false,
        },
{
}

} // verus!

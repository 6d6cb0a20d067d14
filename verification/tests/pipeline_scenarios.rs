use tierfetch::pipeline::{on_fallback, on_probe, on_render, run_pipeline, HttpEvent, RenderEvent, Step};
use tierfetch::probe::default_catalog;

fn resp(status: u16, status_text: &str, content_type: &str, body: &str) -> HttpEvent {
    HttpEvent::Response {
        status,
        status_text: status_text.to_string(),
        content_type: content_type.to_string(),
        body: body.to_string(),
    }
}

fn all_transport(n: usize, msg: &str) -> Vec<HttpEvent> {
    let mut v = Vec::new();
    for _ in 0..n {
        v.push(HttpEvent::Transport(msg.to_string()));
    }
    v
}

#[test]
fn scenario_render_bootstrap_state() {
    let catalog = default_catalog();
    let html = "<html><script>window.__INITIAL_STATE__ = {\"a\":1};</script></html>";
    let render = RenderEvent::Rendered(html.to_string());
    let http = all_transport(catalog.len(), "unused");
    let fb = HttpEvent::Transport("unused".to_string());
    let r = run_pipeline(&catalog, &render, &http, &fb);
    assert_eq!(r, Ok("JSON_DATA:{\"a\":1}".to_string()));
}

#[test]
fn scenario_probe_after_empty_render() {
    let catalog = vec![
        "https://example.test/a".to_string(),
        "https://example.test/b".to_string(),
        "https://example.test/c".to_string(),
    ];
    let html = "<html><body><p>nothing here</p></body></html>";
    let render = RenderEvent::Rendered(html.to_string());
    let http = vec![
        resp(404, "404 Not Found", "text/html", "missing"),
        resp(200, "200 OK", "application/json", "{\"builds\":[]}"),
        HttpEvent::Transport("never reached".to_string()),
    ];
    let fb = HttpEvent::Transport("never reached".to_string());
    let r = run_pipeline(&catalog, &render, &http, &fb);
    assert_eq!(r, Ok("JSON_DATA:{\"builds\":[]}".to_string()));
}

#[test]
fn scenario_total_failure_reports_fallback_error() {
    let catalog = default_catalog();
    let render = RenderEvent::RenderFailed("no browser".to_string());
    let http = all_transport(catalog.len(), "dns error");
    let fb = HttpEvent::Transport("connection refused".to_string());
    let r = run_pipeline(&catalog, &render, &http, &fb);
    assert_eq!(r, Err("HTTP request failed: connection refused".to_string()));
}

#[test]
fn scenario_idempotent_runs() {
    let catalog = default_catalog();
    let render1 = RenderEvent::RenderFailed("no browser".to_string());
    let render2 = RenderEvent::RenderFailed("no browser".to_string());
    let mut http1 = all_transport(catalog.len() - 1, "dns error");
    http1.push(resp(200, "200 OK", "text/html", "<html>shell</html>"));
    let mut http2 = all_transport(catalog.len() - 1, "dns error");
    http2.push(resp(200, "200 OK", "text/html", "<html>shell</html>"));
    let fb1 = resp(200, "200 OK", "text/html", "<html>shell</html>");
    let fb2 = resp(200, "200 OK", "text/html", "<html>shell</html>");
    let r1 = run_pipeline(&catalog, &render1, &http1, &fb1);
    let r2 = run_pipeline(&catalog, &render2, &http2, &fb2);
    assert_eq!(r1, r2);
}

#[test]
fn scenario_structural_records_serialized() {
    let catalog = default_catalog();
    let html = "<html><body><div class=\"build-card\"><h3> Alpha </h3>\
                <span class=\"unit\">U1</span><span class=\"unit\"> </span>\
                <span class=\"win-rate\">52.5%</span></div></body></html>";
    let render = RenderEvent::Rendered(html.to_string());
    let http = all_transport(catalog.len(), "unused");
    let fb = HttpEvent::Transport("unused".to_string());
    let r = run_pipeline(&catalog, &render, &http, &fb);
    assert_eq!(
        r,
        Ok("JSON_DATA:[{\"composition\":[\"U1\"],\"name\":\"Alpha\",\"winRate\":0.525}]".to_string())
    );
}

#[test]
fn probe_firestore_classification() {
    let ev = resp(
        200,
        "200 OK",
        "text/plain",
        "response with documents and fields markers",
    );
    let st = on_probe(5, 2, &ev);
    match st {
        Step::Emit(p) => assert_eq!(
            p,
            "FIRESTORE_DATA:response with documents and fields markers".to_string()
        ),
        _ => panic!("expected a firestore hit"),
    }
}

#[test]
fn probe_rich_html_classification() {
    let mut body = String::from("tierlist page ");
    while body.len() <= 5000 {
        body.push_str("padding padding padding ");
    }
    let ev = resp(200, "200 OK", "text/html", &body);
    let st = on_probe(5, 2, &ev);
    match st {
        Step::Emit(p) => assert_eq!(p, format!("HTML_DATA:{}", body)),
        _ => panic!("expected a rich-html hit"),
    }
}

#[test]
fn probe_small_html_continues() {
    let ev = resp(200, "200 OK", "text/html", "<html>tierlist</html>");
    let st = on_probe(5, 2, &ev);
    match st {
        Step::Probe(i) => assert_eq!(i, 3),
        _ => panic!("expected the probe to continue"),
    }
}

#[test]
fn probe_last_candidate_falls_back() {
    let ev = resp(404, "404 Not Found", "text/html", "missing");
    let st = on_probe(5, 4, &ev);
    assert!(matches!(st, Step::Fallback));
}

#[test]
fn probe_read_failure_continues() {
    let ev = HttpEvent::ReadFailed("stream cut".to_string());
    let st = on_probe(5, 0, &ev);
    match st {
        Step::Probe(i) => assert_eq!(i, 1),
        _ => panic!("expected the probe to continue"),
    }
    let last = on_probe(5, 4, &HttpEvent::ReadFailed("stream cut".to_string()));
    assert!(matches!(last, Step::Fallback));
}

#[test]
fn scenario_read_failure_never_aborts_probe() {
    let catalog = vec![
        "https://example.test/a".to_string(),
        "https://example.test/b".to_string(),
        "https://example.test/c".to_string(),
    ];
    let render = RenderEvent::RenderFailed("no browser".to_string());
    let http = vec![
        HttpEvent::ReadFailed("stream cut".to_string()),
        resp(200, "200 OK", "application/json", "{\"after\":1}"),
        HttpEvent::Transport("never reached".to_string()),
    ];
    let fb = HttpEvent::Transport("never reached".to_string());
    let r = run_pipeline(&catalog, &render, &http, &fb);
    assert_eq!(r, Ok("JSON_DATA:{\"after\":1}".to_string()));
}

#[test]
fn probe_byte_threshold_counts_utf8_bytes() {
    // 1998 three-byte characters plus the keyword: 6002 bytes but only
    // 2006 characters, so the threshold must be measured in bytes.
    let mut body = String::from("tierlist");
    for _ in 0..1998 {
        body.push('\u{20ac}');
    }
    assert!(body.len() > 5000);
    assert!(body.chars().count() < 5000);
    let ev = resp(200, "200 OK", "text/html", &body);
    let st = on_probe(5, 2, &ev);
    match st {
        Step::Emit(p) => assert_eq!(p, format!("HTML_DATA:{}", body)),
        _ => panic!("expected a rich-html hit"),
    }
}

#[test]
fn probe_case_insensitive_content_type() {
    let ev = resp(200, "200 OK", "Application/JSON; charset=utf-8", "not json looking");
    let st = on_probe(3, 0, &ev);
    match st {
        Step::Emit(p) => assert_eq!(p, "JSON_DATA:not json looking".to_string()),
        _ => panic!("expected a json hit on the content type"),
    }
}

#[test]
fn probe_body_shape_wins_without_content_type() {
    let ev = resp(200, "200 OK", "", "  [1,2,3]");
    let st = on_probe(3, 1, &ev);
    match st {
        Step::Emit(p) => assert_eq!(p, "JSON_DATA:  [1,2,3]".to_string()),
        _ => panic!("expected a json hit on the body shape"),
    }
}

#[test]
fn fallback_success_is_shell() {
    let ev = resp(200, "200 OK", "text/html", "<html>bare shell</html>");
    let r = on_fallback(&ev);
    assert_eq!(r, Ok("HTML_SHELL:<html>bare shell</html>".to_string()));
}

#[test]
fn fallback_status_error() {
    let ev = resp(503, "503 Service Unavailable", "text/html", "down");
    let r = on_fallback(&ev);
    assert_eq!(r, Err("HTTP error: 503 Service Unavailable".to_string()));
}

#[test]
fn render_failure_starts_probe_at_zero() {
    let render = RenderEvent::RenderFailed("launch failed".to_string());
    let st = on_render(22, &render);
    match st {
        Step::Probe(i) => assert_eq!(i, 0),
        _ => panic!("expected probing to begin"),
    }
}

#[test]
fn catalog_shape() {
    let c = default_catalog();
    assert_eq!(c.len(), 22);
    assert_eq!(c[0], "https://illuvilytics.web.app/api/tierlist".to_string());
    assert_eq!(
        c[c.len() - 1],
        "https://illuvilytics.web.app/tierlist/comps".to_string()
    );
}

use tierfetch::json::records_to_json;
use tierfetch::pattern::extract_json_from_html;
use tierfetch::proxy::proxy_outcome;
use tierfetch::pipeline::HttpEvent;
use tierfetch::structural::parse_tierlist_html;
use tierfetch::winrate::parse_win_rate;

#[test]
fn first_selector_group_wins() {
    let html = "<html><body>\
        <div class=\"build-card\"><h3>Alpha</h3></div>\
        <div class=\"card\"><h3>Beta</h3></div>\
        <div class=\"item\"><h3>Gamma</h3></div>\
        </body></html>";
    let recs = parse_tierlist_html(html);
    assert_eq!(recs.len(), 1);
    assert_eq!(recs[0].name, Some("Alpha".to_string()));
}

#[test]
fn later_group_used_when_earlier_empty() {
    let html = "<html><body>\
        <div class=\"card\"><h3>Beta</h3></div>\
        <div class=\"item\"><h3>Gamma</h3></div>\
        </body></html>";
    let recs = parse_tierlist_html(html);
    assert_eq!(recs.len(), 2);
    assert_eq!(recs[0].name, Some("Beta".to_string()));
    assert_eq!(recs[1].name, Some("Gamma".to_string()));
}

#[test]
fn element_without_fields_is_dropped() {
    let html = "<html><body>\
        <div class=\"build-card\"><h3>Alpha</h3></div>\
        <div class=\"build-card\"><p>no title, units or rate</p></div>\
        </body></html>";
    let recs = parse_tierlist_html(html);
    assert_eq!(recs.len(), 1);
    assert_eq!(recs[0].name, Some("Alpha".to_string()));
}

#[test]
fn composition_trimmed_and_empties_dropped() {
    let html = "<html><body><div class=\"build-card\">\
        <span class=\"illuvial\"> Axolotl </span>\
        <span class=\"champion\">   </span>\
        <span class=\"unit\">Rypter</span>\
        </div></body></html>";
    let recs = parse_tierlist_html(html);
    assert_eq!(recs.len(), 1);
    assert_eq!(recs[0].name, None);
    assert_eq!(
        recs[0].composition,
        vec!["Axolotl".to_string(), "Rypter".to_string()]
    );
}

#[test]
fn unparsable_win_rate_is_absent_not_zero() {
    let html = "<html><body><div class=\"build-card\">\
        <h3>Alpha</h3><span class=\"rate\">N/A</span>\
        </div></body></html>";
    let recs = parse_tierlist_html(html);
    assert_eq!(recs.len(), 1);
    assert_eq!(recs[0].win_rate, None);
}

#[test]
fn win_rate_parses_to_exact_fraction() {
    assert_eq!(parse_win_rate("52.5%"), Some("0.525".to_string()));
    assert_eq!(parse_win_rate("33%"), Some("0.33".to_string()));
    assert_eq!(parse_win_rate("5%"), Some("0.05".to_string()));
    assert_eq!(parse_win_rate("50.0%"), Some("0.5".to_string()));
    assert_eq!(parse_win_rate("100%"), Some("1".to_string()));
    assert_eq!(parse_win_rate("250%"), Some("2.5".to_string()));
    assert_eq!(parse_win_rate("0%"), Some("0".to_string()));
    assert_eq!(parse_win_rate("N/A"), None);
    assert_eq!(parse_win_rate(""), None);
    assert_eq!(parse_win_rate("%"), None);
    assert_eq!(parse_win_rate("."), None);
    assert_eq!(parse_win_rate("1.2.3"), None);
    assert_eq!(parse_win_rate("-5%"), None);
}

#[test]
fn pattern_priority_over_position() {
    let html = "const initialData = {\"late\":2}; window.__INITIAL_STATE__ = {\"early\":1};";
    assert_eq!(extract_json_from_html(html), Some("{\"early\":1}".to_string()));
}

#[test]
fn pattern_miss_is_none() {
    assert_eq!(extract_json_from_html("<html>plain page</html>"), None);
}

#[test]
fn pattern_matches_each_idiom() {
    assert_eq!(
        extract_json_from_html("window.__DATA__ = {\"d\":1};"),
        Some("{\"d\":1}".to_string())
    );
    assert_eq!(
        extract_json_from_html("window.__NEXT_DATA__={\"n\":1};"),
        Some("{\"n\":1}".to_string())
    );
    assert_eq!(
        extract_json_from_html("window.APP_STATE = {\"s\":1};"),
        Some("{\"s\":1}".to_string())
    );
    assert_eq!(
        extract_json_from_html("window.INITIAL_DATA = {\"i\":1};"),
        Some("{\"i\":1}".to_string())
    );
    assert_eq!(
        extract_json_from_html("const initialData = {\"c\":1};"),
        Some("{\"c\":1}".to_string())
    );
}

#[test]
fn json_escaping_in_records() {
    let html = "<html><body><div class=\"build-card\">\
        <h3>A\"B\\C</h3>\
        </div></body></html>";
    let recs = parse_tierlist_html(html);
    let json = records_to_json(&recs);
    assert_eq!(json, "[{\"name\":\"A\\\"B\\\\C\"}]".to_string());
}

#[test]
fn records_json_empty_list() {
    let recs = parse_tierlist_html("<html><body><p>nothing</p></body></html>");
    assert_eq!(recs.len(), 0);
    assert_eq!(records_to_json(&recs), "[]".to_string());
}

#[test]
fn proxy_success_returns_body() {
    let ev = HttpEvent::Response {
        status: 200,
        status_text: "200 OK".to_string(),
        content_type: "text/html".to_string(),
        body: "payload".to_string(),
    };
    assert_eq!(proxy_outcome(&ev), Ok("payload".to_string()));
}

#[test]
fn proxy_status_error_message() {
    let ev = HttpEvent::Response {
        status: 404,
        status_text: "404 Not Found".to_string(),
        content_type: "text/html".to_string(),
        body: "missing".to_string(),
    };
    assert_eq!(proxy_outcome(&ev), Err("HTTP 404 Not Found: 404".to_string()));
}

#[test]
fn proxy_transport_error_message() {
    let ev = HttpEvent::Transport("timed out".to_string());
    assert_eq!(
        proxy_outcome(&ev),
        Err("HTTP request failed: timed out".to_string())
    );
}

#[test]
fn proxy_read_error_message() {
    let ev = HttpEvent::ReadFailed("stream cut".to_string());
    assert_eq!(
        proxy_outcome(&ev),
        Err("Failed to read response text: stream cut".to_string())
    );
}

#[test]
fn json_escaping_control_characters() {
    let rec = tierfetch::json::BuildRecord {
        name: Some("a\u{1}b".to_string()),
        composition: Vec::new(),
        win_rate: None,
    };
    assert_eq!(
        records_to_json(&vec![rec]),
        "[{\"name\":\"a\\u0001b\"}]".to_string()
    );
}

#[test]
fn json_escaping_whitespace_shortcuts() {
    let rec = tierfetch::json::BuildRecord {
        name: Some("a\tb\nc\rd".to_string()),
        composition: Vec::new(),
        win_rate: None,
    };
    assert_eq!(
        records_to_json(&vec![rec]),
        "[{\"name\":\"a\\tb\\nc\\rd\"}]".to_string()
    );
}

#[test]
fn full_record_field_order() {
    let rec = tierfetch::json::BuildRecord {
        name: Some("X".to_string()),
        composition: vec!["A".to_string(), "B".to_string()],
        win_rate: Some("0.42".to_string()),
    };
    assert_eq!(
        records_to_json(&vec![rec]),
        "[{\"composition\":[\"A\",\"B\"],\"name\":\"X\",\"winRate\":0.42}]".to_string()
    );
}

#[test]
fn trim_removes_unicode_whitespace() {
    let html = "<html><body><div class=\"build-card\">\
        <h3>\u{a0}\u{2003}Alpha\u{a0}</h3>\
        </div></body></html>";
    let recs = parse_tierlist_html(html);
    assert_eq!(recs.len(), 1);
    assert_eq!(recs[0].name, Some("Alpha".to_string()));
}

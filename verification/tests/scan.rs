//! Which views of a request are scanned, and what the scan comes to.
use bytes::Bytes;
use guard_core_engine::body_scan::{extract_body_scan_values, BodyScanValue};
use guard_core_engine::detect::{detect, DetectConfig, DetectVerdict, Threat};
use guard_core_engine::patterns::RegexThreat;
use http::{Extensions, HeaderMap, HeaderName, HeaderValue};
use tower_guard_rs::scan::{
    begin_scan, finish_scan, is_excluded_header, request_views, take_values, take_verdict,
    threat_categories, ScanOutcome, ScanStep,
};
use tower_guard_rs::text::header_text;
use tower_guard_rs::{GuardLayer, RequestParts};

fn default_config() -> DetectConfig {
    DetectConfig {
        max_content_length: 10_000,
        max_full_scan_bytes: 262_144,
        preserve_attack_patterns: true,
        semantic_threshold: 0.7,
        threat_score_threshold: 1.0,
        binary_min_run_length: 16,
    }
}

fn layer() -> GuardLayer {
    GuardLayer::new(default_config())
}

fn request(uri: &str, headers: &[(&str, &[u8])]) -> RequestParts {
    let mut map = HeaderMap::new();
    for (name, value) in headers {
        map.append(
            HeaderName::from_bytes(name.as_bytes()).expect("name"),
            HeaderValue::from_bytes(value).expect("value"),
        );
    }
    RequestParts {
        uri: uri.parse().expect("uri"),
        headers: map,
        extensions: Extensions::new(),
    }
}

/// Scan a request with the real engine; the categories come out as the engine
/// lists them.
fn scan_views(parts: &RequestParts, body: Option<&Bytes>, layer: &GuardLayer) -> ScanOutcome {
    let mut step = begin_scan(parts, body, layer);
    loop {
        step = match step {
            ScanStep::Detect(question) => {
                let verdict = detect(question.content(), question.context(), question.config());
                take_verdict(question, Some(verdict))
            }
            ScanStep::Extract(question) => {
                let values = extract_body_scan_values(
                    question.text(),
                    question.content_type(),
                    question.config(),
                );
                take_values(question, Some(values))
            }
            ScanStep::Done(outcome) => return outcome,
        };
    }
}

/// Scan a request with the real engine; the categories come out in order, each
/// once.
fn scan_request(parts: &RequestParts, body: Option<&Bytes>, layer: &GuardLayer) -> ScanOutcome {
    finish_scan(scan_views(parts, body, layer))
}

/// What a scan asks, in order, when every view is clear and the body is one
/// value.
fn questions(parts: &RequestParts, body: Option<&Bytes>) -> Vec<(String, String)> {
    let mut asked = Vec::new();
    let mut step = begin_scan(parts, body, &layer());
    loop {
        step = match step {
            ScanStep::Detect(question) => {
                asked.push((question.content().to_owned(), question.context().to_owned()));
                take_verdict(question, Some(verdict(false, Vec::new())))
            }
            ScanStep::Extract(question) => {
                let value = BodyScanValue {
                    content: question.text().to_owned(),
                    context: question.content_type().to_owned(),
                    forced_category: None,
                };
                take_values(question, Some(vec![value]))
            }
            ScanStep::Done(outcome) => {
                assert_eq!(outcome, ScanOutcome::Clean);
                return asked;
            }
        };
    }
}

fn pair(content: &str, context: &str) -> (String, String) {
    (content.to_owned(), context.to_owned())
}

fn threat(categories: &[&str]) -> ScanOutcome {
    ScanOutcome::Threat(categories.iter().map(|item| (*item).to_owned()).collect())
}

fn regex_threat(category: &str) -> Threat {
    Threat::Regex(RegexThreat {
        pattern: "p".to_owned(),
        match_text: "m".to_owned(),
        position: 0,
        category: category.to_owned(),
        weight: 1.0,
    })
}

fn verdict(is_threat: bool, threats: Vec<Threat>) -> DetectVerdict {
    DetectVerdict {
        is_threat,
        threat_score: 1.0,
        threats,
        original_length: 1,
        processed_length: 1,
    }
}

const SCRIPT: &[u8] = b"<script>alert(1)</script>";

#[test]
fn excluded_headers_cover_the_negotiation_set_and_sec_prefix() {
    for name in [
        "host",
        "user-agent",
        "accept",
        "accept-encoding",
        "connection",
    ] {
        assert!(is_excluded_header(name), "{name} should be excluded");
    }
    for name in ["sec-fetch-site", "sec-ch-ua", "sec-websocket-key"] {
        assert!(is_excluded_header(name), "{name} should be excluded");
    }
    for name in ["cookie", "authorization", "content-type", "x-api-key"] {
        assert!(!is_excluded_header(name), "{name} should be scanned");
    }
}

#[test]
fn exclusion_goes_by_the_whole_name() {
    assert!(is_excluded_header("origin"));
    assert!(is_excluded_header("referer"));
    assert!(is_excluded_header("sec-"));
    for name in ["", "sec", "hosts", "ho", "x-sec-fetch", "accept-language", "referrer"] {
        assert!(!is_excluded_header(name), "{name} should be scanned");
    }
}

#[test]
fn scan_views_reports_threat_through_catch_unwind() {
    let outcome = scan_request(&request("/files/../../etc/passwd", &[]), None, &layer());
    assert_eq!(
        outcome,
        threat(&["dir_traversal"]),
        "traversal path should be flagged with its category"
    );
}

#[test]
fn scan_views_sorts_and_dedups_categories() {
    // `SELECT * FROM users` in a body view yields two sqli rows; the outcome
    // carries the category once.
    let outcome = scan_request(
        &request("/", &[]),
        Some(&Bytes::from_static(b"SELECT * FROM users")),
        &layer(),
    );
    assert_eq!(outcome, threat(&["sqli"]));
}

#[test]
fn unsorted_views_keep_every_row() {
    let outcome = scan_views(
        &request("/", &[]),
        Some(&Bytes::from_static(b"SELECT * FROM users")),
        &layer(),
    );
    assert_eq!(outcome, threat(&["sqli", "sqli"]));
}

#[test]
fn a_request_with_nothing_to_scan_is_clean() {
    assert_eq!(scan_request(&request("/", &[]), None, &layer()), ScanOutcome::Clean);
    assert_eq!(scan_request(&request("/?", &[]), None, &layer()), ScanOutcome::Clean);
}

#[test]
fn the_query_is_scanned() {
    let outcome = scan_request(&request("/search?cmd=$(whoami)", &[]), None, &layer());
    assert!(matches!(outcome, ScanOutcome::Threat(_)));
    let outcome = scan_request(&request("/search?q=hello", &[]), None, &layer());
    assert_eq!(outcome, ScanOutcome::Clean);
}

#[test]
fn headers_are_scanned_unless_excluded_or_opaque() {
    let scanned = scan_request(&request("/", &[("x-comment", SCRIPT)]), None, &layer());
    assert!(matches!(scanned, ScanOutcome::Threat(_)));
    for name in ["user-agent", "referer", "sec-ch-ua"] {
        let outcome = scan_request(&request("/", &[(name, SCRIPT)]), None, &layer());
        assert_eq!(outcome, ScanOutcome::Clean, "{name}");
    }
    let mut opaque = SCRIPT.to_vec();
    opaque.push(0xff);
    let outcome = scan_request(&request("/", &[("x-comment", &opaque)]), None, &layer());
    assert_eq!(outcome, ScanOutcome::Clean);
}

#[test]
fn an_unscanned_header_does_not_stop_the_walk() {
    let outcome = scan_request(
        &request("/", &[("user-agent", SCRIPT), ("x-note", b"hi"), ("x-comment", SCRIPT)]),
        None,
        &layer(),
    );
    assert!(matches!(outcome, ScanOutcome::Threat(_)));
}

#[test]
fn the_first_flagged_view_wins() {
    let outcome = scan_request(
        &request("/files/../../etc/passwd", &[("x-comment", SCRIPT)]),
        Some(&Bytes::from_static(b"SELECT * FROM users")),
        &layer(),
    );
    assert_eq!(outcome, threat(&["dir_traversal"]));
}

#[test]
fn a_blank_body_is_not_scanned() {
    for body in ["", " ", "\r\n\t ", "\u{3000}"] {
        let bytes = Bytes::from_static(body.as_bytes());
        let parts = request("/", &[("x-a", b"1")]);
        assert_eq!(questions(&parts, Some(&bytes)), vec![pair("1", "header")]);
    }
}

#[test]
fn the_engine_is_asked_about_every_view_in_order() {
    let parts = request(
        "/a/b?q=1",
        &[("host", b"h"), ("x-a", b"1"), ("content-type", b"text/plain"), ("x-b", b"\xff")],
    );
    assert_eq!(
        questions(&parts, Some(&Bytes::from_static(b"body"))),
        vec![
            pair("/a/b", "url_path"),
            pair("q=1", "query_param"),
            pair("1", "header"),
            pair("text/plain", "header"),
            pair("body", "text/plain"),
        ]
    );
    assert_eq!(questions(&request("/?", &[("host", b"h")]), None), Vec::new());
}

#[test]
fn a_body_is_taken_apart_by_its_content_type() {
    let body = Bytes::from_static(b"q=1+OR+1%3D1");
    let form: &[u8] = b"application/x-www-form-urlencoded";
    let with_type = scan_request(&request("/", &[("content-type", form)]), Some(&body), &layer());
    assert!(matches!(with_type, ScanOutcome::Threat(_)));
    let first_wins = scan_request(
        &request("/", &[("content-type", b"text/plain"), ("content-type", form)]),
        Some(&body),
        &layer(),
    );
    assert_eq!(first_wins, ScanOutcome::Clean);
    assert_eq!(scan_request(&request("/", &[]), Some(&body), &layer()), ScanOutcome::Clean);
}

#[test]
fn a_body_that_is_not_utf8_is_still_scanned() {
    let mut body = b"\xff\xfe".to_vec();
    body.extend_from_slice(SCRIPT);
    let outcome = scan_request(&request("/", &[]), Some(&Bytes::from(body)), &layer());
    assert!(matches!(outcome, ScanOutcome::Threat(_)));
    let asked = questions(&request("/", &[]), Some(&Bytes::from_static(b"a\xffb")));
    assert_eq!(asked, vec![pair("a\u{fffd}b", "")]);
}

/// Begin to scan a request of which only the body is scanned, and hand in the
/// values.
fn with_values(values: Option<Vec<BodyScanValue>>) -> ScanStep {
    match begin_scan(&request("/", &[]), Some(&Bytes::from_static(b"x")), &layer()) {
        ScanStep::Extract(question) => take_values(question, values),
        step => panic!("unexpected {step:?}"),
    }
}

fn value(content: &str, forced: Option<&'static str>) -> BodyScanValue {
    BodyScanValue {
        content: content.to_owned(),
        context: "request_body:form_field".to_owned(),
        forced_category: forced,
    }
}

#[test]
fn a_forced_category_is_a_threat_outright() {
    let step = with_values(Some(vec![value("hello", Some("nosql"))]));
    assert!(matches!(step, ScanStep::Done(outcome) if outcome == threat(&["nosql"])));
    // The values before it are looked at first.
    match with_values(Some(vec![value("hello", None), value("x", Some("nosql"))])) {
        ScanStep::Detect(question) => {
            assert_eq!(question.content(), "hello");
            assert_eq!(question.context(), "request_body:form_field");
            let step = take_verdict(question, Some(verdict(false, Vec::new())));
            assert!(matches!(step, ScanStep::Done(outcome) if outcome == threat(&["nosql"])));
        }
        step => panic!("unexpected {step:?}"),
    }
    assert!(matches!(with_values(Some(Vec::new())), ScanStep::Done(ScanOutcome::Clean)));
}

#[test]
fn a_panic_of_the_engine_fails_the_scan() {
    assert!(matches!(with_values(None), ScanStep::Done(ScanOutcome::Failed)));
    match begin_scan(&request("/a", &[]), None, &layer()) {
        ScanStep::Detect(question) => {
            let step = take_verdict(question, None);
            assert!(matches!(step, ScanStep::Done(ScanOutcome::Failed)));
        }
        step => panic!("unexpected {step:?}"),
    }
    // A clean view before it does not change that.
    match with_values(Some(vec![value("a", None), value("b", None)])) {
        ScanStep::Detect(question) => {
            match take_verdict(question, Some(verdict(false, Vec::new()))) {
                ScanStep::Detect(question) => {
                    assert_eq!(question.content(), "b");
                    let step = take_verdict(question, None);
                    assert!(matches!(step, ScanStep::Done(ScanOutcome::Failed)));
                }
                step => panic!("unexpected {step:?}"),
            }
        }
        step => panic!("unexpected {step:?}"),
    }
}

#[test]
fn the_first_threat_ends_the_scan() {
    match with_values(Some(vec![value("a", None), value("b", None)])) {
        ScanStep::Detect(question) => {
            let rows = vec![regex_threat("xss"), regex_threat("sqli"), regex_threat("xss")];
            match take_verdict(question, Some(verdict(true, rows))) {
                ScanStep::Done(outcome) => {
                    assert_eq!(outcome, threat(&["xss", "sqli", "xss"]));
                    assert_eq!(finish_scan(outcome), threat(&["sqli", "xss"]));
                }
                step => panic!("unexpected {step:?}"),
            }
        }
        step => panic!("unexpected {step:?}"),
    }
}

#[test]
fn finishing_leaves_other_outcomes_alone() {
    assert_eq!(finish_scan(ScanOutcome::Clean), ScanOutcome::Clean);
    assert_eq!(finish_scan(ScanOutcome::Failed), ScanOutcome::Failed);
}

#[test]
fn views_are_those_of_the_request_parts() {
    let entry = |name: &str, value: &[u8]| (name.to_owned(), value.to_vec());
    let entries = vec![entry("a", b"1"), entry("host", b"2"), entry("b", b"\x80"), entry("c", b"")];
    let views: Vec<(String, String)> = request_views("/p", Some("q"), &entries)
        .into_iter()
        .map(|view| (view.content, view.context))
        .collect();
    assert_eq!(
        views,
        vec![
            pair("/p", "url_path"),
            pair("q", "query_param"),
            pair("1", "header"),
            pair("", "header"),
        ]
    );
    assert!(request_views("/", Some(""), &Vec::new()).is_empty());
    assert!(request_views("/", None, &Vec::new()).is_empty());
}

#[test]
fn header_text_is_what_the_header_crate_makes_of_it() {
    for byte in 0..=255_u8 {
        let raw = [b'a', byte, b'z'];
        let expected = HeaderValue::from_bytes(&raw)
            .ok()
            .and_then(|value| value.to_str().ok().map(str::to_owned));
        assert_eq!(header_text(&raw), expected, "{byte}");
    }
    assert_eq!(header_text(b""), Some(String::new()));
}

#[test]
fn categories_follow_the_reported_threats() {
    let rows = vec![regex_threat("xss"), regex_threat("sqli"), regex_threat("xss")];
    assert_eq!(
        threat_categories(&verdict(true, rows.clone())),
        Some(vec!["xss".to_owned(), "sqli".to_owned(), "xss".to_owned()])
    );
    assert_eq!(threat_categories(&verdict(false, rows)), None);
    assert_eq!(threat_categories(&verdict(true, Vec::new())), Some(Vec::new()));
}

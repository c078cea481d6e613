//! The IP gate, the ban check, the rate limiter and the detection block, on
//! requests that go through the guard from start to end.
use bytes::Bytes;
use guard_core_engine::detect::{detect, DetectConfig};
use guard_core_engine::rate_limit::RateLimitDecision;
use http::{Extensions, HeaderMap};
use std::sync::{Arc, Mutex};
use tower_guard_rs::call::{on_frame, on_verdict, start, BodyFrame, CallState};
use tower_guard_rs::stages::{
    after_ban_check, after_rate_check, attributed_and_counting, detect_block, detection_answer,
    enforce_ip_gate, enforce_state_stage, state_stage_answer, StageStep,
};
use tower_guard_rs::{
    ClientIp, Clock, GuardClientIp, GuardLayer, IpBanConfig, IpBanManager, IpGateConfig,
    IpGateDecision, RateLimitConfig, RateLimiter, RequestParts, ResolvedBan, ThreatBanEntry,
    ACTIVITY_BANNED_MESSAGE, BANNED_MESSAGE, BLOCKED_MESSAGE, FORBIDDEN_MESSAGE,
    RATE_LIMITED_MESSAGE,
};

const ATTACK: &str = "/files/../../etc/passwd";

/// The empty list, typed so the `new` calls stay inferable.
const NIL: [&str; 0] = [];

fn default_config() -> DetectConfig {
    DetectConfig {
        max_content_length: 10_000,
        max_full_scan_bytes: 262_144,
        preserve_attack_patterns: true,
        semantic_threshold: 0.7,
        threat_score_threshold: 1.0,
        binary_min_run_length: 16,
    }
}

fn octets(text: &str) -> ClientIp {
    let parts: Vec<u8> = text.split('.').map(|part| part.parse().expect("octet")).collect();
    ClientIp::V4([parts[0], parts[1], parts[2], parts[3]])
}

fn unattributed(uri: &str) -> RequestParts {
    RequestParts {
        uri: uri.parse().expect("uri"),
        headers: HeaderMap::new(),
        extensions: Extensions::new(),
    }
}

fn request(uri: &str, ip: &str) -> RequestParts {
    let mut parts = unattributed(uri);
    parts.extensions.insert(GuardClientIp(octets(ip)));
    parts
}

fn benign_request(ip: &str) -> RequestParts {
    request("/hello", ip)
}

fn attack(ip: &str) -> RequestParts {
    request(ATTACK, ip)
}

/// The status, the body and the `Retry-After` of one guarded request without a
/// body. A request that is passed on is answered with `200` and the skip state
/// that a handler sees in its extensions.
fn full_status(layer: &GuardLayer, mut parts: RequestParts) -> (u16, String, Option<String>) {
    let mut state = start(&mut parts, layer);
    loop {
        state = match state {
            CallState::Reading(buffer) => on_frame(buffer, BodyFrame::End, &parts, layer),
            CallState::Detecting(body, question) => {
                let verdict = detect(question.content(), question.context(), question.config());
                on_verdict(body, question, Some(verdict), &parts, layer)
            }
            CallState::Extracting(_, _) => panic!("there is no body"),
            CallState::Forwarding(body) => {
                assert_eq!(body, Bytes::new());
                let seen = match parts.extensions.get::<IpGateDecision>() {
                    Some(decision) => format!(
                        "gate=on wh={} ex={}",
                        decision.is_whitelisted, decision.is_exempt
                    ),
                    None => "gate=off".to_owned(),
                };
                return (200, seen, None);
            }
            CallState::Answering(response) => {
                return (response.status, response.message.to_owned(), response.retry_after);
            }
        };
    }
}

fn status_and_body(layer: &GuardLayer, parts: RequestParts) -> (u16, String) {
    let (status, body, _) = full_status(layer, parts);
    (status, body)
}

/// A blacklisted exact IP and a blacklisted /24, an exempt exact IP and an
/// exempt /28, all disjoint.
fn checklist_gate() -> IpGateConfig {
    IpGateConfig::new(
        NIL,
        ["203.0.113.9", "192.0.2.0/24"],
        ["198.51.100.7", "198.51.100.16/28"],
    )
    .expect("valid lists")
}

fn no_entries() -> Vec<(String, ThreatBanEntry)> {
    Vec::new()
}

/// An enabled rate limiter with the given limit and auto-ban switch.
fn limiter(limit: u32, auto_ban: bool) -> RateLimiter {
    RateLimiter::new(RateLimitConfig {
        enable_rate_limiting: true,
        rate_limit: limit,
        rate_limit_window: 60,
        enable_rate_limit_auto_ban: auto_ban,
        ..RateLimitConfig::default()
    })
    .expect("valid config")
}

/// A clock that shows what its handle holds.
fn fake_clock() -> (Clock, Arc<Mutex<f64>>) {
    let state = Arc::new(Mutex::new(1_000.0));
    let seconds = state.clone();
    let clock: Clock = Arc::new(move || *seconds.lock().expect("clock"));
    (clock, state)
}

// ---- the IP gate ----

#[test]
fn blacklisted_ip_is_denied_with_the_forbidden_body() {
    let layer = GuardLayer::new(default_config()).with_ip_gate(checklist_gate());
    let (status, body) = status_and_body(&layer, benign_request("203.0.113.9"));
    assert_eq!(status, 403);
    assert_eq!(body, FORBIDDEN_MESSAGE);

    // The blacklisted /24 denies its whole range.
    let (status, body) = status_and_body(&layer, benign_request("192.0.2.77"));
    assert_eq!(status, 403);
    assert_eq!(body, FORBIDDEN_MESSAGE);
}

#[test]
fn exempt_exact_and_cidr_ips_pass_with_the_skip_state_set() {
    let layer = GuardLayer::new(default_config()).with_ip_gate(checklist_gate());
    let (status, body) = status_and_body(&layer, benign_request("198.51.100.7"));
    assert_eq!(status, 200);
    assert_eq!(body, "gate=on wh=false ex=true");

    let (status, body) = status_and_body(&layer, benign_request("198.51.100.20"));
    assert_eq!(status, 200);
    assert_eq!(body, "gate=on wh=false ex=true");
}

#[test]
fn exempt_ip_on_the_blacklist_is_still_denied() {
    let gate = IpGateConfig::new(NIL, ["198.51.100.7"], ["198.51.100.7"]).expect("valid lists");
    let layer = GuardLayer::new(default_config()).with_ip_gate(gate);
    let (status, body) = status_and_body(&layer, benign_request("198.51.100.7"));
    assert_eq!(status, 403);
    assert_eq!(body, FORBIDDEN_MESSAGE);
}

#[test]
fn exemption_never_opens_a_restrictive_whitelist() {
    let gate = IpGateConfig::new(["192.0.2.1"], NIL, ["198.51.100.7"]).expect("valid lists");
    let layer = GuardLayer::new(default_config()).with_ip_gate(gate);
    let (status, body) = status_and_body(&layer, benign_request("198.51.100.7"));
    assert_eq!(status, 403);
    assert_eq!(body, FORBIDDEN_MESSAGE);

    // An exempt-only config adds no deny path of its own: with the whitelist
    // empty, every IP passes, exempt or not.
    let exempt_only = IpGateConfig::new(NIL, NIL, ["198.51.100.7"]).expect("valid lists");
    let layer = GuardLayer::new(default_config()).with_ip_gate(exempt_only);
    let (status, body) = status_and_body(&layer, benign_request("192.0.2.8"));
    assert_eq!(status, 200);
    assert_eq!(body, "gate=on wh=false ex=false");
}

#[test]
fn whitelist_match_sets_both_flags_and_exemption_follows_the_list() {
    let gate = IpGateConfig::new(["198.51.100.7", "198.51.100.30"], NIL, ["198.51.100.7"])
        .expect("valid lists");
    let layer = GuardLayer::new(default_config()).with_ip_gate(gate);
    let (status, body) = status_and_body(&layer, benign_request("198.51.100.7"));
    assert_eq!(status, 200);
    assert_eq!(body, "gate=on wh=true ex=true");

    // A whitelist member outside exempt_ips: plain whitelist skip state.
    let (status, body) = status_and_body(&layer, benign_request("198.51.100.30"));
    assert_eq!(status, 200);
    assert_eq!(body, "gate=on wh=true ex=false");
}

#[test]
fn an_attack_from_an_exempt_ip_is_still_blocked_by_detection() {
    let layer = GuardLayer::new(default_config()).with_ip_gate(checklist_gate());
    let (status, body) = status_and_body(&layer, attack("198.51.100.7"));
    assert_eq!(status, 400);
    assert_eq!(body, BLOCKED_MESSAGE, "detection must still scan exempt IPs");
}

#[test]
fn without_a_client_ip_extension_the_gate_is_inert_and_detection_still_applies() {
    let layer = GuardLayer::new(default_config()).with_ip_gate(checklist_gate());
    // Not attributed: the IP gate cannot run, and the request flows on.
    let (status, body) = status_and_body(&layer, unattributed("/hello"));
    assert_eq!(status, 200);
    assert_eq!(body, "gate=off");

    // Not attributed does not mean unscreened: detection still scans.
    let (status, body) = status_and_body(&layer, unattributed(ATTACK));
    assert_eq!(status, 400);
    assert_eq!(body, BLOCKED_MESSAGE);
}

#[test]
fn invalid_exempt_entry_fails_closed_at_config_time() {
    let error = IpGateConfig::new(NIL, NIL, ["not-an-ip"]).unwrap_err();
    assert_eq!(error.list, "exempt_ips");
    assert_eq!(error.entry, "not-an-ip");
}

#[test]
fn ipv4_mapped_request_matches_v4_entries_at_the_gate() {
    // ::ffff:198.51.100.7
    let mapped = ClientIp::V6([0, 0, 0, 0, 0, 0, 0, 0, 0, 0, 255, 255, 198, 51, 100, 7]);
    let gate = IpGateConfig::new(["198.51.100.0/24"], NIL, ["198.51.100.7"]).expect("lists");
    let layer = GuardLayer::new(default_config()).with_ip_gate(gate);
    let mut parts = unattributed("/hello");
    parts.extensions.insert(GuardClientIp(mapped));
    assert!(enforce_ip_gate(&mut parts, &layer).is_none());
    let decision = parts.extensions.get::<IpGateDecision>().expect("decision");
    assert!(decision.is_exempt);
    assert!(decision.is_whitelisted);
}

#[test]
fn a_denied_request_is_left_as_it_was() {
    let layer = GuardLayer::new(default_config()).with_ip_gate(checklist_gate());
    let mut parts = benign_request("203.0.113.9");
    let denial = enforce_ip_gate(&mut parts, &layer).expect("denial");
    assert_eq!((denial.status, denial.message), (403, FORBIDDEN_MESSAGE));
    assert!(parts.extensions.get::<IpGateDecision>().is_none());
    assert_eq!(
        parts.extensions.get::<GuardClientIp>(),
        Some(&GuardClientIp(octets("203.0.113.9")))
    );
}

#[test]
fn a_passed_request_keeps_its_other_extensions() {
    let layer = GuardLayer::new(default_config()).with_ip_gate(checklist_gate());
    let mut parts = benign_request("198.51.100.7");
    parts.extensions.insert("kept");
    parts.extensions.insert(7_u64);
    assert!(enforce_ip_gate(&mut parts, &layer).is_none());
    assert_eq!(parts.extensions.get::<&str>(), Some(&"kept"));
    assert_eq!(parts.extensions.get::<u64>(), Some(&7));
    assert_eq!(parts.extensions.len(), 4);
}

#[test]
fn only_attributed_requests_without_a_skip_state_count() {
    assert_eq!(attributed_and_counting(&unattributed("/hello")), None);
    let mut parts = benign_request("192.0.2.55");
    assert_eq!(attributed_and_counting(&parts), Some(octets("192.0.2.55")));
    for (is_whitelisted, is_exempt) in [(true, false), (false, true), (true, true)] {
        parts.extensions.insert(IpGateDecision { is_whitelisted, is_exempt });
        assert_eq!(attributed_and_counting(&parts), None);
    }
    parts.extensions.insert(IpGateDecision { is_whitelisted: false, is_exempt: false });
    assert_eq!(attributed_and_counting(&parts), Some(octets("192.0.2.55")));
}

// ---- the stateful stage ----

#[test]
fn rate_limit_crossing_is_blocked_429_with_retry_after() {
    let layer = GuardLayer::new(default_config()).with_rate_limiting(limiter(2, false));
    for _ in 0..2 {
        let (status, _, retry_after) = full_status(&layer, benign_request("192.0.2.55"));
        assert_eq!(status, 200);
        assert_eq!(retry_after, None, "allowed requests carry no Retry-After");
    }
    let (status, body, retry_after) = full_status(&layer, benign_request("192.0.2.55"));
    assert_eq!(status, 429);
    assert_eq!(body, RATE_LIMITED_MESSAGE);
    assert_eq!(retry_after.as_deref(), Some("60"), "Retry-After is the window");
}

#[test]
fn exempt_ip_exceeds_the_limit_and_still_gets_200() {
    let gate = IpGateConfig::new(NIL, NIL, ["198.51.100.7"]).expect("valid lists");
    let layer = GuardLayer::new(default_config())
        .with_ip_gate(gate)
        .with_rate_limiting(limiter(1, false));
    for _ in 0..5 {
        let (status, _, _) = full_status(&layer, benign_request("198.51.100.7"));
        assert_eq!(status, 200, "exempt IPs are never rate limited");
    }
    // A non-exempt peer under the same config is limited as usual.
    let (status, _, retry_after) = full_status(&layer, benign_request("192.0.2.55"));
    assert_eq!(status, 200);
    let (status, _, _) = full_status(&layer, benign_request("192.0.2.55"));
    assert_eq!(status, 429);
    assert_eq!(retry_after, None);
}

#[test]
fn whitelisted_ip_is_also_skipped_by_the_limiter() {
    let gate = IpGateConfig::new(["198.51.100.7"], NIL, NIL).expect("valid lists");
    let layer = GuardLayer::new(default_config())
        .with_ip_gate(gate)
        .with_rate_limiting(limiter(1, false));
    for _ in 0..5 {
        let (status, _, _) = full_status(&layer, benign_request("198.51.100.7"));
        assert_eq!(status, 200, "whitelist match skips rate limiting");
    }
}

#[test]
fn unattributed_requests_are_not_rate_limited() {
    let layer = GuardLayer::new(default_config()).with_rate_limiting(limiter(1, false));
    for _ in 0..5 {
        let (status, _, _) = full_status(&layer, unattributed("/hello"));
        assert_eq!(status, 200);
    }
}

#[test]
fn banned_ip_is_blocked_with_the_banned_body() {
    let manager = IpBanManager::new();
    let config = IpBanConfig::new(true, 10, 3600, no_entries()).expect("valid config");
    let layer = GuardLayer::new(default_config()).with_ip_banning(manager.clone(), config);
    // Ban out of band through the shared handle.
    manager
        .ban_ip("192.0.2.55".parse().expect("ip"), 60, "operator")
        .expect("ban");
    let (status, body, _) = full_status(&layer, benign_request("192.0.2.55"));
    assert_eq!(status, 403);
    assert_eq!(body, BANNED_MESSAGE);

    // Other IPs are untouched.
    let (status, _, _) = full_status(&layer, benign_request("192.0.2.56"));
    assert_eq!(status, 200);
}

#[test]
fn ban_expiry_is_honored_for_a_short_duration() {
    let (clock, seconds) = fake_clock();
    let manager = IpBanManager::with_clock(clock);
    let config = IpBanConfig::new(true, 10, 3600, no_entries()).expect("valid config");
    let layer = GuardLayer::new(default_config()).with_ip_banning(manager.clone(), config);
    manager
        .ban_ip("192.0.2.55".parse().expect("ip"), 5, "short")
        .expect("ban");
    let (status, body, _) = full_status(&layer, benign_request("192.0.2.55"));
    assert_eq!(status, 403);
    assert_eq!(body, BANNED_MESSAGE);

    *seconds.lock().expect("clock") = 1_000.0 + 6.0;
    let (status, _, _) = full_status(&layer, benign_request("192.0.2.55"));
    assert_eq!(status, 200, "the ban expired");
}

#[test]
fn banned_ip_blocks_before_detection_and_rate_limiting() {
    let manager = IpBanManager::new();
    let config = IpBanConfig::new(true, 10, 3600, no_entries()).expect("valid config");
    let layer = GuardLayer::new(default_config())
        .with_rate_limiting(limiter(1, false))
        .with_ip_banning(manager.clone(), config);
    manager
        .ban_ip("192.0.2.55".parse().expect("ip"), 60, "operator")
        .expect("ban");
    // An attack from the banned IP: the ban stage wins over the detection
    // block shape, and over the rate limiter.
    let (status, body, _) = full_status(&layer, attack("192.0.2.55"));
    assert_eq!(status, 403);
    assert_eq!(body, BANNED_MESSAGE);
    let (status, body, _) = full_status(&layer, attack("192.0.2.55"));
    assert_eq!(status, 403);
    assert_eq!(body, BANNED_MESSAGE);
}

#[test]
fn banned_traffic_consumes_no_rate_budget() {
    let (clock, seconds) = fake_clock();
    let manager = IpBanManager::with_clock(clock);
    let config = IpBanConfig::new(true, 10, 3600, no_entries()).expect("valid config");
    let layer = GuardLayer::new(default_config())
        .with_rate_limiting(limiter(1, false))
        .with_ip_banning(manager.clone(), config);
    manager
        .ban_ip("192.0.2.55".parse().expect("ip"), 5, "operator")
        .expect("ban");
    for _ in 0..3 {
        let answer = enforce_state_stage(&benign_request("192.0.2.55"), &layer).expect("ban");
        assert_eq!(answer.message, BANNED_MESSAGE);
    }
    *seconds.lock().expect("clock") = 1_006.0;
    assert!(
        enforce_state_stage(&benign_request("192.0.2.55"), &layer).is_none(),
        "the window was not touched while banned"
    );
}

#[test]
fn detection_violations_ban_at_the_category_threshold() {
    let config = IpBanConfig::new(
        true,
        100,
        3600,
        [("dir_traversal", ThreatBanEntry { threshold: 2, duration: 60 })],
    )
    .expect("valid config");
    let layer = GuardLayer::new(default_config()).with_ip_banning(IpBanManager::new(), config);

    // First violation: the plain block shape.
    let (status, body, _) = full_status(&layer, attack("192.0.2.55"));
    assert_eq!(status, 400);
    assert_eq!(body, BLOCKED_MESSAGE);
    // Second violation crosses the entry: banned on the spot.
    let (status, body, _) = full_status(&layer, attack("192.0.2.55"));
    assert_eq!(status, 403);
    assert_eq!(body, ACTIVITY_BANNED_MESSAGE);
    // From then on the ban stage answers everything.
    let (status, body, _) = full_status(&layer, benign_request("192.0.2.55"));
    assert_eq!(status, 403);
    assert_eq!(body, BANNED_MESSAGE);
}

#[test]
fn enable_ip_banning_false_never_bans() {
    let config = IpBanConfig::new(
        false,
        1,
        3600,
        [("dir_traversal", ThreatBanEntry { threshold: 1, duration: 60 })],
    )
    .expect("valid config");
    let layer = GuardLayer::new(default_config()).with_ip_banning(IpBanManager::new(), config);
    for _ in 0..3 {
        let (status, body, _) = full_status(&layer, attack("192.0.2.55"));
        assert_eq!(status, 400);
        assert_eq!(body, BLOCKED_MESSAGE, "banning is off: the plain block shape");
    }
    let (status, _, _) = full_status(&layer, benign_request("192.0.2.55"));
    assert_eq!(status, 200, "nobody was banned");
}

#[test]
fn exempt_ip_never_counts_detection_violations() {
    let gate = IpGateConfig::new(NIL, NIL, ["198.51.100.7"]).expect("valid lists");
    let config = IpBanConfig::new(
        true,
        1,
        3600,
        [("dir_traversal", ThreatBanEntry { threshold: 1, duration: 60 })],
    )
    .expect("valid config");
    let layer = GuardLayer::new(default_config())
        .with_ip_gate(gate)
        .with_ip_banning(IpBanManager::new(), config);
    for _ in 0..3 {
        let (status, body, _) = full_status(&layer, attack("198.51.100.7"));
        assert_eq!(status, 400);
        assert_eq!(
            body, BLOCKED_MESSAGE,
            "exempt violations are not counted, so no ban can fire"
        );
    }
}

#[test]
fn rate_limit_autoban_is_off_by_default() {
    let config = IpBanConfig::new(true, 1, 3600, no_entries()).expect("valid config");
    let layer = GuardLayer::new(default_config())
        .with_rate_limiting(limiter(1, false))
        .with_ip_banning(IpBanManager::new(), config);
    let (status, _, _) = full_status(&layer, benign_request("192.0.2.55"));
    assert_eq!(status, 200);
    for _ in 0..5 {
        let (status, body, _) = full_status(&layer, benign_request("192.0.2.55"));
        assert_eq!(status, 429);
        assert_eq!(body, RATE_LIMITED_MESSAGE, "crossings stay rate limited");
    }
}

#[test]
fn rate_limit_autoban_bans_at_the_threshold() {
    let config = IpBanConfig::new(
        true,
        100,
        3600,
        [("rate_limit", ThreatBanEntry { threshold: 2, duration: 30 })],
    )
    .expect("valid config");
    let layer = GuardLayer::new(default_config())
        .with_rate_limiting(limiter(1, true))
        .with_ip_banning(IpBanManager::new(), config);
    let (status, _, _) = full_status(&layer, benign_request("192.0.2.55"));
    assert_eq!(status, 200);
    // First crossing: violation 1, below the entry threshold.
    let (status, body, _) = full_status(&layer, benign_request("192.0.2.55"));
    assert_eq!(status, 429);
    assert_eq!(body, RATE_LIMITED_MESSAGE);
    // Second crossing: violation 2 crosses the entry, the ban fires (the
    // response of this request is still the 429 it earned).
    let (status, _, _) = full_status(&layer, benign_request("192.0.2.55"));
    assert_eq!(status, 429);
    // From then on the ban stage answers first.
    let (status, body, _) = full_status(&layer, benign_request("192.0.2.55"));
    assert_eq!(status, 403);
    assert_eq!(body, BANNED_MESSAGE);
}

#[test]
fn a_disabled_limiter_is_inert() {
    let disabled = RateLimiter::new(RateLimitConfig {
        enable_rate_limiting: false,
        rate_limit: 1,
        rate_limit_window: 60,
        ..RateLimitConfig::default()
    })
    .expect("valid config");
    let layer = GuardLayer::new(default_config()).with_rate_limiting(disabled);
    for _ in 0..5 {
        assert!(enforce_state_stage(&benign_request("192.0.2.55"), &layer).is_none());
    }
}

#[test]
fn a_clone_shares_the_limiter_and_the_ban_stores() {
    let manager = IpBanManager::new();
    let config = IpBanConfig::new(true, 10, 3600, no_entries()).expect("valid config");
    let layer = GuardLayer::new(default_config())
        .with_rate_limiting(limiter(1, false))
        .with_ip_banning(manager.clone(), config);
    let copy = layer.clone();
    assert!(enforce_state_stage(&benign_request("192.0.2.55"), &layer).is_none());
    let crossing = enforce_state_stage(&benign_request("192.0.2.55"), &copy).expect("crossing");
    assert_eq!(crossing.status, 429);
    manager
        .ban_ip("192.0.2.56".parse().expect("ip"), 60, "operator")
        .expect("ban");
    let banned = enforce_state_stage(&benign_request("192.0.2.56"), &copy).expect("banned");
    assert_eq!((banned.status, banned.message), (403, BANNED_MESSAGE));
}

#[test]
fn ipv6_clients_are_limited_and_banned_too() {
    let manager = IpBanManager::new();
    let config = IpBanConfig::new(true, 10, 3600, no_entries()).expect("valid config");
    let layer = GuardLayer::new(default_config())
        .with_rate_limiting(limiter(1, false))
        .with_ip_banning(manager.clone(), config);
    let client = || {
        let mut parts = unattributed("/hello");
        // 2001:db8::1
        let ip = ClientIp::V6([0x20, 0x01, 0x0d, 0xb8, 0, 0, 0, 0, 0, 0, 0, 0, 0, 0, 0, 1]);
        parts.extensions.insert(GuardClientIp(ip));
        parts
    };
    assert!(enforce_state_stage(&client(), &layer).is_none());
    assert_eq!(enforce_state_stage(&client(), &layer).expect("crossing").status, 429);
    manager
        .ban_ip("2001:db8::1".parse().expect("ip"), 60, "operator")
        .expect("ban");
    let banned = enforce_state_stage(&client(), &layer).expect("banned");
    assert_eq!(banned.message, BANNED_MESSAGE);
}

#[test]
fn the_state_stage_answers_a_ban_before_a_crossing() {
    let decision = |allowed| RateLimitDecision { allowed, count: 3, window: 45 };
    let banned = state_stage_answer(true, Some(decision(false))).expect("answer");
    assert_eq!((banned.status, banned.message), (403, BANNED_MESSAGE));
    let limited = state_stage_answer(false, Some(decision(false))).expect("answer");
    assert_eq!((limited.status, limited.message), (429, RATE_LIMITED_MESSAGE));
    assert_eq!(limited.retry_after.as_deref(), Some("45"));
    assert!(state_stage_answer(false, Some(decision(true))).is_none());
    assert!(state_stage_answer(false, None).is_none());
}

#[test]
fn the_limiter_is_asked_only_about_an_address_that_is_not_banned() {
    assert_eq!(after_ban_check(true, true), StageStep::AnswerBanned);
    assert_eq!(after_ban_check(true, false), StageStep::AnswerBanned);
    assert_eq!(after_ban_check(false, true), StageStep::AskLimiter);
    assert_eq!(after_ban_check(false, false), StageStep::Pass);
}

#[test]
fn only_a_crossing_is_registered() {
    for auto_ban in [true, false] {
        for has_store in [true, false] {
            let within = RateLimitDecision { allowed: true, count: 1, window: 60 };
            assert_eq!(after_rate_check(&within, auto_ban, has_store), StageStep::Pass);
            let crossing = RateLimitDecision { allowed: false, count: 2, window: 60 };
            let expected = if auto_ban && has_store {
                StageStep::Register
            } else {
                StageStep::AnswerLimited
            };
            assert_eq!(after_rate_check(&crossing, auto_ban, has_store), expected);
        }
    }
}

#[test]
fn allowed_requests_count_no_violation() {
    let config = IpBanConfig::new(true, 1, 3600, no_entries()).expect("valid config");
    let layer = GuardLayer::new(default_config())
        .with_rate_limiting(limiter(3, true))
        .with_ip_banning(IpBanManager::new(), config);
    for _ in 0..3 {
        assert!(enforce_state_stage(&benign_request("192.0.2.55"), &layer).is_none());
    }
    let crossing = enforce_state_stage(&benign_request("192.0.2.55"), &layer).expect("crossing");
    assert_eq!(crossing.status, 429);
    let banned = enforce_state_stage(&benign_request("192.0.2.55"), &layer).expect("banned");
    assert_eq!(banned.message, BANNED_MESSAGE);
}

// ---- the detection block ----

#[test]
fn the_outcome_of_registering_decides_the_block() {
    let ban = ResolvedBan { duration: 60, reason: "r".to_owned(), category: None };
    assert_eq!(detection_answer(&Some(ban)).message, ACTIVITY_BANNED_MESSAGE);
    assert_eq!(detection_answer(&None).message, BLOCKED_MESSAGE);
}

#[test]
fn a_loopback_client_is_blocked_but_never_banned() {
    let config = IpBanConfig::new(true, 1, 3600, no_entries()).expect("valid config");
    let layer = GuardLayer::new(default_config()).with_ip_banning(IpBanManager::new(), config);
    let categories = ["sqli".to_owned()];
    for _ in 0..3 {
        let response = detect_block(&benign_request("127.0.0.1"), &layer, &categories);
        assert_eq!((response.status, response.message), (400, BLOCKED_MESSAGE));
    }
    let response = detect_block(&benign_request("192.0.2.55"), &layer, &categories);
    assert_eq!((response.status, response.message), (403, ACTIVITY_BANNED_MESSAGE));
}

#[test]
fn an_unattributed_threat_gets_the_plain_block() {
    let config = IpBanConfig::new(true, 1, 3600, no_entries()).expect("valid config");
    let layer = GuardLayer::new(default_config()).with_ip_banning(IpBanManager::new(), config);
    let response = detect_block(&unattributed("/hello"), &layer, &["sqli".to_owned()]);
    assert_eq!((response.status, response.message), (400, BLOCKED_MESSAGE));
}

#[test]
fn violations_are_registered_under_their_own_categories() {
    let config = IpBanConfig::new(
        true,
        100,
        3600,
        [("sqli", ThreatBanEntry { threshold: 1, duration: 30 })],
    )
    .expect("valid config");
    let layer = GuardLayer::new(default_config()).with_ip_banning(IpBanManager::new(), config);
    let manager = &layer.ban_state().expect("ban state").manager;
    let ip = "192.0.2.55".parse().expect("ip");
    let texts = |items: &[&str]| -> Vec<String> {
        items.iter().map(|item| (*item).to_owned()).collect()
    };
    let response = detect_block(&benign_request("192.0.2.55"), &layer, &texts(&["xss"]));
    assert_eq!(response.message, BLOCKED_MESSAGE);
    assert!(!manager.is_banned(ip));
    let response = detect_block(&benign_request("192.0.2.55"), &layer, &texts(&["sqli", "xss"]));
    assert_eq!(response.message, ACTIVITY_BANNED_MESSAGE);
    assert!(manager.is_banned(ip));
}

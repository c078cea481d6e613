//! The layer's settings.
use tower_guard_rs::{
    DetectConfig, GuardLayer, IpBanConfig, IpBanManager, IpGateConfig, RateLimitConfig,
    RateLimiter, ThreatBanEntry,
};

fn default_config() -> DetectConfig {
    DetectConfig {
        max_content_length: 10_000,
        max_full_scan_bytes: 262_144,
        preserve_attack_patterns: true,
        semantic_threshold: 0.7,
        threat_score_threshold: 1.0,
        binary_min_run_length: 16,
    }
}

fn no_entries() -> Vec<(String, ThreatBanEntry)> {
    Vec::new()
}

#[test]
fn body_cap_defaults_to_full_scan_cap_and_is_overridable() {
    let layer = GuardLayer::new(default_config());
    assert_eq!(layer.body_cap(), 262_144);
    let layer = layer.with_body_cap(1024);
    assert_eq!(layer.body_cap(), 1024);
}

#[test]
fn a_new_layer_has_no_stages() {
    let layer = GuardLayer::new(default_config());
    assert!(layer.ip_gate().is_none());
    assert!(layer.rate_limiter().is_none());
    assert!(layer.ban_state().is_none());
    assert_eq!(layer.config().max_content_length, 10_000);
}

#[test]
fn builders_keep_the_other_settings() {
    let gate = IpGateConfig::new(["192.0.2.1"], [] as [&str; 0], [] as [&str; 0]).expect("lists");
    let limiter = RateLimiter::new(RateLimitConfig {
        enable_rate_limiting: true,
        rate_limit: 3,
        rate_limit_window: 60,
        ..RateLimitConfig::default()
    })
    .expect("valid config");
    let config = IpBanConfig::new(true, 10, 3600, no_entries()).expect("valid config");
    let layer = GuardLayer::new(default_config())
        .with_ip_gate(gate.clone())
        .with_rate_limiting(limiter)
        .with_ip_banning(IpBanManager::new(), config)
        .with_body_cap(7);
    assert_eq!(layer.body_cap(), 7);
    assert_eq!(layer.ip_gate(), Some(&gate));
    let limiter = layer.rate_limiter().expect("limiter");
    assert_eq!(limiter.config().rate_limit, 3);
    let ban = layer.ban_state().expect("ban state");
    assert_eq!(ban.config.auto_ban_threshold, 10);
    assert_eq!(ban.config.auto_ban_duration, 3600);
}

#[test]
fn a_clone_has_the_same_settings() {
    let gate = IpGateConfig::new([] as [&str; 0], ["192.0.2.1"], [] as [&str; 0]).expect("lists");
    let layer = GuardLayer::new(default_config())
        .with_ip_gate(gate.clone())
        .with_body_cap(9);
    let copy = layer.clone();
    assert_eq!(copy.body_cap(), 9);
    assert_eq!(copy.ip_gate(), Some(&gate));
    assert!(copy.rate_limiter().is_none());
}

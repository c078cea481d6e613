//! What the builders set, and what the getters show.
use vstd::prelude::*;

use crate::layer::GuardLayer;
use crate::stores::BanState;
use guard_core_engine::detect::DetectConfig;
use guard_core_engine::ip_ban::{IpBanConfig, IpBanManager};
use guard_core_engine::ip_gate::IpGateConfig;
use guard_core_engine::rate_limit::RateLimiter;

verus! {

/// The getters show the settings.
pub proof fn getters_show_the_settings(
    layer: GuardLayer,
    config: &DetectConfig,
    body_cap: usize,
    ip_gate: Option<&IpGateConfig>,
    rate_limiter: Option<&RateLimiter>,
    ban_state: Option<&BanState>,
)
    requires
        call_ensures(GuardLayer::config, (&layer,), config),
        call_ensures(GuardLayer::body_cap, (&layer,), body_cap),
        call_ensures(GuardLayer::ip_gate, (&layer,), ip_gate),
        call_ensures(GuardLayer::rate_limiter, (&layer,), rate_limiter),
        call_ensures(GuardLayer::ban_state, (&layer,), ban_state),
    ensures
        layer@.config == *config,
        layer@.body_cap == body_cap,
        layer@.ip_gate is Some <==> ip_gate is Some,
        ip_gate matches Some(gate) ==> layer@.ip_gate == Some(*gate),
        layer@.rate_limiter is Some <==> rate_limiter is Some,
        rate_limiter matches Some(limiter) ==> layer@.rate_limiter == Some(*limiter),
        layer@.ban_state is Some <==> ban_state is Some,
        ban_state matches Some(ban) ==> layer@.ban_state == Some(*ban),
{
}

/// A new layer caps a body at what the engine scans in full, and has no stage
/// around the scan.
pub proof fn new_layer_only_scans(
    config: DetectConfig,
    layer: GuardLayer,
    body_cap: usize,
    knobs: &DetectConfig,
)
    requires
        call_ensures(GuardLayer::new, (config,), layer),
        call_ensures(GuardLayer::body_cap, (&layer,), body_cap),
        call_ensures(GuardLayer::config, (&layer,), knobs),
    ensures
        *knobs == config,
        body_cap == config.max_full_scan_bytes,
        layer@.config == config,
        layer@.body_cap == config.max_full_scan_bytes,
        layer@.ip_gate is None,
        layer@.rate_limiter is None,
        layer@.ban_state is None,
{
}

/// The cap that is set is the cap that is shown, whatever else is set, and
/// nothing else changes.
pub proof fn body_cap_is_what_was_set(
    layer: GuardLayer,
    cap: usize,
    built: GuardLayer,
    shown: usize,
)
    requires
        call_ensures(GuardLayer::with_body_cap, (layer, cap), built),
        call_ensures(GuardLayer::body_cap, (&built,), shown),
    ensures
        shown == cap,
        built@.body_cap == cap,
        built@.config == layer@.config,
        built@.ip_gate == layer@.ip_gate,
        built@.rate_limiter == layer@.rate_limiter,
        built@.ban_state == layer@.ban_state,
{
}

/// The IP gate that is installed is the one that is asked, and nothing else
/// changes.
pub proof fn ip_gate_is_what_was_installed(layer: GuardLayer, gate: IpGateConfig, built: GuardLayer)
    requires
        call_ensures(GuardLayer::with_ip_gate, (layer, gate), built),
    ensures
        built@.ip_gate == Some(gate),
        built@.config == layer@.config,
        built@.body_cap == layer@.body_cap,
        built@.rate_limiter == layer@.rate_limiter,
        built@.ban_state == layer@.ban_state,
{
}

/// The limiter that is installed is the one that is asked, and nothing else
/// changes.
pub proof fn limiter_is_what_was_installed(
    layer: GuardLayer,
    limiter: RateLimiter,
    built: GuardLayer,
)
    requires
        call_ensures(GuardLayer::with_rate_limiting, (layer, limiter), built),
    ensures
        built@.rate_limiter == Some(limiter),
        built@.config == layer@.config,
        built@.body_cap == layer@.body_cap,
        built@.ip_gate == layer@.ip_gate,
        built@.ban_state == layer@.ban_state,
{
}

/// The ban store and the knobs that are installed are those that are used, and
/// nothing else changes.
pub proof fn ban_store_is_what_was_installed(
    layer: GuardLayer,
    manager: IpBanManager,
    config: IpBanConfig,
    built: GuardLayer,
)
    requires
        call_ensures(GuardLayer::with_ip_banning, (layer, manager, config), built),
    ensures
        built@.ban_state matches Some(ban) && ban.manager == manager && ban.config == config,
        built@.config == layer@.config,
        built@.body_cap == layer@.body_cap,
        built@.ip_gate == layer@.ip_gate,
        built@.rate_limiter == layer@.rate_limiter,
{
}

/// A clone has every setting of its layer.
pub proof fn clone_has_every_setting(layer: GuardLayer, copy: GuardLayer)
    requires
        call_ensures(GuardLayer::clone, (&layer,), copy),
    ensures
        copy@.config == layer@.config,
        copy@.body_cap == layer@.body_cap,
        copy@.ip_gate == layer@.ip_gate,
        copy@.rate_limiter == layer@.rate_limiter,
        copy@.ban_state == layer@.ban_state,
{
}

} // verus!

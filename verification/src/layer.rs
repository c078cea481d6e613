//! The guard's configuration.
use vstd::prelude::*;

use crate::stores::BanState;
use guard_core_engine::detect::DetectConfig;
use guard_core_engine::ip_ban::{IpBanConfig, IpBanManager, ViolationCounters};
use guard_core_engine::ip_gate::IpGateConfig;
use guard_core_engine::rate_limit::RateLimiter;
use std::sync::Arc;

verus! {

/// Screens requests with the Guard engine before they reach the wrapped
/// service.
#[derive(Debug)]
pub struct GuardLayer {
    config: DetectConfig,
    body_cap: usize,
    ip_gate: Option<IpGateConfig>,
    rate_limiter: Option<Arc<RateLimiter>>,
    ban_state: Option<Arc<BanState>>,
}

/// The settings of a [`GuardLayer`].
pub struct LayerView {
    pub config: DetectConfig,
    pub body_cap: usize,
    pub ip_gate: Option<IpGateConfig>,
    pub rate_limiter: Option<RateLimiter>,
    pub ban_state: Option<BanState>,
}

impl View for GuardLayer {
    type V = LayerView;

    closed spec fn view(&self) -> LayerView {
        LayerView {
            config: self.config,
            body_cap: self.body_cap,
            ip_gate: self.ip_gate,
            rate_limiter: match self.rate_limiter {
                Some(limiter) => Some(*limiter),
                None => None,
            },
            ban_state: match self.ban_state {
                Some(ban) => Some(*ban),
                None => None,
            },
        }
    }
}

/// `Arc::clone`: another pointer to the same value.
#[verifier::external_body]
fn share<T>(pointer: &Arc<T>) -> (copy: Arc<T>)
    ensures
        *copy == **pointer,
{
    Arc::clone(pointer)
}

impl Clone for GuardLayer {
    /// A layer with the same settings, which shares the limiter and the ban
    /// stores.
    fn clone(&self) -> (copy: GuardLayer)
        ensures
            copy@ == self@,
    {
        GuardLayer {
            config: self.config,
            body_cap: self.body_cap,
            ip_gate: match &self.ip_gate {
                Some(gate) => Some(gate.clone()),
                None => None,
            },
            rate_limiter: match &self.rate_limiter {
                Some(limiter) => Some(share(limiter)),
                None => None,
            },
            ban_state: match &self.ban_state {
                Some(ban) => Some(share(ban)),
                None => None,
            },
        }
    }
}

impl GuardLayer {
    /// Build a layer from an engine [`DetectConfig`].
    ///
    /// The body buffering cap starts at `config.max_full_scan_bytes`. No IP
    /// gate, rate limiter, or ban store is configured; each can be added.
    pub fn new(config: DetectConfig) -> (layer: GuardLayer)
        ensures
            layer@ == (LayerView {
                config,
                body_cap: config.max_full_scan_bytes,
                ip_gate: None,
                rate_limiter: None,
                ban_state: None,
            }),
    {
        GuardLayer {
            config,
            body_cap: config.max_full_scan_bytes,
            ip_gate: None,
            rate_limiter: None,
            ban_state: None,
        }
    }

    /// Replace the body buffering cap, in bytes.
    ///
    /// A body larger than the cap is rejected with `413 Payload Too Large`. A
    /// cap of `0` rejects every request that carries a non-empty body.
    pub fn with_body_cap(self, body_cap: usize) -> (layer: GuardLayer)
        ensures
            layer@ == (LayerView { body_cap, ..self@ }),
    {
        let mut layer: GuardLayer = self;
        layer.body_cap = body_cap;
        layer
    }

    /// Install the global IP gate: a `whitelist`/`blacklist`/`exempt_ips`
    /// config.
    ///
    /// The IP gate runs before body buffering and before detection: with a
    /// non-empty `whitelist` any IP outside it is denied with `403 Forbidden`,
    /// otherwise an IP on the `blacklist` is. A passed request gets the
    /// decision inserted into the request extensions, so downstream handlers
    /// can read the skip state. Detection still screens every request, exempt
    /// or not.
    pub fn with_ip_gate(self, ip_gate: IpGateConfig) -> (layer: GuardLayer)
        ensures
            layer@ == (LayerView { ip_gate: Some(ip_gate), ..self@ }),
    {
        let mut layer: GuardLayer = self;
        layer.ip_gate = Some(ip_gate);
        layer
    }

    /// Install the rate limiter. Its own `enable_rate_limiting` switch decides
    /// whether it records and blocks, so a disabled limiter is inert.
    ///
    /// The limiter stage runs after the IP gate and the ban stage and before
    /// body buffering and detection: a crossing is answered with
    /// `429 Too Many Requests` carrying `Retry-After: <window seconds>`. When
    /// the limiter's `enable_rate_limit_auto_ban` is on and IP banning is
    /// configured, every crossing counts one `rate_limit` violation toward the
    /// auto-ban engine. Whitelisted, exempt and unattributed requests are not
    /// rate limited.
    ///
    /// Cloning the layer shares the one limiter.
    pub fn with_rate_limiting(self, limiter: RateLimiter) -> (layer: GuardLayer)
        ensures
            layer@ == (LayerView { rate_limiter: Some(limiter), ..self@ }),
    {
        let mut layer: GuardLayer = self;
        layer.rate_limiter = Some(Arc::new(limiter));
        layer
    }

    /// Install the dynamic ban store and the auto-ban engine, with fresh
    /// violation counters.
    ///
    /// The ban stage runs after the IP gate and before rate limiting, body
    /// buffering and detection: a live ban on the client IP is answered with
    /// `403 Forbidden` (`IP address banned`). Every detected threat counts its
    /// categories per client IP, and a crossed threshold bans on the spot,
    /// answering `403 Forbidden` (`IP has been banned`). Whitelisted, exempt
    /// and unattributed requests are neither banned nor counted. With
    /// `config.enable_ip_banning` off the stage counts violations but never
    /// bans.
    ///
    /// Cloning the layer shares the one store pair.
    pub fn with_ip_banning(self, manager: IpBanManager, config: IpBanConfig) -> (layer:
        GuardLayer)
        ensures
            layer@.ban_state matches Some(ban) && ban.manager == manager && ban.config == config,
            layer@ == (LayerView { ban_state: layer@.ban_state, ..self@ }),
    {
        let ban: BanState = BanState { manager, counters: ViolationCounters::new(), config };
        let mut layer: GuardLayer = self;
        layer.ban_state = Some(Arc::new(ban));
        layer
    }

    /// The engine's detection knobs.
    pub fn config(&self) -> (config: &DetectConfig)
        ensures
            *config == self@.config,
    {
        &self.config
    }

    /// The body buffering cap, in bytes.
    pub fn body_cap(&self) -> (body_cap: usize)
        ensures
            body_cap == self@.body_cap,
    {
        self.body_cap
    }

    /// The IP gate, where one is installed.
    pub fn ip_gate(&self) -> (ip_gate: Option<&IpGateConfig>)
        ensures
            self@.ip_gate == (match ip_gate { Some(gate) => Some(*gate), None => None }),
    {
        self.ip_gate.as_ref()
    }

    /// The rate limiter, where one is installed.
    pub fn rate_limiter(&self) -> (rate_limiter: Option<&RateLimiter>)
        ensures
            self@.rate_limiter == (match rate_limiter {
                Some(limiter) => Some(*limiter),
                None => None,
            }),
    {
        match &self.rate_limiter {
            Some(limiter) => Some(&**limiter),
            None => None,
        }
    }

    /// The ban stores and their config, where they are installed.
    pub fn ban_state(&self) -> (ban_state: Option<&BanState>)
        ensures
            self@.ban_state == (match ban_state { Some(ban) => Some(*ban), None => None }),
    {
        match &self.ban_state {
            Some(ban) => Some(&**ban),
            None => None,
        }
    }
}

} // verus!

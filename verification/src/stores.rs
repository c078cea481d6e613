//! The shared stores: who is banned, who has used up a rate window, and the
//! violations that count toward a ban.
//!
//! The stores change behind shared references, so no contract can speak of
//! what they hold. This module is therefore the only one that can reach them,
//! and what it offers asks for what must come before: the limiter is asked only
//! with the outcome of a ban check that let the address through, a crossing is
//! registered only with the outcome of a rate check that crossed, and a threat
//! only for a request that counts. Each outcome is good for one use.
use vstd::prelude::*;

use crate::engine::{
    ban_checked, ban_fits, decision_fits, is_loopback, limiter_config, rate_checked, slice_texts,
    violations_registered,
};
use crate::layer::{GuardLayer, LayerView};
use crate::request::{ClientIp, RequestParts};
use crate::stages::{attributed_and_counting, counted_ip};
use guard_core_engine::ip_ban::{IpBanConfig, IpBanManager, ResolvedBan, ViolationCounters};
use guard_core_engine::rate_limit::{RateLimitDecision, RateLimiter};

verus! {

// ---- the calls ----

/// `IpBanManager::is_banned`. Nothing is promised of the answer.
#[verifier::external_body]
fn check_ban(manager: &IpBanManager, ip: ClientIp) -> (banned: bool)
    ensures
        ban_checked(*manager, ip, banned),
{
    match ip {
        ClientIp::V4(octets) => manager.is_banned(octets.into()),
        ClientIp::V6(octets) => manager.is_banned(octets.into()),
    }
}

/// `RateLimiter::check` under the global scope. A limiter that is switched off
/// allows and counts nothing; one that is on allows exactly while the count,
/// this request included, is within the limit. The window is the configured
/// one. The count itself rests on the clock and on earlier requests.
#[verifier::external_body]
fn check_rate(limiter: &RateLimiter, ip: ClientIp) -> (decision: RateLimitDecision)
    ensures
        rate_checked(*limiter, ip, decision),
        decision_fits(limiter_config(*limiter), decision),
{
    match ip {
        ClientIp::V4(octets) => limiter.check(octets.into(), None),
        ClientIp::V6(octets) => limiter.check(octets.into(), None),
    }
}

/// `IpBanManager::register_violations`, which counts the categories, compares
/// the counts with the thresholds and bans where one is reached. With banning
/// switched off, and for a loopback address, there is never a ban; a ban keeps
/// to [`ban_fits`]. When a threshold is reached is not stated.
#[verifier::external_body]
fn register_violations(
    manager: &IpBanManager,
    counters: &ViolationCounters,
    ip: ClientIp,
    categories: &[&str],
    config: &IpBanConfig,
    reason: &str,
) -> (ban: Option<ResolvedBan>)
    ensures
        violations_registered(
            *manager,
            *counters,
            ip,
            slice_texts(categories@),
            *config,
            reason@,
            ban,
        ),
        !config.enable_ip_banning ==> ban is None,
        is_loopback(ip) ==> ban is None,
        ban matches Some(issued) ==> ban_fits(
            issued,
            slice_texts(categories@),
            *config,
            reason@,
        ),
{
    match ip {
        ClientIp::V4(octets) => {
            manager.register_violations(counters, octets.into(), categories, config, reason)
        },
        ClientIp::V6(octets) => {
            manager.register_violations(counters, octets.into(), categories, config, reason)
        },
    }
}

/// `guard_core_engine::ip_ban::RATE_LIMIT_CATEGORY`, the category under which
/// rate-limit crossings are counted.
#[verifier::external_body]
fn rate_limit_category() -> (category: &'static str)
    ensures
        category@ == "rate_limit"@,
{
    guard_core_engine::ip_ban::RATE_LIMIT_CATEGORY
}

/// The stateful stage's ban half: the shared ban store, the shared violation
/// counters (one middleware instance, one store pair), and the config that
/// gates banning and threshold resolution.
#[derive(Debug)]
pub struct BanState {
    pub manager: IpBanManager,
    pub counters: ViolationCounters,
    pub config: IpBanConfig,
}

impl BanState {
    /// Whether `ban` is an outcome of registering violations with this state.
    pub open spec fn registered(
        self,
        ip: ClientIp,
        categories: Seq<Seq<char>>,
        reason: Seq<char>,
        ban: Option<ResolvedBan>,
    ) -> bool {
        violations_registered(
            self.manager,
            self.counters,
            ip,
            categories,
            self.config,
            reason,
            ban,
        )
    }

    /// Whether there is a live ban on an address.
    fn is_banned(&self, ip: ClientIp) -> (banned: bool)
        ensures
            ban_checked(self.manager, ip, banned),
    {
        check_ban(&self.manager, ip)
    }

    /// The auto-ban engine's one-call shape: count the categories, resolve the
    /// thresholds, ban when one crossed.
    fn register_violations(&self, ip: ClientIp, categories: &[&str], reason: &str) -> (ban:
        Option<ResolvedBan>)
        ensures
            self.registered(ip, slice_texts(categories@), reason@, ban),
            !self.config.enable_ip_banning ==> ban is None,
            is_loopback(ip) ==> ban is None,
            ban matches Some(issued) ==> ban_fits(
                issued,
                slice_texts(categories@),
                self.config,
                reason@,
            ),
    {
        register_violations(&self.manager, &self.counters, ip, categories, &self.config, reason)
    }
}

// ---- bans ----

/// Whether `banned` is what the ban check comes to for an address. Without a
/// ban store, and with banning switched off, nobody is banned.
pub open spec fn ban_check_outcome(layer: LayerView, ip: ClientIp, banned: bool) -> bool {
    match layer.ban_state {
        Some(ban) if ban.config.enable_ip_banning => ban_checked(ban.manager, ip, banned),
        _ => !banned,
    }
}

/// The outcome of a ban check.
pub struct BanCheck {
    ip: ClientIp,
    banned: bool,
}

impl BanCheck {
    /// The address that was checked.
    pub closed spec fn ip(self) -> ClientIp {
        self.ip
    }

    /// Whether it is banned.
    pub closed spec fn outcome(self) -> bool {
        self.banned
    }

    /// Whether the address is banned.
    pub fn banned(&self) -> (banned: bool)
        ensures
            banned == self.outcome(),
    {
        self.banned
    }
}

/// Check an address for a live ban.
pub(crate) fn check_bans(layer: &GuardLayer, ip: ClientIp) -> (check: BanCheck)
    ensures
        check.ip() == ip,
        ban_check_outcome(layer@, ip, check.outcome()),
{
    match layer.ban_state() {
        Some(ban) if ban.config.enable_ip_banning => BanCheck { ip, banned: ban.is_banned(ip) },
        _ => BanCheck { ip, banned: false },
    }
}

// ---- rate limits ----

/// Whether `decision` is what the rate limiter comes to for an address; there
/// is none without a limiter.
pub open spec fn rate_check_outcome(
    layer: LayerView,
    ip: ClientIp,
    decision: Option<RateLimitDecision>,
) -> bool {
    match (layer.rate_limiter, decision) {
        (Some(limiter), Some(decision)) => {
            &&& rate_checked(limiter, ip, decision)
            &&& decision_fits(limiter_config(limiter), decision)
        },
        (None, None) => true,
        _ => false,
    }
}

/// The outcome of a rate check.
pub struct RateCheck {
    ip: ClientIp,
    decision: RateLimitDecision,
}

impl RateCheck {
    /// The address that was checked.
    pub closed spec fn ip(self) -> ClientIp {
        self.ip
    }

    /// What the limiter decided.
    pub closed spec fn outcome(self) -> RateLimitDecision {
        self.decision
    }

    /// What the limiter decided.
    pub fn decision(&self) -> (decision: RateLimitDecision)
        ensures
            decision == self.outcome(),
    {
        self.decision
    }
}

/// Ask the limiter about an address that the ban check let through.
pub(crate) fn check_limiter(layer: &GuardLayer, limiter: &RateLimiter, bans: BanCheck) -> (check:
    RateCheck)
    requires
        layer@.rate_limiter == Some(*limiter),
        !bans.outcome(),
        ban_check_outcome(layer@, bans.ip(), false),
    ensures
        check.ip() == bans.ip(),
        rate_check_outcome(layer@, bans.ip(), Some(check.outcome())),
{
    RateCheck { ip: bans.ip, decision: check_rate(limiter, bans.ip) }
}

/// Whether a crossing by this address has been counted where it is to be: as
/// one `rate_limit` violation, where the limiter feeds the auto-ban engine and
/// there is a ban store.
pub open spec fn crossing_counted(layer: LayerView, ip: ClientIp) -> bool {
    match (layer.rate_limiter, layer.ban_state) {
        (Some(limiter), Some(ban)) => {
            limiter_config(limiter).enable_rate_limit_auto_ban
                ==> exists|issued: Option<ResolvedBan>| #[trigger]
                ban.registered(ip, seq!["rate_limit"@], "rate_limit_exceeded"@, issued)
        },
        _ => true,
    }
}

/// Register a crossing as one `rate_limit` violation of its address, for a
/// limiter that feeds the auto-ban engine.
pub(crate) fn register_crossing(layer: &GuardLayer, ban: &BanState, check: RateCheck)
    requires
        layer@.ban_state == Some(*ban),
        rate_check_outcome(layer@, check.ip(), Some(check.outcome())),
        !check.outcome().allowed,
        layer@.rate_limiter matches Some(limiter)
            && limiter_config(limiter).enable_rate_limit_auto_ban,
    ensures
        crossing_counted(layer@, check.ip()),
{
    let categories: [&str; 1] = [rate_limit_category()];
    let _issued: Option<ResolvedBan> = ban.register_violations(
        check.ip,
        &categories,
        "rate_limit_exceeded",
    );
    proof {
        let state = layer@.ban_state->0;
        assert(slice_texts(categories@) =~= seq!["rate_limit"@]);
        assert(state.registered(
            check.ip(),
            seq!["rate_limit"@],
            "rate_limit_exceeded"@,
            _issued,
        ));
    }
}

// ---- threats ----

/// Register a threat of these categories for the address of the request, where
/// the request counts and there is a ban store; `None` where that gets nobody
/// banned.
pub(crate) fn register_threat(
    parts: &RequestParts,
    layer: &GuardLayer,
    categories: &[String],
) -> (issued: Option<ResolvedBan>)
    ensures
        match (layer@.ban_state, counted_ip(parts.extensions)) {
            (Some(ban), Some(ip)) => {
                &&& ban.registered(ip, categories.deep_view(), "penetration_attempt"@, issued)
                &&& !ban.config.enable_ip_banning ==> issued is None
                &&& is_loopback(ip) ==> issued is None
            },
            _ => issued is None,
        },
{
    let ban: &BanState = match layer.ban_state() {
        Some(ban) => ban,
        None => return None,
    };
    let ip: ClientIp = match attributed_and_counting(parts) {
        Some(ip) => ip,
        None => return None,
    };
    let mut category_refs: Vec<&str> = Vec::new();
    for i in 0..categories.len()
        invariant
            category_refs@.len() == i,
            forall|j: int| 0 <= j < i ==> (#[trigger] category_refs@[j])@ == categories@[j]@,
    {
        category_refs.push(categories[i].as_str());
    }
    assert(slice_texts(category_refs@) =~= categories.deep_view());
    ban.register_violations(ip, &category_refs, "penetration_attempt")
}

} // verus!

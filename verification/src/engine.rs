//! What the guard uses of the detection engine, `guard-core-engine`.
//!
//! Every contract in this module is taken on trust: it states what the
//! engine's source shows, and nothing here proves it. The calls that reach the
//! shared stores stand in [`crate::stores`], in the terms defined here. The
//! engine decides what is a threat, which addresses a list covers, who is
//! banned and who has used up a rate window; this library decides what to ask
//! and how to answer.
//!
//! The two calls that look at content, `detect` and
//! `extract_body_scan_values`, may panic, so they are not made here: whoever
//! drives the scan makes them, and hands in what came back, or that nothing
//! did.
use vstd::prelude::*;

use crate::request::ClientIp;
use guard_core_engine::body_scan::BodyScanValue;
use guard_core_engine::detect::{DetectConfig, DetectVerdict, SemanticThreat, Threat};
use guard_core_engine::ip_ban::{
    IpBanConfig, IpBanManager, ResolvedBan, ThreatBanEntry, ViolationCounters,
};
use guard_core_engine::ip_gate::{IpGateConfig, IpGateDecision, IpGateDenial, IpGateVerdict};
use guard_core_engine::patterns::RegexThreat;
use guard_core_engine::rate_limit::{
    RateLimitConfig, RateLimitDecision, RateLimitEntry, RateLimiter,
};
use guard_core_engine::semantic::AnalysisResult;

verus! {

// ---- detection ----

/// The engine's detection knobs; all its fields are public.
#[verifier::external_type_specification]
pub struct ExDetectConfig(DetectConfig);

/// The engine's verdict on one content; all its fields are public.
#[verifier::external_type_specification]
pub struct ExDetectVerdict(DetectVerdict);

/// One threat of a verdict; its variants are public.
#[verifier::external_type_specification]
pub struct ExThreat(Threat);

/// A threat found by a pattern; all its fields are public.
#[verifier::external_type_specification]
pub struct ExRegexThreat(RegexThreat);

/// A threat found by semantic analysis; all its fields are public.
#[verifier::external_type_specification]
pub struct ExSemanticThreat(SemanticThreat);

/// The payload of a semantic threat, which the guard never reads.
#[verifier::external_type_specification]
#[verifier::external_body]
pub struct ExAnalysisResult(AnalysisResult);

/// A value that the engine takes out of a request body; all its fields are
/// public.
#[verifier::external_type_specification]
pub struct ExBodyScanValue(BodyScanValue);

/// A threat, by the kind of analysis that found it and the label it carries.
pub enum ThreatLabel {
    /// Found by a pattern of this category.
    Regex(Seq<char>),
    /// Found by semantic analysis as this type of attack.
    Semantic(Seq<char>),
}

/// What the engine reports of one content.
pub struct EngineReport {
    pub is_threat: bool,
    pub threats: Seq<ThreatLabel>,
}

/// The label of a threat.
pub open spec fn threat_label(threat: Threat) -> ThreatLabel {
    match threat {
        Threat::Regex(regex) => ThreatLabel::Regex(regex.category@),
        Threat::Semantic(semantic) => ThreatLabel::Semantic(semantic.attack_type@),
    }
}

/// What a verdict reports.
pub open spec fn verdict_report(verdict: DetectVerdict) -> EngineReport {
    EngineReport {
        is_threat: verdict.is_threat,
        threats: verdict.threats@.map_values(|threat: Threat| threat_label(threat)),
    }
}

/// What an answer of the engine reports; `None` where the engine panicked.
pub open spec fn answer_report(verdict: Option<DetectVerdict>) -> Option<EngineReport> {
    match verdict {
        Some(verdict) => Some(verdict_report(verdict)),
        None => None,
    }
}

/// A text to be scanned, with the context to scan it in, or with the category
/// it is already known to belong to.
pub struct Probe {
    pub content: Seq<char>,
    pub context: Seq<char>,
    pub forced: Option<Seq<char>>,
}

/// The probe that a body value stands for.
pub open spec fn value_probe(value: BodyScanValue) -> Probe {
    Probe {
        content: value.content@,
        context: value.context@,
        forced: match value.forced_category {
            Some(category) => Some(category@),
            None => None,
        },
    }
}

/// The probes that a list of body values stands for.
pub open spec fn value_probes(values: Seq<BodyScanValue>) -> Seq<Probe> {
    values.map_values(|value: BodyScanValue| value_probe(value))
}

/// The probes of the values that the engine takes out of a body; `None` where
/// the engine panicked.
pub open spec fn answer_probes(values: Option<Vec<BodyScanValue>>) -> Option<Seq<Probe>> {
    match values {
        Some(values) => Some(value_probes(values@)),
        None => None,
    }
}

// ---- the IP gate ----

/// The parsed `whitelist`, `blacklist` and `exempt_ips` lists.
#[verifier::external_type_specification]
#[verifier::external_body]
pub struct ExIpGateConfig(IpGateConfig);

/// The outcome of the IP gate; its variants are public.
#[verifier::external_type_specification]
pub struct ExIpGateVerdict(IpGateVerdict);

/// The skip state of an address that passed; all its fields are public.
#[verifier::external_type_specification]
pub struct ExIpGateDecision(IpGateDecision);

/// Why an address was denied; its variants are public.
#[verifier::external_type_specification]
pub struct ExIpGateDenial(IpGateDenial);

/// The addresses that the whitelist covers.
pub uninterp spec fn gate_whitelist(gate: IpGateConfig) -> Set<ClientIp>;

/// The addresses that the blacklist covers.
pub uninterp spec fn gate_blacklist(gate: IpGateConfig) -> Set<ClientIp>;

/// The addresses that `exempt_ips` covers.
pub uninterp spec fn gate_exempt(gate: IpGateConfig) -> Set<ClientIp>;

/// The IP gate's rule: with a whitelist, an address outside it is denied;
/// without one, an address on the blacklist is denied; anyone else passes, and
/// the exemption is only noted.
pub open spec fn gate_rule(
    whitelist: Set<ClientIp>,
    blacklist: Set<ClientIp>,
    exempt: Set<ClientIp>,
    ip: ClientIp,
) -> IpGateVerdict {
    if whitelist != Set::<ClientIp>::empty() {
        if whitelist.contains(ip) {
            IpGateVerdict::Allowed(
                IpGateDecision { is_whitelisted: true, is_exempt: exempt.contains(ip) },
            )
        } else {
            IpGateVerdict::Denied(IpGateDenial::NotInWhitelist)
        }
    } else if blacklist.contains(ip) {
        IpGateVerdict::Denied(IpGateDenial::Blacklisted)
    } else {
        IpGateVerdict::Allowed(
            IpGateDecision { is_whitelisted: false, is_exempt: exempt.contains(ip) },
        )
    }
}

/// What a gate decides of an address.
pub open spec fn gate_verdict(gate: IpGateConfig, ip: ClientIp) -> IpGateVerdict {
    gate_rule(gate_whitelist(gate), gate_blacklist(gate), gate_exempt(gate), ip)
}

/// `IpGateConfig::evaluate`: the IP gate's rule over the addresses that its three
/// lists cover. A list without entries covers no address, and every entry
/// covers at least one, so a whitelist is configured exactly where it covers
/// some address. Which addresses an entry covers is not stated.
#[verifier::external_body]
pub(crate) fn evaluate_gate(gate: &IpGateConfig, ip: ClientIp) -> (verdict: IpGateVerdict)
    ensures
        verdict == gate_rule(gate_whitelist(*gate), gate_blacklist(*gate), gate_exempt(*gate), ip),
{
    match ip {
        ClientIp::V4(octets) => gate.evaluate(octets.into()),
        ClientIp::V6(octets) => gate.evaluate(octets.into()),
    }
}

/// `IpGateConfig::clone`, which `derive` wrote: the copy has the same lists.
pub assume_specification[ <IpGateConfig as Clone>::clone ](gate: &IpGateConfig) -> (copy:
    IpGateConfig)
    ensures
        copy == *gate,
;

// ---- rate limiting ----

/// The sliding-window rate limiter: a shared store of request times.
#[verifier::external_type_specification]
#[verifier::external_body]
pub struct ExRateLimiter(RateLimiter);

/// The limiter's knobs; all its fields are public.
#[verifier::external_type_specification]
pub struct ExRateLimitConfig(RateLimitConfig);

/// A limit of one endpoint; all its fields are public.
#[verifier::external_type_specification]
pub struct ExRateLimitEntry(RateLimitEntry);

/// The outcome of one rate-limit check; all its fields are public.
#[verifier::external_type_specification]
pub struct ExRateLimitDecision(RateLimitDecision);

/// The knobs that a limiter was made with.
pub uninterp spec fn limiter_config(limiter: RateLimiter) -> RateLimitConfig;

/// Holds of every decision that a limiter gives out for an address under the
/// global scope. Which decision that is rests on the clock and on the requests
/// the limiter has seen, and is not stated.
pub uninterp spec fn rate_checked(
    limiter: RateLimiter,
    ip: ClientIp,
    decision: RateLimitDecision,
) -> bool;

/// What every decision of a limiter with these knobs keeps to.
pub open spec fn decision_fits(config: RateLimitConfig, decision: RateLimitDecision) -> bool {
    &&& decision.window == config.rate_limit_window
    &&& if config.enable_rate_limiting {
        1 <= decision.count && (decision.allowed <==> decision.count <= config.rate_limit)
    } else {
        decision.count == 0 && decision.allowed
    }
}

/// `RateLimiter::config`: the knobs the limiter was made with.
pub assume_specification[ RateLimiter::config ](limiter: &RateLimiter) -> (config: &RateLimitConfig)
    ensures
        *config == limiter_config(*limiter),
;

/// `RateLimitDecision::retry_after`: the window of the decision, in seconds.
pub assume_specification[ RateLimitDecision::retry_after ](decision: RateLimitDecision) -> (seconds:
    u64)
    ensures
        seconds == decision.window,
;

// ---- bans ----

/// The shared store of bans.
#[verifier::external_type_specification]
#[verifier::external_body]
pub struct ExIpBanManager(IpBanManager);

/// The shared store of violation counts.
#[verifier::external_type_specification]
#[verifier::external_body]
pub struct ExViolationCounters(ViolationCounters);

/// The banning knobs; all its fields are public.
#[verifier::external_type_specification]
pub struct ExIpBanConfig(IpBanConfig);

/// A ban threshold of one category; all its fields are public.
#[verifier::external_type_specification]
pub struct ExThreatBanEntry(ThreatBanEntry);

/// A ban that the thresholds call for; all its fields are public.
#[verifier::external_type_specification]
pub struct ExResolvedBan(ResolvedBan);

/// Holds of every answer that a ban store gives when it is asked whether an
/// address is banned. Which answer that is rests on the clock and on the bans
/// recorded so far, and is not stated.
pub uninterp spec fn ban_checked(manager: IpBanManager, ip: ClientIp, banned: bool) -> bool;

/// Holds of every outcome of registering violations of these categories for
/// an address, under these knobs and for this reason. Which outcome that is
/// rests on the clock and on the violations counted so far, and is not stated.
pub uninterp spec fn violations_registered(
    manager: IpBanManager,
    counters: ViolationCounters,
    ip: ClientIp,
    categories: Seq<Seq<char>>,
    config: IpBanConfig,
    reason: Seq<char>,
    ban: Option<ResolvedBan>,
) -> bool;

/// The texts of a list of string slices.
pub open spec fn slice_texts(texts: Seq<&str>) -> Seq<Seq<char>> {
    texts.map_values(|text: &str| text@)
}

/// Whether the octets are those of an IPv4-mapped IPv6 address.
pub open spec fn is_ipv4_mapped(octets: [u8; 16]) -> bool {
    &&& forall|i: int| 0 <= i < 10 ==> octets[i] == 0
    &&& octets[10] == 255
    &&& octets[11] == 255
}

/// Whether an address is in the loopback space: `127.0.0.0/8`, also in its
/// IPv4-mapped form, or `::1`.
pub open spec fn is_loopback(ip: ClientIp) -> bool {
    match ip {
        ClientIp::V4(octets) => octets[0] == 127,
        ClientIp::V6(octets) => {
            ||| is_ipv4_mapped(octets) && octets[12] == 127
            ||| octets[15] == 1 && forall|i: int| 0 <= i < 15 ==> octets[i] == 0
        },
    }
}

/// What every ban keeps to: it lasts at least a second, and it is either that
/// of a registered category with an entry of its own, or the flat one.
pub open spec fn ban_fits(
    ban: ResolvedBan,
    categories: Seq<Seq<char>>,
    config: IpBanConfig,
    reason: Seq<char>,
) -> bool {
    &&& ban.duration > 0
    &&& match ban.category {
        Some(category) => {
            &&& categories.contains(category@)
            &&& ban.reason@ == reason + ":"@ + category@
            &&& exists|key: String| #[trigger]
                config.threat_ban_config@.contains_key(key) && key@ == category@
                    && config.threat_ban_config@[key].duration == ban.duration
        },
        None => ban.reason@ == reason && ban.duration == config.auto_ban_duration,
    }
}

/// `ViolationCounters::new`: a fresh store, which shares nothing.
pub assume_specification[ ViolationCounters::new ]() -> (counters: ViolationCounters);

} // verus!

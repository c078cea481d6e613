//! The stages around the scan: the IP gate, the ban check and the rate
//! limiter, and the block that answers a threat.
use vstd::prelude::*;

use crate::engine::{evaluate_gate, gate_verdict, is_loopback};
use crate::layer::{GuardLayer, LayerView};
use crate::request::{ClientIp, GuardClientIp, RequestParts};
use crate::response::{
    activity_banned, activity_banned_response, answer_view, banned_ip, banned_response, blocked,
    blocked_response, forbidden, forbidden_response, rate_limited, rate_limited_response,
    GuardResponse, ResponseView,
};
use crate::stores::{
    ban_check_outcome, check_bans, check_limiter, crossing_counted, rate_check_outcome,
    register_crossing, register_threat, BanCheck, RateCheck,
};
use crate::transport::{
    attach_decision, attached_client_ip, attached_decision, client_ip_of, decision_of,
    other_extensions,
};
use guard_core_engine::ip_ban::ResolvedBan;
use guard_core_engine::ip_gate::{IpGateDecision, IpGateVerdict};
use guard_core_engine::rate_limit::RateLimitDecision;
use http::Extensions;

verus! {

// ---- the IP gate ----

/// What the IP gate decides of a request; `None` where it does not run, because
/// there is no gate or the request is not attributed.
pub open spec fn request_verdict(layer: LayerView, extensions: Extensions) -> Option<
    IpGateVerdict,
> {
    match (layer.ip_gate, attached_client_ip(extensions)) {
        (Some(gate), Some(client)) => Some(gate_verdict(gate, client.0)),
        _ => None,
    }
}

/// Apply the configured IP gate to the request parts.
///
/// Returns the `403 Forbidden` response when the IP gate denies the request IP.
/// A passed request gets the IP gate's decision inserted into the request
/// extensions, so that downstream handlers can read the skip state. Without a
/// gate or without a [`GuardClientIp`] extension the IP gate does not run, and
/// nothing is inserted. Everything else about the request stays as it is.
pub fn enforce_ip_gate(parts: &mut RequestParts, layer: &GuardLayer) -> (denial: Option<
    GuardResponse,
>)
    ensures
        match request_verdict(layer@, old(parts).extensions) {
            Some(IpGateVerdict::Allowed(decision)) => {
                &&& denial is None
                &&& attached_decision(final(parts).extensions) == Some(decision)
            },
            Some(IpGateVerdict::Denied(_)) => {
                &&& answer_view(denial) == Some(forbidden_response())
                &&& *final(parts) == *old(parts)
            },
            None => denial is None && *final(parts) == *old(parts),
        },
        attached_client_ip(final(parts).extensions) == attached_client_ip(old(parts).extensions),
        other_extensions(final(parts).extensions) == other_extensions(old(parts).extensions),
        final(parts).uri == old(parts).uri,
        final(parts).headers == old(parts).headers,
{
    let gate = match layer.ip_gate() {
        Some(gate) => gate,
        None => return None,
    };
    let client: GuardClientIp = match client_ip_of(&parts.extensions) {
        Some(client) => client,
        None => return None,
    };
    match evaluate_gate(gate, client.0) {
        IpGateVerdict::Allowed(decision) => {
            attach_decision(&mut parts.extensions, decision);
            None
        },
        IpGateVerdict::Denied(_) => Some(forbidden()),
    }
}

// ---- bans and rate limits ----

/// Whether a gate decision lets its address skip the stateful stage.
pub open spec fn skips_state_stage(decision: IpGateDecision) -> bool {
    decision.is_whitelisted || decision.is_exempt
}

/// The address that a request is held responsible under, where there is one.
pub open spec fn counted_ip(extensions: Extensions) -> Option<ClientIp> {
    match attached_client_ip(extensions) {
        Some(client) => match attached_decision(extensions) {
            Some(decision) if skips_state_stage(decision) => None,
            _ => Some(client.0),
        },
        None => None,
    }
}

/// The client IP, when the request is attributable and not skipped by the
/// exemption contract: the stateful stage's gate.
///
/// Unattributed requests cannot be banned, rate limited, or counted; the
/// whitelisted and the exempt skip all three. Detection applies to both,
/// always.
pub fn attributed_and_counting(parts: &RequestParts) -> (ip: Option<ClientIp>)
    ensures
        ip == counted_ip(parts.extensions),
{
    let client: GuardClientIp = match client_ip_of(&parts.extensions) {
        Some(client) => client,
        None => return None,
    };
    if let Some(decision) = decision_of(&parts.extensions) {
        if decision.is_whitelisted || decision.is_exempt {
            return None;
        }
    }
    Some(client.0)
}

/// How the stateful stage answers: a ban first, then a crossing.
pub open spec fn state_stage_response(banned: bool, decision: Option<RateLimitDecision>) -> Option<
    ResponseView,
> {
    if banned {
        Some(banned_response())
    } else {
        match decision {
            Some(decision) if !decision.allowed => Some(rate_limited_response(decision.window)),
            _ => None,
        }
    }
}

/// Whether `answer` is what the stateful stage comes to for an address: the
/// ban check, then for an address that is not banned the rate limiter, and a
/// crossing counted.
pub open spec fn state_stage_outcome(
    layer: LayerView,
    ip: ClientIp,
    answer: Option<ResponseView>,
) -> bool {
    exists|banned: bool, decision: Option<RateLimitDecision>|
        {
            &&& ban_check_outcome(layer, ip, banned)
            &&& if banned {
                decision is None
            } else {
                rate_check_outcome(layer, ip, decision)
            }
            &&& (decision matches Some(taken) && !taken.allowed ==> crossing_counted(layer, ip))
            &&& answer == #[trigger] state_stage_response(banned, decision)
        }
}

/// The stateful stage's answer to the outcome of the two checks; `decision` is
/// `None` where no rate was checked.
pub fn state_stage_answer(banned: bool, decision: Option<RateLimitDecision>) -> (answer: Option<
    GuardResponse,
>)
    ensures
        answer_view(answer) == state_stage_response(banned, decision),
{
    if banned {
        return Some(banned_ip());
    }
    match decision {
        Some(decision) if !decision.allowed => Some(rate_limited(decision.retry_after())),
        _ => None,
    }
}

/// What the stateful stage does next.
#[derive(Debug, Clone, Copy, PartialEq, Eq)]
pub enum StageStep {
    /// Turn the request away as banned.
    AnswerBanned,
    /// Ask the rate limiter.
    AskLimiter,
    /// Register a crossing, and turn the request away as rate limited.
    Register,
    /// Turn the request away as rate limited.
    AnswerLimited,
    /// Let the request through.
    Pass,
}

/// What follows the ban check: a banned address is turned away, and the limiter
/// is asked about no other but one that is not banned.
pub fn after_ban_check(banned: bool, has_limiter: bool) -> (step: StageStep)
    ensures
        step is AnswerBanned <==> banned,
        step is AskLimiter <==> !banned && has_limiter,
        step is Pass <==> !banned && !has_limiter,
{
    if banned {
        StageStep::AnswerBanned
    } else if has_limiter {
        StageStep::AskLimiter
    } else {
        StageStep::Pass
    }
}

/// What follows the rate check: only a crossing is turned away, and only a
/// crossing is registered, where the limiter feeds the auto-ban engine and
/// there is a ban store.
pub fn after_rate_check(decision: &RateLimitDecision, auto_ban: bool, has_store: bool) -> (step:
    StageStep)
    ensures
        step is Register <==> !decision.allowed && auto_ban && has_store,
        step is AnswerLimited <==> !decision.allowed && !(auto_ban && has_store),
        step is Pass <==> decision.allowed,
{
    if decision.allowed {
        StageStep::Pass
    } else if auto_ban && has_store {
        StageStep::Register
    } else {
        StageStep::AnswerLimited
    }
}

/// The stateful stage: dynamic bans, then rate limiting.
///
/// Returns the block response when the stage denies the request:
/// `403 Forbidden` for a live ban, `429 Too Many Requests` with
/// `Retry-After: <window>` for a crossing. The ban check comes first: a banned
/// IP is denied before its rate window is touched. Every crossing counts one
/// violation toward the auto-ban engine, where that is switched on; the
/// response stays `429`, and the ban takes effect on the next request.
pub fn enforce_state_stage(parts: &RequestParts, layer: &GuardLayer) -> (answer: Option<
    GuardResponse,
>)
    ensures
        match counted_ip(parts.extensions) {
            Some(ip) => state_stage_outcome(layer@, ip, answer_view(answer)),
            None => answer is None,
        },
{
    let ip: ClientIp = match attributed_and_counting(parts) {
        Some(ip) => ip,
        None => return None,
    };
    let bans: BanCheck = check_bans(layer, ip);
    let banned: bool = bans.banned();
    match (after_ban_check(banned, layer.rate_limiter().is_some()), layer.rate_limiter()) {
        (StageStep::AskLimiter, Some(limiter)) => {
            let check: RateCheck = check_limiter(layer, limiter, bans);
            let decision: RateLimitDecision = check.decision();
            let auto_ban: bool = limiter.config().enable_rate_limit_auto_ban;
            match (
                after_rate_check(&decision, auto_ban, layer.ban_state().is_some()),
                layer.ban_state(),
            ) {
                (StageStep::Register, Some(ban)) => register_crossing(layer, ban, check),
                _ => {},
            }
            state_stage_answer(false, Some(decision))
        },
        _ => state_stage_answer(banned, None),
    }
}

// ---- the detection block ----

/// How a threat is answered: whether it got the address banned decides.
pub open spec fn detection_response(issued: Option<ResolvedBan>) -> ResponseView {
    if issued is Some {
        activity_banned_response()
    } else {
        blocked_response()
    }
}

/// Whether `response` is what a threat of these categories is answered with.
/// With a ban store, and for a request that counts, the categories are
/// registered and the outcome decides; it is no ban with banning switched off,
/// and none for a loopback address. Any other request gets the plain block.
pub open spec fn detection_outcome(
    layer: LayerView,
    extensions: Extensions,
    categories: Seq<Seq<char>>,
    response: ResponseView,
) -> bool {
    match (layer.ban_state, counted_ip(extensions)) {
        (Some(ban), Some(ip)) => {
            &&& exists|issued: Option<ResolvedBan>|
                {
                    &&& #[trigger] ban.registered(ip, categories, "penetration_attempt"@, issued)
                    &&& response == detection_response(issued)
                }
            &&& !ban.config.enable_ip_banning ==> response == blocked_response()
            &&& is_loopback(ip) ==> response == blocked_response()
        },
        _ => response == blocked_response(),
    }
}

/// The answer to a threat, given what registering it came to.
pub fn detection_answer(issued: &Option<ResolvedBan>) -> (response: GuardResponse)
    ensures
        response@ == detection_response(*issued),
{
    if issued.is_some() {
        activity_banned()
    } else {
        blocked()
    }
}

/// The detection block for one flagged request, with the auto-ban engine
/// attached: the flagged view's categories count as violations for the client
/// IP, and a crossed threshold bans on the spot. Banning configured and fired
/// answers `IP has been banned`; everything else keeps the
/// `Suspicious activity detected` block shape.
///
/// The violations count even while banning is switched off, so that enabling
/// it later starts from observed history.
pub fn detect_block(parts: &RequestParts, layer: &GuardLayer, categories: &[String]) -> (response:
    GuardResponse)
    ensures
        detection_outcome(layer@, parts.extensions, categories.deep_view(), response@),
{
    let issued: Option<ResolvedBan> = register_threat(parts, layer, categories);
    detection_answer(&issued)
}

} // verus!

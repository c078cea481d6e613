//! The answers, word for word.
use vstd::prelude::*;

use crate::laws::strings::{lemma_decimal, writes};
use crate::response::{
    activity_banned, banned_ip, blocked, failure, forbidden, oversize, rate_limited, GuardResponse,
};
use crate::stages::{
    after_ban_check, after_rate_check, detection_answer, state_stage_answer, StageStep,
};
use guard_core_engine::ip_ban::ResolvedBan;
use guard_core_engine::rate_limit::RateLimitDecision;

verus! {

/// Whether a response is plain text with this status and message, and has no
/// `Retry-After`.
pub open spec fn says(response: GuardResponse, status: u16, message: Seq<char>) -> bool {
    &&& response.status == status
    &&& response.content_type@ == "text/plain; charset=utf-8"@
    &&& response.retry_after is None
    &&& response.message@ == message
}

/// Whether a response is the `429` that asks to wait for so many seconds.
pub open spec fn says_wait(response: GuardResponse, seconds: u64) -> bool {
    &&& response.status == 429
    &&& response.content_type@ == "text/plain; charset=utf-8"@
    &&& response.message@ == "Too many requests"@
    &&& response.retry_after matches Some(text) && writes(text@, seconds as nat)
}

/// Whether a response is the denial of the IP gate.
pub open spec fn says_forbidden(response: GuardResponse) -> bool {
    says(response, 403, "Forbidden"@)
}

/// Whether a response is the denial of a banned address.
pub open spec fn says_banned(response: GuardResponse) -> bool {
    says(response, 403, "IP address banned"@)
}

/// Whether a response is the block of a threat.
pub open spec fn says_blocked(response: GuardResponse) -> bool {
    says(response, 400, "Suspicious activity detected"@)
}

/// Whether a response is the block of a threat that got the client banned.
pub open spec fn says_banned_now(response: GuardResponse) -> bool {
    says(response, 403, "IP has been banned"@)
}

/// Whether a response is the refusal of a body over the cap.
pub open spec fn says_too_large(response: GuardResponse) -> bool {
    says(response, 413, "Payload too large"@)
}

/// Whether a response is that of a check that could not be completed.
pub open spec fn says_failed(response: GuardResponse) -> bool {
    says(response, 500, "Security check failed"@)
}

/// Every response is the documented one, word for word.
pub proof fn responses_are_the_documented_ones(
    of_gate: GuardResponse,
    of_ban: GuardResponse,
    of_threat: GuardResponse,
    of_fresh_ban: GuardResponse,
    of_cap: GuardResponse,
    of_failure: GuardResponse,
    seconds: u64,
    of_rate: GuardResponse,
)
    requires
        call_ensures(forbidden, (), of_gate),
        call_ensures(banned_ip, (), of_ban),
        call_ensures(blocked, (), of_threat),
        call_ensures(activity_banned, (), of_fresh_ban),
        call_ensures(oversize, (), of_cap),
        call_ensures(failure, (), of_failure),
        call_ensures(rate_limited, (seconds,), of_rate),
    ensures
        says_forbidden(of_gate),
        says_banned(of_ban),
        says_blocked(of_threat),
        says_banned_now(of_fresh_ban),
        says_too_large(of_cap),
        says_failed(of_failure),
        says_wait(of_rate, seconds),
{
    lemma_decimal(seconds as nat);
}

/// The stateful stage turns a banned address away whatever its rate, turns a
/// crossing away with the window to wait, and lets everyone else through.
pub proof fn stage_answer_is_the_documented_one(
    banned: bool,
    decision: Option<RateLimitDecision>,
    answer: Option<GuardResponse>,
)
    requires
        call_ensures(state_stage_answer, (banned, decision), answer),
    ensures
        banned ==> (answer matches Some(response) && says_banned(response)),
        !banned ==> match decision {
            Some(taken) => if taken.allowed {
                answer is None
            } else {
                answer matches Some(response) && says_wait(response, taken.window)
            },
            None => answer is None,
        },
{
    if let Some(taken) = decision {
        lemma_decimal(taken.window as nat);
    }
}

/// A threat is blocked, and the block names the ban exactly where one was
/// issued.
pub proof fn threat_answer_is_the_documented_one(
    issued: Option<ResolvedBan>,
    response: GuardResponse,
)
    requires
        call_ensures(detection_answer, (&issued,), response),
    ensures
        issued is Some ==> says_banned_now(response),
        issued is None ==> says_blocked(response),
{
}

/// The plan of the stateful stage: the limiter is asked exactly where there is
/// one and the address is not banned, and a violation is registered exactly
/// where the limit was crossed, the limiter feeds the auto-ban engine, and
/// there is a store.
pub proof fn stage_plan_is_the_documented_one(
    banned: bool,
    has_limiter: bool,
    first: StageStep,
    decision: RateLimitDecision,
    auto_ban: bool,
    has_store: bool,
    second: StageStep,
)
    requires
        call_ensures(after_ban_check, (banned, has_limiter), first),
        call_ensures(after_rate_check, (&decision, auto_ban, has_store), second),
    ensures
        first == if banned {
            StageStep::AnswerBanned
        } else if has_limiter {
            StageStep::AskLimiter
        } else {
            StageStep::Pass
        },
        second == if decision.allowed {
            StageStep::Pass
        } else if auto_ban && has_store {
            StageStep::Register
        } else {
            StageStep::AnswerLimited
        },
{
}

} // verus!

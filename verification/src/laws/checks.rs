//! The checks around the scan: what each one does, whatever else is installed.
use vstd::prelude::*;

use crate::call::{admitted, start, CallState};
use crate::engine::{
    ban_checked, gate_blacklist, gate_exempt, gate_verdict, gate_whitelist, is_loopback,
    limiter_config, rate_checked, violations_registered,
};
use crate::laws::answers::{
    says_banned, says_banned_now, says_blocked, says_forbidden, says_wait,
};
use crate::laws::strings::lemma_decimal;
use crate::layer::{GuardLayer, LayerView};
use crate::request::{ClientIp, GuardClientIp, RequestParts};
use crate::response::{answer_view, GuardResponse, ResponseView};
use crate::stages::{
    attributed_and_counting, counted_ip, detect_block, detection_outcome, detection_response,
    enforce_ip_gate, enforce_state_stage, state_stage_outcome, state_stage_response,
};
use crate::stores::{ban_check_outcome, crossing_counted, rate_check_outcome};
use crate::transport::{attached_client_ip, attached_decision, other_extensions};
use guard_core_engine::ip_ban::ResolvedBan;
use guard_core_engine::ip_gate::{IpGateConfig, IpGateDecision, IpGateVerdict};
use guard_core_engine::rate_limit::{RateLimitDecision, RateLimiter};
use http::Extensions;

verus! {

// ---- the IP gate ----

/// Whether the lists of a gate let an address pass: with a whitelist it is on
/// it, without one it is not on the blacklist.
pub open spec fn lists_admit(gate: IpGateConfig, ip: ClientIp) -> bool {
    if exists|other: ClientIp| gate_whitelist(gate).contains(other) {
        gate_whitelist(gate).contains(ip)
    } else {
        !gate_blacklist(gate).contains(ip)
    }
}

/// Whether a decision is the skip state of an address that passed: whether it
/// passed by the whitelist, and whether it is exempt.
pub open spec fn notes_skip_state(
    gate: IpGateConfig,
    ip: ClientIp,
    decision: IpGateDecision,
) -> bool {
    &&& decision.is_whitelisted <==> gate_whitelist(gate).contains(ip)
    &&& decision.is_exempt <==> gate_exempt(gate).contains(ip)
}

/// A gate denies an address exactly where its lists do not admit it, and notes
/// the skip state of every other.
pub proof fn gate_goes_by_its_lists(gate: IpGateConfig, ip: ClientIp)
    ensures
        gate_verdict(gate, ip) is Denied <==> !lists_admit(gate, ip),
        gate_verdict(gate, ip) matches IpGateVerdict::Allowed(decision) ==> notes_skip_state(
            gate,
            ip,
            decision,
        ),
{
    let whitelist = gate_whitelist(gate);
    if whitelist == Set::<ClientIp>::empty() {
        assert(forall|other: ClientIp| !whitelist.contains(other));
    } else if forall|other: ClientIp| !whitelist.contains(other) {
        assert(whitelist =~= Set::<ClientIp>::empty());
    }
}

/// The IP gate runs wherever a gate is installed and the request has a client
/// address, whatever else is installed: an address that its lists do not admit
/// is denied, and any other request gets the skip state attached.
pub proof fn gate_runs_wherever_it_is_installed(
    parts: &mut RequestParts,
    layer: &GuardLayer,
    denial: Option<GuardResponse>,
    gate: IpGateConfig,
    client: GuardClientIp,
)
    requires
        call_ensures(enforce_ip_gate, (parts, layer), denial),
        layer@.ip_gate == Some(gate),
        attached_client_ip(old(parts).extensions) == Some(client),
    ensures
        denial is None <==> lists_admit(gate, client.0),
        denial matches Some(response) ==> says_forbidden(response) && *final(parts) == *old(parts),
        denial is None ==> (attached_decision(final(parts).extensions) matches Some(decision)
            && notes_skip_state(gate, client.0, decision)),
{
    gate_goes_by_its_lists(gate, client.0);
}

/// Without a gate, or without a client address, the IP gate denies nobody and
/// leaves the request as it is.
pub proof fn gate_is_inert_without_a_gate_or_an_address(
    parts: &mut RequestParts,
    layer: &GuardLayer,
    denial: Option<GuardResponse>,
)
    requires
        call_ensures(enforce_ip_gate, (parts, layer), denial),
        layer@.ip_gate is None || attached_client_ip(old(parts).extensions) is None,
    ensures
        denial is None,
        *final(parts) == *old(parts),
{
}

/// Whatever the IP gate decides, the target, the headers, the client address
/// and the values of other types stay.
pub proof fn gate_keeps_the_request(
    parts: &mut RequestParts,
    layer: &GuardLayer,
    denial: Option<GuardResponse>,
)
    requires
        call_ensures(enforce_ip_gate, (parts, layer), denial),
    ensures
        final(parts).uri == old(parts).uri,
        final(parts).headers == old(parts).headers,
        attached_client_ip(final(parts).extensions) == attached_client_ip(old(parts).extensions),
        other_extensions(final(parts).extensions) == other_extensions(old(parts).extensions),
{
}

// ---- bans and rate limits ----

/// Whether a request is held responsible under an address: the address is
/// attached, and no decision that says whitelisted or exempt is.
pub open spec fn counts_for(extensions: Extensions, ip: ClientIp) -> bool {
    &&& attached_client_ip(extensions) == Some(GuardClientIp(ip))
    &&& match attached_decision(extensions) {
        Some(decision) => !decision.is_whitelisted && !decision.is_exempt,
        None => true,
    }
}

/// The address a request is held responsible under is the one it counts for.
pub proof fn lemma_counts_for(extensions: Extensions)
    ensures
        forall|ip: ClientIp|
            #[trigger] counts_for(extensions, ip) <==> counted_ip(extensions) == Some(ip),
        counted_ip(extensions) matches Some(ip) ==> counts_for(extensions, ip),
{
    if let Some(client) = attached_client_ip(extensions) {
        assert(client == GuardClientIp(client.0));
    }
}

/// A request counts exactly where it has a client address and no skip state.
pub proof fn only_the_attributed_without_a_skip_state_count(
    parts: &RequestParts,
    ip: Option<ClientIp>,
)
    requires
        call_ensures(attributed_and_counting, (parts,), ip),
    ensures
        forall|address: ClientIp|
            #[trigger] counts_for(parts.extensions, address) <==> ip == Some(address),
{
    lemma_counts_for(parts.extensions);
}

/// Whether the ban store, where it is asked at all, said so of an address.
pub open spec fn bans_say(layer: LayerView, ip: ClientIp, banned: bool) -> bool {
    layer.ban_state matches Some(ban) ==> (ban.config.enable_ip_banning ==> ban_checked(
        ban.manager,
        ip,
        banned,
    ))
}

/// Whether this is a decision of a limiter on an address, and goes by the
/// limiter's count.
pub open spec fn limiter_says(
    limiter: RateLimiter,
    ip: ClientIp,
    decision: RateLimitDecision,
) -> bool {
    &&& rate_checked(limiter, ip, decision)
    &&& decision.window == limiter_config(limiter).rate_limit_window
    &&& decision.allowed <==> !limiter_config(limiter).enable_rate_limiting || decision.count
        <= limiter_config(limiter).rate_limit
}

/// Whether an address was let through: the ban store said that it is not
/// banned, and the limiter that it is within the limit.
pub open spec fn let_through(layer: LayerView, ip: ClientIp) -> bool {
    &&& bans_say(layer, ip, false)
    &&& layer.rate_limiter matches Some(limiter) ==> exists|decision: RateLimitDecision|
        #[trigger] limiter_says(limiter, ip, decision) && decision.allowed
}

/// Whether an address was turned away as banned, which only a ban store that is
/// switched on can say.
pub open spec fn turned_away_banned(
    layer: LayerView,
    ip: ClientIp,
    response: GuardResponse,
) -> bool {
    &&& says_banned(response)
    &&& layer.ban_state matches Some(ban) && ban.config.enable_ip_banning && ban_checked(
        ban.manager,
        ip,
        true,
    )
}

/// Whether an address was turned away for its rate: the ban store said that it
/// is not banned, the limiter that it is over the limit, the response names
/// the window, and the crossing is registered where the limiter feeds the
/// auto-ban engine and there is a ban store.
pub open spec fn turned_away_limited(
    layer: LayerView,
    ip: ClientIp,
    response: GuardResponse,
) -> bool {
    &&& bans_say(layer, ip, false)
    &&& layer.rate_limiter matches Some(limiter) && {
        &&& exists|decision: RateLimitDecision|
            #[trigger] limiter_says(limiter, ip, decision) && !decision.allowed
        &&& says_wait(response, limiter_config(limiter).rate_limit_window)
        &&& (limiter_config(limiter).enable_rate_limit_auto_ban ==> (layer.ban_state matches Some(
            ban,
        ) ==> exists|issued: Option<ResolvedBan>| #[trigger]
            violations_registered(
                ban.manager,
                ban.counters,
                ip,
                seq!["rate_limit"@],
                ban.config,
                "rate_limit_exceeded"@,
                issued,
            )))
    }
}

/// What an outcome of the stateful stage says of the stores.
pub proof fn lemma_stage(layer: LayerView, ip: ClientIp, answer: Option<GuardResponse>)
    requires
        state_stage_outcome(layer, ip, answer_view(answer)),
    ensures
        match answer {
            None => let_through(layer, ip),
            Some(response) => turned_away_banned(layer, ip, response) || turned_away_limited(
                layer,
                ip,
                response,
            ),
        },
{
    let (banned, decision) = choose|banned: bool, decision: Option<RateLimitDecision>|
        {
            &&& ban_check_outcome(layer, ip, banned)
            &&& if banned {
                decision is None
            } else {
                rate_check_outcome(layer, ip, decision)
            }
            &&& (decision matches Some(taken) && !taken.allowed ==> crossing_counted(layer, ip))
            &&& answer_view(answer) == #[trigger] state_stage_response(banned, decision)
        };
    if let Some(taken) = decision {
        lemma_decimal(taken.window as nat);
        if let Some(limiter) = layer.rate_limiter {
            assert(limiter_says(limiter, ip, taken));
            if !taken.allowed && limiter_config(limiter).enable_rate_limit_auto_ban {
                if let Some(ban) = layer.ban_state {
                    let issued = choose|issued: Option<ResolvedBan>| #[trigger]
                        ban.registered(
                            ip,
                            seq!["rate_limit"@],
                            "rate_limit_exceeded"@,
                            issued,
                        );
                    assert(ban.registered(
                        ip,
                        seq!["rate_limit"@],
                        "rate_limit_exceeded"@,
                        issued,
                    ));
                    assert(violations_registered(
                        ban.manager,
                        ban.counters,
                        ip,
                        seq!["rate_limit"@],
                        ban.config,
                        "rate_limit_exceeded"@,
                        issued,
                    ));
                }
            }
        }
    }
}

/// The stateful stage does what the stores say, for every request that counts
/// and whatever else is installed; it lets every other request through.
pub proof fn stage_does_what_the_stores_say(
    parts: &RequestParts,
    layer: &GuardLayer,
    answer: Option<GuardResponse>,
    ip: ClientIp,
)
    requires
        call_ensures(enforce_state_stage, (parts, layer), answer),
    ensures
        counts_for(parts.extensions, ip) ==> match answer {
            None => let_through(layer@, ip),
            Some(response) => turned_away_banned(layer@, ip, response) || turned_away_limited(
                layer@,
                ip,
                response,
            ),
        },
        (forall|other: ClientIp| !#[trigger] counts_for(parts.extensions, other)) ==> answer
            is None,
{
    lemma_counts_for(parts.extensions);
    if counts_for(parts.extensions, ip) {
        lemma_stage(layer@, ip, answer);
    }
}

/// A loopback address is one of `127.0.0.0/8`, also written as an IPv6 address,
/// or `::1`, and no other.
pub proof fn loopback_is_the_loopback_space(ip: ClientIp)
    ensures
        is_loopback(ip) <==> match ip {
            ClientIp::V4(octets) => octets[0] == 127,
            ClientIp::V6(octets) => {
                ||| {
                    &&& forall|i: int| 0 <= i < 10 ==> octets[i] == 0
                    &&& octets[10] == 255
                    &&& octets[11] == 255
                    &&& octets[12] == 127
                }
                ||| {
                    &&& forall|i: int| 0 <= i < 15 ==> octets[i] == 0
                    &&& octets[15] == 1
                }
            },
        },
{
}

// ---- the detection block ----

/// Whether a threat of these categories is answered as documented: for a
/// request that counts, and with a ban store, the categories are registered
/// and the answer names the ban exactly where one was issued; any other
/// request gets the plain block.
pub open spec fn blocks(
    layer: LayerView,
    extensions: Extensions,
    categories: Seq<Seq<char>>,
    response: GuardResponse,
) -> bool {
    &&& forall|ip: ClientIp| #[trigger]
        counts_for(extensions, ip) ==> (layer.ban_state matches Some(ban) ==> {
            &&& exists|issued: Option<ResolvedBan>|
                {
                    &&& #[trigger] violations_registered(
                        ban.manager,
                        ban.counters,
                        ip,
                        categories,
                        ban.config,
                        "penetration_attempt"@,
                        issued,
                    )
                    &&& (issued is Some ==> says_banned_now(response))
                    &&& (issued is None ==> says_blocked(response))
                }
            &&& (!ban.config.enable_ip_banning || is_loopback(ip) ==> says_blocked(response))
        })
    &&& layer.ban_state is None ==> says_blocked(response)
    &&& (forall|ip: ClientIp| !#[trigger] counts_for(extensions, ip)) ==> says_blocked(response)
}

/// What an outcome of the detection block says of the ban store.
pub proof fn lemma_blocks(
    layer: LayerView,
    extensions: Extensions,
    categories: Seq<Seq<char>>,
    response: GuardResponse,
)
    requires
        detection_outcome(layer, extensions, categories, response@),
    ensures
        blocks(layer, extensions, categories, response),
{
    lemma_counts_for(extensions);
    assert forall|ip: ClientIp| #[trigger] counts_for(extensions, ip) implies (
    layer.ban_state matches Some(ban) ==> {
        &&& exists|issued: Option<ResolvedBan>|
            {
                &&& #[trigger] violations_registered(
                    ban.manager,
                    ban.counters,
                    ip,
                    categories,
                    ban.config,
                    "penetration_attempt"@,
                    issued,
                )
                &&& (issued is Some ==> says_banned_now(response))
                &&& (issued is None ==> says_blocked(response))
            }
        &&& (!ban.config.enable_ip_banning || is_loopback(ip) ==> says_blocked(response))
    }) by {
        if let Some(ban) = layer.ban_state {
            let issued = choose|issued: Option<ResolvedBan>|
                {
                    &&& #[trigger] ban.registered(ip, categories, "penetration_attempt"@, issued)
                    &&& response@ == detection_response(issued)
                };
            assert(ban.registered(ip, categories, "penetration_attempt"@, issued));
            assert(violations_registered(
                ban.manager,
                ban.counters,
                ip,
                categories,
                ban.config,
                "penetration_attempt"@,
                issued,
            ));
        }
    }
}

/// Every threat of a request that counts is registered with the ban store,
/// whatever else is installed, and the answer follows from what that came to;
/// any other threat gets the plain block.
pub proof fn every_counted_threat_is_registered(
    parts: &RequestParts,
    layer: &GuardLayer,
    categories: &[String],
    response: GuardResponse,
)
    requires
        call_ensures(detect_block, (parts, layer, categories), response),
    ensures
        blocks(layer@, parts.extensions, categories.deep_view(), response),
{
    lemma_blocks(layer@, parts.extensions, categories.deep_view(), response);
}

// ---- taking in a request ----

/// Taking in a request asks the IP gate wherever one is installed and the
/// request has a client address, whatever else is installed: an address that
/// its lists do not admit is answered with the `403`, and any other request
/// gets the skip state attached.
pub proof fn start_asks_the_gate(
    parts: &mut RequestParts,
    layer: &GuardLayer,
    state: CallState,
    gate: IpGateConfig,
    client: GuardClientIp,
)
    requires
        call_ensures(start, (parts, layer), state),
        layer@.ip_gate == Some(gate),
        attached_client_ip(old(parts).extensions) == Some(client),
    ensures
        !lists_admit(gate, client.0) ==> (state matches CallState::Answering(response)
            && says_forbidden(response)) && final(parts).extensions == old(parts).extensions,
        lists_admit(gate, client.0) ==> (attached_decision(final(parts).extensions) matches Some(
            decision,
        ) && notes_skip_state(gate, client.0, decision)),
{
    gate_goes_by_its_lists(gate, client.0);
}

/// Taking in a request keeps its target, its headers, its client address and
/// the values of other types; where the IP gate does not run, it keeps
/// everything.
pub proof fn start_keeps_the_request(
    parts: &mut RequestParts,
    layer: &GuardLayer,
    state: CallState,
)
    requires
        call_ensures(start, (parts, layer), state),
    ensures
        final(parts).uri == old(parts).uri,
        final(parts).headers == old(parts).headers,
        attached_client_ip(final(parts).extensions) == attached_client_ip(old(parts).extensions),
        other_extensions(final(parts).extensions) == other_extensions(old(parts).extensions),
        layer@.ip_gate is None ==> final(parts).extensions == old(parts).extensions,
        attached_client_ip(old(parts).extensions) is None ==> final(parts).extensions
            == old(parts).extensions,
{
}

/// A request that is admitted starts to be read into an empty buffer, under the
/// very cap of the layer.
pub proof fn admitted_request_is_read_under_the_cap(
    parts: &mut RequestParts,
    layer: &GuardLayer,
    state: CallState,
)
    requires
        call_ensures(start, (parts, layer), state),
    ensures
        state matches CallState::Reading(buffer) ==> buffer@.cap == layer@.body_cap
            && buffer@.content.len() == 0,
        state is Reading || state is Answering,
{
}

/// A request that the IP gate does not deny is let through to its body or
/// turned away as the stores say where it counts, and is let through to its
/// body where it does not.
pub proof fn start_does_what_the_stores_say(
    parts: &mut RequestParts,
    layer: &GuardLayer,
    state: CallState,
    ip: ClientIp,
)
    requires
        call_ensures(start, (parts, layer), state),
        layer@.ip_gate matches Some(gate) ==> (attached_client_ip(
            old(parts).extensions,
        ) matches Some(client) ==> lists_admit(gate, client.0)),
    ensures
        counts_for(final(parts).extensions, ip) ==> match state {
            CallState::Reading(_) => let_through(layer@, ip),
            CallState::Answering(response) => turned_away_banned(layer@, ip, response)
                || turned_away_limited(layer@, ip, response),
            _ => false,
        },
        (forall|other: ClientIp| !#[trigger] counts_for(final(parts).extensions, other)) ==> state
            is Reading,
{
    if let Some(gate) = layer@.ip_gate {
        if let Some(client) = attached_client_ip(old(parts).extensions) {
            gate_goes_by_its_lists(gate, client.0);
        }
    }
    lemma_counts_for(final(parts).extensions);
    if counts_for(final(parts).extensions, ip) {
        let answer = choose|answer: Option<ResponseView>|
            {
                &&& #[trigger] state_stage_outcome(layer@, ip, answer)
                &&& state@ == admitted(layer@, answer)
            };
        match state {
            CallState::Answering(response) => {
                assert(answer_view(Some(response)) == answer);
                lemma_stage(layer@, ip, Some(response));
            },
            _ => {
                assert(answer_view(None) == answer);
                lemma_stage(layer@, ip, None);
            },
        }
    }
}

} // verus!

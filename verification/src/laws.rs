//! What holds of the guard as a whole.
//!
//! The laws in this file are stated over the spec functions that the contracts
//! of the executable functions use. Those in the files below it are stated of
//! the executable functions themselves, in terms of what they take and return:
//! [`checks`] for what comes before the scan and answers a threat, [`steps`] for
//! the steps of a call, [`scanning`] for the scan, [`settings`] for the layer,
//! [`answers`] for the responses, [`strings`] for texts.
use vstd::prelude::*;

pub mod answers;
pub mod checks;
pub mod scanning;
pub mod settings;
pub mod steps;
pub mod strings;

use crate::call::{
    buffer_step, first_read, gated_extensions, read_follows, scan_follows, start_outcome,
    BufferFailure, BufferStepView, BufferView, CallView, FrameView,
};
use crate::engine::{
    gate_blacklist, gate_rule, gate_verdict, gate_whitelist, is_loopback, limiter_config,
    EngineReport, Probe,
};
use crate::layer::{GuardLayer, LayerView};
use crate::request::{ClientIp, RequestParts};
use crate::response::{
    activity_banned_response, banned_response, blocked_response, failure_response,
    forbidden_response, oversize_response, rate_limited_response, ResponseView,
};
use crate::scan::{
    after_values, after_verdict, body_view, header_probe, header_probes, initial_state,
    is_excluded_name, next_step, path_probes, query_probes, report_categories, BodyTextView,
    ScanResult, ScanState, StepView,
};
use crate::stages::{
    counted_ip, detection_outcome, request_verdict, skips_state_stage, state_stage_outcome,
    state_stage_response,
};
use crate::stores::{ban_check_outcome, rate_check_outcome};
use crate::text::{is_blank_text, lossy_text, visible_text};
use crate::transport::{attached_client_ip, header_entries, uri_path, uri_query};
use guard_core_engine::detect::DetectConfig;
use guard_core_engine::ip_ban::ResolvedBan;
use guard_core_engine::ip_gate::{IpGateConfig, IpGateDecision, IpGateVerdict};
use guard_core_engine::rate_limit::RateLimitDecision;
use http::Extensions;

verus! {

// ---- the IP gate ----

/// An exemption never opens a restrictive whitelist: an address outside it is
/// denied, exempt or not.
pub proof fn exemption_never_opens_a_whitelist(gate: IpGateConfig, ip: ClientIp)
    requires
        gate_whitelist(gate) != Set::<ClientIp>::empty(),
        !gate_whitelist(gate).contains(ip),
    ensures
        gate_verdict(gate, ip) is Denied,
{
}

/// An exemption never lifts the blacklist: without a whitelist, an address on
/// the blacklist is denied, exempt or not.
pub proof fn exemption_never_lifts_the_blacklist(gate: IpGateConfig, ip: ClientIp)
    requires
        gate_whitelist(gate) == Set::<ClientIp>::empty(),
        gate_blacklist(gate).contains(ip),
    ensures
        gate_verdict(gate, ip) is Denied,
{
}

/// The exemptions decide nobody's admission: whatever they are, the same
/// addresses are denied, for the same reason.
pub proof fn exemptions_add_no_deny_path(
    whitelist: Set<ClientIp>,
    blacklist: Set<ClientIp>,
    exempt: Set<ClientIp>,
    others: Set<ClientIp>,
    ip: ClientIp,
)
    ensures
        gate_rule(whitelist, blacklist, exempt, ip) is Denied
            <==> gate_rule(whitelist, blacklist, others, ip) is Denied,
        gate_rule(whitelist, blacklist, exempt, ip) is Denied ==> gate_rule(
            whitelist,
            blacklist,
            exempt,
            ip,
        ) == gate_rule(whitelist, blacklist, others, ip),
{
}

/// A request that the IP gate denies is answered with `403 Forbidden`, whatever
/// the other settings; its body is not read.
pub proof fn denied_request_is_forbidden(
    layer: LayerView,
    before: Extensions,
    after: Extensions,
    state: CallView,
)
    requires
        start_outcome(layer, before, after, state),
        request_verdict(layer, before) matches Some(IpGateVerdict::Denied(_)),
    ensures
        state == CallView::Answering(forbidden_response()),
{
}

/// A request without a client address passes the IP gate and the stateful
/// stage, whatever the settings, and its extensions stay as they are. Its body
/// is read next.
pub proof fn unattributed_request_is_only_scanned(
    layer: LayerView,
    before: Extensions,
    after: Extensions,
    state: CallView,
)
    requires
        start_outcome(layer, before, after, state),
        gated_extensions(layer, before, after),
        attached_client_ip(before) is None,
    ensures
        after == before,
        state == first_read(layer),
{
}

/// A whitelisted or exempt address that passes the IP gate is never answered as
/// banned or rate limited: its body is read next, it is not held responsible
/// for what it sends, and a threat from it gets the plain block.
pub proof fn friendly_request_is_only_scanned(
    layer: LayerView,
    before: Extensions,
    after: Extensions,
    decision: IpGateDecision,
    state: CallView,
)
    requires
        start_outcome(layer, before, after, state),
        gated_extensions(layer, before, after),
        request_verdict(layer, before) == Some(IpGateVerdict::Allowed(decision)),
        skips_state_stage(decision),
    ensures
        state == first_read(layer),
        counted_ip(after) is None,
        forall|categories: Seq<Seq<char>>, response: ResponseView|
            detection_outcome(layer, after, categories, response) ==> response
                == blocked_response(),
{
}

/// An address that passes the IP gate without a skip state is held responsible
/// for what it sends.
pub proof fn other_attributed_request_counts(
    layer: LayerView,
    before: Extensions,
    after: Extensions,
    decision: IpGateDecision,
)
    requires
        gated_extensions(layer, before, after),
        request_verdict(layer, before) == Some(IpGateVerdict::Allowed(decision)),
        !skips_state_stage(decision),
    ensures
        counted_ip(after) is Some,
        attached_client_ip(before) matches Some(client) && counted_ip(after) == Some(client.0),
{
}

// ---- bans and rate limits ----

/// A ban precedes rate limiting: a banned address is answered with the ban,
/// whatever the limiter would say.
pub proof fn ban_precedes_rate_limit(decision: Option<RateLimitDecision>)
    ensures
        state_stage_response(true, decision) == Some(banned_response()),
{
}

/// A rate limit is only ever enforced by a limiter that is switched on, and
/// `Retry-After` is its window.
pub proof fn rate_limit_needs_an_enabled_limiter(
    layer: LayerView,
    ip: ClientIp,
    response: ResponseView,
)
    requires
        state_stage_outcome(layer, ip, Some(response)),
        response.status == 429,
    ensures
        layer.rate_limiter matches Some(limiter) && {
            &&& limiter_config(limiter).enable_rate_limiting
            &&& response == rate_limited_response(limiter_config(limiter).rate_limit_window)
        },
{
}

/// Every crossing feeds the auto-ban engine, where that is asked for: a request
/// that is answered with `429` has been registered as one `rate_limit`
/// violation of its address.
pub proof fn crossing_is_counted_toward_a_ban(
    layer: LayerView,
    ip: ClientIp,
    response: ResponseView,
)
    requires
        state_stage_outcome(layer, ip, Some(response)),
        response.status == 429,
        layer.rate_limiter matches Some(limiter)
            && limiter_config(limiter).enable_rate_limit_auto_ban,
    ensures
        layer.ban_state matches Some(ban) ==> exists|issued: Option<ResolvedBan>| #[trigger]
            ban.registered(ip, seq!["rate_limit"@], "rate_limit_exceeded"@, issued),
{
}

/// With banning switched off, or without a ban store, nobody is turned away as
/// banned: neither by the stateful stage nor by the block that answers a
/// threat.
pub proof fn banning_switched_off_never_bans(
    layer: LayerView,
    ip: ClientIp,
    answer: Option<ResponseView>,
    extensions: Extensions,
    categories: Seq<Seq<char>>,
    response: ResponseView,
)
    requires
        layer.ban_state matches Some(ban) ==> !ban.config.enable_ip_banning,
        state_stage_outcome(layer, ip, answer),
        detection_outcome(layer, extensions, categories, response),
    ensures
        answer matches Some(given) ==> given.status == 429,
        response == blocked_response(),
{
}

/// A threat from a loopback address never gets it banned.
pub proof fn loopback_is_never_banned_for_a_threat(
    layer: LayerView,
    extensions: Extensions,
    categories: Seq<Seq<char>>,
    response: ResponseView,
)
    requires
        detection_outcome(layer, extensions, categories, response),
        counted_ip(extensions) matches Some(ip) && is_loopback(ip),
    ensures
        response == blocked_response(),
{
}

/// Without a limiter and without a ban store the stateful stage lets everyone
/// through.
pub proof fn bare_layer_has_no_state_stage(
    layer: LayerView,
    ip: ClientIp,
    answer: Option<ResponseView>,
)
    requires
        layer.rate_limiter is None,
        layer.ban_state is None,
        state_stage_outcome(layer, ip, answer),
    ensures
        answer is None,
{
}

/// A clone asks the very limiter and the very ban store of its layer: what
/// either of them may say to the one it may say to the other, and both answer
/// it alike. A count over the limit, through whichever of the two the earlier
/// requests came, is answered with `429`.
pub proof fn clone_shares_the_stores(
    layer: GuardLayer,
    copy: GuardLayer,
    ip: ClientIp,
    banned: bool,
    decision: RateLimitDecision,
)
    requires
        call_ensures(GuardLayer::clone, (&layer,), copy),
    ensures
        copy@.rate_limiter == layer@.rate_limiter,
        copy@.ban_state == layer@.ban_state,
        ban_check_outcome(copy@, ip, banned) <==> ban_check_outcome(layer@, ip, banned),
        rate_check_outcome(copy@, ip, Some(decision)) <==> rate_check_outcome(
            layer@,
            ip,
            Some(decision),
        ),
        forall|answer: Option<ResponseView>|
            state_stage_outcome(copy@, ip, answer) <==> state_stage_outcome(layer@, ip, answer),
        layer@.rate_limiter matches Some(limiter) ==> (rate_check_outcome(
            layer@,
            ip,
            Some(decision),
        ) && limiter_config(limiter).enable_rate_limiting && decision.count > limiter_config(
            limiter,
        ).rate_limit ==> state_stage_response(false, Some(decision)) == Some(
            rate_limited_response(limiter_config(limiter).rate_limit_window),
        )),
{
}

// ---- the body ----

/// Whether reading goes on after each of these frames: data, or something to
/// be discarded.
pub open spec fn is_body(frames: Seq<FrameView>) -> bool {
    forall|i: int|
        0 <= i < frames.len() ==> ((#[trigger] frames[i]) is Data || frames[i] is Other)
}

/// The data of a list of frames, put together.
pub open spec fn data_of(frames: Seq<FrameView>) -> Seq<u8>
    decreases frames.len(),
{
    if frames.len() == 0 {
        Seq::empty()
    } else {
        match frames[0] {
            FrameView::Data(data) => data + data_of(frames.drop_first()),
            _ => data_of(frames.drop_first()),
        }
    }
}

/// The data of a list of frames, where there is any.
pub open spec fn body_of(frames: Seq<FrameView>) -> Option<Seq<u8>> {
    if data_of(frames).len() == 0 {
        None
    } else {
        Some(data_of(frames))
    }
}

/// What frames lead to, one after the other. Only a buffer that wants more
/// takes them.
pub open spec fn after_frames(step: BufferStepView, frames: Seq<FrameView>) -> BufferStepView
    decreases frames.len(),
{
    match step {
        BufferStepView::More(buffer) if frames.len() > 0 => after_frames(
            buffer_step(buffer, frames[0]),
            frames.drop_first(),
        ),
        _ => step,
    }
}

/// Frames taken in two goes.
proof fn lemma_after_frames_concat(step: BufferStepView, a: Seq<FrameView>, b: Seq<FrameView>)
    ensures
        after_frames(step, a + b) == after_frames(after_frames(step, a), b),
    decreases a.len(),
{
    if a.len() == 0 {
        assert(a + b =~= b);
    } else if let BufferStepView::More(buffer) = step {
        assert((a + b)[0] == a[0]);
        assert((a + b).drop_first() =~= a.drop_first() + b);
        lemma_after_frames_concat(buffer_step(buffer, a[0]), a.drop_first(), b);
    }
}

/// Once a body is refused, no frame is taken.
proof fn lemma_refusal_is_final(failure: BufferFailure, frames: Seq<FrameView>)
    ensures
        after_frames(BufferStepView::Refused(failure), frames) == BufferStepView::Refused(failure),
{
}

/// What a body does to a buffer.
proof fn lemma_after_body(buffer: BufferView, frames: Seq<FrameView>)
    requires
        is_body(frames),
        buffer.content.len() <= buffer.cap,
    ensures
        after_frames(BufferStepView::More(buffer), frames) == if buffer.content.len() + data_of(
            frames,
        ).len() <= buffer.cap {
            BufferStepView::More(
                BufferView { content: buffer.content + data_of(frames), cap: buffer.cap },
            )
        } else {
            BufferStepView::Refused(BufferFailure::TooLarge)
        },
    decreases frames.len(),
{
    if frames.len() == 0 {
        assert(buffer.content + data_of(frames) =~= buffer.content);
    } else {
        let rest = frames.drop_first();
        assert(is_body(rest)) by {
            assert forall|i: int| 0 <= i < rest.len() implies ((#[trigger] rest[i]) is Data
                || rest[i] is Other) by {
                assert(rest[i] == frames[i + 1]);
            }
        }
        match frames[0] {
            FrameView::Data(data) => {
                if buffer.content.len() + data.len() <= buffer.cap {
                    let next = BufferView { content: buffer.content + data, cap: buffer.cap };
                    lemma_after_body(next, rest);
                    assert(next.content + data_of(rest) =~= buffer.content + data_of(frames));
                } else {
                    lemma_refusal_is_final(BufferFailure::TooLarge, rest);
                }
            },
            _ => {
                lemma_after_body(buffer, rest);
            },
        }
    }
}

/// The buffer that a layer starts with.
pub open spec fn first_buffer(layer: LayerView) -> BufferStepView {
    BufferStepView::More(BufferView { content: Seq::empty(), cap: layer.body_cap })
}

/// A body within the cap is scanned as it came: the data of its frames put
/// together, and nothing where there is none.
pub proof fn body_within_the_cap_is_kept(layer: LayerView, frames: Seq<FrameView>)
    requires
        is_body(frames),
        data_of(frames).len() <= layer.body_cap,
    ensures
        after_frames(first_buffer(layer), frames.push(FrameView::End)) == BufferStepView::Done(
            body_of(frames),
        ),
{
    let buffer = BufferView { content: Seq::empty(), cap: layer.body_cap };
    lemma_after_body(buffer, frames);
    assert(buffer.content + data_of(frames) =~= data_of(frames));
    let end = seq![FrameView::End];
    assert(frames.push(FrameView::End) =~= frames + end);
    lemma_after_frames_concat(first_buffer(layer), frames, end);
    assert(end.drop_first().len() == 0);
    assert(after_frames(BufferStepView::Done(body_of(frames)), end.drop_first())
        == BufferStepView::Done(body_of(frames)));
}

/// A body over the cap is answered with `413`, whatever would follow.
pub proof fn body_over_the_cap_is_refused(
    layer: LayerView,
    parts: RequestParts,
    frames: Seq<FrameView>,
    rest: Seq<FrameView>,
    state: CallView,
)
    requires
        is_body(frames),
        data_of(frames).len() > layer.body_cap,
        read_follows(layer, parts, after_frames(first_buffer(layer), frames + rest), state),
    ensures
        state == CallView::Answering(oversize_response()),
{
    lemma_after_body(BufferView { content: Seq::empty(), cap: layer.body_cap }, frames);
    lemma_after_frames_concat(first_buffer(layer), frames, rest);
    lemma_refusal_is_final(BufferFailure::TooLarge, rest);
}

/// A cap of zero refuses every body that is not empty.
pub proof fn zero_cap_refuses_every_body(
    layer: LayerView,
    parts: RequestParts,
    frames: Seq<FrameView>,
    rest: Seq<FrameView>,
    state: CallView,
)
    requires
        layer.body_cap == 0,
        is_body(frames),
        data_of(frames).len() > 0,
        read_follows(layer, parts, after_frames(first_buffer(layer), frames + rest), state),
    ensures
        state == CallView::Answering(oversize_response()),
{
    body_over_the_cap_is_refused(layer, parts, frames, rest, state);
}

/// A body that cannot be read is answered with `500`, whatever was read of it.
pub proof fn broken_body_is_refused(
    layer: LayerView,
    parts: RequestParts,
    frames: Seq<FrameView>,
    rest: Seq<FrameView>,
    state: CallView,
)
    requires
        is_body(frames),
        data_of(frames).len() <= layer.body_cap,
        read_follows(
            layer,
            parts,
            after_frames(first_buffer(layer), frames.push(FrameView::Failed) + rest),
            state,
        ),
    ensures
        state == CallView::Answering(failure_response()),
{
    lemma_after_body(BufferView { content: Seq::empty(), cap: layer.body_cap }, frames);
    let tail = seq![FrameView::Failed] + rest;
    assert(frames.push(FrameView::Failed) + rest =~= frames + tail);
    lemma_after_frames_concat(first_buffer(layer), frames, tail);
    assert(tail[0] == FrameView::Failed);
    lemma_refusal_is_final(BufferFailure::Read, tail.drop_first());
}

// ---- the scan ----

/// An engine whose answers rest on what it is asked alone: what it reports of
/// a content in a context, and what it takes out of a text of some content
/// type. `None` stands for a panic.
pub struct EngineModel {
    pub detect: spec_fn(Seq<char>, Seq<char>, DetectConfig) -> Option<EngineReport>,
    pub extract: spec_fn(Seq<char>, Seq<char>, DetectConfig) -> Option<Seq<Probe>>,
}

/// What one view comes to.
pub open spec fn probe_result(
    probe: Probe,
    config: DetectConfig,
    engine: EngineModel,
) -> ScanResult {
    match probe.forced {
        Some(category) => ScanResult::Threat(seq![category]),
        None => match (engine.detect)(probe.content, probe.context, config) {
            None => ScanResult::Failed,
            Some(report) => match report_categories(report) {
                Some(categories) => ScanResult::Threat(categories),
                None => ScanResult::Clean,
            },
        },
    }
}

/// What a list of views comes to: the first that is not clean decides.
pub open spec fn first_result(
    probes: Seq<Probe>,
    config: DetectConfig,
    engine: EngineModel,
) -> ScanResult
    decreases probes.len(),
{
    if probes.len() == 0 {
        ScanResult::Clean
    } else {
        match probe_result(probes[0], config, engine) {
            ScanResult::Clean => first_result(probes.drop_first(), config, engine),
            result => result,
        }
    }
}

/// What a body comes to: that of the values the engine takes out of it.
pub open spec fn body_result(
    body: Option<BodyTextView>,
    config: DetectConfig,
    engine: EngineModel,
) -> ScanResult {
    match body {
        None => ScanResult::Clean,
        Some(body) => match (engine.extract)(body.text, body.content_type, config) {
            None => ScanResult::Failed,
            Some(probes) => first_result(probes, config, engine),
        },
    }
}

/// What is left of a scan comes to: that of its views, or that of its body
/// where the views are clean.
pub open spec fn state_result(state: ScanState, engine: EngineModel) -> ScanResult {
    match first_result(state.probes, state.config, engine) {
        ScanResult::Clean => body_result(state.body, state.config, engine),
        result => result,
    }
}

/// What a request comes to.
pub open spec fn scan_result(
    parts: RequestParts,
    body: Option<Seq<u8>>,
    config: DetectConfig,
    engine: EngineModel,
) -> ScanResult {
    state_result(initial_state(parts, body, config), engine)
}

/// How far a step is from the end of the scan, by what is still to be taken
/// apart.
pub open spec fn rank(step: StepView) -> nat {
    match step {
        StepView::Done(_) => 0,
        StepView::Detect(state) | StepView::Extract(state) => if state.body is None {
            1
        } else {
            2
        },
    }
}

/// How many views a step has left.
pub open spec fn views_left(step: StepView) -> nat {
    match step {
        StepView::Done(_) => 0,
        StepView::Detect(state) | StepView::Extract(state) => state.probes.len(),
    }
}

/// What a scan comes to when every question is answered by the engine.
pub open spec fn run_scan(step: StepView, engine: EngineModel) -> ScanResult
    decreases rank(step), views_left(step),
{
    match step {
        StepView::Done(result) => result,
        StepView::Detect(state) => if state.probes.len() == 0 {
            ScanResult::Clean
        } else {
            run_scan(
                after_verdict(
                    state,
                    (engine.detect)(state.probes[0].content, state.probes[0].context, state.config),
                ),
                engine,
            )
        },
        StepView::Extract(state) => match state.body {
            None => ScanResult::Clean,
            Some(body) => run_scan(
                after_values(state, (engine.extract)(body.text, body.content_type, state.config)),
                engine,
            ),
        },
    }
}

proof fn lemma_run_scan(state: ScanState, engine: EngineModel)
    ensures
        run_scan(next_step(state), engine) == state_result(state, engine),
    decreases rank(StepView::Detect(state)), state.probes.len(),
{
    if state.probes.len() > 0 {
        let probe = state.probes[0];
        if probe.forced is None {
            let report = (engine.detect)(probe.content, probe.context, state.config);
            if report is Some && report_categories(report->0) is None {
                let rest = ScanState { probes: state.probes.drop_first(), ..state };
                lemma_run_scan(rest, engine);
            } else {
                assert(run_scan(after_verdict(state, report), engine) == probe_result(
                    probe,
                    state.config,
                    engine,
                ));
            }
        }
    } else if let Some(body) = state.body {
        match (engine.extract)(body.text, body.content_type, state.config) {
            None => {
                assert(run_scan(StepView::Done(ScanResult::Failed), engine) == ScanResult::Failed);
            },
            Some(probes) => {
                lemma_run_scan(ScanState { probes, body: None, ..state }, engine);
            },
        }
    }
}

/// Asking the engine what the machine asks, until it is done, brings what the
/// request comes to.
pub proof fn machine_scans_the_request(
    parts: RequestParts,
    body: Option<Seq<u8>>,
    config: DetectConfig,
    engine: EngineModel,
)
    ensures
        run_scan(next_step(initial_state(parts, body, config)), engine) == scan_result(
            parts,
            body,
            config,
            engine,
        ),
{
    lemma_run_scan(initial_state(parts, body, config), engine);
}

/// Whether the view at `i` is the first that is not clean.
pub open spec fn decides(
    probes: Seq<Probe>,
    config: DetectConfig,
    engine: EngineModel,
    i: int,
) -> bool {
    &&& 0 <= i < probes.len()
    &&& probe_result(probes[i], config, engine) != ScanResult::Clean
    &&& forall|j: int|
        0 <= j < i ==> probe_result(#[trigger] probes[j], config, engine) == ScanResult::Clean
}

/// The first view that is not clean decides: views come to something other
/// than clean exactly where one of them does and all before it are clean.
pub proof fn first_flagged_view_wins(
    probes: Seq<Probe>,
    config: DetectConfig,
    engine: EngineModel,
    result: ScanResult,
)
    requires
        result != ScanResult::Clean,
    ensures
        first_result(probes, config, engine) == result <==> exists|i: int|
            #[trigger] decides(probes, config, engine, i) && probe_result(
                probes[i],
                config,
                engine,
            ) == result,
    decreases probes.len(),
{
    if probes.len() > 0 {
        let rest = probes.drop_first();
        if probe_result(probes[0], config, engine) == ScanResult::Clean {
            first_flagged_view_wins(rest, config, engine, result);
            assert forall|i: int| decides(rest, config, engine, i) implies #[trigger] decides(
                probes,
                config,
                engine,
                i + 1,
            ) by {
                assert forall|j: int| 0 <= j < i + 1 implies probe_result(
                    #[trigger] probes[j],
                    config,
                    engine,
                ) == ScanResult::Clean by {
                    if j > 0 {
                        assert(rest[j - 1] == probes[j]);
                    }
                }
            }
            if first_result(probes, config, engine) == result {
                let i = choose|i: int|
                    #[trigger] decides(rest, config, engine, i) && probe_result(
                        rest[i],
                        config,
                        engine,
                    ) == result;
                assert(decides(probes, config, engine, i + 1));
            }
            assert forall|i: int| #[trigger] decides(probes, config, engine, i) implies decides(
                rest,
                config,
                engine,
                i - 1,
            ) by {
                assert forall|j: int| 0 <= j < i - 1 implies probe_result(
                    #[trigger] rest[j],
                    config,
                    engine,
                ) == ScanResult::Clean by {
                    assert(rest[j] == probes[j + 1]);
                }
            }
        } else {
            assert(decides(probes, config, engine, 0));
            assert forall|i: int| #[trigger] decides(probes, config, engine, i) implies i == 0 by {
                if i > 0 {
                    assert(probe_result(probes[0], config, engine) == ScanResult::Clean);
                }
            }
        }
    } else {
        assert forall|i: int| !(#[trigger] decides(probes, config, engine, i)) by {}
    }
}

/// Views are clean exactly where every one of them is.
pub proof fn clean_means_every_view_is_clean(
    probes: Seq<Probe>,
    config: DetectConfig,
    engine: EngineModel,
)
    ensures
        first_result(probes, config, engine) == ScanResult::Clean <==> forall|i: int|
            0 <= i < probes.len() ==> probe_result(#[trigger] probes[i], config, engine)
                == ScanResult::Clean,
    decreases probes.len(),
{
    if probes.len() > 0 {
        let rest = probes.drop_first();
        clean_means_every_view_is_clean(rest, config, engine);
        if first_result(probes, config, engine) == ScanResult::Clean {
            assert forall|i: int| 0 <= i < probes.len() implies probe_result(
                #[trigger] probes[i],
                config,
                engine,
            ) == ScanResult::Clean by {
                if i > 0 {
                    assert(rest[i - 1] == probes[i]);
                }
            }
        } else if probe_result(probes[0], config, engine) == ScanResult::Clean {
            let i = choose|i: int|
                0 <= i < rest.len() && probe_result(#[trigger] rest[i], config, engine)
                    != ScanResult::Clean;
            assert(probes[i + 1] == rest[i]);
        }
    }
}

/// Whether the engine panics on a view that is asked about, with all views
/// before it clean.
pub open spec fn panics_on_a_view(
    probes: Seq<Probe>,
    config: DetectConfig,
    engine: EngineModel,
) -> bool {
    exists|i: int|
        {
            &&& #[trigger] decides(probes, config, engine, i)
            &&& probes[i].forced is None
            &&& (engine.detect)(probes[i].content, probes[i].context, config) is None
        }
}

proof fn lemma_fails_where_it_panics(
    probes: Seq<Probe>,
    config: DetectConfig,
    engine: EngineModel,
)
    ensures
        first_result(probes, config, engine) == ScanResult::Failed <==> panics_on_a_view(
            probes,
            config,
            engine,
        ),
{
    first_flagged_view_wins(probes, config, engine, ScanResult::Failed);
}

/// A scan fails exactly where an engine call that it makes panics: on a view of
/// the request, in the extraction, or on an extracted value, with everything
/// before it clean.
pub proof fn scan_fails_exactly_where_the_engine_panics(
    parts: RequestParts,
    body: Option<Seq<u8>>,
    config: DetectConfig,
    engine: EngineModel,
)
    ensures
        scan_result(parts, body, config, engine) == ScanResult::Failed <==> {
            let state = initial_state(parts, body, config);
            ||| panics_on_a_view(state.probes, config, engine)
            ||| {
                &&& first_result(state.probes, config, engine) == ScanResult::Clean
                &&& state.body matches Some(text)
                &&& match (engine.extract)(text.text, text.content_type, config) {
                    None => true,
                    Some(probes) => panics_on_a_view(probes, config, engine),
                }
            }
        },
{
    let state = initial_state(parts, body, config);
    lemma_fails_where_it_panics(state.probes, config, engine);
    if let Some(text) = state.body {
        if let Some(probes) = (engine.extract)(text.text, text.content_type, config) {
            lemma_fails_where_it_panics(probes, config, engine);
        }
    }
}

/// A panic of the engine ends the scan as failed, and the request is answered
/// with `500`.
pub proof fn engine_panic_is_answered_with_500(
    layer: LayerView,
    extensions: Extensions,
    body: Option<Seq<u8>>,
    scan: ScanState,
    state: CallView,
)
    requires
        scan_follows(layer, extensions, body, after_verdict(scan, None), state) || scan_follows(
            layer,
            extensions,
            body,
            after_values(scan, None),
            state,
        ),
    ensures
        state == CallView::Answering(failure_response()),
{
}

/// The views are scanned in order: the path, then the query, then the headers,
/// then the body; a later view counts only where the earlier ones are clean.
pub proof fn views_are_scanned_in_order(
    parts: RequestParts,
    body: Option<Seq<u8>>,
    config: DetectConfig,
    engine: EngineModel,
)
    ensures
        scan_result(parts, body, config, engine) == match first_result(
            path_probes(uri_path(parts.uri)),
            config,
            engine,
        ) {
            ScanResult::Clean => match first_result(
                query_probes(uri_query(parts.uri)),
                config,
                engine,
            ) {
                ScanResult::Clean => match first_result(
                    header_probes(header_entries(parts.headers)),
                    config,
                    engine,
                ) {
                    ScanResult::Clean => body_result(
                        body_view(body, header_entries(parts.headers)),
                        config,
                        engine,
                    ),
                    result => result,
                },
                result => result,
            },
            result => result,
        },
{
    let a = path_probes(uri_path(parts.uri));
    let b = query_probes(uri_query(parts.uri));
    let c = header_probes(header_entries(parts.headers));
    lemma_first_result_concat(a + b, c, config, engine);
    lemma_first_result_concat(a, b, config, engine);
}

/// Scanning one list of views after another is scanning the two in one.
proof fn lemma_first_result_concat(
    a: Seq<Probe>,
    b: Seq<Probe>,
    config: DetectConfig,
    engine: EngineModel,
)
    ensures
        first_result(a + b, config, engine) == match first_result(a, config, engine) {
            ScanResult::Clean => first_result(b, config, engine),
            result => result,
        },
    decreases a.len(),
{
    if a.len() == 0 {
        assert(a + b =~= b);
    } else {
        assert((a + b).drop_first() =~= a.drop_first() + b);
        lemma_first_result_concat(a.drop_first(), b, config, engine);
    }
}

/// A request for the root without a query, headers or a body has nothing to
/// scan: the engine is not asked, and the request is clean.
pub proof fn nothing_to_scan_is_clean(parts: RequestParts, config: DetectConfig)
    requires
        uri_path(parts.uri) == "/"@,
        uri_query(parts.uri) is None,
        header_entries(parts.headers).len() == 0,
    ensures
        next_step(initial_state(parts, None, config)) == StepView::Done(ScanResult::Clean),
{
}

/// Detection is never skipped for a client: what the engine is asked about a
/// request rests on its target, its headers, its body and the detection knobs
/// alone. Neither the client address nor a skip state plays a part.
pub proof fn detection_ignores_the_client(
    parts: RequestParts,
    other: RequestParts,
    body: Option<Seq<u8>>,
    config: DetectConfig,
)
    requires
        parts.uri == other.uri,
        parts.headers == other.headers,
    ensures
        initial_state(parts, body, config) == initial_state(other, body, config),
{
}

/// A header with an excluded name, or with a value that is not text, is never
/// scanned: the probes are those of the headers around it.
pub proof fn unscanned_header_is_passed_over(
    front: Seq<(Seq<char>, Seq<u8>)>,
    entry: (Seq<char>, Seq<u8>),
    back: Seq<(Seq<char>, Seq<u8>)>,
)
    requires
        is_excluded_name(entry.0) || visible_text(entry.1) is None,
    ensures
        header_probes(front.push(entry) + back) == header_probes(front + back),
    decreases back.len(),
{
    if back.len() == 0 {
        assert(front.push(entry) + back =~= front.push(entry));
        assert(front + back =~= front);
        assert(front.push(entry).drop_last() =~= front);
        assert(header_probes(front) + header_probe(entry) =~= header_probes(front));
    } else {
        assert((front.push(entry) + back).drop_last() =~= front.push(entry) + back.drop_last());
        assert((front + back).drop_last() =~= front + back.drop_last());
        unscanned_header_is_passed_over(front, entry, back.drop_last());
    }
}

/// A blank body is not scanned: the request is scanned as one without a body.
pub proof fn blank_body_is_not_scanned(parts: RequestParts, bytes: Seq<u8>, config: DetectConfig)
    requires
        is_blank_text(lossy_text(bytes)),
    ensures
        initial_state(parts, Some(bytes), config) == initial_state(parts, None, config),
{
}

// ---- a whole call ----

/// Whether a response is one of those that the guard documents.
pub open spec fn is_documented(response: ResponseView) -> bool {
    ||| response == forbidden_response()
    ||| response == banned_response()
    ||| exists|seconds: u64| response == #[trigger] rate_limited_response(seconds)
    ||| response == blocked_response()
    ||| response == activity_banned_response()
    ||| response == oversize_response()
    ||| response == failure_response()
}

/// Taking in a request leads to the reading of its body or to an answer, never
/// straight to the wrapped service; every answer is a documented one.
pub proof fn start_never_forwards(
    layer: LayerView,
    before: Extensions,
    after: Extensions,
    state: CallView,
)
    requires
        start_outcome(layer, before, after, state),
    ensures
        match state {
            CallView::Reading(_) => state == first_read(layer),
            CallView::Answering(response) => is_documented(response),
            _ => false,
        },
{
}

/// Reading the body forwards nothing but a request of which the engine has
/// nothing to be asked, its body read to the end; every answer is a documented
/// one.
pub proof fn reading_forwards_only_what_has_nothing_to_scan(
    layer: LayerView,
    parts: RequestParts,
    step: BufferStepView,
    state: CallView,
)
    requires
        read_follows(layer, parts, step, state),
    ensures
        match state {
            CallView::Forwarding(_) => {
                &&& step matches BufferStepView::Done(body)
                &&& next_step(initial_state(parts, body, layer.config)) == StepView::Done(
                    ScanResult::Clean,
                )
            },
            CallView::Answering(response) => is_documented(response),
            _ => true,
        },
{
}

/// The guard is fail-secure: a request reaches the wrapped service exactly
/// where its scan was completed and clean, and then with its body. While the
/// engine is asked, the body is kept; a threat and a scan that failed are
/// answered, with a documented response.
pub proof fn only_a_clean_scan_forwards(
    layer: LayerView,
    extensions: Extensions,
    body: Option<Seq<u8>>,
    step: StepView,
    state: CallView,
)
    requires
        scan_follows(layer, extensions, body, step, state),
    ensures
        state is Forwarding <==> step == StepView::Done(ScanResult::Clean),
        match state {
            CallView::Forwarding(content) => content == match body {
                Some(bytes) => bytes,
                None => Seq::empty(),
            },
            CallView::Answering(response) => step is Done && is_documented(response),
            CallView::Detecting(kept, _) => kept == body,
            CallView::Extracting(kept, _) => kept == body,
            CallView::Reading(_) => false,
        },
{
}

/// A clean request whose body is within the cap reaches the wrapped service
/// with the very bytes that came in.
pub proof fn clean_request_is_forwarded_unchanged(
    layer: LayerView,
    parts: RequestParts,
    frames: Seq<FrameView>,
    engine: EngineModel,
    state: CallView,
)
    requires
        is_body(frames),
        data_of(frames).len() <= layer.body_cap,
        scan_result(parts, body_of(frames), layer.config, engine) == ScanResult::Clean,
        scan_follows(
            layer,
            parts.extensions,
            body_of(frames),
            StepView::Done(
                run_scan(
                    next_step(initial_state(parts, body_of(frames), layer.config)),
                    engine,
                ),
            ),
            state,
        ),
    ensures
        after_frames(first_buffer(layer), frames.push(FrameView::End)) == BufferStepView::Done(
            body_of(frames),
        ),
        state == CallView::Forwarding(data_of(frames)),
{
    body_within_the_cap_is_kept(layer, frames);
    machine_scans_the_request(parts, body_of(frames), layer.config, engine);
    if data_of(frames).len() == 0 {
        assert(data_of(frames) =~= Seq::empty());
    }
}

/// A request with a flagged view is blocked: `400`, or `403` where the threat
/// got the client banned on the spot.
pub proof fn flagged_request_is_blocked(
    layer: LayerView,
    extensions: Extensions,
    body: Option<Seq<u8>>,
    result: ScanResult,
    state: CallView,
)
    requires
        result is Threat,
        scan_follows(layer, extensions, body, StepView::Done(result), state),
    ensures
        state == CallView::Answering(blocked_response()) || state == CallView::Answering(
            activity_banned_response(),
        ),
{
}

} // verus!

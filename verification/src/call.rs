//! One request through the guard, as a machine that says what to do next.
//!
//! The machine itself neither waits nor reads, and it does not call the
//! engine's detection: whoever drives it reads the body frame by frame, asks
//! the engine, calls the wrapped service, and hands back what came of it.
use vstd::prelude::*;
use vstd::utf8::{decode_utf8, valid_utf8};

use crate::engine::{answer_probes, answer_report};
use crate::layer::{GuardLayer, LayerView};
use crate::request::RequestParts;
use crate::response::{
    failure, failure_response, forbidden_response, oversize, oversize_response, GuardResponse,
    ResponseView,
};
use crate::scan::{
    after_values, after_verdict, begin_scan, finish_scan, initial_state, is_sorted_result,
    next_step, take_values, take_verdict, DetectQuestion, ExtractQuestion, ScanOutcome,
    ScanResult, ScanState, ScanStep, StepView,
};
use crate::stages::{
    counted_ip, detect_block, detection_outcome, enforce_ip_gate, enforce_state_stage,
    request_verdict, state_stage_outcome,
};
use crate::text::lossy_text;
use crate::transport::{
    attached_client_ip, attached_decision, buffer_content, bytes_content, other_extensions,
};
use bytes::{Bytes, BytesMut};
use guard_core_engine::body_scan::BodyScanValue;
use guard_core_engine::detect::DetectVerdict;
use guard_core_engine::ip_gate::IpGateVerdict;
use http::Extensions;

verus! {

/// What reading on in a request body brought.
#[derive(Debug)]
pub enum BodyFrame {
    /// A frame of data.
    Data(Bytes),
    /// A frame of something else, such as trailers.
    Other,
    /// The end of the body.
    End,
    /// The body stream errored mid-read. The underlying error is dropped on
    /// purpose: it is body-transport noise, not a security signal, and it must
    /// not leak into the response.
    Failed,
}

/// What a [`BodyFrame`] carries.
pub enum FrameView {
    Data(Seq<u8>),
    Other,
    End,
    Failed,
}

impl View for BodyFrame {
    type V = FrameView;

    open spec fn view(&self) -> FrameView {
        match self {
            BodyFrame::Data(data) => FrameView::Data(bytes_content(*data)),
            BodyFrame::Other => FrameView::Other,
            BodyFrame::End => FrameView::End,
            BodyFrame::Failed => FrameView::Failed,
        }
    }
}

/// Why a request body could not be fully buffered.
#[derive(Debug, Clone, Copy, PartialEq, Eq)]
pub enum BufferFailure {
    /// The body exceeded the buffering cap; reading stopped early.
    TooLarge,
    /// The body stream errored mid-read.
    Read,
}

/// The data of a body that has been read so far, and the cap on it.
#[derive(Debug)]
pub struct BodyBuffer {
    buffered: BytesMut,
    cap: usize,
}

/// What a [`BodyBuffer`] holds.
pub struct BufferView {
    pub content: Seq<u8>,
    pub cap: usize,
}

impl View for BodyBuffer {
    type V = BufferView;

    closed spec fn view(&self) -> BufferView {
        BufferView { content: buffer_content(self.buffered), cap: self.cap }
    }
}

/// How the reading of a body goes on: with more of it, or done.
#[derive(Debug)]
pub enum BufferStep {
    /// Read the next frame.
    More(BodyBuffer),
    /// The body is read; `None` where it was empty.
    Done(Option<Bytes>),
    /// The body cannot be buffered.
    Refused(BufferFailure),
}

/// What a [`BufferStep`] says.
pub enum BufferStepView {
    More(BufferView),
    Done(Option<Seq<u8>>),
    Refused(BufferFailure),
}

impl View for BufferStep {
    type V = BufferStepView;

    open spec fn view(&self) -> BufferStepView {
        match self {
            BufferStep::More(buffer) => BufferStepView::More(buffer@),
            BufferStep::Done(body) => BufferStepView::Done(optional_content(*body)),
            BufferStep::Refused(failure) => BufferStepView::Refused(*failure),
        }
    }
}

/// The bytes of an optional body.
pub open spec fn optional_content(body: Option<Bytes>) -> Option<Seq<u8>> {
    match body {
        Some(bytes) => Some(bytes_content(bytes)),
        None => None,
    }
}

/// How a buffer takes the next frame: data is added as long as the cap allows,
/// anything else but the end and a failure is discarded.
pub open spec fn buffer_step(buffer: BufferView, frame: FrameView) -> BufferStepView {
    match frame {
        FrameView::Data(data) => {
            if buffer.content.len() + data.len() > buffer.cap {
                BufferStepView::Refused(BufferFailure::TooLarge)
            } else {
                BufferStepView::More(
                    BufferView { content: buffer.content + data, cap: buffer.cap },
                )
            }
        },
        FrameView::Other => BufferStepView::More(buffer),
        FrameView::End => BufferStepView::Done(
            if buffer.content.len() == 0 {
                None
            } else {
                Some(buffer.content)
            },
        ),
        FrameView::Failed => BufferStepView::Refused(BufferFailure::Read),
    }
}

impl BodyBuffer {
    /// The buffer never holds more than its cap.
    #[verifier::type_invariant]
    spec fn within_cap(self) -> bool {
        buffer_content(self.buffered).len() <= self.cap
    }

    /// An empty buffer.
    pub fn new(cap: usize) -> (buffer: BodyBuffer)
        ensures
            buffer@ == (BufferView { content: Seq::empty(), cap }),
    {
        BodyBuffer { buffered: BytesMut::new(), cap }
    }

    /// Take the next frame of the body.
    ///
    /// Trailers are discarded: the engine scans content, and request trailers
    /// are not part of any scanned view.
    pub fn take(self, frame: BodyFrame) -> (step: BufferStep)
        ensures
            step@ == buffer_step(self@, frame@),
    {
        proof {
            use_type_invariant(&self);
        }
        match frame {
            BodyFrame::Data(data) => {
                let mut buffered: BytesMut = self.buffered;
                let bytes: &[u8] = &data;
                if bytes.len() > self.cap - buffered.len() {
                    return BufferStep::Refused(BufferFailure::TooLarge);
                }
                buffered.extend_from_slice(bytes);
                BufferStep::More(BodyBuffer { buffered, cap: self.cap })
            },
            BodyFrame::Other => BufferStep::More(self),
            BodyFrame::End => {
                if self.buffered.is_empty() {
                    BufferStep::Done(None)
                } else {
                    BufferStep::Done(Some(self.buffered.freeze()))
                }
            },
            BodyFrame::Failed => BufferStep::Refused(BufferFailure::Read),
        }
    }
}

/// What is to be done next for a request.
#[derive(Debug)]
pub enum CallState {
    /// Read the next frame of the body, and hand it to [`on_frame`].
    Reading(BodyBuffer),
    /// Have the engine look at the view that the question holds, and hand its
    /// verdict to [`on_verdict`], with this body.
    Detecting(Option<Bytes>, DetectQuestion),
    /// Have the engine take the body apart that the question holds, and hand
    /// the values to [`on_values`], with this body.
    Extracting(Option<Bytes>, ExtractQuestion),
    /// Pass the request on to the wrapped service, with this body.
    Forwarding(Bytes),
    /// Answer with this response; the wrapped service does not see the request.
    Answering(GuardResponse),
}

/// What a [`CallState`] says.
pub enum CallView {
    Reading(BufferView),
    Detecting(Option<Seq<u8>>, ScanState),
    Extracting(Option<Seq<u8>>, ScanState),
    Forwarding(Seq<u8>),
    Answering(ResponseView),
}

impl View for CallState {
    type V = CallView;

    open spec fn view(&self) -> CallView {
        match self {
            CallState::Reading(buffer) => CallView::Reading(buffer@),
            CallState::Detecting(body, question) => {
                CallView::Detecting(optional_content(*body), question@)
            },
            CallState::Extracting(body, question) => {
                CallView::Extracting(optional_content(*body), question@)
            },
            CallState::Forwarding(body) => CallView::Forwarding(bytes_content(*body)),
            CallState::Answering(response) => CallView::Answering(response@),
        }
    }
}

/// The first thing to read: nothing yet, under the layer's cap.
pub open spec fn first_read(layer: LayerView) -> CallView {
    CallView::Reading(BufferView { content: Seq::empty(), cap: layer.body_cap })
}

/// The state that an answer of the stateful stage leads to.
pub open spec fn admitted(layer: LayerView, answer: Option<ResponseView>) -> CallView {
    match answer {
        Some(response) => CallView::Answering(response),
        None => first_read(layer),
    }
}

/// Whether `state` is what a request starts with: `before` are its extensions
/// as it came in, `after` those that the IP gate left. The IP gate is asked first,
/// then the stateful stage, for a request that counts; only then is the body
/// read.
pub open spec fn start_outcome(
    layer: LayerView,
    before: Extensions,
    after: Extensions,
    state: CallView,
) -> bool {
    if request_verdict(layer, before) matches Some(IpGateVerdict::Denied(_)) {
        state == CallView::Answering(forbidden_response())
    } else {
        match counted_ip(after) {
            Some(ip) => exists|answer: Option<ResponseView>|
                {
                    &&& #[trigger] state_stage_outcome(layer, ip, answer)
                    &&& state == admitted(layer, answer)
                },
            None => state == first_read(layer),
        }
    }
}

/// Whether `after` is what the IP gate leaves of the extensions `before`: the
/// client address and values of other types stay, and a passed request gets
/// the IP gate's decision.
pub open spec fn gated_extensions(layer: LayerView, before: Extensions, after: Extensions) -> bool {
    &&& attached_client_ip(after) == attached_client_ip(before)
    &&& other_extensions(after) == other_extensions(before)
    &&& match request_verdict(layer, before) {
        Some(IpGateVerdict::Allowed(decision)) => attached_decision(after) == Some(decision),
        _ => after == before,
    }
}

/// Take in a request.
///
/// The IP gate runs before anything else: a denied IP must not cost a body
/// buffer. The stateful stage (dynamic bans, then rate limiting) runs on every
/// attributed, non-exempt request before a body buffer is spent on it.
pub fn start(parts: &mut RequestParts, layer: &GuardLayer) -> (state: CallState)
    ensures
        start_outcome(layer@, old(parts).extensions, final(parts).extensions, state@),
        gated_extensions(layer@, old(parts).extensions, final(parts).extensions),
        final(parts).uri == old(parts).uri,
        final(parts).headers == old(parts).headers,
{
    if let Some(denial) = enforce_ip_gate(parts, layer) {
        return CallState::Answering(denial);
    }
    match enforce_state_stage(parts, layer) {
        Some(answer) => CallState::Answering(answer),
        None => CallState::Reading(BodyBuffer::new(layer.body_cap())),
    }
}

/// Whether `state` is what the outcome of a scan leads to: a clean request is
/// passed on with its body, a threat is blocked, and a scan that failed is
/// answered with `500`.
pub open spec fn scan_step(
    layer: LayerView,
    extensions: Extensions,
    body: Option<Seq<u8>>,
    result: ScanResult,
    state: CallView,
) -> bool {
    match result {
        ScanResult::Clean => state == CallView::Forwarding(
            match body {
                Some(content) => content,
                None => Seq::empty(),
            },
        ),
        ScanResult::Threat(categories) => {
            state matches CallView::Answering(response) && detection_outcome(
                layer,
                extensions,
                categories,
                response,
            )
        },
        ScanResult::Failed => state == CallView::Answering(failure_response()),
    }
}

/// Take the outcome of the scan, its categories in order.
pub fn on_scan(
    body: Option<Bytes>,
    outcome: ScanOutcome,
    parts: &RequestParts,
    layer: &GuardLayer,
) -> (state: CallState)
    ensures
        scan_step(layer@, parts.extensions, optional_content(body), outcome@, state@),
{
    match outcome {
        ScanOutcome::Clean => match body {
            Some(body) => CallState::Forwarding(body),
            None => CallState::Forwarding(Bytes::new()),
        },
        ScanOutcome::Threat(categories) => {
            CallState::Answering(detect_block(parts, layer, &categories))
        },
        ScanOutcome::Failed => CallState::Answering(failure()),
    }
}

/// Whether `state` is what a step of the scan leads to: the engine is asked
/// what the step asks, and once the scan is over, its outcome decides, with
/// the categories of a threat in order, each once.
pub open spec fn scan_follows(
    layer: LayerView,
    extensions: Extensions,
    body: Option<Seq<u8>>,
    step: StepView,
    state: CallView,
) -> bool {
    match step {
        StepView::Detect(scan) => state == CallView::Detecting(body, scan),
        StepView::Extract(scan) => state == CallView::Extracting(body, scan),
        StepView::Done(result) => exists|sorted: ScanResult|
            {
                &&& #[trigger] is_sorted_result(sorted, result)
                &&& scan_step(layer, extensions, body, sorted, state)
            },
    }
}

/// Go on with a step of the scan.
fn follow(body: Option<Bytes>, step: ScanStep, parts: &RequestParts, layer: &GuardLayer) -> (state:
    CallState)
    ensures
        scan_follows(layer@, parts.extensions, optional_content(body), step@, state@),
{
    match step {
        ScanStep::Detect(question) => CallState::Detecting(body, question),
        ScanStep::Extract(question) => CallState::Extracting(body, question),
        ScanStep::Done(outcome) => on_scan(body, finish_scan(outcome), parts, layer),
    }
}

/// Whether `state` is what a step of the buffer leads to: the scan once the
/// body is there, `413` for a body over the cap, `500` for one that could not
/// be read.
pub open spec fn read_follows(
    layer: LayerView,
    parts: RequestParts,
    step: BufferStepView,
    state: CallView,
) -> bool {
    match step {
        BufferStepView::More(buffer) => state == CallView::Reading(buffer),
        BufferStepView::Done(body) => scan_follows(
            layer,
            parts.extensions,
            body,
            next_step(initial_state(parts, body, layer.config)),
            state,
        ),
        BufferStepView::Refused(BufferFailure::TooLarge) => state == CallView::Answering(
            oversize_response(),
        ),
        BufferStepView::Refused(BufferFailure::Read) => state == CallView::Answering(
            failure_response(),
        ),
    }
}

/// Take the next frame of the body. With its end the scan begins.
pub fn on_frame(
    buffer: BodyBuffer,
    frame: BodyFrame,
    parts: &RequestParts,
    layer: &GuardLayer,
) -> (state: CallState)
    ensures
        read_follows(layer@, *parts, buffer_step(buffer@, frame@), state@),
        frame is End && buffer@.content.len() > 0 && valid_utf8(buffer@.content) ==> lossy_text(
            buffer@.content,
        ) == decode_utf8(buffer@.content),
{
    match buffer.take(frame) {
        BufferStep::More(buffer) => CallState::Reading(buffer),
        BufferStep::Done(body) => {
            let step: ScanStep = begin_scan(parts, body.as_ref(), layer);
            follow(body, step, parts, layer)
        },
        BufferStep::Refused(BufferFailure::TooLarge) => CallState::Answering(oversize()),
        BufferStep::Refused(BufferFailure::Read) => CallState::Answering(failure()),
    }
}

/// Take what the engine's `detect` returned; `None` where it panicked.
pub fn on_verdict(
    body: Option<Bytes>,
    question: DetectQuestion,
    verdict: Option<DetectVerdict>,
    parts: &RequestParts,
    layer: &GuardLayer,
) -> (state: CallState)
    ensures
        scan_follows(
            layer@,
            parts.extensions,
            optional_content(body),
            after_verdict(question@, answer_report(verdict)),
            state@,
        ),
{
    follow(body, take_verdict(question, verdict), parts, layer)
}

/// Take what the engine's `extract_body_scan_values` returned; `None` where it
/// panicked.
pub fn on_values(
    body: Option<Bytes>,
    question: ExtractQuestion,
    values: Option<Vec<BodyScanValue>>,
    parts: &RequestParts,
    layer: &GuardLayer,
) -> (state: CallState)
    ensures
        scan_follows(
            layer@,
            parts.extensions,
            optional_content(body),
            after_values(question@, answer_probes(values)),
            state@,
        ),
{
    follow(body, take_values(question, values), parts, layer)
}

} // verus!

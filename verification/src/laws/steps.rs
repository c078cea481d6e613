//! The steps of a call: what a frame, and what an answer of the engine, lead to.
use vstd::prelude::*;
use vstd::utf8::encode_utf8;

use crate::call::{
    on_frame, on_scan, on_values, on_verdict, optional_content, scan_follows, scan_step,
    BodyBuffer, BodyFrame, BufferFailure, BufferStep, CallState,
};
use crate::categories::{is_ascending, is_sorted_set_of};
use crate::laws::answers::{says_failed, says_too_large};
use crate::laws::checks::{blocks, lemma_blocks};
use crate::laws::strings::{comes_first, lemma_comes_first};
use crate::layer::{GuardLayer, LayerView};
use crate::request::RequestParts;
use crate::scan::{
    begin_scan, body_content, is_sorted_result, take_values, take_verdict, DetectQuestion,
    ExtractQuestion, ScanOutcome, ScanResult, ScanStep,
};
use crate::text::text_before;
use crate::transport::bytes_content;
use bytes::Bytes;
use guard_core_engine::body_scan::BodyScanValue;
use guard_core_engine::detect::DetectVerdict;
use http::Extensions;

verus! {

// ---- the buffer ----

/// A new buffer is empty, under the cap it was given.
pub proof fn new_buffer_is_empty(cap: usize, buffer: BodyBuffer)
    requires
        call_ensures(BodyBuffer::new, (cap,), buffer),
    ensures
        buffer@.cap == cap,
        buffer@.content.len() == 0,
{
}

/// A buffer adds data as long as all of it fits under the cap, discards what is
/// no data, gives out all it holds at the end, and refuses a body that is too
/// large or cannot be read.
pub proof fn buffer_takes_what_fits(buffer: BodyBuffer, frame: BodyFrame, step: BufferStep)
    requires
        call_ensures(BodyBuffer::take, (buffer, frame), step),
    ensures
        match frame {
            BodyFrame::Data(data) => if buffer@.content.len() + bytes_content(data).len()
                <= buffer@.cap {
                step matches BufferStep::More(next) && next@.cap == buffer@.cap && next@.content
                    == buffer@.content + bytes_content(data)
            } else {
                step matches BufferStep::Refused(BufferFailure::TooLarge)
            },
            BodyFrame::Other => step matches BufferStep::More(next) && next@.cap == buffer@.cap
                && next@.content == buffer@.content,
            BodyFrame::End => step matches BufferStep::Done(body) && gives_out(
                buffer@.content,
                body,
            ),
            BodyFrame::Failed => step matches BufferStep::Refused(BufferFailure::Read),
        },
{
}

/// Whether a body is all that was read: its bytes, or none where there are
/// none.
pub open spec fn gives_out(content: Seq<u8>, body: Option<Bytes>) -> bool {
    match body {
        Some(bytes) => content.len() > 0 && bytes_content(bytes) == content,
        None => content.len() == 0,
    }
}

/// A frame of a body is taken as the buffer takes it: data that fits is added,
/// a body over the cap is answered with `413`, one that cannot be read with
/// `500`.
pub proof fn frame_is_taken(
    buffer: BodyBuffer,
    frame: BodyFrame,
    parts: &RequestParts,
    layer: &GuardLayer,
    state: CallState,
)
    requires
        call_ensures(on_frame, (buffer, frame, parts, layer), state),
    ensures
        match frame {
            BodyFrame::Data(data) => if buffer@.content.len() + bytes_content(data).len()
                <= buffer@.cap {
                state matches CallState::Reading(next) && next@.cap == buffer@.cap && next@.content
                    == buffer@.content + bytes_content(data)
            } else {
                state matches CallState::Answering(response) && says_too_large(response)
            },
            BodyFrame::Other => state matches CallState::Reading(next) && next@.cap == buffer@.cap
                && next@.content == buffer@.content,
            BodyFrame::End => true,
            BodyFrame::Failed => state matches CallState::Answering(response) && says_failed(
                response,
            ),
        },
{
}

// ---- the scan ----

/// Whether a list of texts holds those of another, each before all that follow
/// it.
pub open spec fn sorts(texts: Seq<Seq<char>>, sorted: Seq<Seq<char>>) -> bool {
    &&& forall|i: int, j: int|
        0 <= i < j < sorted.len() ==> comes_first(
            encode_utf8(#[trigger] sorted[i]),
            encode_utf8(#[trigger] sorted[j]),
        )
    &&& forall|text: Seq<char>| #[trigger] sorted.contains(text) <==> texts.contains(text)
}

/// Whether a body was kept as it is.
pub open spec fn kept(held: Option<Bytes>, body: Option<Seq<u8>>) -> bool {
    match held {
        Some(bytes) => body == Some(bytes_content(bytes)),
        None => body is None,
    }
}

/// Whether a state does what a step of the scan asks: it asks the same question
/// and keeps the body; a clean request is passed on with its body, a threat is
/// blocked with its categories in order, and a scan that failed is answered
/// with `500`.
pub open spec fn does(
    layer: LayerView,
    extensions: Extensions,
    body: Option<Seq<u8>>,
    step: ScanStep,
    state: CallState,
) -> bool {
    match step {
        ScanStep::Detect(question) => state matches CallState::Detecting(held, asked) && kept(
            held,
            body,
        ) && asked@ == question@,
        ScanStep::Extract(question) => state matches CallState::Extracting(held, asked) && kept(
            held,
            body,
        ) && asked@ == question@,
        ScanStep::Done(outcome) => ends(layer, extensions, body, outcome, state),
    }
}

/// Whether a state does what the outcome of a scan asks.
pub open spec fn ends(
    layer: LayerView,
    extensions: Extensions,
    body: Option<Seq<u8>>,
    outcome: ScanOutcome,
    state: CallState,
) -> bool {
    match outcome {
        ScanOutcome::Clean => state matches CallState::Forwarding(bytes) && match body {
            Some(content) => bytes_content(bytes) == content,
            None => bytes_content(bytes).len() == 0,
        },
        ScanOutcome::Threat(categories) => state matches CallState::Answering(response)
            && exists|sorted: Seq<Seq<char>>|
            #[trigger] sorts(categories.deep_view(), sorted) && blocks(
                layer,
                extensions,
                sorted,
                response,
            ),
        ScanOutcome::Failed => state matches CallState::Answering(response) && says_failed(
            response,
        ),
    }
}

proof fn lemma_sorts(texts: Seq<Seq<char>>, sorted: Seq<Seq<char>>)
    requires
        is_sorted_set_of(sorted, texts),
    ensures
        sorts(texts, sorted),
{
    assert(is_ascending(sorted));
    assert forall|i: int, j: int| 0 <= i < j < sorted.len() implies comes_first(
        encode_utf8(#[trigger] sorted[i]),
        encode_utf8(#[trigger] sorted[j]),
    ) by {
        assert(text_before(sorted[i], sorted[j]));
        lemma_comes_first(encode_utf8(sorted[i]), encode_utf8(sorted[j]));
    }
    assert forall|text: Seq<char>| #[trigger] sorted.contains(text) <==> texts.contains(text) by {
        assert(sorted.contains(text) <==> texts.contains(text));
    }
}

proof fn lemma_does(
    layer: LayerView,
    extensions: Extensions,
    body: Option<Seq<u8>>,
    step: ScanStep,
    state: CallState,
)
    requires
        scan_follows(layer, extensions, body, step@, state@),
    ensures
        does(layer, extensions, body, step, state),
{
    if let ScanStep::Done(outcome) = step {
        let sorted = choose|sorted: ScanResult|
            {
                &&& #[trigger] is_sorted_result(sorted, outcome@)
                &&& scan_step(layer, extensions, body, sorted, state@)
            };
        if let ScanOutcome::Threat(categories) = outcome {
            let list = sorted->Threat_0;
            lemma_sorts(categories.deep_view(), list);
            if let CallState::Answering(response) = state {
                lemma_blocks(layer, extensions, list, response);
            }
        }
    }
}

/// At the end of the body the scan begins, with the whole of what was read as
/// the body: what the call does is what the first step of that scan asks.
pub proof fn end_of_the_body_begins_the_scan(
    buffer: BodyBuffer,
    parts: &RequestParts,
    layer: &GuardLayer,
    state: CallState,
    body: Option<&Bytes>,
    step: ScanStep,
)
    requires
        call_ensures(on_frame, (buffer, BodyFrame::End, parts, layer), state),
        call_ensures(begin_scan, (parts, body, layer), step),
        match body {
            Some(bytes) => buffer@.content.len() > 0 && bytes_content(*bytes) == buffer@.content,
            None => buffer@.content.len() == 0,
        },
    ensures
        does(
            layer@,
            parts.extensions,
            if buffer@.content.len() == 0 {
                None
            } else {
                Some(buffer@.content)
            },
            step,
            state,
        ),
{
    let content = if buffer@.content.len() == 0 {
        None
    } else {
        Some(buffer@.content)
    };
    assert(body_content(body) == content);
    lemma_does(layer@, parts.extensions, content, step, state);
}

/// What the call does with an answer of the engine on a view is what the scan
/// asks after that answer, with the body kept.
pub proof fn answer_on_a_view_is_followed(
    body: Option<Bytes>,
    question: DetectQuestion,
    verdict: Option<DetectVerdict>,
    parts: &RequestParts,
    layer: &GuardLayer,
    state: CallState,
    step: ScanStep,
)
    requires
        call_ensures(on_verdict, (body, question, verdict, parts, layer), state),
        call_ensures(take_verdict, (question, verdict), step),
    ensures
        exists|content: Option<Seq<u8>>| #[trigger]
            kept(body, content) && does(layer@, parts.extensions, content, step, state),
{
    let content = optional_content(body);
    assert(kept(body, content));
    lemma_does(layer@, parts.extensions, content, step, state);
}

/// What the call does with the values of the body is what the scan asks after
/// them, with the body kept.
pub proof fn values_of_the_body_are_followed(
    body: Option<Bytes>,
    question: ExtractQuestion,
    values: Option<Vec<BodyScanValue>>,
    parts: &RequestParts,
    layer: &GuardLayer,
    state: CallState,
    step: ScanStep,
)
    requires
        call_ensures(on_values, (body, question, values, parts, layer), state),
        call_ensures(take_values, (question, values), step),
    ensures
        exists|content: Option<Seq<u8>>| #[trigger]
            kept(body, content) && does(layer@, parts.extensions, content, step, state),
{
    let content = optional_content(body);
    assert(kept(body, content));
    lemma_does(layer@, parts.extensions, content, step, state);
}

/// The outcome of a scan decides: only a clean request is passed on, with its
/// body; a threat is blocked, and a scan that failed is answered with `500`.
pub proof fn outcome_decides(
    body: Option<Bytes>,
    outcome: ScanOutcome,
    parts: &RequestParts,
    layer: &GuardLayer,
    state: CallState,
)
    requires
        call_ensures(on_scan, (body, outcome, parts, layer), state),
    ensures
        match outcome {
            ScanOutcome::Clean => state matches CallState::Forwarding(bytes) && match body {
                Some(held) => bytes_content(bytes) == bytes_content(held),
                None => bytes_content(bytes).len() == 0,
            },
            ScanOutcome::Threat(categories) => state matches CallState::Answering(response)
                && blocks(layer@, parts.extensions, categories.deep_view(), response),
            ScanOutcome::Failed => state matches CallState::Answering(response) && says_failed(
                response,
            ),
        },
{
    if let ScanOutcome::Threat(categories) = outcome {
        if let CallState::Answering(response) = state {
            lemma_blocks(layer@, parts.extensions, categories.deep_view(), response);
        }
    }
}

} // verus!

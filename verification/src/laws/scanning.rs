//! What the engine is asked about a request, and what its answers lead to.
use vstd::prelude::*;
use vstd::utf8::{encode_utf8, encode_utf8_decode_utf8, encode_utf8_valid_utf8};

use crate::categories::{is_ascending, is_sorted_set_of};
use crate::engine::{value_probe, value_probes, verdict_report, Probe};
use crate::laws::strings::{
    comes_first, holds, is_printable, is_space, is_text, is_unscanned_name, lemma_blank,
    lemma_comes_first, lemma_excluded, lemma_visible, reads_as,
};
use crate::layer::GuardLayer;
use crate::request::RequestParts;
use crate::scan::{
    begin_scan, body_content, finish_scan, header_probe, header_probes, initial_state, label_text,
    next_step, path_probes, query_probes, report_categories, request_views, take_values,
    take_verdict, threat_categories, view_probes, BodyTextView, DetectQuestion, ExtractQuestion,
    ScanOutcome, ScanState, ScanStep,
};
use crate::text::{is_blank_text, lossy_text, text_before, visible_text};
use crate::transport::{bytes_content, first_named, header_entries, uri_path, uri_query};
use bytes::Bytes;
use guard_core_engine::body_scan::BodyScanValue;
use guard_core_engine::detect::{DetectConfig, DetectVerdict, Threat};

verus! {

// ---- what is asked ----

/// A text that the engine is to look at in a context.
pub open spec fn view_of(content: Seq<char>, context: Seq<char>) -> Probe {
    Probe { content, context, forced: None }
}

/// The characters of a header value.
pub open spec fn characters(value: Seq<u8>) -> Seq<char> {
    Seq::new(value.len(), |i: int| value[i] as char)
}

/// The views that a list of headers gives, from its front: the value of every
/// header that is text and whose name is not one of the unscanned ones.
pub open spec fn header_views(entries: Seq<(Seq<char>, Seq<u8>)>) -> Seq<Probe>
    decreases entries.len(),
{
    if entries.len() == 0 {
        Seq::empty()
    } else {
        let rest = header_views(entries.drop_first());
        if is_unscanned_name(entries[0].0) || !is_text(entries[0].1) {
            rest
        } else {
            seq![view_of(characters(entries[0].1), "header"@)] + rest
        }
    }
}

/// The views that the target of a request gives: its path unless that is the
/// root, and its query unless that is missing or empty.
pub open spec fn target_views(path: Seq<char>, query: Option<Seq<char>>) -> Seq<Probe> {
    let of_path = if path == "/"@ {
        Seq::empty()
    } else {
        seq![view_of(path, "url_path"@)]
    };
    let of_query = match query {
        Some(text) => if text.len() == 0 {
            Seq::empty()
        } else {
            seq![view_of(text, "query_param"@)]
        },
        None => Seq::empty(),
    };
    of_path + of_query
}

/// Whether the header at `i` is the first of its name.
pub open spec fn is_first(entries: Seq<(Seq<char>, Seq<u8>)>, i: int, name: Seq<char>) -> bool {
    &&& 0 <= i < entries.len()
    &&& entries[i].0 == name
    &&& forall|j: int| 0 <= j < i ==> (#[trigger] entries[j]).0 != name
}

/// Whether a scan goes on with these views, this body and these knobs: it asks
/// about the first view, which is a threat outright where its category is
/// forced; without views it asks for the body to be taken apart; without
/// either it is clean.
pub open spec fn goes_on(
    views: Seq<Probe>,
    body: Option<BodyTextView>,
    config: DetectConfig,
    step: ScanStep,
) -> bool {
    if views.len() > 0 {
        match views[0].forced {
            Some(category) => step matches ScanStep::Done(ScanOutcome::Threat(categories))
                && categories@.len() == 1 && categories@[0]@ == category,
            None => step matches ScanStep::Detect(question) && question@.probes == views
                && question@.body == body && question@.config == config,
        }
    } else {
        match body {
            Some(_) => step matches ScanStep::Extract(question) && question@.body == body
                && question@.config == config,
            None => step matches ScanStep::Done(ScanOutcome::Clean),
        }
    }
}

proof fn lemma_goes_on(state: ScanState, step: ScanStep)
    requires
        step@ == next_step(state),
    ensures
        goes_on(state.probes, state.body, state.config, step),
{
    if state.probes.len() > 0 && state.probes[0].forced is Some {
        if let ScanStep::Done(ScanOutcome::Threat(categories)) = step {
            assert(categories.deep_view() == seq![state.probes[0].forced->0]);
            assert(categories.deep_view()[0] == categories@[0]@);
            assert(categories.deep_view().len() == categories@.len());
        }
    }
}

/// Headers in two parts are scanned one part after the other.
proof fn lemma_header_probes_concat(
    a: Seq<(Seq<char>, Seq<u8>)>,
    b: Seq<(Seq<char>, Seq<u8>)>,
)
    ensures
        header_probes(a + b) == header_probes(a) + header_probes(b),
    decreases b.len(),
{
    if b.len() == 0 {
        assert(a + b =~= a);
        assert(header_probes(a) + header_probes(b) =~= header_probes(a));
    } else {
        assert((a + b).drop_last() =~= a + b.drop_last());
        assert((a + b).last() == b.last());
        lemma_header_probes_concat(a, b.drop_last());
        assert(header_probes(a + b) =~= header_probes(a) + header_probes(b));
    }
}

proof fn lemma_header_probe(entry: (Seq<char>, Seq<u8>))
    ensures
        header_probe(entry) == if is_unscanned_name(entry.0) || !is_text(entry.1) {
            Seq::<Probe>::empty()
        } else {
            seq![view_of(characters(entry.1), "header"@)]
        },
{
    lemma_excluded(entry.0);
    lemma_visible(entry.1);
    if let Some(text) = visible_text(entry.1) {
        assert(text =~= characters(entry.1)) by {
            assert forall|i: int| 0 <= i < text.len() implies text[i] == characters(
                entry.1,
            )[i] by {
                assert(is_printable(entry.1[i]));
            }
        }
    }
}

proof fn lemma_header_views(entries: Seq<(Seq<char>, Seq<u8>)>)
    ensures
        header_probes(entries) == header_views(entries),
    decreases entries.len(),
{
    if entries.len() > 0 {
        let first = seq![entries[0]];
        assert(first + entries.drop_first() =~= entries);
        lemma_header_probes_concat(first, entries.drop_first());
        lemma_header_views(entries.drop_first());
        assert(first.drop_last() =~= Seq::empty());
        assert(first.last() == entries[0]);
        assert(header_probes(first) =~= header_probe(entries[0])) by {
            assert(header_probes(Seq::<(Seq<char>, Seq<u8>)>::empty()) =~= Seq::empty());
        }
        lemma_header_probe(entries[0]);
        assert(header_probes(entries) =~= header_views(entries));
    }
}

/// A header that is not excluded and whose value is text is scanned, between
/// those before it and those after it.
pub proof fn scanned_header_is_one_view(
    front: Seq<(Seq<char>, Seq<u8>)>,
    entry: (Seq<char>, Seq<u8>),
    back: Seq<(Seq<char>, Seq<u8>)>,
    text: Seq<char>,
)
    requires
        !is_unscanned_name(entry.0),
        is_text(entry.1),
        reads_as(entry.1, text),
    ensures
        header_probes(front.push(entry) + back) == header_probes(front) + seq![
            view_of(text, "header"@),
        ] + header_probes(back),
{
    let one = seq![entry];
    assert(front.push(entry) =~= front + one);
    lemma_header_probes_concat(front + one, back);
    lemma_header_probes_concat(front, one);
    lemma_header_probe(entry);
    assert(one.drop_last() =~= Seq::empty());
    assert(header_probes(one) =~= header_probe(entry)) by {
        assert(header_probes(Seq::<(Seq<char>, Seq<u8>)>::empty()) =~= Seq::empty());
    }
    assert(text =~= characters(entry.1)) by {
        assert forall|i: int| 0 <= i < text.len() implies text[i] == characters(entry.1)[i] by {
            assert(is_printable(entry.1[i]));
        }
    }
}

proof fn lemma_view_probes(
    path: Seq<char>,
    query: Option<Seq<char>>,
    entries: Seq<(Seq<char>, Seq<u8>)>,
)
    ensures
        view_probes(path, query, entries) == target_views(path, query) + header_views(entries),
{
    lemma_header_views(entries);
    assert(path_probes(path) + query_probes(query) =~= target_views(path, query));
}

/// The views of a request are the path unless it is the root, the query unless
/// it is missing or empty, and then every header that is text and not
/// excluded, in the order in which they stand.
pub proof fn views_are_the_documented_ones(
    path: &str,
    query: Option<&str>,
    entries: &Vec<(String, Vec<u8>)>,
    views: Vec<BodyScanValue>,
)
    requires
        call_ensures(request_views, (path, query, entries), views),
    ensures
        views_say(
            views@,
            target_views(
                path@,
                match query {
                    Some(text) => Some(text@),
                    None => None,
                },
            ) + header_views(entries.deep_view()),
        ),
{
    lemma_view_probes(
        path@,
        match query {
            Some(text) => Some(text@),
            None => None,
        },
        entries.deep_view(),
    );
    lemma_views_say(views@);
}

/// Whether a list of values holds these texts, in these contexts, with these
/// forced categories.
pub open spec fn views_say(values: Seq<BodyScanValue>, probes: Seq<Probe>) -> bool {
    &&& values.len() == probes.len()
    &&& forall|i: int|
        0 <= i < values.len() ==> {
            &&& (#[trigger] values[i]).content@ == probes[i].content
            &&& values[i].context@ == probes[i].context
            &&& match values[i].forced_category {
                Some(category) => probes[i].forced == Some(category@),
                None => probes[i].forced is None,
            }
        }
}

proof fn lemma_views_say(values: Seq<BodyScanValue>)
    ensures
        views_say(values, value_probes(values)),
        forall|probes: Seq<Probe>|
            #[trigger] views_say(values, probes) ==> probes == value_probes(values),
{
    let own = value_probes(values);
    assert forall|i: int| 0 <= i < values.len() implies own[i] == value_probe(
        #[trigger] values[i],
    ) by {}
    assert forall|probes: Seq<Probe>| #[trigger] views_say(values, probes) implies probes
        == own by {
        assert forall|i: int| 0 <= i < values.len() implies probes[i] == own[i] by {
            assert(own[i] == value_probe(values[i]));
        }
        assert(probes =~= own);
    }
}

/// The engine is asked about every view of a request, whatever the request:
/// the scan begins with the path, the query and the headers, and whatever its
/// body is scanned for, under the knobs of the layer.
pub proof fn scan_begins_with_every_view(
    parts: &RequestParts,
    body: Option<&Bytes>,
    layer: &GuardLayer,
    step: ScanStep,
)
    requires
        call_ensures(begin_scan, (parts, body, layer), step),
    ensures
        exists|text: Option<BodyTextView>| #[trigger]
            goes_on(
                target_views(uri_path(parts.uri), uri_query(parts.uri)) + header_views(
                    header_entries(parts.headers),
                ),
                text,
                layer@.config,
                step,
            ),
        pending(step) == target_views(uri_path(parts.uri), uri_query(parts.uri)) + header_views(
            header_entries(parts.headers),
        ),
{
    let content = body_content(body);
    let state = initial_state(*parts, content, layer@.config);
    lemma_view_probes(uri_path(parts.uri), uri_query(parts.uri), header_entries(parts.headers));
    lemma_goes_on(state, step);
    lemma_no_forced(state.probes, uri_path(parts.uri), uri_query(parts.uri), header_entries(
        parts.headers,
    ));
    if state.probes.len() == 0 {
        assert(state.probes =~= Seq::empty());
    }
}

/// The views that a step has to ask about.
pub open spec fn pending(step: ScanStep) -> Seq<Probe> {
    match step {
        ScanStep::Detect(question) => question@.probes,
        _ => Seq::empty(),
    }
}

proof fn lemma_no_forced(
    probes: Seq<Probe>,
    path: Seq<char>,
    query: Option<Seq<char>>,
    entries: Seq<(Seq<char>, Seq<u8>)>,
)
    requires
        probes == target_views(path, query) + header_views(entries),
    ensures
        forall|i: int| 0 <= i < probes.len() ==> (#[trigger] probes[i]).forced is None,
{
    let target = target_views(path, query);
    lemma_no_forced_header(entries);
    assert forall|i: int| 0 <= i < probes.len() implies (#[trigger] probes[i]).forced is None by {
        if i >= target.len() {
            assert(probes[i] == header_views(entries)[i - target.len()]);
        } else {
            assert(probes[i] == target[i]);
        }
    }
}

proof fn lemma_no_forced_header(entries: Seq<(Seq<char>, Seq<u8>)>)
    ensures
        forall|i: int|
            0 <= i < header_views(entries).len() ==> (#[trigger] header_views(
                entries,
            )[i]).forced is None,
    decreases entries.len(),
{
    if entries.len() > 0 {
        lemma_no_forced_header(entries.drop_first());
        let views = header_views(entries);
        let rest = header_views(entries.drop_first());
        assert forall|i: int| 0 <= i < views.len() implies (#[trigger] views[i]).forced is None by {
            if views.len() > rest.len() && i > 0 {
                assert(views[i] == rest[i - 1]);
            } else if views.len() == rest.len() {
                assert(views[i] == rest[i]);
            }
        }
    }
}

/// Every header that is text and not excluded is asked about, under the context
/// `header`, whatever its name and wherever it stands.
pub proof fn every_scanned_header_is_asked_about(
    parts: &RequestParts,
    body: Option<&Bytes>,
    layer: &GuardLayer,
    step: ScanStep,
    i: int,
)
    requires
        call_ensures(begin_scan, (parts, body, layer), step),
        0 <= i < header_entries(parts.headers).len(),
        !is_unscanned_name(header_entries(parts.headers)[i].0),
        is_text(header_entries(parts.headers)[i].1),
    ensures
        pending(step).contains(
            view_of(characters(header_entries(parts.headers)[i].1), "header"@),
        ),
{
    scan_begins_with_every_view(parts, body, layer, step);
    let entries = header_entries(parts.headers);
    let target = target_views(uri_path(parts.uri), uri_query(parts.uri));
    let view = view_of(characters(entries[i].1), "header"@);
    lemma_header_is_viewed(entries, i);
    let k = header_views(entries).index_of(view);
    assert(pending(step)[target.len() + k] == view);
}

proof fn lemma_header_is_viewed(entries: Seq<(Seq<char>, Seq<u8>)>, i: int)
    requires
        0 <= i < entries.len(),
        !is_unscanned_name(entries[i].0),
        is_text(entries[i].1),
    ensures
        header_views(entries).contains(view_of(characters(entries[i].1), "header"@)),
    decreases entries.len(),
{
    let view = view_of(characters(entries[i].1), "header"@);
    let rest = header_views(entries.drop_first());
    if i == 0 {
        assert(header_views(entries)[0] == view);
    } else {
        lemma_header_is_viewed(entries.drop_first(), i - 1);
        let k = rest.index_of(view);
        if header_views(entries).len() == rest.len() {
            assert(header_views(entries)[k] == view);
        } else {
            assert(header_views(entries)[k + 1] == view);
        }
    }
}

/// The body that a step has still to be taken apart.
pub open spec fn body_left(step: ScanStep) -> Option<BodyTextView> {
    match step {
        ScanStep::Detect(question) => question@.body,
        ScanStep::Extract(question) => question@.body,
        ScanStep::Done(_) => None,
    }
}

proof fn lemma_first_named(entries: Seq<(Seq<char>, Seq<u8>)>, name: Seq<char>, i: int)
    requires
        is_first(entries, i, name),
    ensures
        first_named(entries, name) == Some(entries[i].1),
    decreases entries.len(),
{
    if i > 0 {
        let rest = entries.drop_first();
        assert(entries[0].0 != name);
        assert forall|j: int| 0 <= j < i - 1 implies (#[trigger] rest[j]).0 != name by {
            assert(rest[j] == entries[j + 1]);
        }
        lemma_first_named(rest, name, i - 1);
    }
}

proof fn lemma_none_named(entries: Seq<(Seq<char>, Seq<u8>)>, name: Seq<char>)
    requires
        forall|i: int| 0 <= i < entries.len() ==> (#[trigger] entries[i]).0 != name,
    ensures
        first_named(entries, name) is None,
    decreases entries.len(),
{
    if entries.len() > 0 {
        let rest = entries.drop_first();
        assert(entries[0].0 != name);
        assert forall|i: int| 0 <= i < rest.len() implies (#[trigger] rest[i]).0 != name by {
            assert(rest[i] == entries[i + 1]);
        }
        lemma_none_named(rest, name);
    }
}

/// Every body that is not blank is handed to the engine, whatever the request:
/// its whole text, with the text of the first `Content-Type` header, or with an
/// empty content type where there is none or it is not text.
pub proof fn every_body_is_handed_over(
    parts: &RequestParts,
    body: &Bytes,
    layer: &GuardLayer,
    step: ScanStep,
    place: int,
)
    requires
        call_ensures(begin_scan, (parts, Some(body), layer), step),
        0 <= place < lossy_text(bytes_content(*body)).len(),
        !is_space(lossy_text(bytes_content(*body))[place]),
    ensures
        step !is Done,
        body_left(step) matches Some(left) && {
            let entries = header_entries(parts.headers);
            &&& left.text == lossy_text(bytes_content(*body))
            &&& forall|i: int| #[trigger]
                is_first(entries, i, "content-type"@) ==> if is_text(entries[i].1) {
                    reads_as(entries[i].1, left.content_type)
                } else {
                    left.content_type.len() == 0
                }
            &&& (forall|i: int|
                0 <= i < entries.len() ==> (#[trigger] entries[i]).0 != "content-type"@)
                ==> left.content_type.len() == 0
        },
{
    let content = bytes_content(*body);
    let text = lossy_text(content);
    let entries = header_entries(parts.headers);
    let state = initial_state(*parts, Some(content), layer@.config);
    lemma_blank(text);
    assert(!is_space(text[place]));
    assert(!is_blank_text(text));
    lemma_view_probes(uri_path(parts.uri), uri_query(parts.uri), entries);
    lemma_no_forced(state.probes, uri_path(parts.uri), uri_query(parts.uri), entries);
    lemma_goes_on(state, step);
    let left = state.body->0;
    assert forall|i: int| #[trigger] is_first(entries, i, "content-type"@) implies if is_text(
        entries[i].1,
    ) {
        reads_as(entries[i].1, left.content_type)
    } else {
        left.content_type.len() == 0
    } by {
        lemma_first_named(entries, "content-type"@, i);
        lemma_visible(entries[i].1);
    }
    if forall|i: int| 0 <= i < entries.len() ==> (#[trigger] entries[i]).0 != "content-type"@ {
        lemma_none_named(entries, "content-type"@);
    }
}

/// A body that is UTF-8 is handed over as the text it is.
pub proof fn utf8_body_is_handed_over_as_its_text(
    parts: &RequestParts,
    body: &Bytes,
    layer: &GuardLayer,
    step: ScanStep,
    text: Seq<char>,
)
    requires
        call_ensures(begin_scan, (parts, Some(body), layer), step),
        bytes_content(*body) == encode_utf8(text),
        exists|i: int| 0 <= i < text.len() && !is_space(#[trigger] text[i]),
    ensures
        body_left(step) matches Some(left) && left.text == text,
{
    encode_utf8_valid_utf8(text);
    encode_utf8_decode_utf8(text);
    assert(body_content(Some(body)) == Some(bytes_content(*body)));
    let place = choose|i: int| 0 <= i < text.len() && !is_space(#[trigger] text[i]);
    every_body_is_handed_over(parts, body, layer, step, place);
}

/// A request without a body, or with one of white space only, has no body for
/// the engine to take apart.
pub proof fn no_body_is_handed_over_for_a_blank_one(
    parts: &RequestParts,
    body: Option<&Bytes>,
    layer: &GuardLayer,
    step: ScanStep,
)
    requires
        call_ensures(begin_scan, (parts, body, layer), step),
        body matches Some(held) ==> forall|i: int|
            0 <= i < lossy_text(bytes_content(*held)).len() ==> is_space(
                #[trigger] lossy_text(bytes_content(*held))[i],
            ),
    ensures
        body_left(step) is None,
{
    if let Some(held) = body {
        lemma_blank(lossy_text(bytes_content(*held)));
    }
}

/// A question shows the view it asks about, and the knobs to look at it with.
pub proof fn question_shows_its_view(
    question: DetectQuestion,
    content: &str,
    context: &str,
    config: &DetectConfig,
)
    requires
        call_ensures(DetectQuestion::content, (&question,), content),
        call_ensures(DetectQuestion::context, (&question,), context),
        call_ensures(DetectQuestion::config, (&question,), config),
    ensures
        question@.probes.len() > 0,
        content@ == question@.probes[0].content,
        context@ == question@.probes[0].context,
        *config == question@.config,
{
}

/// A question shows the body it asks to be taken apart, and the knobs to do it
/// with.
pub proof fn question_shows_its_body(
    question: ExtractQuestion,
    text: &str,
    content_type: &str,
    config: &DetectConfig,
)
    requires
        call_ensures(ExtractQuestion::text, (&question,), text),
        call_ensures(ExtractQuestion::content_type, (&question,), content_type),
        call_ensures(ExtractQuestion::config, (&question,), config),
    ensures
        question@.body matches Some(left) && text@ == left.text && content_type@
            == left.content_type,
        *config == question@.config,
{
}

// ---- what an answer leads to ----

/// The category of a threat.
pub open spec fn category_of(threat: Threat) -> Seq<char> {
    match threat {
        Threat::Regex(found) => found.category@,
        Threat::Semantic(found) => found.attack_type@,
    }
}

/// Whether categories are those of the threats that the engine reports, one for
/// each, in their order.
pub open spec fn names_threats(categories: Seq<String>, threats: Seq<Threat>) -> bool {
    &&& categories.len() == threats.len()
    &&& forall|i: int|
        0 <= i < threats.len() ==> (#[trigger] categories[i])@ == category_of(threats[i])
}

proof fn lemma_names_threats(categories: Vec<String>, verdict: DetectVerdict)
    requires
        Some(categories.deep_view()) == report_categories(
            verdict_report(verdict),
        ),
    ensures
        names_threats(categories@, verdict.threats@),
{
    let found = categories.deep_view();
    let report = verdict_report(verdict);
    assert(found.len() == categories@.len());
    assert(report_categories(report)->0 == found);
    assert(found.len() == verdict.threats@.len());
    assert forall|i: int| 0 <= i < verdict.threats@.len() implies (#[trigger] categories@[i])@
        == category_of(verdict.threats@[i]) by {
        assert(found[i] == categories@[i]@);
        assert(found[i] == label_text(report.threats[i]));
    }
}

/// What the engine reports is a threat exactly where it says so, and its
/// categories are those of the threats it lists.
pub proof fn reported_threats_are_kept(verdict: DetectVerdict, categories: Option<Vec<String>>)
    requires
        call_ensures(threat_categories, (&verdict,), categories),
    ensures
        categories is Some <==> verdict.is_threat,
        categories matches Some(found) ==> names_threats(found@, verdict.threats@),
{
    if let Some(found) = categories {
        assert(categories.deep_view() == Some(found.deep_view()));
        lemma_names_threats(found, verdict);
    }
}

/// The engine's answer on a view decides: a panic fails the scan, a threat ends
/// it with the categories of that threat, and a clear view leads on to the
/// next view, with the same body and the same knobs, and after the last view
/// to the body.
pub proof fn answer_on_a_view_decides(
    question: DetectQuestion,
    verdict: Option<DetectVerdict>,
    step: ScanStep,
)
    requires
        call_ensures(take_verdict, (question, verdict), step),
    ensures
        match verdict {
            None => step matches ScanStep::Done(ScanOutcome::Failed),
            Some(answer) => if answer.is_threat {
                step matches ScanStep::Done(ScanOutcome::Threat(categories)) && names_threats(
                    categories@,
                    answer.threats@,
                )
            } else {
                goes_on(
                    question@.probes.drop_first(),
                    question@.body,
                    question@.config,
                    step,
                )
            },
        },
{
    if let Some(answer) = verdict {
        if answer.is_threat {
            if let ScanStep::Done(ScanOutcome::Threat(categories)) = step {
                lemma_names_threats(categories, answer);
            }
        } else {
            lemma_goes_on(
                ScanState { probes: question@.probes.drop_first(), ..question@ },
                step,
            );
        }
    }
}

/// The values that the engine takes out of the body are all scanned, each in
/// its own context, in their order; a panic fails the scan.
pub proof fn every_value_is_scanned(
    question: ExtractQuestion,
    values: Option<Vec<BodyScanValue>>,
    probes: Seq<Probe>,
    step: ScanStep,
)
    requires
        call_ensures(take_values, (question, values), step),
        values matches Some(taken) ==> views_say(taken@, probes),
    ensures
        match values {
            None => step matches ScanStep::Done(ScanOutcome::Failed),
            Some(_) => goes_on(probes, None, question@.config, step),
        },
{
    if let Some(taken) = values {
        lemma_views_say(taken@);
        lemma_goes_on(
            ScanState { probes, body: None, ..question@ },
            step,
        );
    }
}

/// Finishing a scan changes no outcome but the order of the categories of a
/// threat: all of them stay, each once, in order.
pub proof fn finishing_only_sorts(outcome: ScanOutcome, finished: ScanOutcome)
    requires
        call_ensures(finish_scan, (outcome,), finished),
    ensures
        outcome matches ScanOutcome::Clean <==> finished matches ScanOutcome::Clean,
        outcome matches ScanOutcome::Failed <==> finished matches ScanOutcome::Failed,
        outcome matches ScanOutcome::Threat(categories) ==> finished matches ScanOutcome::Threat(
            sorted,
        ) && is_sorted_list(categories@, sorted@),
{
    if let ScanOutcome::Threat(categories) = outcome {
        if let ScanOutcome::Threat(sorted) = finished {
            lemma_sorted_list(categories, sorted);
        }
    }
}

/// Whether a list holds the texts of another, each before all that follow it.
pub open spec fn is_sorted_list(categories: Seq<String>, sorted: Seq<String>) -> bool {
    &&& forall|i: int, j: int|
        0 <= i < j < sorted.len() ==> comes_first(
            encode_utf8((#[trigger] sorted[i])@),
            encode_utf8((#[trigger] sorted[j])@),
        )
    &&& forall|i: int| 0 <= i < sorted.len() ==> holds(categories, (#[trigger] sorted[i])@)
    &&& forall|i: int| 0 <= i < categories.len() ==> holds(sorted, (#[trigger] categories[i])@)
}

/// A sorted set, text by text.
pub proof fn lemma_sorted_list(categories: Vec<String>, sorted: Vec<String>)
    requires
        is_sorted_set_of(sorted.deep_view(), categories.deep_view()),
    ensures
        is_sorted_list(categories@, sorted@),
{
    let s = sorted.deep_view();
    let c = categories.deep_view();
    assert(is_ascending(s));
    assert forall|i: int, j: int| 0 <= i < j < sorted@.len() implies comes_first(
        encode_utf8((#[trigger] sorted@[i])@),
        encode_utf8((#[trigger] sorted@[j])@),
    ) by {
        assert(text_before(s[i], s[j]));
        lemma_comes_first(encode_utf8(s[i]), encode_utf8(s[j]));
    }
    assert forall|i: int| 0 <= i < sorted@.len() implies holds(
        categories@,
        (#[trigger] sorted@[i])@,
    ) by {
        assert(s.contains(s[i]));
        assert(c.contains(s[i]));
        assert(categories@[c.index_of(s[i])]@ == sorted@[i]@);
    }
    assert forall|i: int| 0 <= i < categories@.len() implies holds(
        sorted@,
        (#[trigger] categories@[i])@,
    ) by {
        assert(c.contains(c[i]));
        assert(s.contains(c[i]));
        assert(sorted@[s.index_of(c[i])]@ == categories@[i]@);
    }
}

} // verus!

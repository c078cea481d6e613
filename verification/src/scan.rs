//! Which views of a request are scanned, and what the scan comes to.
//!
//! The engine may panic on hostile content, and a scan that could not be
//! completed is an outcome of its own. So a scan is a machine: it says what the
//! engine is to be asked next, and takes the engine's answer, or that there
//! was none.
use vstd::prelude::*;
use vstd::utf8::{decode_utf8, valid_utf8};

use crate::categories::{is_sorted_set_of, sort_categories};
use crate::engine::{
    answer_probes, answer_report, threat_label, value_probe, value_probes, verdict_report,
    EngineReport, Probe, ThreatLabel,
};
use crate::layer::GuardLayer;
use crate::request::RequestParts;
use crate::text::{
    begins_with, decode_lossy, has_prefix, header_text, is_blank, is_blank_text, lossy_text,
    same_text, visible_text,
};
use crate::transport::{
    bytes_content, content_type_value, first_named, header_entries, header_list, optional_text,
    uri_path, uri_query,
};
use bytes::Bytes;
use guard_core_engine::body_scan::BodyScanValue;
use guard_core_engine::detect::{DetectConfig, DetectVerdict, Threat};

verus! {

/// The outcome of scanning one request.
#[derive(Debug, Clone, PartialEq, Eq)]
pub enum ScanOutcome {
    /// No view tripped the engine.
    Clean,
    /// At least one view was flagged as a threat; the detection categories of
    /// the first flagged view.
    Threat(Vec<String>),
    /// The engine panicked; fail secure.
    Failed,
}

/// What a [`ScanOutcome`] says.
pub enum ScanResult {
    Clean,
    Threat(Seq<Seq<char>>),
    Failed,
}

impl View for ScanOutcome {
    type V = ScanResult;

    open spec fn view(&self) -> ScanResult {
        match self {
            ScanOutcome::Clean => ScanResult::Clean,
            ScanOutcome::Threat(categories) => ScanResult::Threat(categories.deep_view()),
            ScanOutcome::Failed => ScanResult::Failed,
        }
    }
}

// ---- what the engine answers ----

/// The category of a threat: a pattern's category, or the type of attack that
/// semantic analysis saw.
pub open spec fn label_text(label: ThreatLabel) -> Seq<char> {
    match label {
        ThreatLabel::Regex(category) => category,
        ThreatLabel::Semantic(attack_type) => attack_type,
    }
}

/// The categories of a report: one for each threat, where there is any threat.
pub open spec fn report_categories(report: EngineReport) -> Option<Seq<Seq<char>>> {
    if report.is_threat {
        Some(report.threats.map_values(|label: ThreatLabel| label_text(label)))
    } else {
        None
    }
}

/// The categories of what the engine returned: one for each threat, as listed,
/// or `None` where the engine clears the content.
pub fn threat_categories(verdict: &DetectVerdict) -> (categories: Option<Vec<String>>)
    ensures
        categories.deep_view() == report_categories(verdict_report(*verdict)),
{
    if !verdict.is_threat {
        return None;
    }
    let mut categories: Vec<String> = Vec::new();
    for i in 0..verdict.threats.len()
        invariant
            categories@.len() == i,
            forall|j: int|
                0 <= j < i ==> (#[trigger] categories@[j])@ == label_text(
                    threat_label(verdict.threats@[j]),
                ),
    {
        let category: String = match &verdict.threats[i] {
            Threat::Regex(regex) => regex.category.clone(),
            Threat::Semantic(semantic) => semantic.attack_type.clone(),
        };
        categories.push(category);
    }
    assert(categories.deep_view() =~= verdict_report(*verdict).threats.map_values(
        |label: ThreatLabel| label_text(label),
    ));
    Some(categories)
}

// ---- the views of a request ----

/// Whether a header of this (lower-case) name is never scanned.
///
/// Negotiation and routing headers carry expected values whose scanning costs
/// false positives without buying coverage: a payload smuggled into them must
/// still survive the path, query, and body views.
pub open spec fn is_excluded_name(name: Seq<char>) -> bool {
    ||| begins_with(name, "sec-"@)
    ||| name == "host"@
    ||| name == "user-agent"@
    ||| name == "accept"@
    ||| name == "accept-encoding"@
    ||| name == "connection"@
    ||| name == "origin"@
    ||| name == "referer"@
}

/// Whether a header of this (lower-case) name is never scanned.
pub fn is_excluded_header(name: &str) -> (excluded: bool)
    ensures
        excluded == is_excluded_name(name@),
{
    has_prefix(name, "sec-") || same_text(name, "host") || same_text(name, "user-agent")
        || same_text(name, "accept") || same_text(name, "accept-encoding")
        || same_text(name, "connection") || same_text(name, "origin")
        || same_text(name, "referer")
}

/// The probe of a path: none for the root.
pub open spec fn path_probes(path: Seq<char>) -> Seq<Probe> {
    if path == "/"@ {
        Seq::empty()
    } else {
        seq![(Probe { content: path, context: "url_path"@, forced: None })]
    }
}

/// The probe of a query string: none where it is missing or empty.
pub open spec fn query_probes(query: Option<Seq<char>>) -> Seq<Probe> {
    match query {
        Some(query) if query.len() > 0 => {
            seq![(Probe { content: query, context: "query_param"@, forced: None })]
        },
        _ => Seq::empty(),
    }
}

/// The probe of one header: none for an excluded name, and none for a value
/// that is not text.
pub open spec fn header_probe(entry: (Seq<char>, Seq<u8>)) -> Seq<Probe> {
    match visible_text(entry.1) {
        Some(text) if !is_excluded_name(entry.0) => {
            seq![(Probe { content: text, context: "header"@, forced: None })]
        },
        _ => Seq::empty(),
    }
}

/// The probes of a list of headers, in its order.
pub open spec fn header_probes(entries: Seq<(Seq<char>, Seq<u8>)>) -> Seq<Probe>
    decreases entries.len(),
{
    if entries.len() == 0 {
        Seq::empty()
    } else {
        header_probes(entries.drop_last()) + header_probe(entries.last())
    }
}

/// The text of the `Content-Type` header, empty where there is none or it is
/// not text.
pub open spec fn content_type_text(entries: Seq<(Seq<char>, Seq<u8>)>) -> Seq<char> {
    match first_named(entries, "content-type"@) {
        Some(value) => match visible_text(value) {
            Some(text) => text,
            None => Seq::empty(),
        },
        None => Seq::empty(),
    }
}

/// The views of a request that are scanned as they are, in the order in which
/// they are: the path, the query, the headers.
pub open spec fn view_probes(
    path: Seq<char>,
    query: Option<Seq<char>>,
    entries: Seq<(Seq<char>, Seq<u8>)>,
) -> Seq<Probe> {
    path_probes(path) + query_probes(query) + header_probes(entries)
}

/// A body that is to be scanned: its text, and its content type.
pub struct BodyTextView {
    pub text: Seq<char>,
    pub content_type: Seq<char>,
}

/// What of a body is scanned: nothing where there is none, or a blank one.
pub open spec fn body_view(
    body: Option<Seq<u8>>,
    entries: Seq<(Seq<char>, Seq<u8>)>,
) -> Option<BodyTextView> {
    match body {
        Some(bytes) if !is_blank_text(lossy_text(bytes)) => Some(
            BodyTextView { text: lossy_text(bytes), content_type: content_type_text(entries) },
        ),
        _ => None,
    }
}

/// The bytes of an optional body.
pub open spec fn body_content(body: Option<&Bytes>) -> Option<Seq<u8>> {
    match body {
        Some(bytes) => Some(bytes_content(*bytes)),
        None => None,
    }
}

/// Add a view to a list.
fn push_view(views: &mut Vec<BodyScanValue>, content: &str, context: &str)
    ensures
        value_probes(final(views)@) == value_probes(old(views)@) + seq![
            (Probe { content: content@, context: context@, forced: None }),
        ],
{
    views.push(
        BodyScanValue {
            content: content.to_owned(),
            context: context.to_owned(),
            forced_category: None,
        },
    );
    assert(value_probes(views@) =~= value_probes(old(views)@) + seq![
        (Probe { content: content@, context: context@, forced: None }),
    ]);
}

/// The views of a request that are scanned as they are: the path unless it is
/// the root, the query unless it is empty, and the value of every header that
/// is text and not excluded.
pub fn request_views(path: &str, query: Option<&str>, entries: &Vec<(String, Vec<u8>)>) -> (views:
    Vec<BodyScanValue>)
    ensures
        value_probes(views@) == view_probes(path@, optional_text(query), entries.deep_view()),
{
    let mut views: Vec<BodyScanValue> = Vec::new();
    let ghost none = Seq::<Probe>::empty();
    assert(value_probes(views@) =~= none);
    if !same_text(path, "/") {
        push_view(&mut views, path, "url_path");
    }
    assert(value_probes(views@) =~= path_probes(path@));
    if let Some(query) = query {
        if query.unicode_len() > 0 {
            push_view(&mut views, query, "query_param");
        }
    }
    let ghost target = path_probes(path@) + query_probes(optional_text(query));
    assert(value_probes(views@) =~= target);
    let ghost list = entries.deep_view();
    assert(target + header_probes(list.take(0)) =~= target);
    for i in 0..entries.len()
        invariant
            list == entries.deep_view(),
            list.len() == entries@.len(),
            value_probes(views@) == target + header_probes(list.take(i as int)),
    {
        let name: &String = &entries[i].0;
        let value: &Vec<u8> = &entries[i].1;
        proof {
            assert(list[i as int] == (name@, value@));
            assert(list.take(i + 1).drop_last() =~= list.take(i as int));
            assert(list.take(i + 1).last() == list[i as int]);
        }
        if !is_excluded_header(name) {
            if let Some(text) = header_text(value) {
                push_view(&mut views, &text, "header");
            }
        }
        assert(value_probes(views@) =~= target + header_probes(list.take(i + 1)));
    }
    assert(list.take(list.len() as int) =~= list);
    views
}

// ---- the scan ----

/// The text of a body that is to be scanned, and its content type.
#[derive(Debug)]
struct BodyText {
    text: String,
    content_type: String,
}

/// A scan under way: the views that are left, the body that is still to be
/// taken apart, and the engine's knobs.
#[derive(Debug)]
struct ScanMachine {
    views: Vec<BodyScanValue>,
    next: usize,
    body: Option<BodyText>,
    config: DetectConfig,
}

/// What is left of a scan.
#[verifier::ext_equal]
pub struct ScanState {
    pub probes: Seq<Probe>,
    pub body: Option<BodyTextView>,
    pub config: DetectConfig,
}

impl ScanMachine {
    #[verifier::type_invariant]
    spec fn in_bounds(self) -> bool {
        self.next <= self.views@.len()
    }
}

impl View for ScanMachine {
    type V = ScanState;

    closed spec fn view(&self) -> ScanState {
        ScanState {
            probes: value_probes(self.views@.skip(self.next as int)),
            body: match self.body {
                Some(body) => Some(
                    BodyTextView { text: body.text@, content_type: body.content_type@ },
                ),
                None => None,
            },
            config: self.config,
        }
    }
}

/// A scan that waits for what the engine says of its next view.
#[derive(Debug)]
pub struct DetectQuestion {
    machine: ScanMachine,
}

impl View for DetectQuestion {
    type V = ScanState;

    closed spec fn view(&self) -> ScanState {
        self.machine@
    }
}

/// A scan that waits for the values that the engine takes out of the body.
#[derive(Debug)]
pub struct ExtractQuestion {
    text: String,
    content_type: String,
    config: DetectConfig,
}

impl View for ExtractQuestion {
    type V = ScanState;

    closed spec fn view(&self) -> ScanState {
        ScanState {
            probes: Seq::empty(),
            body: Some(BodyTextView { text: self.text@, content_type: self.content_type@ }),
            config: self.config,
        }
    }
}

/// How a scan goes on.
#[derive(Debug)]
pub enum ScanStep {
    /// Have the engine's `detect` look at the view that the question holds, and
    /// hand what it returned to [`take_verdict`].
    Detect(DetectQuestion),
    /// Have the engine's `extract_body_scan_values` take the body apart that
    /// the question holds, and hand what it returned to [`take_values`].
    Extract(ExtractQuestion),
    /// The scan is over.
    Done(ScanOutcome),
}

/// What a [`ScanStep`] says.
pub enum StepView {
    Detect(ScanState),
    Extract(ScanState),
    Done(ScanResult),
}

impl View for ScanStep {
    type V = StepView;

    open spec fn view(&self) -> StepView {
        match self {
            ScanStep::Detect(question) => StepView::Detect(question@),
            ScanStep::Extract(question) => StepView::Extract(question@),
            ScanStep::Done(outcome) => StepView::Done(outcome@),
        }
    }
}

/// What comes next: the first view that is left, which is a threat outright
/// where its category is forced; after the views the body; after both there is
/// nothing to report.
pub open spec fn next_step(state: ScanState) -> StepView {
    if state.probes.len() > 0 {
        match state.probes[0].forced {
            Some(category) => StepView::Done(ScanResult::Threat(seq![category])),
            None => StepView::Detect(state),
        }
    } else if state.body is Some {
        StepView::Extract(state)
    } else {
        StepView::Done(ScanResult::Clean)
    }
}

/// How a request starts to be scanned.
pub open spec fn initial_state(
    parts: RequestParts,
    body: Option<Seq<u8>>,
    config: DetectConfig,
) -> ScanState {
    ScanState {
        probes: view_probes(
            uri_path(parts.uri),
            uri_query(parts.uri),
            header_entries(parts.headers),
        ),
        body: body_view(body, header_entries(parts.headers)),
        config,
    }
}

/// What follows the engine's answer on the first view: a panic ends the scan
/// as failed, a threat ends it with the categories of that threat, and a
/// clear view leads on.
pub open spec fn after_verdict(state: ScanState, report: Option<EngineReport>) -> StepView {
    match report {
        None => StepView::Done(ScanResult::Failed),
        Some(report) => match report_categories(report) {
            Some(categories) => StepView::Done(ScanResult::Threat(categories)),
            None => next_step(ScanState { probes: state.probes.drop_first(), ..state }),
        },
    }
}

/// What follows the extraction: a panic ends the scan as failed, else the
/// values are the views that are left.
pub open spec fn after_values(state: ScanState, probes: Option<Seq<Probe>>) -> StepView {
    match probes {
        None => StepView::Done(ScanResult::Failed),
        Some(probes) => next_step(ScanState { probes, body: None, ..state }),
    }
}

impl DetectQuestion {
    #[verifier::type_invariant]
    spec fn asks(self) -> bool {
        &&& self.machine.next < self.machine.views@.len()
        &&& self.machine.views@[self.machine.next as int].forced_category is None
    }

    /// The content to be looked at.
    pub fn content(&self) -> (content: &str)
        ensures
            self@.probes.len() > 0,
            content@ == self@.probes[0].content,
    {
        proof {
            use_type_invariant(self);
        }
        &self.machine.views[self.machine.next].content
    }

    /// The context to look at it in.
    pub fn context(&self) -> (context: &str)
        ensures
            self@.probes.len() > 0,
            context@ == self@.probes[0].context,
    {
        proof {
            use_type_invariant(self);
        }
        &self.machine.views[self.machine.next].context
    }

    /// The knobs to look at it with.
    pub fn config(&self) -> (config: &DetectConfig)
        ensures
            *config == self@.config,
    {
        &self.machine.config
    }
}

impl ExtractQuestion {
    /// The text of the body.
    pub fn text(&self) -> (text: &str)
        ensures
            self@.body matches Some(body) && text@ == body.text,
    {
        &self.text
    }

    /// The content type of the body, empty where there is none.
    pub fn content_type(&self) -> (content_type: &str)
        ensures
            self@.body matches Some(body) && content_type@ == body.content_type,
    {
        &self.content_type
    }

    /// The knobs to take it apart with.
    pub fn config(&self) -> (config: &DetectConfig)
        ensures
            *config == self@.config,
    {
        &self.config
    }
}

/// The next step of a scan.
fn advance(machine: ScanMachine) -> (step: ScanStep)
    ensures
        step@ == next_step(machine@),
{
    proof {
        use_type_invariant(&machine);
    }
    if machine.next < machine.views.len() {
        assert(machine@.probes[0] == value_probe(machine.views@[machine.next as int]));
        match machine.views[machine.next].forced_category {
            Some(category) => {
                let mut categories: Vec<String> = Vec::new();
                categories.push(category.to_owned());
                assert(categories.deep_view() =~= seq![category@]);
                ScanStep::Done(ScanOutcome::Threat(categories))
            },
            None => ScanStep::Detect(DetectQuestion { machine }),
        }
    } else {
        assert(machine@.probes =~= Seq::empty());
        match machine.body {
            Some(body) => ScanStep::Extract(
                ExtractQuestion {
                    text: body.text,
                    content_type: body.content_type,
                    config: machine.config,
                },
            ),
            None => ScanStep::Done(ScanOutcome::Clean),
        }
    }
}

/// The body that is to be scanned, where it is not blank.
fn body_text(bytes: &[u8], content_type: Option<String>) -> (body: Option<BodyText>)
    ensures
        match body {
            Some(body) => {
                &&& !is_blank_text(lossy_text(bytes@))
                &&& body.text@ == lossy_text(bytes@)
                &&& body.content_type@ == (match content_type {
                    Some(content_type) => content_type@,
                    None => Seq::empty(),
                })
            },
            None => is_blank_text(lossy_text(bytes@)),
        },
        valid_utf8(bytes@) ==> lossy_text(bytes@) == decode_utf8(bytes@),
{
    let text: String = decode_lossy(bytes);
    if is_blank(&text) {
        return None;
    }
    let content_type: String = match content_type {
        Some(content_type) => content_type,
        None => String::new(),
    };
    Some(BodyText { text, content_type })
}

/// Start to scan a request: one engine call per view, in the documented order:
/// path, query, headers, body. The first view the engine flags wins. The
/// content type of the body is that of the first `Content-Type` header, where
/// that is text; an empty (or white-space-only) body is not scanned.
pub fn begin_scan(parts: &RequestParts, body: Option<&Bytes>, layer: &GuardLayer) -> (step:
    ScanStep)
    ensures
        step@ == next_step(initial_state(*parts, body_content(body), layer@.config)),
        body_content(body) matches Some(content) ==> (valid_utf8(content) ==> lossy_text(content)
            == decode_utf8(content)),
{
    let entries: Vec<(String, Vec<u8>)> = header_list(&parts.headers);
    let views: Vec<BodyScanValue> = request_views(parts.uri.path(), parts.uri.query(), &entries);
    let text: Option<BodyText> = match body {
        Some(bytes) => {
            let content_type: Option<String> = match content_type_value(&parts.headers) {
                Some(value) => {
                    assert(value.deep_view() =~= value@);
                    header_text(&value)
                },
                None => None,
            };
            body_text(bytes, content_type)
        },
        None => None,
    };
    assert(views@.skip(0) =~= views@);
    advance(ScanMachine { views, next: 0, body: text, config: *layer.config() })
}

/// Take what the engine returned on a view; `None` where it panicked.
pub fn take_verdict(question: DetectQuestion, verdict: Option<DetectVerdict>) -> (step: ScanStep)
    ensures
        step@ == after_verdict(question@, answer_report(verdict)),
{
    proof {
        use_type_invariant(&question);
    }
    match verdict {
        None => ScanStep::Done(ScanOutcome::Failed),
        Some(verdict) => match threat_categories(&verdict) {
            Some(categories) => ScanStep::Done(ScanOutcome::Threat(categories)),
            None => {
                let machine: ScanMachine = question.machine;
                assert(machine.next < machine.views.len());
                let ghost left = value_probes(machine.views@.skip(machine.next as int));
                assert(value_probes(machine.views@.skip(machine.next + 1)) =~= left.drop_first());
                advance(
                    ScanMachine {
                        views: machine.views,
                        next: machine.next + 1,
                        body: machine.body,
                        config: machine.config,
                    },
                )
            },
        },
    }
}

/// Take the values that the engine took out of the body; `None` where it
/// panicked. Each is scanned under the context it carries.
pub fn take_values(question: ExtractQuestion, values: Option<Vec<BodyScanValue>>) -> (step:
    ScanStep)
    ensures
        step@ == after_values(question@, answer_probes(values)),
{
    match values {
        None => ScanStep::Done(ScanOutcome::Failed),
        Some(views) => {
            assert(views@.skip(0) =~= views@);
            advance(ScanMachine { views, next: 0, body: None, config: question.config })
        },
    }
}

/// Whether `sorted` is `result` with the categories of a threat in order, each
/// once.
pub open spec fn is_sorted_result(sorted: ScanResult, result: ScanResult) -> bool {
    match (sorted, result) {
        (ScanResult::Threat(sorted), ScanResult::Threat(categories)) => {
            is_sorted_set_of(sorted, categories)
        },
        _ => sorted == result,
    }
}

/// Put the categories of a threat in order, each once.
pub fn finish_scan(outcome: ScanOutcome) -> (finished: ScanOutcome)
    ensures
        is_sorted_result(finished@, outcome@),
{
    match outcome {
        ScanOutcome::Threat(categories) => ScanOutcome::Threat(sort_categories(categories)),
        outcome => outcome,
    }
}

} // verus!

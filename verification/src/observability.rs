//! What is traced, counted and logged about the program's life and its voice
//! sessions. Exporters stand outside; this module says what they receive.

use vstd::prelude::*;

use crate::config::{Environment, text_or, variable};
use crate::text::{chars_of, string_of};

verus! {

/// The name under which the program traces, counts and logs.
pub const SCOPE: &'static str = "ashe-worker";

pub enum AttributeValue {
    Text(String),
    Number(i64),
}

/// A named value on a resource, span or record.
pub struct Attribute {
    pub key: &'static str,
    pub value: AttributeValue,
}

pub enum AttributeView {
    Text { key: Seq<char>, value: Seq<char> },
    Number { key: Seq<char>, number: int },
}

impl View for Attribute {
    type V = AttributeView;

    open spec fn view(&self) -> AttributeView {
        match self.value {
            AttributeValue::Text(text) => AttributeView::Text { key: self.key@, value: text@ },
            AttributeValue::Number(n) => AttributeView::Number { key: self.key@, number: n as int },
        }
    }
}

pub open spec fn attribute_views(attributes: Seq<Attribute>) -> Seq<AttributeView> {
    attributes.map_values(|a: Attribute| a@)
}

pub open spec fn text_of(key: Seq<char>, value: Seq<char>) -> AttributeView {
    AttributeView::Text { key, value }
}

fn attribute(key: &'static str, value: &str) -> (r: Attribute)
    ensures
        r@ == text_of(key@, value@),
{
    Attribute { key, value: AttributeValue::Text(value.to_owned()) }
}

/// Append an attribute.
pub(crate) fn add(attributes: &mut Vec<Attribute>, key: &'static str, value: &str)
    ensures
        attribute_views(final(attributes)@) == attribute_views(old(attributes)@).push(
            text_of(key@, value@),
        ),
{
    attributes.push(attribute(key, value));
    assert(attribute_views(attributes@) =~= attribute_views(old(attributes)@).push(
        text_of(key@, value@),
    ));
}

/// The hexadecimal digit for `n` below sixteen.
pub open spec fn hex_char(n: nat) -> char {
    if n < 10 {
        (48 + n) as char
    } else {
        (87 + n) as char
    }
}

/// The last `width` hexadecimal digits of `n`.
pub open spec fn hex(n: nat, width: nat) -> Seq<char>
    decreases width,
{
    if width == 0 {
        Seq::empty()
    } else {
        hex(n / 16, (width - 1) as nat).push(hex_char(n % 16))
    }
}

/// The number that hexadecimal digits spell.
pub open spec fn hex_value(digits: Seq<char>) -> nat
    decreases digits.len(),
{
    if digits.len() == 0 {
        0
    } else {
        let c = digits.last() as nat;
        hex_value(digits.drop_last()) * 16 + (if c < 58 {
            (c - 48) as nat
        } else {
            (c - 87) as nat
        })
    }
}

/// Sixteen to the power `width`.
pub open spec fn hex_range(width: nat) -> nat
    decreases width,
{
    if width == 0 {
        1
    } else {
        16 * hex_range((width - 1) as nat)
    }
}

/// Identifiers tell their numbers apart: the digits spell the number again.
pub proof fn identifiers_are_distinct(n: nat, width: nat)
    requires
        n < hex_range(width),
    ensures
        hex(n, width).len() == width,
        hex_value(hex(n, width)) == n,
    decreases width,
{
    if width > 0 {
        let shorter = (width - 1) as nat;
        identifiers_are_distinct(n / 16, shorter);
        assert(hex(n, width).drop_last() =~= hex(n / 16, shorter));
    }
}

fn hex_digits(n: u128, width: u8) -> (r: Vec<char>)
    ensures
        r@ == hex(n as nat, width as nat),
    decreases width,
{
    if width == 0 {
        let out: Vec<char> = Vec::new();
        assert(out@ =~= hex(n as nat, 0));
        return out;
    }
    let mut out: Vec<char> = hex_digits(n / 16, width - 1);
    let low: u8 = (n % 16) as u8;
    out.push(
        if low < 10 {
            (48 + low) as char
        } else {
            (87 + low) as char
        },
    );
    out
}

/// The 32-digit identifier of a number.
pub fn instance_id(n: u128) -> (r: String)
    ensures
        r@ == hex(n as nat, 32),
{
    string_of(&hex_digits(n, 32))
}

/// `rand::random::<u128>`: some number. Nothing is claimed of it.
#[verifier::external_body]
fn random_number() -> (r: u128) {
    rand::random::<u128>()
}

/// An identifier for this process or for one correlated event.
pub fn process_instance_id() -> (r: String)
    ensures
        exists|n: u128| r@ == #[trigger] hex(n as nat, 32),
{
    instance_id(random_number())
}

/// The variables that have to be set before anything is exported.
pub open spec fn export_configured(vars: Seq<(Seq<char>, Seq<char>)>) -> bool {
    &&& variable(vars, "OTEL_EXPORTER_OTLP_ENDPOINT"@) matches Some(v) && v.len() > 0
    &&& variable(vars, "OTEL_EXPORTER_OTLP_HEADERS"@) matches Some(v) && v.len() > 0
}

/// What every exported item says of where it comes from.
pub open spec fn resource(
    vars: Seq<(Seq<char>, Seq<char>)>,
    version: Seq<char>,
    build_id: Seq<char>,
    instance: Seq<char>,
) -> Seq<AttributeView> {
    seq![
        text_of("service.namespace"@, "ashe"@),
        text_of("service.name"@, "ashe-worker"@),
        text_of("service.version"@, build_id),
        text_of("service.instance.id"@, instance),
        text_of(
            "deployment.environment.name"@,
            text_or(vars, "ASHE_WORKER_ENV"@, "development"@),
        ),
        text_of("ashe.worker.app_version"@, version),
    ]
}

fn is_set(env: &Environment, name: &str) -> (r: bool)
    ensures
        r == (variable(env@, name@) matches Some(v) && v.len() > 0),
{
    match env.var(name) {
        Some(value) => chars_of(&value).len() > 0,
        None => false,
    }
}

/// The resource to export under, or nothing where exporting is not set up.
pub fn resource_attributes(env: &Environment, version: &str, build_id: &str, instance: &str) -> (r:
    Option<Vec<Attribute>>)
    ensures
        match r {
            Some(attributes) => export_configured(env@) && attribute_views(attributes@) == resource(
                env@,
                version@,
                build_id@,
                instance@,
            ),
            None => !export_configured(env@),
        },
{
    if !is_set(env, "OTEL_EXPORTER_OTLP_ENDPOINT") || !is_set(env, "OTEL_EXPORTER_OTLP_HEADERS") {
        return None;
    }
    let environment: String = env.var_or("ASHE_WORKER_ENV", "development");
    let mut attributes: Vec<Attribute> = Vec::new();
    self::add(&mut attributes, "service.namespace", "ashe");
    self::add(&mut attributes, "service.name", "ashe-worker");
    self::add(&mut attributes, "service.version", build_id);
    self::add(&mut attributes, "service.instance.id", instance);
    self::add(&mut attributes, "deployment.environment.name", &environment);
    self::add(&mut attributes, "ashe.worker.app_version", version);
    assert(attribute_views(attributes@) =~= resource(env@, version@, build_id@, instance@));
    Some(attributes)
}

/// One item for an exporter.
pub enum Signal {
    /// A span that starts and ends at once.
    Span { name: &'static str, attributes: Vec<Attribute> },
    /// One more on a counter.
    Count { name: &'static str, attributes: Vec<Attribute> },
    /// A record at info level whose body is its name.
    Record { name: &'static str, attributes: Vec<Attribute> },
}

pub enum SignalView {
    Span { name: Seq<char>, attributes: Seq<AttributeView> },
    Count { name: Seq<char>, attributes: Seq<AttributeView> },
    Record { name: Seq<char>, attributes: Seq<AttributeView> },
}

impl View for Signal {
    type V = SignalView;

    open spec fn view(&self) -> SignalView {
        match self {
            Signal::Span { name, attributes } => SignalView::Span {
                name: name@,
                attributes: attribute_views(attributes@),
            },
            Signal::Count { name, attributes } => SignalView::Count {
                name: name@,
                attributes: attribute_views(attributes@),
            },
            Signal::Record { name, attributes } => SignalView::Record {
                name: name@,
                attributes: attribute_views(attributes@),
            },
        }
    }
}

pub open spec fn signal_views(signals: Seq<Signal>) -> Seq<SignalView> {
    signals.map_values(|s: Signal| s@)
}

/// `item` as a sequence, or nothing where its exporter is missing.
pub open spec fn if_present(present: bool, item: SignalView) -> Seq<SignalView> {
    if present {
        seq![item]
    } else {
        Seq::empty()
    }
}

/// Which exporters could be built.
#[derive(Clone, Copy, Debug, PartialEq, Eq, Structural)]
pub struct Telemetry {
    pub traces: bool,
    pub metrics: bool,
    pub logs: bool,
}

impl Telemetry {
    /// The signals of a start: a span, a count and a record, each where its
    /// exporter is there.
    pub open spec fn start_signals(self) -> Seq<SignalView> {
        let phase = seq![text_of("ashe.worker.lifecycle.phase"@, "start"@)];
        if_present(
            self.traces,
            SignalView::Span { name: "ashe.worker.lifecycle.start"@, attributes: phase },
        ) + if_present(
            self.metrics,
            SignalView::Count { name: "ashe.worker.lifecycle.count"@, attributes: phase },
        ) + if_present(
            self.logs,
            SignalView::Record { name: "ashe.worker.service.started"@, attributes: Seq::empty() },
        )
    }

    /// The signals of a qualification canary; span and record share the
    /// correlation id.
    pub open spec fn canary_signals(self, correlation_id: Seq<char>) -> Seq<SignalView> {
        let marks = seq![
            text_of("ashe.worker.telemetry.correlation_id"@, correlation_id),
            text_of("ashe.worker.lifecycle.phase"@, "qualification"@),
        ];
        if_present(
            self.traces,
            SignalView::Span { name: "ashe.worker.qualification.canary"@, attributes: marks },
        ) + if_present(
            self.metrics,
            SignalView::Count {
                name: "ashe.worker.qualification.canary.count"@,
                attributes: Seq::empty(),
            },
        ) + if_present(
            self.logs,
            SignalView::Record { name: "ashe.worker.qualification.canary"@, attributes: marks },
        )
    }

    /// The resource to build the exporters with, under a fresh instance id,
    /// or nothing where exporting is not set up.
    pub fn initialize(env: &Environment, version: &str, build_id: &str) -> (r: Option<
        Vec<Attribute>,
    >)
        ensures
            match r {
                Some(attributes) => export_configured(env@) && exists|n: u128|
                    attribute_views(attributes@) == resource(
                        env@,
                        version@,
                        build_id@,
                        #[trigger] hex(n as nat, 32),
                    ),
                None => !export_configured(env@),
            },
    {
        let id: String = process_instance_id();
        resource_attributes(env, version, build_id, &id)
    }

    pub fn is_enabled(&self) -> (r: bool)
        ensures
            r == (self.traces && self.metrics && self.logs),
    {
        self.traces && self.metrics && self.logs
    }

    /// What to send once the exporters are built.
    pub fn started(&self) -> (r: Vec<Signal>)
        ensures
            signal_views(r@) == self.start_signals(),
    {
        let mut signals: Vec<Signal> = Vec::new();
        if self.traces {
            let mut attributes: Vec<Attribute> = Vec::new();
            self::add(&mut attributes, "ashe.worker.lifecycle.phase", "start");
            signals.push(Signal::Span { name: "ashe.worker.lifecycle.start", attributes });
        }
        if self.metrics {
            let mut attributes: Vec<Attribute> = Vec::new();
            self::add(&mut attributes, "ashe.worker.lifecycle.phase", "start");
            signals.push(Signal::Count { name: "ashe.worker.lifecycle.count", attributes });
        }
        if self.logs {
            let attributes: Vec<Attribute> = Vec::new();
            signals.push(Signal::Record { name: "ashe.worker.service.started", attributes });
        }
        proof {
            let phase = seq![text_of("ashe.worker.lifecycle.phase"@, "start"@)];
            assert(attribute_views(Seq::<Attribute>::empty()) =~= Seq::empty());
            assert(Seq::<AttributeView>::empty().push(phase[0]) =~= phase);
            assert(signal_views(signals@) =~= self.start_signals());
        }
        signals
    }

    /// What to send as a qualification canary.
    pub fn qualification(&self, correlation_id: &str) -> (r: Vec<Signal>)
        ensures
            signal_views(r@) == self.canary_signals(correlation_id@),
    {
        let mut signals: Vec<Signal> = Vec::new();
        let name: &'static str = "ashe.worker.qualification.canary";
        if self.traces {
            signals.push(Signal::Span { name, attributes: canary_marks(correlation_id) });
        }
        if self.metrics {
            let attributes: Vec<Attribute> = Vec::new();
            signals.push(
                Signal::Count { name: "ashe.worker.qualification.canary.count", attributes },
            );
        }
        if self.logs {
            signals.push(Signal::Record { name, attributes: canary_marks(correlation_id) });
        }
        proof {
            assert(attribute_views(Seq::<Attribute>::empty()) =~= Seq::empty());
            assert(signal_views(signals@) =~= self.canary_signals(correlation_id@));
        }
        signals
    }

    /// A qualification canary under a fresh correlation id.
    pub fn emit_qualification(&self) -> (r: Vec<Signal>)
        ensures
            exists|n: u128|
                signal_views(r@) == self.canary_signals(#[trigger] hex(n as nat, 32)),
    {
        let id: String = process_instance_id();
        self.qualification(&id)
    }
}

fn canary_marks(correlation_id: &str) -> (r: Vec<Attribute>)
    ensures
        attribute_views(r@) == seq![
            text_of("ashe.worker.telemetry.correlation_id"@, correlation_id@),
            text_of("ashe.worker.lifecycle.phase"@, "qualification"@),
        ],
{
    let mut attributes: Vec<Attribute> = Vec::new();
    self::add(&mut attributes, "ashe.worker.telemetry.correlation_id", correlation_id);
    self::add(&mut attributes, "ashe.worker.lifecycle.phase", "qualification");
    attributes
}

/// What a span stands for.
#[derive(Clone, Copy, Debug, PartialEq, Eq, Structural)]
pub enum SpanKind {
    /// Work inside the program.
    Internal,
    /// A request to a service.
    Client,
}

/// How a span starts.
pub struct SpanStart {
    pub name: &'static str,
    pub kind: SpanKind,
    pub attributes: Vec<Attribute>,
}

pub struct SpanStartView {
    pub name: Seq<char>,
    pub kind: SpanKind,
    pub attributes: Seq<AttributeView>,
}

impl View for SpanStart {
    type V = SpanStartView;

    open spec fn view(&self) -> SpanStartView {
        SpanStartView {
            name: self.name@,
            kind: self.kind,
            attributes: attribute_views(self.attributes@),
        }
    }
}

/// Something that happens during a span.
pub struct SpanEvent {
    pub name: &'static str,
    pub attributes: Vec<Attribute>,
}

pub struct SpanEventView {
    pub name: Seq<char>,
    pub attributes: Seq<AttributeView>,
}

impl View for SpanEvent {
    type V = SpanEventView;

    open spec fn view(&self) -> SpanEventView {
        SpanEventView { name: self.name@, attributes: attribute_views(self.attributes@) }
    }
}

/// How a span ends.
pub struct SpanEnd {
    pub attributes: Vec<Attribute>,
    /// The description of an error status, or nothing for success.
    pub error: Option<&'static str>,
}

pub struct SpanEndView {
    pub attributes: Seq<AttributeView>,
    pub error: Option<Seq<char>>,
}

impl View for SpanEnd {
    type V = SpanEndView;

    open spec fn view(&self) -> SpanEndView {
        SpanEndView {
            attributes: attribute_views(self.attributes@),
            error: match self.error {
                Some(e) => Some(e@),
                None => None,
            },
        }
    }
}

/// `end` unless it came before.
pub open spec fn once(ended: bool, end: SpanEndView) -> Option<SpanEndView> {
    if ended {
        None
    } else {
        Some(end)
    }
}

pub open spec fn end_view(end: Option<SpanEnd>) -> Option<SpanEndView> {
    match end {
        Some(e) => Some(e@),
        None => None,
    }
}

/// The end of a voice session's span.
pub open spec fn session_end(success: bool, reason: Seq<char>) -> SpanEndView {
    let marks = seq![
        text_of(
            "ashe.worker.outcome"@,
            if success {
                "success"@
            } else {
                "error"@
            },
        ),
        text_of("ashe.worker.voice.close_reason"@, reason),
    ];
    if success {
        SpanEndView { attributes: marks, error: None }
    } else {
        SpanEndView {
            attributes: marks.push(text_of("error.type"@, "operational"@)),
            error: Some("operational"@),
        }
    }
}

/// The end of a request's span.
pub open spec fn dependency_end(
    status_code: Option<u16>,
    outcome: Seq<char>,
    error_type: Option<Seq<char>>,
) -> SpanEndView {
    let outcome = seq![text_of("ashe.worker.outcome"@, outcome)];
    let status = match status_code {
        Some(code) => seq![
            AttributeView::Number { key: "http.response.status_code"@, number: code as int },
        ],
        None => Seq::empty(),
    };
    let error = match error_type {
        Some(e) => seq![text_of("error.type"@, e)],
        None => Seq::empty(),
    };
    SpanEndView { attributes: outcome + status + error, error: error_type }
}

/// The span of a voice session, which ends once.
pub struct VoiceSessionTelemetry {
    ended: bool,
}

impl View for VoiceSessionTelemetry {
    type V = bool;

    closed spec fn view(&self) -> bool {
        self.ended
    }
}

impl VoiceSessionTelemetry {
    /// A new span, and how it starts.
    pub fn start() -> (r: (Self, SpanStart))
        ensures
            !r.0@,
            r.1@ == (SpanStartView {
                name: "ashe.worker.voice.session"@,
                kind: SpanKind::Internal,
                attributes: seq![text_of("ashe.worker.operation"@, "voice.session"@)],
            }),
    {
        let mut attributes: Vec<Attribute> = Vec::new();
        self::add(&mut attributes, "ashe.worker.operation", "voice.session");
        assert(attribute_views(attributes@) =~= seq![
            text_of("ashe.worker.operation"@, "voice.session"@),
        ]);
        (
            VoiceSessionTelemetry { ended: false },
            SpanStart {
                name: "ashe.worker.voice.session",
                kind: SpanKind::Internal,
                attributes,
            },
        )
    }

    /// The event that marks a phase.
    pub fn phase(&self, phase: &'static str) -> (r: SpanEvent)
        ensures
            r@ == (SpanEventView {
                name: "ashe.worker.voice.phase"@,
                attributes: seq![text_of("ashe.worker.voice.phase"@, phase@)],
            }),
    {
        let mut attributes: Vec<Attribute> = Vec::new();
        self::add(&mut attributes, "ashe.worker.voice.phase", phase);
        assert(attribute_views(attributes@) =~= seq![text_of("ashe.worker.voice.phase"@, phase@)]);
        SpanEvent { name: "ashe.worker.voice.phase", attributes }
    }

    /// A request's span inside this one, and how it starts.
    pub fn dependency(&self, method: &'static str, route: &'static str) -> (r: (
        VoiceDependencyTelemetry,
        SpanStart,
    ))
        ensures
            !r.0@,
            r.1@ == (SpanStartView {
                name: "ashe.worker.assistant.request"@,
                kind: SpanKind::Client,
                attributes: seq![
                    text_of("ashe.worker.operation"@, "assistant.request"@),
                    text_of("http.request.method"@, method@),
                    text_of("http.route"@, route@),
                ],
            }),
    {
        let mut attributes: Vec<Attribute> = Vec::new();
        self::add(&mut attributes, "ashe.worker.operation", "assistant.request");
        self::add(&mut attributes, "http.request.method", method);
        self::add(&mut attributes, "http.route", route);
        assert(attribute_views(attributes@) =~= seq![
            text_of("ashe.worker.operation"@, "assistant.request"@),
            text_of("http.request.method"@, method@),
            text_of("http.route"@, route@),
        ]);
        (
            VoiceDependencyTelemetry { ended: false },
            SpanStart {
                name: "ashe.worker.assistant.request",
                kind: SpanKind::Client,
                attributes,
            },
        )
    }

    /// End the span, unless it has ended.
    pub fn end(&mut self, success: bool, reason: &'static str) -> (r: Option<SpanEnd>)
        ensures
            final(self)@,
            end_view(r) == once(old(self)@, session_end(success, reason@)),
    {
        if self.ended {
            return None;
        }
        self.ended = true;
        let mut attributes: Vec<Attribute> = Vec::new();
        self::add(
            &mut attributes,
            "ashe.worker.outcome",
            if success {
                "success"
            } else {
                "error"
            },
        );
        self::add(&mut attributes, "ashe.worker.voice.close_reason", reason);
        if !success {
            self::add(&mut attributes, "error.type", "operational");
        }
        let error: Option<&'static str> = if success {
            None
        } else {
            Some("operational")
        };
        assert(attribute_views(attributes@) =~= session_end(success, reason@).attributes);
        Some(SpanEnd { attributes, error })
    }

    pub fn finish(self, success: bool, reason: &'static str) -> (r: Option<SpanEnd>)
        ensures
            end_view(r) == once(self@, session_end(success, reason@)),
    {
        let mut span: VoiceSessionTelemetry = self;
        span.end(success, reason)
    }

    /// End a span that is let go: a failure, unless it has ended.
    pub fn dropped(&mut self) -> (r: Option<SpanEnd>)
        ensures
            final(self)@,
            end_view(r) == once(old(self)@, session_end(false, "operational_error"@)),
    {
        self.end(false, "operational_error")
    }
}

/// The span of one request, which ends once.
pub struct VoiceDependencyTelemetry {
    ended: bool,
}

impl View for VoiceDependencyTelemetry {
    type V = bool;

    closed spec fn view(&self) -> bool {
        self.ended
    }
}

pub open spec fn error_view(error_type: Option<&'static str>) -> Option<Seq<char>> {
    match error_type {
        Some(e) => Some(e@),
        None => None,
    }
}

impl VoiceDependencyTelemetry {
    /// End the span, unless it has ended.
    pub fn end(
        &mut self,
        status_code: Option<u16>,
        outcome: &'static str,
        error_type: Option<&'static str>,
    ) -> (r: Option<SpanEnd>)
        ensures
            final(self)@,
            end_view(r) == once(
                old(self)@,
                dependency_end(status_code, outcome@, error_view(error_type)),
            ),
    {
        if self.ended {
            return None;
        }
        self.ended = true;
        let mut attributes: Vec<Attribute> = Vec::new();
        self::add(&mut attributes, "ashe.worker.outcome", outcome);
        if let Some(code) = status_code {
            let ghost before = attribute_views(attributes@);
            attributes.push(
                Attribute {
                    key: "http.response.status_code",
                    value: AttributeValue::Number(code as i64),
                },
            );
            assert(attribute_views(attributes@) =~= before.push(
                AttributeView::Number { key: "http.response.status_code"@, number: code as int },
            ));
        }
        if let Some(error) = error_type {
            self::add(&mut attributes, "error.type", error);
        }
        assert(attribute_views(attributes@) =~= dependency_end(
            status_code,
            outcome@,
            error_view(error_type),
        ).attributes);
        Some(SpanEnd { attributes, error: error_type })
    }

    pub fn finish(
        self,
        status_code: Option<u16>,
        outcome: &'static str,
        error_type: Option<&'static str>,
    ) -> (r: Option<SpanEnd>)
        ensures
            end_view(r) == once(
                self@,
                dependency_end(status_code, outcome@, error_view(error_type)),
            ),
    {
        let mut span: VoiceDependencyTelemetry = self;
        span.end(status_code, outcome, error_type)
    }

    /// End a span that is let go: a failed dependency, unless it has ended.
    pub fn dropped(&mut self) -> (r: Option<SpanEnd>)
        ensures
            final(self)@,
            end_view(r) == once(
                old(self)@,
                dependency_end(None, "error"@, Some("dependency"@)),
            ),
    {
        self.end(None, "error", Some("dependency"))
    }
}

/// Nothing is exported before both an address and its headers are set.
pub proof fn exports_need_an_address_and_headers(vars: Seq<(Seq<char>, Seq<char>)>)
    ensures
        ({
            let set = |name: Seq<char>| variable(vars, name) matches Some(v) && v.len() > 0;
            export_configured(vars) <==> set("OTEL_EXPORTER_OTLP_ENDPOINT"@) && set(
                "OTEL_EXPORTER_OTLP_HEADERS"@,
            )
        }),
{
}

/// Everything exported says which service, version, build, instance and
/// environment it comes from; the environment is development unless another
/// one is named.
pub proof fn resources_name_their_origin(
    vars: Seq<(Seq<char>, Seq<char>)>,
    version: Seq<char>,
    build_id: Seq<char>,
    instance: Seq<char>,
)
    ensures
        ({
            let all = resource(vars, version, build_id, instance);
            let says = |key: Seq<char>, value: Seq<char>|
                all.contains(AttributeView::Text { key, value });
            &&& all.len() == 6
            &&& says("service.namespace"@, "ashe"@)
            &&& says("service.name"@, "ashe-worker"@)
            &&& says("service.version"@, build_id)
            &&& says("service.instance.id"@, instance)
            &&& says("ashe.worker.app_version"@, version)
            &&& says(
                "deployment.environment.name"@,
                match variable(vars, "ASHE_WORKER_ENV"@) {
                    Some(name) => name,
                    None => "development"@,
                },
            )
        }),
{
    let all = resource(vars, version, build_id, instance);
    assert(all[0] == text_of("service.namespace"@, "ashe"@));
    assert(all[1] == text_of("service.name"@, "ashe-worker"@));
    assert(all[2] == text_of("service.version"@, build_id));
    assert(all[3] == text_of("service.instance.id"@, instance));
    assert(all[4] == text_of(
        "deployment.environment.name"@,
        text_or(vars, "ASHE_WORKER_ENV"@, "development"@),
    ));
    assert(all[5] == text_of("ashe.worker.app_version"@, version));
}

/// Each exporter that is there gets its signal once, and one that is not gets
/// none: traces a span, metrics a count and logs a record, in this order.
pub proof fn signals_go_to_their_exporters(t: Telemetry, correlation_id: Seq<char>)
    ensures
        ({
            let total = (if t.traces {
                1int
            } else {
                0
            }) + (if t.metrics {
                1int
            } else {
                0
            }) + (if t.logs {
                1int
            } else {
                0
            });
            let start = t.start_signals();
            let canary = t.canary_signals(correlation_id);
            &&& start.len() == total && canary.len() == total
            &&& t.traces ==> start[0] is Span && canary[0] is Span
            &&& t.logs ==> start.last() is Record && canary.last() is Record
            &&& t.metrics && !t.logs ==> start.last() is Count && canary.last() is Count
            &&& t.metrics && !t.traces ==> start[0] is Count && canary[0] is Count
            &&& t.metrics && t.traces ==> start[1] is Count && canary[1] is Count
        }),
{
}

/// The span and the record of a canary carry the same correlation id, so that
/// one finds the other.
pub proof fn canaries_are_correlated(t: Telemetry, correlation_id: Seq<char>, i: int)
    requires
        0 <= i < t.canary_signals(correlation_id).len(),
    ensures
        ({
            let mark = text_of("ashe.worker.telemetry.correlation_id"@, correlation_id);
            match t.canary_signals(correlation_id)[i] {
                SignalView::Span { attributes, .. } => attributes.contains(mark),
                SignalView::Record { attributes, .. } => attributes.contains(mark),
                SignalView::Count { attributes, .. } => attributes.len() == 0,
            }
        }),
{
    let mark = text_of("ashe.worker.telemetry.correlation_id"@, correlation_id);
    let marks = seq![mark, text_of("ashe.worker.lifecycle.phase"@, "qualification"@)];
    assert(marks[0] == mark);
}

/// A span ends once, as its operation did: an error status comes exactly with
/// a failure, and the outcome and the reason are told either way.
pub proof fn spans_end_as_they_went(success: bool, reason: Seq<char>, end: SpanEndView)
    ensures
        ({
            let told = session_end(success, reason);
            let says = |key: Seq<char>, value: Seq<char>|
                told.attributes.contains(AttributeView::Text { key, value });
            &&& told.error is None <==> success
            &&& success ==> says("ashe.worker.outcome"@, "success"@) && told.attributes.len() == 2
            &&& !success ==> says("ashe.worker.outcome"@, "error"@) && says(
                "error.type"@,
                "operational"@,
            )
            &&& says("ashe.worker.voice.close_reason"@, reason)
        }),
        once(true, end) is None,
        once(false, end) == Some(end),
{
    let told = session_end(success, reason).attributes;
    assert(told[0] == text_of(
        "ashe.worker.outcome"@,
        if success {
            "success"@
        } else {
            "error"@
        },
    ));
    assert(told[1] == text_of("ashe.worker.voice.close_reason"@, reason));
    if !success {
        assert(told[2] == text_of("error.type"@, "operational"@));
    }
}

/// The span of a request tells its outcome, the status where there was an
/// answer, and the kind of error where there was one, which is its status.
pub proof fn requests_end_as_they_went(
    code: u16,
    outcome: Seq<char>,
    error: Seq<char>,
)
    ensures
        ({
            let status = AttributeView::Number {
                key: "http.response.status_code"@,
                number: code as int,
            };
            let told = text_of("ashe.worker.outcome"@, outcome);
            let kind = text_of("error.type"@, error);
            &&& dependency_end(None, outcome, None).attributes == seq![told]
            &&& dependency_end(Some(code), outcome, None).attributes == seq![told, status]
            &&& dependency_end(None, outcome, Some(error)).attributes == seq![told, kind]
            &&& dependency_end(Some(code), outcome, Some(error)).attributes == seq![
                told,
                status,
                kind,
            ]
            &&& dependency_end(Some(code), outcome, None).error is None
            &&& dependency_end(Some(code), outcome, Some(error)).error == Some(error)
            &&& dependency_end(None, outcome, Some(error)).error == Some(error)
        }),
{
}

/// An identifier is made of lowercase hexadecimal digits.
pub proof fn identifiers_are_hexadecimal(n: nat, width: nat, i: int)
    requires
        0 <= i < width,
    ensures
        hex(n, width).len() == width,
        '0' <= hex(n, width)[i] <= '9' || 'a' <= hex(n, width)[i] <= 'f',
    decreases width,
{
    let shorter = (width - 1) as nat;
    if i < shorter {
        identifiers_are_hexadecimal(n / 16, shorter, i);
    } else if shorter > 0 {
        identifiers_are_hexadecimal(n / 16, shorter, 0);
    } else {
        assert(hex(n / 16, shorter).len() == 0);
    }
}

} // verus!

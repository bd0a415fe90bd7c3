use ashe_worker::config::Environment;
use ashe_worker::logger::{Severity, classify, info};
use ashe_worker::observability::{
    Attribute, AttributeValue, SCOPE, Signal, SpanKind, Telemetry, VoiceSessionTelemetry,
    instance_id, process_instance_id, resource_attributes,
};

fn shown(attributes: &[Attribute]) -> Vec<(String, String)> {
    attributes
        .iter()
        .map(|attribute| {
            let value = match &attribute.value {
                AttributeValue::Text(text) => text.clone(),
                AttributeValue::Number(number) => number.to_string(),
            };
            (attribute.key.to_string(), value)
        })
        .collect()
}

fn pairs(expected: &[(&str, &str)]) -> Vec<(String, String)> {
    expected
        .iter()
        .map(|(key, value)| (key.to_string(), value.to_string()))
        .collect()
}

fn environment(vars: &[(&str, &str)]) -> Environment {
    Environment { vars: pairs(vars) }
}

#[test]
fn classification_is_bounded_and_does_not_return_source_text() {
    assert_eq!(
        classify("Ashe voice failed: bearer secret and local path"),
        ("voice", "error", Severity::Error)
    );
    assert_eq!(
        classify("Clipboard image paste ignored while busy"),
        ("clipboard", "rejected", Severity::Warn)
    );
}

#[test]
fn every_class_is_reached() {
    for (message, operation) in [
        ("Transcription completed", "dictation"),
        ("AUDIO capture started", "audio"),
        ("hotkey registered", "input"),
        ("keyboard hook", "input"),
        ("paste", "clipboard"),
        ("archive sealed", "archive"),
        ("daily report", "activity"),
        ("journal", "activity"),
        ("window ready", "interface"),
        ("Config reloaded", "configuration"),
        ("text action", "text_action"),
        ("grammar", "text_action"),
        ("hello", "runtime"),
        ("", "runtime"),
    ] {
        assert_eq!(classify(message).0, operation);
    }
    for word in ["ignored", "unavailable", "disabled", "already", "threshold"] {
        assert_eq!(classify(word), ("runtime", "rejected", Severity::Warn));
    }
    for word in ["failed", "an ERROR", "panicked"] {
        assert_eq!(classify(word).1, "error");
    }
    assert_eq!(classify("done"), ("runtime", "success", Severity::Info));
}

#[test]
fn failures_carry_an_error_type() {
    let failed = info("voice failed");
    assert_eq!(failed.error_type, Some("operational"));
    assert_eq!(failed.operation, "voice");
    assert_eq!(
        shown(&failed.attributes()),
        pairs(&[
            ("ashe.worker.operation", "voice"),
            ("ashe.worker.outcome", "error"),
            ("error.type", "operational"),
        ])
    );
    assert_eq!(info("voice started").attributes().len(), 2);
    let done = info("voice started");
    assert_eq!(done.error_type, None);
    assert_eq!(done.outcome, "success");
}

#[test]
fn identifiers_spell_their_number() {
    assert_eq!(instance_id(0), "0".repeat(32));
    assert_eq!(instance_id(0xdead_beef), format!("{:032x}", 0xdead_beefu128));
    assert_eq!(instance_id(u128::MAX), "f".repeat(32));
}

#[test]
fn process_identifiers_are_fresh() {
    let first = process_instance_id();
    let second = process_instance_id();
    assert_eq!(first.len(), 32);
    assert!(first.chars().all(|c| c.is_ascii_hexdigit()));
    assert_ne!(first, second);
}

#[test]
fn exporting_needs_endpoint_and_headers() {
    let none = |vars: &[(&str, &str)]| {
        resource_attributes(&environment(vars), "1.0", "b7", "id").is_none()
    };
    assert!(none(&[]));
    assert!(none(&[("OTEL_EXPORTER_OTLP_ENDPOINT", "https://o.test")]));
    assert!(none(&[
        ("OTEL_EXPORTER_OTLP_ENDPOINT", "https://o.test"),
        ("OTEL_EXPORTER_OTLP_HEADERS", ""),
    ]));
    let env = environment(&[
        ("OTEL_EXPORTER_OTLP_ENDPOINT", "https://o.test"),
        ("OTEL_EXPORTER_OTLP_HEADERS", "a=b"),
    ]);
    let attributes = resource_attributes(&env, "1.0", "b7", "id").unwrap();
    assert_eq!(
        shown(&attributes),
        pairs(&[
            ("service.namespace", "ashe"),
            ("service.name", "ashe-worker"),
            ("service.version", "b7"),
            ("service.instance.id", "id"),
            ("deployment.environment.name", "development"),
            ("ashe.worker.app_version", "1.0"),
        ])
    );
    assert!(Telemetry::initialize(&env, "1.0", "b7").is_some());
    assert!(Telemetry::initialize(&environment(&[]), "1.0", "b7").is_none());
}

#[test]
fn signals_go_to_the_exporters_that_are_there() {
    let all = Telemetry {
        traces: true,
        metrics: true,
        logs: true,
    };
    assert!(all.is_enabled());
    assert_eq!(all.started().len(), 3);
    let some = Telemetry {
        traces: false,
        metrics: false,
        logs: true,
    };
    assert!(!some.is_enabled());
    let signals = some.qualification("c1");
    assert_eq!(signals.len(), 1);
    match &signals[0] {
        Signal::Record { name, attributes } => {
            assert_eq!(*name, "ashe.worker.qualification.canary");
            assert_eq!(
                shown(attributes),
                pairs(&[
                    ("ashe.worker.telemetry.correlation_id", "c1"),
                    ("ashe.worker.lifecycle.phase", "qualification"),
                ])
            );
        }
        _ => panic!("a record is expected"),
    }
    assert_eq!(all.emit_qualification().len(), 3);
}

#[test]
fn sessions_end_once() {
    assert_eq!(SCOPE, "ashe-worker");
    let (mut session, start) = VoiceSessionTelemetry::start();
    assert_eq!(start.name, "ashe.worker.voice.session");
    assert_eq!(start.kind, SpanKind::Internal);
    assert_eq!(
        shown(&start.attributes),
        pairs(&[("ashe.worker.operation", "voice.session")])
    );
    let event = session.phase("connected");
    assert_eq!(event.name, "ashe.worker.voice.phase");
    assert_eq!(
        shown(&event.attributes),
        pairs(&[("ashe.worker.voice.phase", "connected")])
    );
    let end = session.end(true, "stopped").unwrap();
    assert_eq!(
        shown(&end.attributes),
        pairs(&[
            ("ashe.worker.outcome", "success"),
            ("ashe.worker.voice.close_reason", "stopped"),
        ])
    );
    assert_eq!(end.error, None);
    assert!(session.dropped().is_none());
    assert!(session.finish(false, "late").is_none());
}

#[test]
fn dropped_spans_end_as_failures() {
    let (mut session, _) = VoiceSessionTelemetry::start();
    let (mut request, start) = session.dependency("POST", "/v1/session");
    assert_eq!(start.name, "ashe.worker.assistant.request");
    assert_eq!(start.kind, SpanKind::Client);
    assert_eq!(
        shown(&start.attributes),
        pairs(&[
            ("ashe.worker.operation", "assistant.request"),
            ("http.request.method", "POST"),
            ("http.route", "/v1/session"),
        ])
    );
    let end = request.dropped().unwrap();
    assert_eq!(
        shown(&end.attributes),
        pairs(&[
            ("ashe.worker.outcome", "error"),
            ("error.type", "dependency"),
        ])
    );
    assert_eq!(end.error, Some("dependency"));
    assert!(request.end(Some(200), "success", None).is_none());
    let end = session.dropped().unwrap();
    assert_eq!(
        shown(&end.attributes),
        pairs(&[
            ("ashe.worker.outcome", "error"),
            ("ashe.worker.voice.close_reason", "operational_error"),
            ("error.type", "operational"),
        ])
    );
    let (session, _) = VoiceSessionTelemetry::start();
    let (request, _) = session.dependency("DELETE", "/v1/session");
    let end = request.finish(Some(204), "success", None).unwrap();
    assert_eq!(
        shown(&end.attributes),
        pairs(&[
            ("ashe.worker.outcome", "success"),
            ("http.response.status_code", "204"),
        ])
    );
    assert_eq!(end.error, None);
}

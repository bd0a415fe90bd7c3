//! Log messages reduced to a bounded vocabulary.
//!
//! Messages may quote paths, errors and credentials, so only their class
//! leaves the process.

use vstd::prelude::*;

use crate::observability::{Attribute, AttributeView, attribute_views, text_of};
use crate::text::{ascii_lowered, chars_of, contains_word, holds_word, lower_ascii};

verus! {

/// Name and body of every record.
pub const RECORD_NAME: &'static str = "ashe.worker.operation";

#[derive(Clone, Copy, Debug, PartialEq, Eq, Structural)]
pub enum Severity {
    Info,
    Warn,
    Error,
}

/// The part of the program that a lowercase message is about: the first of
/// these classes that one of its words points at.
pub open spec fn operation_of(lower: Seq<char>) -> Seq<char> {
    if holds_word(lower, "voice"@) {
        "voice"@
    } else if holds_word(lower, "dictation"@) || holds_word(lower, "transcription"@) {
        "dictation"@
    } else if holds_word(lower, "audio"@) {
        "audio"@
    } else if holds_word(lower, "hotkey"@) || holds_word(lower, "keyboard"@) {
        "input"@
    } else if holds_word(lower, "clipboard"@) || holds_word(lower, "paste"@) {
        "clipboard"@
    } else if holds_word(lower, "archive"@) {
        "archive"@
    } else if holds_word(lower, "activity"@) || holds_word(lower, "report"@) || holds_word(
        lower,
        "journal"@,
    ) {
        "activity"@
    } else if holds_word(lower, "overlay"@) || holds_word(lower, "window"@) {
        "interface"@
    } else if holds_word(lower, "config"@) {
        "configuration"@
    } else if holds_word(lower, "text action"@) || holds_word(lower, "grammar"@) || holds_word(
        lower,
        "question"@,
    ) {
        "text_action"@
    } else {
        "runtime"@
    }
}

/// How a lowercase message says that it went.
pub open spec fn severity_of(lower: Seq<char>) -> Severity {
    if holds_word(lower, "failed"@) || holds_word(lower, "error"@) || holds_word(lower, "panic"@) {
        Severity::Error
    } else if holds_word(lower, "ignored"@) || holds_word(lower, "unavailable"@) || holds_word(
        lower,
        "disabled"@,
    ) || holds_word(lower, "already"@) || holds_word(lower, "threshold"@) {
        Severity::Warn
    } else {
        Severity::Info
    }
}

/// The outcome that goes with a severity.
pub open spec fn outcome_of(severity: Severity) -> Seq<char> {
    match severity {
        Severity::Error => "error"@,
        Severity::Warn => "rejected"@,
        Severity::Info => "success"@,
    }
}

fn operation(lower: &[char]) -> (r: &'static str)
    ensures
        r@ == operation_of(lower@),
{
    if contains_word(lower, "voice") {
        "voice"
    } else if contains_word(lower, "dictation") || contains_word(lower, "transcription") {
        "dictation"
    } else if contains_word(lower, "audio") {
        "audio"
    } else if contains_word(lower, "hotkey") || contains_word(lower, "keyboard") {
        "input"
    } else if contains_word(lower, "clipboard") || contains_word(lower, "paste") {
        "clipboard"
    } else if contains_word(lower, "archive") {
        "archive"
    } else if contains_word(lower, "activity") || contains_word(lower, "report") || contains_word(
        lower,
        "journal",
    ) {
        "activity"
    } else if contains_word(lower, "overlay") || contains_word(lower, "window") {
        "interface"
    } else if contains_word(lower, "config") {
        "configuration"
    } else if contains_word(lower, "text action") || contains_word(lower, "grammar")
        || contains_word(lower, "question") {
        "text_action"
    } else {
        "runtime"
    }
}

/// Operation, outcome and severity of a message.
pub fn classify(message: &str) -> (r: (&'static str, &'static str, Severity))
    ensures
        r.0@ == operation_of(ascii_lowered(message@)),
        r.1@ == outcome_of(r.2),
        r.2 == severity_of(ascii_lowered(message@)),
{
    let lower: Vec<char> = lower_ascii(&chars_of(message));
    let operation: &'static str = operation(&lower);
    if contains_word(&lower, "failed") || contains_word(&lower, "error") || contains_word(
        &lower,
        "panic",
    ) {
        (operation, "error", Severity::Error)
    } else if contains_word(&lower, "ignored") || contains_word(&lower, "unavailable")
        || contains_word(&lower, "disabled") || contains_word(&lower, "already") || contains_word(
        &lower,
        "threshold",
    ) {
        (operation, "rejected", Severity::Warn)
    } else {
        (operation, "success", Severity::Info)
    }
}

/// What is emitted for a message.
pub struct LogEntry {
    pub operation: &'static str,
    pub outcome: &'static str,
    pub severity: Severity,
    /// The `error.type` attribute of a failure.
    pub error_type: Option<&'static str>,
}

/// The record for a message.
pub fn info(message: &str) -> (r: LogEntry)
    ensures
        r.operation@ == operation_of(ascii_lowered(message@)),
        r.severity == severity_of(ascii_lowered(message@)),
        r.outcome@ == outcome_of(r.severity),
        r.severity is Error ==> (r.error_type matches Some(e) && e@ == "operational"@),
        !(r.severity is Error) ==> r.error_type is None,
{
    let (operation, outcome, severity) = classify(message);
    let error_type: Option<&'static str> = match severity {
        Severity::Error => Some("operational"),
        _ => None,
    };
    LogEntry { operation, outcome, severity, error_type }
}

impl LogEntry {
    /// The attributes of the record, in order.
    pub fn attributes(&self) -> (r: Vec<Attribute>)
        ensures
            attribute_views(r@) == seq![
                text_of("ashe.worker.operation"@, self.operation@),
                text_of("ashe.worker.outcome"@, self.outcome@),
            ] + match self.error_type {
                Some(error) => seq![text_of("error.type"@, error@)],
                None => Seq::<AttributeView>::empty(),
            },
    {
        let mut attributes: Vec<Attribute> = Vec::new();
        crate::observability::add(&mut attributes, "ashe.worker.operation", self.operation);
        crate::observability::add(&mut attributes, "ashe.worker.outcome", self.outcome);
        if let Some(error) = self.error_type {
            crate::observability::add(&mut attributes, "error.type", error);
        }
        assert(attribute_views(attributes@) =~= seq![
            text_of("ashe.worker.operation"@, self.operation@),
            text_of("ashe.worker.outcome"@, self.outcome@),
        ] + match self.error_type {
            Some(error) => seq![text_of("error.type"@, error@)],
            None => Seq::<AttributeView>::empty(),
        });
        attributes
    }
}

/// The words that `operation_of` can yield.
pub open spec fn operation_names() -> Set<Seq<char>> {
    set![
        "voice"@, "dictation"@, "audio"@, "input"@, "clipboard"@, "archive"@, "activity"@,
        "interface"@, "configuration"@, "text_action"@, "runtime"@
    ]
}

/// Classification is bounded: whatever a message says, its record is made of
/// words from a fixed list and never of its own text.
pub proof fn classification_is_bounded(message: Seq<char>)
    ensures
        operation_names().contains(operation_of(ascii_lowered(message))),
        set!["error"@, "rejected"@, "success"@].contains(
            outcome_of(severity_of(ascii_lowered(message))),
        ),
{
}

/// A message that speaks of a failure, an error or a panic is an error
/// whatever else it says; one that speaks of something ignored, unavailable,
/// disabled, already there or past a threshold is a warning; any other went
/// well.
pub proof fn failures_are_errors(lower: Seq<char>)
    ensures
        ({
            let says = |word: Seq<char>| holds_word(lower, word);
            let failed = says("failed"@) || says("error"@) || says("panic"@);
            let refused = says("ignored"@) || says("unavailable"@) || says("disabled"@) || says(
                "already"@,
            ) || says("threshold"@);
            &&& failed <==> severity_of(lower) is Error
            &&& !failed && refused <==> severity_of(lower) is Warn
            &&& !failed && !refused <==> severity_of(lower) is Info
            &&& failed ==> outcome_of(severity_of(lower)) == "error"@
            &&& !failed && refused ==> outcome_of(severity_of(lower)) == "rejected"@
            &&& !failed && !refused ==> outcome_of(severity_of(lower)) == "success"@
        }),
{
}

/// A message belongs to the part of the program that its words point at, and
/// where they point at several, to the first of these: voice, dictation,
/// audio, input, the clipboard, the archive, activity, the interface, the
/// configuration and text actions.
pub proof fn messages_belong_to_their_part(lower: Seq<char>)
    ensures
        ({
            let says = |word: Seq<char>| holds_word(lower, word);
            let voice = says("voice"@);
            let dictation = says("dictation"@) || says("transcription"@);
            let audio = says("audio"@);
            let input = says("hotkey"@) || says("keyboard"@);
            let clipboard = says("clipboard"@) || says("paste"@);
            let archive = says("archive"@);
            let activity = says("activity"@) || says("report"@) || says("journal"@);
            let interface = says("overlay"@) || says("window"@);
            let config = says("config"@);
            let action = says("text action"@) || says("grammar"@) || says("question"@);
            let part = operation_of(lower);
            &&& voice ==> part == "voice"@
            &&& !voice && dictation ==> part == "dictation"@
            &&& !(voice || dictation) && audio ==> part == "audio"@
            &&& !(voice || dictation || audio) && input ==> part == "input"@
            &&& !(voice || dictation || audio || input) && clipboard ==> part == "clipboard"@
            &&& !(voice || dictation || audio || input || clipboard) && archive ==> part
                == "archive"@
            &&& !(voice || dictation || audio || input || clipboard || archive) && activity ==> part
                == "activity"@
            &&& !(voice || dictation || audio || input || clipboard || archive || activity)
                && interface ==> part == "interface"@
            &&& !(voice || dictation || audio || input || clipboard || archive || activity
                || interface) && config ==> part == "configuration"@
            &&& !(voice || dictation || audio || input || clipboard || archive || activity
                || interface || config) && action ==> part == "text_action"@
            &&& !(voice || dictation || audio || input || clipboard || archive || activity
                || interface || config || action) ==> part == "runtime"@
        }),
{
}

} // verus!

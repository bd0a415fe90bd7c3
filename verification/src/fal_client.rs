//! Speech-to-text through a queue: submit, poll, fetch.
//!
//! The whole recording goes into one queue request as a Base64 data URI. The
//! queue answers with the follow-up URLs to poll and to fetch from.

use vstd::prelude::*;

use crate::config::{Environment, text_or};
use crate::json::{Json, JsonView, document, first_members_count, read_document};
use crate::spoken_punctuation::{apply_spoken_punctuation, punctuated};
use crate::stt::{
    CaptureError, Transcript, TranscriptView, TranscriptWord, WordView, capture_problem, wav_of,
    word_views, word_views_push,
};
use crate::text::{
    CharClass, chars_of, extend, is_blank, same_text, string_of, strip_ends, trim, trimmed,
};
use base64::Engine;

verus! {

/// Queue gateway; the model id is appended as the path.
pub const QUEUE_BASE_URL: &'static str = "https://queue.fal.run";

/// The speech-to-text model unless another one is configured. Input and output
/// shapes are those of this one.
pub const STT_MODEL: &'static str = "fal-ai/elevenlabs/speech-to-text/scribe-v2";

pub const WAV_DATA_URI_PREFIX: &'static str = "data:audio/wav;base64,";

/// Pause between queue status polls.
pub const POLL_INTERVAL_MS: u64 = 500;

/// Status polls before giving up, about ten minutes.
pub const POLL_ATTEMPTS: u32 = 1_200;

/// Submit requests sent at most.
pub const SUBMIT_ATTEMPTS: u32 = 2;

pub const SUBMIT_RETRY_DELAY_MS: u64 = 250;

/// The transcript that the queue delivers.
#[derive(Debug, PartialEq)]
pub struct FalTranscript {
    pub text: String,
    pub words: Vec<TranscriptWord>,
}

impl View for FalTranscript {
    type V = TranscriptView;

    open spec fn view(&self) -> TranscriptView {
        TranscriptView { text: self.text@, words: word_views(self.words@) }
    }
}

/// A word of the engine's output: it needs a text, and counts as content
/// unless it says otherwise.
pub open spec fn scribe_word(entry: JsonView) -> Option<WordView> {
    match entry.text_at("text"@) {
        None => None,
        Some(text) => Some(
            WordView {
                text,
                start: entry.number_at("start"@),
                end: entry.number_at("end"@),
                kind: match entry.text_at("type"@) {
                    Some(kind) => kind,
                    None => "word"@,
                },
            },
        ),
    }
}

/// The well-formed words, in order.
pub open spec fn scribe_words(entries: Seq<JsonView>) -> Seq<WordView>
    decreases entries.len(),
{
    if entries.len() == 0 {
        Seq::empty()
    } else {
        match scribe_word(entries.last()) {
            Some(word) => scribe_words(entries.drop_last()).push(word),
            None => scribe_words(entries.drop_last()),
        }
    }
}

/// The transcript in an output object: the trimmed text, and the words of a
/// list or of a single word object.
pub open spec fn scribe_transcript(output: JsonView) -> TranscriptView {
    TranscriptView {
        text: match output.text_at("text"@) {
            Some(text) => trimmed(text),
            None => Seq::empty(),
        },
        words: match output.get("words"@) {
            Some(JsonView::List(entries)) => scribe_words(entries),
            Some(JsonView::Object(members)) => match scribe_word(JsonView::Object(members)) {
                Some(word) => seq![word],
                None => Seq::empty(),
            },
            _ => Seq::empty(),
        },
    }
}

/// Read one word of the output.
pub fn parse_word(word: &Json) -> (r: Option<TranscriptWord>)
    ensures
        match r {
            Some(w) => scribe_word(word@) == Some(w@),
            None => scribe_word(word@) is None,
        },
{
    let text: String = match word.text_at("text") {
        Some(text) => text.clone(),
        None => {
            return None;
        },
    };
    let kind: String = match word.text_at("type") {
        Some(kind) => kind.clone(),
        None => "word".to_owned(),
    };
    Some(
        TranscriptWord { text, start: word.number_at("start"), end: word.number_at("end"), kind },
    )
}

fn parse_words(entries: &Vec<Json>) -> (r: Vec<TranscriptWord>)
    ensures
        word_views(r@) == scribe_words(Json::List(*entries)@->List_0),
{
    let ghost views = Json::List(*entries)@->List_0;
    let mut out: Vec<TranscriptWord> = Vec::new();
    let mut i: usize = 0;
    assert(word_views(out@) =~= scribe_words(views.take(0)));
    while i < entries.len()
        invariant
            i <= entries@.len(),
            views == Json::List(*entries)@->List_0,
            word_views(out@) == scribe_words(views.take(i as int)),
        decreases entries@.len() - i,
    {
        assert(views.take(i + 1).drop_last() =~= views.take(i as int));
        assert(views.take(i + 1).last() == entries@[i as int]@);
        if let Some(word) = parse_word(&entries[i]) {
            proof {
                word_views_push(out@, word);
            }
            out.push(word);
        }
        i += 1;
    }
    assert(views.take(i as int) =~= views);
    out
}

/// Read the transcript and word timeline from an output object.
pub fn extract_transcript(output: &Json) -> (r: FalTranscript)
    ensures
        r@ == scribe_transcript(output@),
{
    let text: String = match output.text_at("text") {
        Some(text) => trim(text),
        None => String::new(),
    };
    let mut words: Vec<TranscriptWord> = Vec::new();
    assert(word_views(words@) =~= Seq::empty());
    if let Some(found) = output.get("words") {
        match found {
            Json::List(entries) => {
                words = parse_words(entries);
            },
            Json::Object(_) => {
                if let Some(word) = parse_word(found) {
                    proof {
                        word_views_push(words@, word);
                    }
                    words.push(word);
                    assert(word_views(words@) =~= seq![word@]);
                }
            },
            _ => {},
        }
    }
    FalTranscript { text, words }
}

/// The transcript that dictation uses.
pub fn finished_transcript(fetched: FalTranscript, spoken_punctuation: bool) -> (r: Transcript)
    ensures
        r@ == if spoken_punctuation {
            punctuated(fetched@)
        } else {
            fetched@
        },
{
    let transcript = Transcript { text: fetched.text, words: fetched.words };
    if spoken_punctuation {
        apply_spoken_punctuation(&transcript)
    } else {
        transcript
    }
}

/// The value of the authorization header.
pub fn auth_header(api_key: &str) -> (r: String)
    ensures
        r@ == "Key "@ + trimmed(api_key@),
{
    let mut out: Vec<char> = chars_of("Key ");
    extend(&mut out, &strip_ends(&chars_of(api_key), CharClass::WhiteSpace));
    string_of(&out)
}

/// The speech-to-text model: `FAL_STT_MODEL`, or the default one where that is
/// not set.
pub fn stt_model(env: &Environment) -> (r: String)
    ensures
        r@ == text_or(env@, "FAL_STT_MODEL"@, STT_MODEL@),
{
    env.var_or("FAL_STT_MODEL", STT_MODEL)
}

/// The submit URL of a model: its id is the path at the gateway.
pub fn submit_url(model: &str) -> (r: String)
    ensures
        r@ == QUEUE_BASE_URL@ + "/"@ + model@,
{
    let mut out: Vec<char> = chars_of(QUEUE_BASE_URL);
    extend(&mut out, &chars_of("/"));
    extend(&mut out, &chars_of(model));
    string_of(&out)
}

/// The engine input for a recording. Dictation wants clean text of a single
/// speaker, so diarization and audio-event tags stay off.
pub open spec fn scribe_request(audio_url: Seq<char>, language: Seq<char>) -> Seq<
    (Seq<char>, JsonView),
> {
    let fixed = seq![
        ("audio_url"@, JsonView::Text(audio_url)),
        ("diarize"@, JsonView::Bool(false)),
        ("tag_audio_events"@, JsonView::Bool(false)),
    ];
    if trimmed(language).len() == 0 {
        fixed
    } else {
        fixed.push(("language_code"@, JsonView::Text(trimmed(language))))
    }
}

/// Build the engine input.
pub fn scribe_input(audio_url: &str, language: &str) -> (r: Json)
    ensures
        r@ == JsonView::Object(scribe_request(audio_url@, language@)),
{
    let mut input: Vec<(String, Json)> = Vec::new();
    input.push(("audio_url".to_owned(), Json::Text(audio_url.to_owned())));
    input.push(("diarize".to_owned(), Json::Bool(false)));
    input.push(("tag_audio_events".to_owned(), Json::Bool(false)));
    if !is_blank(language) {
        input.push(("language_code".to_owned(), Json::Text(trim(language))));
    }
    let r = Json::Object(input);
    proof {
        reveal_with_fuel(Json::contents, 2);
    }
    assert(r@->Object_0 =~= scribe_request(audio_url@, language@));
    r
}

/// The character for a six-bit value in the standard Base64 alphabet.
pub open spec fn base64_char(v: nat) -> char {
    if v < 26 {
        (65 + v) as char
    } else if v < 52 {
        (97 + (v - 26)) as char
    } else if v < 62 {
        (48 + (v - 52)) as char
    } else if v == 62 {
        '+'
    } else {
        '/'
    }
}

/// Up to three bytes as four characters, padded with `=`.
pub open spec fn base64_group(bytes: Seq<u8>) -> Seq<char> {
    let a = bytes[0] as nat;
    let b = if bytes.len() > 1 {
        bytes[1] as nat
    } else {
        0
    };
    let c = if bytes.len() > 2 {
        bytes[2] as nat
    } else {
        0
    };
    seq![
        base64_char(a / 4),
        base64_char(a % 4 * 16 + b / 16),
        if bytes.len() > 1 {
            base64_char(b % 16 * 4 + c / 64)
        } else {
            '='
        },
        if bytes.len() > 2 {
            base64_char(c % 64)
        } else {
            '='
        },
    ]
}

/// Base64 with the standard alphabet and padding, three bytes at a time.
pub open spec fn base64_of(bytes: Seq<u8>) -> Seq<char>
    decreases bytes.len(),
{
    if bytes.len() == 0 {
        Seq::empty()
    } else if bytes.len() <= 3 {
        base64_group(bytes)
    } else {
        base64_group(bytes.take(3)) + base64_of(bytes.skip(3))
    }
}

/// `Engine::encode_string` of the standard Base64 engine, into an empty
/// string: the standard alphabet with padding.
#[verifier::external_body]
fn encode_base64(bytes: &[u8]) -> (r: String)
    ensures
        r@ == base64_of(bytes@),
{
    let mut out = String::new();
    base64::engine::general_purpose::STANDARD.encode_string(bytes, &mut out);
    out
}

/// A complete WAV as a Base64 data URI.
pub fn wav_data_uri(wav: &[u8]) -> (r: String)
    ensures
        r@ == WAV_DATA_URI_PREFIX@ + base64_of(wav@),
{
    let mut uri: Vec<char> = chars_of(WAV_DATA_URI_PREFIX);
    extend(&mut uri, &chars_of(&encode_base64(wav)));
    string_of(&uri)
}

proof fn base64_char_is_injective(a: nat, b: nat)
    requires
        a < 64,
        b < 64,
    ensures
        base64_char(a) == base64_char(b) ==> a == b,
        base64_char(a) != '=',
{
}

proof fn base64_group_is_injective(a: Seq<u8>, b: Seq<u8>)
    requires
        1 <= a.len() <= 3,
        1 <= b.len() <= 3,
        base64_group(a) == base64_group(b),
    ensures
        a == b,
{
    let (x, y) = (base64_group(a), base64_group(b));
    assert(x[0] == y[0] && x[1] == y[1] && x[2] == y[2] && x[3] == y[3]);
    let a0 = a[0] as nat;
    let b0 = b[0] as nat;
    let a1 = if a.len() > 1 {
        a[1] as nat
    } else {
        0
    };
    let b1 = if b.len() > 1 {
        b[1] as nat
    } else {
        0
    };
    let a2 = if a.len() > 2 {
        a[2] as nat
    } else {
        0
    };
    let b2 = if b.len() > 2 {
        b[2] as nat
    } else {
        0
    };
    base64_char_is_injective(a0 / 4, b0 / 4);
    base64_char_is_injective(a0 % 4 * 16 + a1 / 16, b0 % 4 * 16 + b1 / 16);
    base64_char_is_injective(a1 % 16 * 4 + a2 / 64, b1 % 16 * 4 + b2 / 64);
    base64_char_is_injective(b1 % 16 * 4 + b2 / 64, a1 % 16 * 4 + a2 / 64);
    base64_char_is_injective(a2 % 64, b2 % 64);
    base64_char_is_injective(b2 % 64, a2 % 64);
    assert(a =~= b);
}

proof fn base64_is_injective(a: Seq<u8>, b: Seq<u8>)
    requires
        base64_of(a) == base64_of(b),
    ensures
        a == b,
    decreases a.len(),
{
    let (x, y) = (base64_of(a), base64_of(b));
    base64_len(a);
    base64_len(b);
    if a.len() == 0 || b.len() == 0 {
        assert(a =~= b);
    } else {
        let (ha, ta) = base64_split(a);
        let (hb, tb) = base64_split(b);
        assert(base64_group(ha) =~= x.take(4));
        assert(base64_group(hb) =~= y.take(4));
        assert(base64_of(ta) =~= x.skip(4));
        assert(base64_of(tb) =~= y.skip(4));
        base64_group_is_injective(ha, hb);
        base64_is_injective(ta, tb);
        assert(a =~= ha + ta);
        assert(b =~= hb + tb);
    }
}

proof fn base64_split(a: Seq<u8>) -> (r: (Seq<u8>, Seq<u8>))
    requires
        a.len() > 0,
    ensures
        a == r.0 + r.1,
        1 <= r.0.len() <= 3,
        r.1.len() < a.len(),
        base64_of(a) == base64_group(r.0) + base64_of(r.1),
{
    if a.len() <= 3 {
        assert(a =~= a + Seq::<u8>::empty());
        assert(base64_of(a) =~= base64_group(a) + base64_of(Seq::<u8>::empty()));
        (a, Seq::empty())
    } else {
        assert(a =~= a.take(3) + a.skip(3));
        (a.take(3), a.skip(3))
    }
}

proof fn base64_len(a: Seq<u8>)
    ensures
        a.len() == 0 <==> base64_of(a).len() == 0,
        a.len() > 0 ==> base64_of(a).len() >= 4,
{
    if a.len() > 3 {
        assert(base64_group(a.take(3)).len() == 4);
    }
}

/// A data URI stands for one recording only, so the recording can be read
/// back from it.
pub proof fn data_uris_are_lossless(a: Seq<u8>, b: Seq<u8>)
    requires
        WAV_DATA_URI_PREFIX@ + base64_of(a) == WAV_DATA_URI_PREFIX@ + base64_of(b),
    ensures
        a == b,
{
    let prefix = WAV_DATA_URI_PREFIX@;
    assert(base64_of(a) =~= (prefix + base64_of(a)).skip(prefix.len() as int));
    assert(base64_of(b) =~= (prefix + base64_of(b)).skip(prefix.len() as int));
    base64_is_injective(a, b);
}

/// A queued request with the follow-up URLs that the queue assigns it. The
/// queue answers under its canonical route, which can differ from the
/// submitted model, so polling and fetching use these URLs.
#[derive(Debug, PartialEq)]
pub struct QueuedRequest {
    pub request_id: String,
    pub status_url: String,
    pub response_url: String,
}

/// What a `QueuedRequest` holds.
pub struct QueuedView {
    pub request_id: Seq<char>,
    pub status_url: Seq<char>,
    pub response_url: Seq<char>,
}

impl View for QueuedRequest {
    type V = QueuedView;

    open spec fn view(&self) -> QueuedView {
        QueuedView {
            request_id: self.request_id@,
            status_url: self.status_url@,
            response_url: self.response_url@,
        }
    }
}

/// The three requests of a transcription.
#[derive(Clone, Copy, Debug, PartialEq, Eq, Structural)]
pub enum Stage {
    Submit,
    Status,
    Result,
}

/// Why the queue delivered no transcript.
#[derive(Debug, PartialEq)]
pub enum FalError {
    /// The request could not be sent.
    RequestFailed(Stage),
    /// The answer carried a client or server error status.
    Rejected(Stage, u16),
    InvalidJson(Stage),
    /// The submit answer lacks one of its fields.
    SubmitIncomplete,
    /// The queue reports a state other than waiting or done.
    QueueFailed { status: String, detail: String },
    NotReady { request_id: String },
    TimedOut { request_id: String },
}

/// What a `FalError` holds.
pub enum FalErrorView {
    RequestFailed(Stage),
    Rejected(Stage, u16),
    InvalidJson(Stage),
    SubmitIncomplete,
    QueueFailed { status: Seq<char>, detail: Seq<char> },
    NotReady { request_id: Seq<char> },
    TimedOut { request_id: Seq<char> },
}

impl View for FalError {
    type V = FalErrorView;

    open spec fn view(&self) -> FalErrorView {
        match *self {
            FalError::RequestFailed(stage) => FalErrorView::RequestFailed(stage),
            FalError::Rejected(stage, status) => FalErrorView::Rejected(stage, status),
            FalError::InvalidJson(stage) => FalErrorView::InvalidJson(stage),
            FalError::SubmitIncomplete => FalErrorView::SubmitIncomplete,
            FalError::QueueFailed { status, detail } => FalErrorView::QueueFailed {
                status: status@,
                detail: detail@,
            },
            FalError::NotReady { request_id } => FalErrorView::NotReady { request_id: request_id@ },
            FalError::TimedOut { request_id } => FalErrorView::TimedOut { request_id: request_id@ },
        }
    }
}

impl FalErrorView {
    pub open spec fn text(self) -> Seq<char> {
        match self {
            FalErrorView::RequestFailed(Stage::Submit) => "fal queue submit request failed"@,
            FalErrorView::RequestFailed(Stage::Status) => "fal status request failed"@,
            FalErrorView::RequestFailed(Stage::Result) => "fal result request failed"@,
            FalErrorView::Rejected(Stage::Submit, _) => "fal queue submit rejected"@,
            FalErrorView::Rejected(Stage::Status, _) => "fal status request rejected"@,
            FalErrorView::Rejected(Stage::Result, _) => "fal result request rejected"@,
            FalErrorView::InvalidJson(Stage::Submit) => "fal queue submit returned invalid JSON"@,
            FalErrorView::InvalidJson(Stage::Status) => "fal status returned invalid JSON"@,
            FalErrorView::InvalidJson(Stage::Result) => "fal result returned invalid JSON"@,
            FalErrorView::SubmitIncomplete =>
                "fal queue submit response is missing request_id, status_url, or response_url"@,
            FalErrorView::QueueFailed { status, detail } =>
                "fal transcription request failed status="@ + status + " detail="@ + detail,
            FalErrorView::NotReady { request_id } => "fal result not ready for request "@
                + request_id,
            FalErrorView::TimedOut { request_id } => "fal transcription request "@ + request_id
                + " did not complete in time"@,
        }
    }
}

impl FalError {
    pub fn message(&self) -> (r: String)
        ensures
            r@ == self@.text(),
    {
        let mut out: Vec<char> = Vec::new();
        match self {
            FalError::RequestFailed(Stage::Submit) => {
                out = chars_of("fal queue submit request failed");
            },
            FalError::RequestFailed(Stage::Status) => {
                out = chars_of("fal status request failed");
            },
            FalError::RequestFailed(Stage::Result) => {
                out = chars_of("fal result request failed");
            },
            FalError::Rejected(Stage::Submit, _) => {
                out = chars_of("fal queue submit rejected");
            },
            FalError::Rejected(Stage::Status, _) => {
                out = chars_of("fal status request rejected");
            },
            FalError::Rejected(Stage::Result, _) => {
                out = chars_of("fal result request rejected");
            },
            FalError::InvalidJson(Stage::Submit) => {
                out = chars_of("fal queue submit returned invalid JSON");
            },
            FalError::InvalidJson(Stage::Status) => {
                out = chars_of("fal status returned invalid JSON");
            },
            FalError::InvalidJson(Stage::Result) => {
                out = chars_of("fal result returned invalid JSON");
            },
            FalError::SubmitIncomplete => {
                out = chars_of(
                    "fal queue submit response is missing request_id, status_url, or response_url",
                );
            },
            FalError::QueueFailed { status, detail } => {
                out = chars_of("fal transcription request failed status=");
                extend(&mut out, &chars_of(status));
                extend(&mut out, &chars_of(" detail="));
                extend(&mut out, &chars_of(detail));
            },
            FalError::NotReady { request_id } => {
                out = chars_of("fal result not ready for request ");
                extend(&mut out, &chars_of(request_id));
            },
            FalError::TimedOut { request_id } => {
                out = chars_of("fal transcription request ");
                extend(&mut out, &chars_of(request_id));
                extend(&mut out, &chars_of(" did not complete in time"));
            },
        }
        string_of(&out)
    }
}

/// The non-empty text of the member called `name`.
pub open spec fn filled_text(body: JsonView, name: Seq<char>) -> Option<Seq<char>> {
    match body.text_at(name) {
        Some(text) => if text.len() > 0 {
            Some(text)
        } else {
            None
        },
        None => None,
    }
}

/// The queued request that a submit answer describes.
pub open spec fn queued_in(body: JsonView) -> Option<QueuedView> {
    match (
        filled_text(body, "request_id"@),
        filled_text(body, "status_url"@),
        filled_text(body, "response_url"@),
    ) {
        (Some(request_id), Some(status_url), Some(response_url)) => Some(
            QueuedView { request_id, status_url, response_url },
        ),
        _ => None,
    }
}

fn read_filled(body: &Json, name: &str) -> (r: Option<String>)
    ensures
        match r {
            Some(text) => filled_text(body@, name@) == Some(text@),
            None => filled_text(body@, name@) is None,
        },
{
    match body.text_at(name) {
        Some(text) => if chars_of(text).len() > 0 {
            Some(text.clone())
        } else {
            None
        },
        None => None,
    }
}

/// Read the follow-up URLs from a submit answer; each must be there and
/// not be empty.
pub fn parse_submit_response(body: &Json) -> (r: Result<QueuedRequest, FalError>)
    ensures
        match r {
            Ok(queued) => queued_in(body@) == Some(queued@),
            Err(e) => queued_in(body@) is None && e@ == FalErrorView::SubmitIncomplete,
        },
{
    match (
        read_filled(body, "request_id"),
        read_filled(body, "status_url"),
        read_filled(body, "response_url"),
    ) {
        (Some(request_id), Some(status_url), Some(response_url)) => Ok(
            QueuedRequest { request_id, status_url, response_url },
        ),
        _ => Err(FalError::SubmitIncomplete),
    }
}

#[derive(Clone, Copy, Debug, PartialEq, Eq, Structural)]
pub enum QueueState {
    Pending,
    Done,
}

/// The first `n` characters of `text`.
pub open spec fn clipped(text: Seq<char>, n: int) -> Seq<char> {
    if text.len() <= n {
        text
    } else {
        text.take(n)
    }
}

/// The state that a status answer reports. Anything but the three known
/// states is a failure, told with the start of the answer.
pub open spec fn state_in(body: JsonView, text: Seq<char>) -> Result<QueueState, FalErrorView> {
    let status = match body.text_at("status"@) {
        Some(status) => status,
        None => Seq::empty(),
    };
    if status == "COMPLETED"@ {
        Ok(QueueState::Done)
    } else if status == "IN_QUEUE"@ || status == "IN_PROGRESS"@ {
        Ok(QueueState::Pending)
    } else {
        Err(FalErrorView::QueueFailed { status, detail: clipped(text, 300) })
    }
}

/// Read the queue state from a status answer, given the answer's JSON text.
pub fn parse_status(body: &Json, text: &str) -> (r: Result<QueueState, FalError>)
    ensures
        match r {
            Ok(state) => state_in(body@, text@) == Ok::<QueueState, FalErrorView>(state),
            Err(e) => state_in(body@, text@) == Err::<QueueState, FalErrorView>(e@),
        },
{
    let status: String = match body.text_at("status") {
        Some(status) => status.clone(),
        None => String::new(),
    };
    if same_text(&status, "COMPLETED") {
        return Ok(QueueState::Done);
    }
    if same_text(&status, "IN_QUEUE") || same_text(&status, "IN_PROGRESS") {
        return Ok(QueueState::Pending);
    }
    let mut detail: Vec<char> = chars_of(text);
    if detail.len() > 300 {
        detail.truncate(300);
    }
    assert(detail@ =~= clipped(text@, 300));
    Err(FalError::QueueFailed { status, detail: string_of(&detail) })
}

/// Whether a status is a client or server error.
pub open spec fn error_status(status: u16) -> bool {
    400 <= status <= 599
}

/// What a submit answer amounts to.
pub open spec fn submit_outcome(status: u16, body: Option<JsonView>) -> Result<
    QueuedView,
    FalErrorView,
> {
    if error_status(status) {
        Err(FalErrorView::Rejected(Stage::Submit, status))
    } else {
        match body {
            None => Err(FalErrorView::InvalidJson(Stage::Submit)),
            Some(tree) => match queued_in(tree) {
                Some(queued) => Ok(queued),
                None => Err(FalErrorView::SubmitIncomplete),
            },
        }
    }
}

/// What a status answer amounts to, given its document and JSON text.
pub open spec fn status_outcome(status: u16, body: Option<(JsonView, Seq<char>)>) -> Result<
    QueueState,
    FalErrorView,
> {
    if error_status(status) {
        Err(FalErrorView::Rejected(Stage::Status, status))
    } else {
        match body {
            None => Err(FalErrorView::InvalidJson(Stage::Status)),
            Some((tree, text)) => state_in(tree, text),
        }
    }
}

/// What a result answer amounts to.
pub open spec fn fetch_outcome(
    request_id: Seq<char>,
    status: u16,
    body: Option<JsonView>,
) -> Result<TranscriptView, FalErrorView> {
    if status == 202 {
        Err(FalErrorView::NotReady { request_id })
    } else if error_status(status) {
        Err(FalErrorView::Rejected(Stage::Result, status))
    } else {
        match body {
            None => Err(FalErrorView::InvalidJson(Stage::Result)),
            Some(tree) => Ok(scribe_transcript(tree)),
        }
    }
}

pub open spec fn tree_in(bytes: Seq<u8>) -> Option<JsonView> {
    match document(bytes) {
        Some((tree, _)) => Some(tree),
        None => None,
    }
}

pub open spec fn tree_view(body: Option<&Json>) -> Option<JsonView> {
    match body {
        Some(tree) => Some(tree@),
        None => None,
    }
}

/// Judge a submit answer by its status and the document its body spells.
pub fn judge_submit(status: u16, body: Option<&Json>) -> (r: Result<QueuedRequest, FalError>)
    ensures
        match r {
            Ok(queued) => submit_outcome(status, tree_view(body)) == Ok::<
                QueuedView,
                FalErrorView,
            >(queued@),
            Err(e) => submit_outcome(status, tree_view(body)) == Err::<QueuedView, FalErrorView>(
                e@,
            ),
        },
{
    if 400 <= status && status <= 599 {
        return Err(FalError::Rejected(Stage::Submit, status));
    }
    match body {
        None => Err(FalError::InvalidJson(Stage::Submit)),
        Some(tree) => parse_submit_response(tree),
    }
}

/// Judge a submit answer by its status and body.
pub fn read_submit(status: u16, body: &[u8]) -> (r: Result<QueuedRequest, FalError>)
    ensures
        match r {
            Ok(queued) => submit_outcome(status, tree_in(body@)) == Ok::<QueuedView, FalErrorView>(
                queued@,
            ),
            Err(e) => submit_outcome(status, tree_in(body@)) == Err::<QueuedView, FalErrorView>(
                e@,
            ),
        },
{
    match read_document(body) {
        Some((tree, _)) => judge_submit(status, Some(&tree)),
        None => judge_submit(status, None),
    }
}

/// Judge a status answer by its status and the document its body spells.
pub fn judge_status(status: u16, body: Option<(&Json, &String)>) -> (r: Result<
    QueueState,
    FalError,
>)
    ensures
        ({
            let view = match body {
                Some((tree, text)) => Some((tree@, text@)),
                None => None,
            };
            match r {
                Ok(state) => status_outcome(status, view) == Ok::<QueueState, FalErrorView>(state),
                Err(e) => status_outcome(status, view) == Err::<QueueState, FalErrorView>(e@),
            }
        }),
{
    if 400 <= status && status <= 599 {
        return Err(FalError::Rejected(Stage::Status, status));
    }
    match body {
        None => Err(FalError::InvalidJson(Stage::Status)),
        Some((tree, text)) => parse_status(tree, text),
    }
}

/// Judge a status answer by its status and body.
pub fn read_status(status: u16, body: &[u8]) -> (r: Result<QueueState, FalError>)
    ensures
        match r {
            Ok(state) => status_outcome(status, document(body@)) == Ok::<QueueState, FalErrorView>(
                state,
            ),
            Err(e) => status_outcome(status, document(body@)) == Err::<QueueState, FalErrorView>(
                e@,
            ),
        },
{
    match read_document(body) {
        Some((tree, text)) => judge_status(status, Some((&tree, &text))),
        None => judge_status(status, None),
    }
}

/// Judge a result answer by its status and the document its body spells.
pub fn judge_result(request_id: &str, status: u16, body: Option<&Json>) -> (r: Result<
    FalTranscript,
    FalError,
>)
    ensures
        match r {
            Ok(transcript) => fetch_outcome(request_id@, status, tree_view(body)) == Ok::<
                TranscriptView,
                FalErrorView,
            >(transcript@),
            Err(e) => fetch_outcome(request_id@, status, tree_view(body)) == Err::<
                TranscriptView,
                FalErrorView,
            >(e@),
        },
{
    if status == 202 {
        return Err(FalError::NotReady { request_id: request_id.to_owned() });
    }
    if 400 <= status && status <= 599 {
        return Err(FalError::Rejected(Stage::Result, status));
    }
    match body {
        None => Err(FalError::InvalidJson(Stage::Result)),
        Some(tree) => Ok(extract_transcript(tree)),
    }
}

/// Judge a result answer by its status and body.
pub fn read_result(request_id: &str, status: u16, body: &[u8]) -> (r: Result<
    FalTranscript,
    FalError,
>)
    ensures
        match r {
            Ok(transcript) => fetch_outcome(request_id@, status, tree_in(body@)) == Ok::<
                TranscriptView,
                FalErrorView,
            >(transcript@),
            Err(e) => fetch_outcome(request_id@, status, tree_in(body@)) == Err::<
                TranscriptView,
                FalErrorView,
            >(e@),
        },
{
    match read_document(body) {
        Some((tree, _)) => judge_result(request_id, status, Some(&tree)),
        None => judge_result(request_id, status, None),
    }
}

/// How a submit request ended, as far as sending goes.
#[derive(Clone, Copy, Debug, PartialEq, Eq, Structural)]
pub enum SubmitSend {
    Answered,
    /// No connection, or a timeout.
    FailedTransiently,
    Failed,
}

/// What follows a submit request.
#[derive(Clone, Copy, Debug, PartialEq, Eq, Structural)]
pub enum SubmitStep {
    ReadAnswer,
    Retry { attempt: u32, delay_ms: u64 },
    GiveUp,
}

/// Decide after submit request number `attempt`: one transient failure is
/// retried.
pub fn after_submit(attempt: u32, send: SubmitSend) -> (r: SubmitStep)
    ensures
        r == match send {
            SubmitSend::Answered => SubmitStep::ReadAnswer,
            SubmitSend::FailedTransiently => if attempt < SUBMIT_ATTEMPTS {
                SubmitStep::Retry { attempt: (attempt + 1) as u32, delay_ms: 250 }
            } else {
                SubmitStep::GiveUp
            },
            SubmitSend::Failed => SubmitStep::GiveUp,
        },
{
    match send {
        SubmitSend::Answered => SubmitStep::ReadAnswer,
        SubmitSend::FailedTransiently => if attempt < SUBMIT_ATTEMPTS {
            SubmitStep::Retry { attempt: attempt + 1, delay_ms: SUBMIT_RETRY_DELAY_MS }
        } else {
            SubmitStep::GiveUp
        },
        SubmitSend::Failed => SubmitStep::GiveUp,
    }
}

/// What follows a status poll.
#[derive(Clone, Copy, Debug, PartialEq, Eq, Structural)]
pub enum PollStep {
    Fetch,
    /// Sleep, and poll again as poll number `next`, or give up without one.
    Wait { delay_ms: u64, next: Option<u32> },
}

/// Decide after status poll number `poll`.
pub fn after_poll(poll: u32, state: QueueState) -> (r: PollStep)
    requires
        1 <= poll <= POLL_ATTEMPTS,
    ensures
        r == match state {
            QueueState::Done => PollStep::Fetch,
            QueueState::Pending => PollStep::Wait {
                delay_ms: 500,
                next: if poll < POLL_ATTEMPTS {
                    Some((poll + 1) as u32)
                } else {
                    None
                },
            },
        },
{
    match state {
        QueueState::Done => PollStep::Fetch,
        QueueState::Pending => PollStep::Wait {
            delay_ms: POLL_INTERVAL_MS,
            next: if poll < POLL_ATTEMPTS {
                Some(poll + 1)
            } else {
                None
            },
        },
    }
}

/// Check a capture and wrap it as the audio URL of a queue request.
pub fn capture_data_uri(pcm: &[u8], sample_rate: u32) -> (r: Result<String, CaptureError>)
    ensures
        match r {
            Ok(uri) => capture_problem(pcm@, sample_rate as nat) is None && uri@
                == WAV_DATA_URI_PREFIX@ + base64_of(wav_of(pcm@, sample_rate as nat)),
            Err(e) => capture_problem(pcm@, sample_rate as nat) == Some(e),
        },
{
    match validate_capture(pcm, sample_rate) {
        Ok(_) => Ok(wav_data_uri(&encode_wav_mono16(pcm, sample_rate))),
        Err(e) => Err(e),
    }
}

/// Check a capture before it is encoded.
pub fn validate_capture(pcm: &[u8], sample_rate: u32) -> (r: Result<(), CaptureError>)
    ensures
        match r {
            Ok(_) => capture_problem(pcm@, sample_rate as nat) is None,
            Err(e) => capture_problem(pcm@, sample_rate as nat) == Some(e),
        },
{
    crate::stt::validate_capture(pcm, sample_rate)
}

/// Wrap little-endian mono 16-bit PCM in a 44-byte WAV header.
pub fn encode_wav_mono16(pcm: &[u8], sample_rate: u32) -> (r: Vec<u8>)
    ensures
        r@ == wav_of(pcm@, sample_rate as nat),
{
    crate::stt::encode_wav_mono16(pcm, sample_rate)
}

/// The words of an output are read in order: one with a text becomes a word
/// with that text, its times where they are numbers, and its kind, content
/// where it names none; any other is left out.
pub proof fn output_words_are_read_in_order(entries: Seq<JsonView>, entry: JsonView)
    ensures
        scribe_words(Seq::empty()).len() == 0,
        ({
            let before = scribe_words(entries);
            let after = scribe_words(entries.push(entry));
            &&& entry.text_at("text"@) is None ==> after == before
            &&& entry.text_at("text"@) matches Some(text) ==> {
                &&& after.len() == before.len() + 1
                &&& after.drop_last() == before
                &&& after.last().text == text
                &&& after.last().start == entry.number_at("start"@)
                &&& after.last().end == entry.number_at("end"@)
                &&& after.last().kind == match entry.text_at("type"@) {
                    Some(kind) => kind,
                    None => "word"@,
                }
            }
        }),
{
    assert(entries.push(entry).drop_last() =~= entries);
    let before = scribe_words(entries);
    if let Some(word) = scribe_word(entry) {
        assert(before.push(word).drop_last() =~= before);
    }
}

/// The text of an output is its text without surrounding white space, and its
/// words are those it lists, or the single one it holds.
pub proof fn outputs_hold_their_text(output: JsonView)
    ensures
        ({
            let transcript = scribe_transcript(output);
            let words = output.get("words"@);
            &&& output.text_at("text"@) matches Some(text) ==> transcript.text == trimmed(text)
            &&& output.text_at("text"@) is None ==> transcript.text.len() == 0
            &&& words matches Some(JsonView::List(entries)) ==> transcript.words == scribe_words(
                entries,
            )
            &&& words matches Some(JsonView::Object(_)) ==> transcript.words == scribe_words(
                seq![words->0],
            )
            &&& !(words matches Some(JsonView::List(_))) && !(words matches Some(
                JsonView::Object(_),
            )) ==> transcript.words.len() == 0
        }),
{
    let words = output.get("words"@);
    if let Some(JsonView::Object(members)) = words {
        let entry = JsonView::Object(members);
        output_words_are_read_in_order(Seq::empty(), entry);
        assert(Seq::empty().push(entry) =~= seq![entry]);
        if let Some(word) = scribe_word(entry) {
            assert(scribe_words(Seq::<JsonView>::empty()).push(word) =~= seq![word]);
        }
    }
}

/// The engine is given the recording, told to keep to plain text, and told the
/// language exactly where one is configured.
pub proof fn inputs_ask_for_plain_text(audio_url: Seq<char>, language: Seq<char>)
    ensures
        ({
            let members = scribe_request(audio_url, language);
            let input = JsonView::Object(members);
            &&& input.text_at("audio_url"@) == Some(audio_url)
            &&& input.get("diarize"@) == Some(JsonView::Bool(false))
            &&& input.get("tag_audio_events"@) == Some(JsonView::Bool(false))
            &&& trimmed(language).len() > 0 ==> input.text_at("language_code"@) == Some(
                trimmed(language),
            )
            &&& trimmed(language).len() == 0 ==> input.get("language_code"@) is None
        }),
{
    reveal_strlit("audio_url");
    reveal_strlit("diarize");
    reveal_strlit("tag_audio_events");
    reveal_strlit("language_code");
    assert("audio_url"@.len() == 9 && "diarize"@.len() == 7);
    assert("tag_audio_events"@.len() == 16 && "language_code"@.len() == 13);
    let members = scribe_request(audio_url, language);
    assert(members[0].0 == "audio_url"@ && members[1].0 == "diarize"@);
    assert(members[2].0 == "tag_audio_events"@);
    first_members_count(members, "audio_url"@, 0);
    first_members_count(members, "diarize"@, 1);
    first_members_count(members, "tag_audio_events"@, 2);
    first_members_count(members, "language_code"@, 3);
}

/// A request is queued exactly when the answer names its id and both follow-up
/// URLs, none of them empty, and it is followed under those.
pub proof fn queued_requests_name_their_urls(body: JsonView)
    ensures
        ({
            let named = |name: Seq<char>| body.text_at(name) matches Some(text) && text.len() > 0;
            &&& queued_in(body) is Some <==> named("request_id"@) && named("status_url"@) && named(
                "response_url"@,
            )
            &&& queued_in(body) matches Some(queued) ==> {
                &&& body.text_at("request_id"@) == Some(queued.request_id)
                &&& body.text_at("status_url"@) == Some(queued.status_url)
                &&& body.text_at("response_url"@) == Some(queued.response_url)
            }
        }),
{
}

/// A request is done when its status says so, waits while it is queued or in
/// progress, and has failed otherwise, which is told with the status and at
/// most the first 300 characters of the answer.
pub proof fn queue_states_are_told_apart(body: JsonView, text: Seq<char>)
    ensures
        ({
            let says = |state: Seq<char>| body.text_at("status"@) == Some(state);
            let outcome = state_in(body, text);
            &&& says("COMPLETED"@) <==> outcome == Ok::<QueueState, FalErrorView>(QueueState::Done)
            &&& says("IN_QUEUE"@) || says("IN_PROGRESS"@) <==> outcome == Ok::<
                QueueState,
                FalErrorView,
            >(QueueState::Pending)
            &&& outcome matches Err(e) ==> (e matches FalErrorView::QueueFailed { status, detail }
                && {
                &&& body.text_at("status"@) matches Some(told) ==> status == told
                &&& body.text_at("status"@) is None ==> status.len() == 0
                &&& detail.is_prefix_of(text)
                &&& detail.len() <= 300
                &&& text.len() <= 300 ==> detail == text
                &&& text.len() > 300 ==> detail.len() == 300
            })
        }),
{
    reveal_strlit("COMPLETED");
    reveal_strlit("IN_QUEUE");
    reveal_strlit("IN_PROGRESS");
    assert("COMPLETED"@.len() == 9 && "IN_QUEUE"@.len() == 8 && "IN_PROGRESS"@.len() == 11);
    let detail = clipped(text, 300);
    assert(detail =~= text.subrange(0, detail.len() as int));
}

/// An answer with an error status is rejected at its stage whatever it holds,
/// one without a document is invalid, and a result that is not there yet is
/// told with its request.
pub proof fn error_statuses_are_rejected(
    request_id: Seq<char>,
    status: u16,
    body: Option<JsonView>,
    told: Option<(JsonView, Seq<char>)>,
)
    ensures
        400 <= status < 600 <==> submit_outcome(status, body) == Err::<QueuedView, FalErrorView>(
            FalErrorView::Rejected(Stage::Submit, status),
        ),
        400 <= status < 600 <==> status_outcome(status, told) == Err::<QueueState, FalErrorView>(
            FalErrorView::Rejected(Stage::Status, status),
        ),
        400 <= status < 600 <==> fetch_outcome(request_id, status, body) == Err::<
            TranscriptView,
            FalErrorView,
        >(FalErrorView::Rejected(Stage::Result, status)),
        status == 202 <==> fetch_outcome(request_id, status, body) == Err::<
            TranscriptView,
            FalErrorView,
        >(FalErrorView::NotReady { request_id }),
        status < 400 && body is None ==> submit_outcome(status, body) == Err::<
            QueuedView,
            FalErrorView,
        >(FalErrorView::InvalidJson(Stage::Submit)),
        status < 400 && told is None ==> status_outcome(status, told) == Err::<
            QueueState,
            FalErrorView,
        >(FalErrorView::InvalidJson(Stage::Status)),
        status < 400 && status != 202 && body is None ==> fetch_outcome(request_id, status, body)
            == Err::<TranscriptView, FalErrorView>(FalErrorView::InvalidJson(Stage::Result)),
        fetch_outcome(request_id, status, body) matches Ok(transcript) ==> body is Some
            && transcript == scribe_transcript(body->0),
        submit_outcome(status, body) matches Ok(queued) ==> body is Some && queued_in(body->0)
            == Some(queued),
        submit_outcome(status, body) is Ok <==> !(400 <= status < 600) && (body matches Some(tree)
            && queued_in(tree) is Some),
        fetch_outcome(request_id, status, body) is Ok <==> !(400 <= status < 600) && status != 202
            && body is Some,
        !(400 <= status < 600) && told is Some ==> status_outcome(status, told) == state_in(
            (told->0).0,
            (told->0).1,
        ),
{
}

/// Base64 text has four characters for each three bytes begun, all of them
/// from the alphabet but for the padding, of which there are as many as bytes
/// missing from the last three.
pub proof fn base64_is_padded(bytes: Seq<u8>)
    ensures
        base64_of(bytes).len() == (bytes.len() + 2) / 3 * 4,
        bytes.len() > 0 && bytes.len() % 3 == 0 ==> base64_of(bytes).last() != '=',
        bytes.len() % 3 != 0 ==> base64_of(bytes).last() == '=',
        bytes.len() % 3 == 1 ==> base64_of(bytes)[base64_of(bytes).len() - 2] == '=',
        bytes.len() % 3 == 2 ==> base64_of(bytes)[base64_of(bytes).len() - 2] != '=',
    decreases bytes.len(),
{
    if bytes.len() > 3 {
        let rest = bytes.skip(3);
        base64_is_padded(rest);
        assert(base64_group(bytes.take(3)).len() == 4);
        assert(base64_of(bytes) =~= base64_group(bytes.take(3)) + base64_of(rest));
    } else if bytes.len() > 0 {
        let last = base64_group(bytes);
        let (b, c) = (bytes[1] as nat, bytes[2] as nat);
        if bytes.len() > 1 {
            base64_char_is_injective(
                b % 16 * 4 + if bytes.len() > 2 {
                    c / 64
                } else {
                    0
                },
                0,
            );
        }
        if bytes.len() > 2 {
            base64_char_is_injective(c % 64, 0);
        }
    }
}

} // verus!

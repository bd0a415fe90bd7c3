use ashe_worker::config::{AppConfig, ConfigError, Environment};
use ashe_worker::fal_client;
use ashe_worker::fal_client::{
    FalError, PollStep, QueueState, Stage, SubmitSend, SubmitStep, WAV_DATA_URI_PREFIX,
    after_poll, after_submit, auth_header, capture_data_uri, extract_transcript, judge_result,
    parse_status, parse_submit_response, read_result, read_status, read_submit, scribe_input,
    stt_model, submit_url, wav_data_uri,
};
use ashe_worker::http::status_text;
use ashe_worker::json::{Json, read_document};
use ashe_worker::stt;
use ashe_worker::stt::{
    AttemptStep, CaptureError, RequestError, TranscribeError, Transcript, TranscriptWord,
    after_attempt, encode_capture, finished_transcript, judge_reply, map_language,
    parse_transcript, prepare_request, read_reply, transcription_url, validate_capture,
};
use base64::Engine as _;
use base64::engine::general_purpose::STANDARD as BASE64_STANDARD;

fn text(value: &str) -> Json {
    Json::Text(value.to_string())
}

fn number(value: f64) -> Json {
    Json::Number(Some(value.to_bits()))
}

fn object(fields: Vec<(&str, Json)>) -> Json {
    Json::Object(
        fields
            .into_iter()
            .map(|(name, value)| (name.to_string(), value))
            .collect(),
    )
}

fn seconds(value: f64) -> Option<u64> {
    Some(value.to_bits())
}

fn text_of(code: u16) -> String {
    status_text(code).into_iter().collect()
}

#[test]
fn fal_client_wav_header_describes_mono16_capture() {
    let pcm = vec![0x01, 0x02, 0x03, 0x04];
    let wav = fal_client::encode_wav_mono16(&pcm, 48_000);
    assert_eq!(wav.len(), 48);
    assert_eq!(&wav[0..4], b"RIFF");
    assert_eq!(&wav[8..12], b"WAVE");
    assert_eq!(&wav[12..16], b"fmt ");
    assert_eq!(u16::from_le_bytes([wav[20], wav[21]]), 1);
    assert_eq!(u16::from_le_bytes([wav[22], wav[23]]), 1);
    assert_eq!(
        u32::from_le_bytes([wav[24], wav[25], wav[26], wav[27]]),
        48_000
    );
    assert_eq!(u16::from_le_bytes([wav[34], wav[35]]), 16);
    assert_eq!(&wav[36..40], b"data");
    assert_eq!(u32::from_le_bytes([wav[40], wav[41], wav[42], wav[43]]), 4);
    assert_eq!(&wav[44..], &pcm[..]);
}

#[test]
fn stt_wav_header_describes_mono16_capture() {
    let pcm = vec![0x01, 0x02, 0x03, 0x04];
    let wav = stt::encode_wav_mono16(&pcm, 48_000);
    assert_eq!(wav.len(), 48);
    assert_eq!(&wav[0..4], b"RIFF");
    assert_eq!(&wav[8..12], b"WAVE");
    assert_eq!(&wav[12..16], b"fmt ");
    assert_eq!(u16::from_le_bytes([wav[20], wav[21]]), 1);
    assert_eq!(u16::from_le_bytes([wav[22], wav[23]]), 1);
    assert_eq!(
        u32::from_le_bytes([wav[24], wav[25], wav[26], wav[27]]),
        48_000
    );
    assert_eq!(u16::from_le_bytes([wav[34], wav[35]]), 16);
    assert_eq!(&wav[36..40], b"data");
    assert_eq!(u32::from_le_bytes([wav[40], wav[41], wav[42], wav[43]]), 4);
    assert_eq!(&wav[44..], &pcm[..]);
}

#[test]
fn scribe_input_stays_plain_text_by_default() {
    let input = scribe_input("https://example.com/a.wav", "");
    assert_eq!(
        input.get("audio_url").unwrap(),
        &text("https://example.com/a.wav")
    );
    assert_eq!(input.get("diarize").unwrap(), &Json::Bool(false));
    assert_eq!(input.get("tag_audio_events").unwrap(), &Json::Bool(false));
    assert!(input.get("language_code").is_none());
}

#[test]
fn scribe_input_passes_language() {
    let input = scribe_input("https://example.com/a.wav", "eng");
    assert_eq!(input.get("language_code").unwrap(), &text("eng"));
}

#[test]
fn wav_data_uri_round_trips_without_storage() {
    let wav = fal_client::encode_wav_mono16(&[1, 2, 3, 4], 48_000);
    let uri = wav_data_uri(&wav);
    let encoded = uri.strip_prefix(WAV_DATA_URI_PREFIX).unwrap();
    assert_eq!(BASE64_STANDARD.decode(encoded).unwrap(), wav);
}

#[test]
fn submit_response_yields_the_canonical_follow_up_urls() {
    let queued = parse_submit_response(&object(vec![
        ("status", text("IN_QUEUE")),
        ("request_id", text("abc")),
        (
            "response_url",
            text("https://queue.fal.run/fal-ai/elevenlabs/requests/abc"),
        ),
        (
            "status_url",
            text("https://queue.fal.run/fal-ai/elevenlabs/requests/abc/status"),
        ),
    ]))
    .unwrap();
    assert_eq!(queued.request_id, "abc");
    assert_eq!(
        queued.status_url,
        "https://queue.fal.run/fal-ai/elevenlabs/requests/abc/status"
    );
    assert_eq!(
        queued.response_url,
        "https://queue.fal.run/fal-ai/elevenlabs/requests/abc"
    );
    assert!(parse_submit_response(&object(vec![])).is_err());
    assert!(parse_submit_response(&object(vec![("request_id", text("abc"))])).is_err());
}

#[test]
fn queue_status_maps_lifecycle_to_pending_or_done() {
    let status = |name: &str| parse_status(&object(vec![("status", text(name))]), "{}");
    assert!(matches!(status("IN_QUEUE").unwrap(), QueueState::Pending));
    assert!(matches!(status("IN_PROGRESS").unwrap(), QueueState::Pending));
    assert!(matches!(status("COMPLETED").unwrap(), QueueState::Done));
    assert!(status("FAILED").is_err());
}

#[test]
fn transcript_extraction_trims_the_scribe_text() {
    let output = object(vec![
        ("text", text("  Hey, this is a test.  ")),
        (
            "words",
            Json::List(vec![object(vec![
                ("text", text("Hey,")),
                ("start", number(0.079)),
                ("end", number(0.539)),
            ])]),
        ),
        ("language_code", text("eng")),
        ("language_probability", number(1.0)),
    ]);
    let transcript = extract_transcript(&output);
    assert_eq!(transcript.text, "Hey, this is a test.");
    assert_eq!(transcript.words.len(), 1);
    assert_eq!(transcript.words[0].text, "Hey,");
    assert_eq!(transcript.words[0].start, seconds(0.079));
    assert_eq!(transcript.words[0].end, seconds(0.539));
    assert_eq!(transcript.words[0].kind, "word");
    let empty = extract_transcript(&object(vec![]));
    assert!(empty.text.is_empty());
    assert!(empty.words.is_empty());
}

#[test]
fn transcript_extraction_preserves_word_types_and_optional_times() {
    let output = object(vec![
        ("text", text("Hello world")),
        (
            "words",
            Json::List(vec![
                object(vec![
                    ("text", text("Hello")),
                    ("start", number(0.1)),
                    ("end", number(0.4)),
                    ("type", text("word")),
                ]),
                object(vec![("text", text(" ")), ("type", text("spacing"))]),
                object(vec![
                    ("text", text("world")),
                    ("start", number(0.5)),
                    ("end", number(0.9)),
                    ("type", text("word")),
                ]),
            ]),
        ),
    ]);
    let transcript = extract_transcript(&output);
    assert_eq!(transcript.words.len(), 3);
    assert_eq!(transcript.words[1].kind, "spacing");
    assert_eq!(transcript.words[1].start, None);
    assert_eq!(transcript.words[1].text, " ");
}

#[test]
fn transcript_extraction_accepts_a_single_word_object() {
    let transcript = extract_transcript(&object(vec![
        ("text", text("Hello")),
        (
            "words",
            object(vec![
                ("text", text("Hello")),
                ("start", number(0.1)),
                ("end", number(0.4)),
                ("type", text("word")),
            ]),
        ),
    ]));
    assert_eq!(transcript.words.len(), 1);
    assert_eq!(transcript.words[0].text, "Hello");
}

#[test]
fn language_mapping_covers_configured_codes() {
    assert_eq!(map_language("").unwrap(), None);
    assert_eq!(map_language("en").unwrap(), Some("en".to_string()));
    assert_eq!(map_language("EN").unwrap(), Some("en".to_string()));
    assert_eq!(map_language("eng").unwrap(), Some("en".to_string()));
    assert_eq!(map_language("deu").unwrap(), Some("de".to_string()));
    assert_eq!(map_language("zho").unwrap(), Some("zh".to_string()));
    assert!(map_language("klingon").is_err());
    assert!(map_language("e").is_err());
}

#[test]
fn transcript_parsing_keeps_text_and_timed_words() {
    let transcript = parse_transcript(&object(vec![
        ("text", text("hi there")),
        (
            "words",
            Json::List(vec![
                object(vec![
                    ("text", text("hi")),
                    ("start", number(0.0)),
                    ("end", number(0.2)),
                ]),
                object(vec![
                    ("text", text("there")),
                    ("start", number(0.2)),
                    ("end", number(0.5)),
                ]),
                object(vec![("text", text("broken"))]),
            ]),
        ),
        ("duration", number(0.5)),
        ("model", text("small")),
    ]))
    .unwrap();
    assert_eq!(transcript.text, "hi there");
    assert_eq!(transcript.words.len(), 2);
    assert_eq!(transcript.words[0].text, "hi");
    assert_eq!(transcript.words[1].end, seconds(0.5));
    assert_eq!(transcript.words[0].kind, "word");
}

#[test]
fn transcript_parsing_reconstructs_unaligned_words() {
    let transcript = parse_transcript(&object(vec![
        ("text", text("Write comma then continue.")),
        ("words", Json::List(vec![])),
    ]))
    .unwrap();
    assert_eq!(
        transcript
            .words
            .iter()
            .map(|word| word.text.as_str())
            .collect::<Vec<_>>(),
        ["Write", "comma", "then", "continue."]
    );
    assert!(
        transcript
            .words
            .iter()
            .all(|word| word.start.is_none() && word.end.is_none())
    );
}

#[test]
fn transcript_parsing_requires_text() {
    assert!(parse_transcript(&object(vec![("words", Json::List(vec![]))])).is_err());
    let empty = parse_transcript(&object(vec![("text", text(""))])).unwrap();
    assert!(empty.text.is_empty() && empty.words.is_empty());
}

#[test]
fn documents_are_read_from_bytes() {
    let (document, shown) =
        read_document(b" {\"b\": [1.5, null, true], \"a\": \"x\\u0041\"} ").unwrap();
    assert_eq!(document.text_at("a").unwrap(), "xA");
    assert_eq!(
        document.get("b").unwrap(),
        &Json::List(vec![number(1.5), Json::Null, Json::Bool(true)])
    );
    assert_eq!(shown, "{\"a\":\"xA\",\"b\":[1.5,null,true]}");
    assert!(read_document(b"{\"a\": }").is_none());
    assert!(read_document(b"").is_none());
}

#[test]
fn statuses_show_their_reason() {
    assert_eq!(text_of(404), "404 Not Found");
    assert_eq!(text_of(200), "200 OK");
    assert_eq!(text_of(599), "599 <unknown status code>");
}

#[test]
fn replies_are_judged_by_status_and_body() {
    let body = b"{\"text\": \" hello comma world \"}";
    let transcript = read_reply(200, body).unwrap();
    assert_eq!(transcript.text, " hello comma world ");
    assert_eq!(
        finished_transcript(transcript, true).text,
        "hello, world"
    );
    assert_eq!(read_reply(503, body), Err(TranscribeError::HttpStatus(503)));
    assert_eq!(read_reply(200, b"nope"), Err(TranscribeError::InvalidJson));
    assert_eq!(read_reply(200, b"{}"), Err(TranscribeError::MissingText));
    assert_eq!(judge_reply(200, None), Err(TranscribeError::InvalidJson));
}

#[test]
fn transcription_errors_have_messages() {
    for error in [
        TranscribeError::RequestFailed,
        TranscribeError::ResponseUnreadable,
        TranscribeError::HttpStatus(500),
        TranscribeError::InvalidJson,
        TranscribeError::MissingText,
    ] {
        assert!(!error.message().is_empty());
    }
    assert!(TranscribeError::HttpStatus(404).message().contains("404"));
}

#[test]
fn transient_failures_are_sent_once_more() {
    let failed = || Err(TranscribeError::RequestFailed);
    assert_eq!(
        after_attempt(1, failed()),
        AttemptStep::Retry {
            attempt: 2,
            delay_ms: 250
        }
    );
    assert_eq!(after_attempt(2, failed()), AttemptStep::Finish(failed()));
    let refused = || Err(TranscribeError::MissingText);
    assert_eq!(after_attempt(1, refused()), AttemptStep::Finish(refused()));
    let done = || {
        Ok(Transcript {
            text: "a".to_string(),
            words: vec![TranscriptWord {
                text: "a".to_string(),
                start: None,
                end: None,
                kind: "word".to_string(),
            }],
        })
    };
    assert_eq!(after_attempt(1, done()), AttemptStep::Finish(done()));
}

#[test]
fn transcription_urls_carry_their_query() {
    let code = "en".to_string();
    assert_eq!(
        transcription_url("https://a.test/t", Some(&code), true),
        "https://a.test/t?language=en&word_timestamps=1"
    );
    assert_eq!(
        transcription_url("https://a.test/t", None, false),
        "https://a.test/t?word_timestamps=0"
    );
}

#[test]
fn captures_are_checked_before_they_are_wrapped() {
    assert_eq!(validate_capture(&[1, 2], 48_000), Ok(()));
    assert!(validate_capture(&[], 48_000).is_err());
    assert!(validate_capture(&[1], 48_000).is_err());
    assert!(validate_capture(&[1, 2], 0).is_err());
    assert_eq!(encode_capture(&[1, 2], 48_000).unwrap().len(), 46);
    assert!(encode_capture(&[1], 48_000).is_err());
    let uri = capture_data_uri(&[1, 2], 48_000).unwrap();
    assert!(uri.starts_with("data:audio/wav;base64,UklGRiYAAABXQVZF"));
    let problems: Vec<CaptureError> = [
        fal_client::validate_capture(&[], 48_000),
        fal_client::validate_capture(&[1], 48_000),
        fal_client::validate_capture(&[1, 2], 0),
    ]
    .into_iter()
    .map(|result| result.unwrap_err())
    .collect();
    assert_eq!(problems.len(), 3);
    assert!(problems.iter().all(|problem| !problem.message().is_empty()));
}

fn hosted(vars: &[(&str, &str)]) -> AppConfig {
    let env = Environment {
        vars: vars
            .iter()
            .map(|(name, value)| (name.to_string(), value.to_string()))
            .collect(),
    };
    AppConfig::load(&env, "artifacts", "")
}

#[test]
fn requests_are_prepared_from_the_configuration() {
    let config = hosted(&[
        ("FAL_KEY", "k"),
        ("ASHE_STT_TOKEN", " token "),
        ("ASHE_WORKER_BASE_URL", "https://a.test/"),
    ]);
    let request = prepare_request(&config, "eng", &[1], true).unwrap();
    assert_eq!(
        request.url,
        "https://a.test/v1/stt/transcribe?language=en&word_timestamps=1"
    );
    assert_eq!(request.token, "token");
    assert_eq!(
        prepare_request(&config, "", &[1], false).unwrap().url,
        "https://a.test/v1/stt/transcribe?word_timestamps=0"
    );
    assert_eq!(
        prepare_request(&config, "eng", &[], true),
        Err(RequestError::EmptyWav)
    );
    let unknown = prepare_request(&config, "klingon", &[1], true).unwrap_err();
    assert_eq!(
        unknown.message(),
        "unsupported STT language code `klingon`"
    );
    assert_eq!(
        prepare_request(&hosted(&[]), "eng", &[1], true),
        Err(RequestError::Config(ConfigError::FalKeyMissing))
    );
    assert_eq!(
        prepare_request(&hosted(&[("FAL_KEY", "k")]), "eng", &[1], true),
        Err(RequestError::Config(ConfigError::WorkerBaseMissing))
    );
}

#[test]
fn base64_pads_every_length() {
    for length in 0..20usize {
        let bytes: Vec<u8> = (0..length).map(|i| (i * 37) as u8).collect();
        let uri = wav_data_uri(&bytes);
        let encoded = uri.strip_prefix(WAV_DATA_URI_PREFIX).unwrap();
        assert_eq!(encoded, BASE64_STANDARD.encode(&bytes));
    }
    assert_eq!(wav_data_uri(b"Ma"), "data:audio/wav;base64,TWE=");
}

#[test]
fn queue_answers_are_read_from_bytes() {
    let submit = b"{\"request_id\":\"r\",\"status_url\":\"s\",\"response_url\":\"u\"}";
    let queued = read_submit(200, submit).unwrap();
    assert_eq!(queued.request_id, "r");
    assert_eq!(
        read_submit(401, submit),
        Err(FalError::Rejected(Stage::Submit, 401))
    );
    assert_eq!(
        read_submit(200, b"["),
        Err(FalError::InvalidJson(Stage::Submit))
    );
    assert_eq!(read_submit(200, b"{}"), Err(FalError::SubmitIncomplete));
    assert_eq!(
        read_status(200, b"{\"status\":\"IN_QUEUE\"}"),
        Ok(QueueState::Pending)
    );
    assert_eq!(
        read_status(200, b"{\"status\": \"FAILED\"}"),
        Err(FalError::QueueFailed {
            status: "FAILED".to_string(),
            detail: "{\"status\":\"FAILED\"}".to_string(),
        })
    );
    assert_eq!(
        read_status(500, b"{}"),
        Err(FalError::Rejected(Stage::Status, 500))
    );
    let result = read_result("r", 200, b"{\"text\":\" done \",\"words\":[]}").unwrap();
    assert_eq!(result.text, "done");
    assert_eq!(
        judge_result("r", 200, None),
        Err(FalError::InvalidJson(Stage::Result))
    );
}

#[test]
fn unfinished_results_are_not_transcripts() {
    let not_ready = FalError::NotReady {
        request_id: "r".to_string(),
    };
    assert_eq!(read_result("r", 202, b"{}"), Err(not_ready));
    assert_eq!(
        read_result("r", 404, b"{}"),
        Err(FalError::Rejected(Stage::Result, 404))
    );
}

#[test]
fn queue_errors_have_messages() {
    for error in [
        FalError::RequestFailed(Stage::Submit),
        FalError::Rejected(Stage::Status, 404),
        FalError::InvalidJson(Stage::Result),
        FalError::SubmitIncomplete,
        FalError::QueueFailed {
            status: "X".to_string(),
            detail: "d".to_string(),
        },
        FalError::NotReady {
            request_id: "r".to_string(),
        },
        FalError::TimedOut {
            request_id: "r".to_string(),
        },
    ] {
        assert!(!error.message().is_empty());
    }
    assert_eq!(
        FalError::QueueFailed {
            status: "X".to_string(),
            detail: "d".to_string(),
        }
        .message(),
        "fal transcription request failed status=X detail=d"
    );
}

#[test]
fn polling_ends() {
    assert_eq!(after_poll(1, QueueState::Done), PollStep::Fetch);
    assert_eq!(
        after_poll(1, QueueState::Pending),
        PollStep::Wait {
            delay_ms: 500,
            next: Some(2)
        }
    );
    assert_eq!(
        after_poll(1_200, QueueState::Pending),
        PollStep::Wait {
            delay_ms: 500,
            next: None
        }
    );
}

#[test]
fn submissions_are_tried_twice() {
    assert_eq!(after_submit(1, SubmitSend::Answered), SubmitStep::ReadAnswer);
    assert_eq!(
        after_submit(1, SubmitSend::FailedTransiently),
        SubmitStep::Retry {
            attempt: 2,
            delay_ms: 250
        }
    );
    assert_eq!(
        after_submit(2, SubmitSend::FailedTransiently),
        SubmitStep::GiveUp
    );
    assert_eq!(after_submit(1, SubmitSend::Failed), SubmitStep::GiveUp);
}

#[test]
fn requests_name_their_model_and_key() {
    assert_eq!(auth_header(" key "), "Key key");
    let unset = Environment { vars: vec![] };
    assert_eq!(
        submit_url(&stt_model(&unset)),
        "https://queue.fal.run/fal-ai/elevenlabs/speech-to-text/scribe-v2"
    );
    let set = Environment {
        vars: vec![("FAL_STT_MODEL".to_string(), "fal-ai/whisper".to_string())],
    };
    assert_eq!(stt_model(&set), "fal-ai/whisper");
    assert_eq!(
        submit_url(&stt_model(&set)),
        "https://queue.fal.run/fal-ai/whisper"
    );
}

#[test]
fn wav_sizes_and_rates_read_back() {
    let pcm = [1, 2, 3, 4, 5, 6];
    for rate in [8_000, 48_000, u32::MAX] {
        let wav = stt::encode_wav_mono16(&pcm, rate);
        assert_eq!(wav, fal_client::encode_wav_mono16(&pcm, rate));
        let four = |at: usize| u32::from_le_bytes([wav[at], wav[at + 1], wav[at + 2], wav[at + 3]]);
        assert_eq!(four(4) as usize, wav.len() - 8);
        assert_eq!(four(4), 42);
        assert_eq!(four(16), 16);
        assert_eq!(four(24), rate);
        assert_eq!(four(28), rate.wrapping_mul(2));
        assert_eq!(u16::from_le_bytes([wav[32], wav[33]]), 2);
        assert_eq!(four(40), 6);
    }
}

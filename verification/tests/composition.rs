use ashe_worker::composition::{
    AssembleError, CompositionSession, MAX_SESSION_PCM_BYTES, SilenceCompactor, TypingBuffer,
};
use ashe_worker::stt::Transcript;

fn pcm(sample: i16, samples: usize) -> Vec<u8> {
    sample.to_le_bytes().repeat(samples)
}

fn text_transcript(text: &str) -> Transcript {
    Transcript {
        text: text.to_string(),
        words: Vec::new(),
    }
}

#[test]
fn natural_silence_under_five_seconds_is_unchanged() {
    let rate = 100;
    let speech_a = pcm(2_000, 10);
    let silence = pcm(0, 499);
    let speech_b = pcm(2_000, 10);
    let mut compact = SilenceCompactor::new(rate);
    compact.push_pcm(&speech_a, true);
    compact.push_pcm(&silence, false);
    compact.push_pcm(&speech_b, true);
    let output = compact.finish().unwrap();
    assert_eq!(output, [speech_a, silence, speech_b].concat());
}

#[test]
fn five_second_gap_is_compacted_to_half_a_second() {
    let rate = 100;
    let speech_a = pcm(2_000, 10);
    let silence = pcm(0, 800);
    let speech_b = pcm(2_000, 10);
    let mut compact = SilenceCompactor::new(rate);
    compact.push_pcm(&speech_a, true);
    compact.push_pcm(&silence, false);
    assert!(compact.silence_truncated());
    compact.push_pcm(&speech_b, true);
    let output = compact.finish().unwrap();
    assert_eq!(
        output.len(),
        speech_a.len() + pcm(0, 50).len() + speech_b.len()
    );
    assert_eq!(&output[..speech_a.len()], speech_a);
    assert_eq!(&output[output.len() - speech_b.len()..], speech_b);
}

#[test]
fn leading_silence_is_not_sent_but_preroll_is_restored() {
    let rate = 100;
    let silence = pcm(0, 800);
    let speech = pcm(2_000, 10);
    let mut compact = SilenceCompactor::new(rate);
    compact.push_pcm(&silence, false);
    assert!(compact.silence_truncated());
    compact.push_pcm(&speech, true);
    let output = compact.finish().unwrap();
    assert_eq!(output.len(), pcm(0, 25).len() + speech.len());
    assert_eq!(&output[output.len() - speech.len()..], speech);
}

#[test]
fn all_silent_capture_has_no_audio() {
    let mut compact = SilenceCompactor::new(100);
    compact.push_pcm(&pcm(0, 900), false);
    assert!(compact.finish().is_none());
}

#[test]
fn all_silent_session_still_inserts_exact_user_content() {
    let mut session = CompositionSession::new(0, 100);
    session.push_typed_text("typed");
    session.push_pasted_text("\nPASTED".to_string());
    assert!(session.commit_insertion());
    let final_composition = session.finish();
    assert_eq!(final_composition.speech_count(), 0);
    assert_eq!(final_composition.assemble().unwrap(), "typed\nPASTED");
}

#[test]
fn silence_status_changes_only_after_truncation() {
    let mut compact = SilenceCompactor::new(100);
    compact.push_pcm(&pcm(0, 499), false);
    assert!(!compact.silence_truncated());
    compact.push_pcm(&pcm(0, 1), false);
    assert!(compact.silence_truncated());
}

#[test]
fn paste_preview_is_private_and_backspace_is_atomic() {
    let mut buffer = TypingBuffer::default();
    buffer.push_text("alpha ");
    buffer.push_paste("private text".to_string());
    assert_eq!(buffer.preview_tail(64), "alpha [pasted]");
    assert!(buffer.backspace());
    assert_eq!(buffer.preview_tail(64), "alpha ");
    assert_eq!(buffer.take_actual(), "alpha ");
}

#[test]
fn line_break_is_one_editable_typing_atom() {
    let mut buffer = TypingBuffer::default();
    buffer.push_text("alpha");
    buffer.push_line_break();
    assert_eq!(buffer.preview_tail(64), "alpha↵");
    assert!(buffer.backspace());
    assert_eq!(buffer.preview_tail(64), "alpha");
    assert_eq!(buffer.take_actual(), "alpha");
}

#[test]
fn typed_and_listening_line_breaks_emit_exact_newlines() {
    let mut session = CompositionSession::new(0, 100);
    session.push_typed_text("alpha");
    session.push_typed_line_break();
    session.push_typed_text("beta");
    assert!(session.commit_insertion());
    session.commit_line_break();
    assert_eq!(session.insertion_count(), 2);
    assert_eq!(session.finish().assemble().unwrap(), "alpha\nbeta\n");
}

#[test]
fn preview_is_a_trailing_sliding_window() {
    let mut buffer = TypingBuffer::default();
    buffer.push_text("abcdefghij");
    assert_eq!(buffer.preview_tail(4), "ghij");
}

#[test]
fn speech_and_insertions_are_assembled_in_order() {
    let mut session = CompositionSession::new(42, 100);
    let first = session.push_speech(pcm(2_000, 100)).unwrap();
    session.push_typed_text("typed");
    assert!(session.commit_insertion());
    let second = session.push_speech(pcm(2_000, 100)).unwrap();
    assert!(session.set_speech_transcript(first, text_transcript("speech one")));
    assert!(session.set_speech_transcript(second, text_transcript("speech two")));
    let final_composition = session.finish();
    assert_eq!(
        final_composition.assemble().unwrap(),
        "speech one typed speech two"
    );
}

#[test]
fn typed_and_pasted_values_remain_exact() {
    let mut session = CompositionSession::new(0, 100);
    session.push_typed_text("before:");
    session.push_pasted_text("\nEXACT\r\n".to_string());
    session.push_typed_text("after");
    assert!(session.commit_insertion());
    let final_composition = session.finish();
    assert_eq!(
        final_composition.assemble().unwrap(),
        "before:\nEXACT\r\nafter"
    );
}

#[test]
fn insertion_only_composition_preserves_edge_whitespace() {
    let mut session = CompositionSession::new(0, 100);
    session.push_pasted_text("\n  exact  \r\n".to_string());
    assert!(session.commit_insertion());
    assert_eq!(session.finish().assemble().unwrap(), "\n  exact  \r\n");
}

#[test]
fn insertion_count_increments_per_committed_buffer() {
    let mut session = CompositionSession::new(0, 100);
    session.push_typed_text("one");
    assert!(session.commit_insertion());
    session.push_pasted_text("two".to_string());
    assert!(session.commit_insertion());
    assert_eq!(session.insertion_count(), 2);
}

#[test]
fn missing_segment_transcript_fails_assembly() {
    let mut session = CompositionSession::new(0, 100);
    let first = session.push_speech(pcm(2_000, 100)).unwrap();
    session.push_typed_text("typed");
    session.commit_insertion();
    session.push_speech(pcm(2_000, 100));
    assert!(session.set_speech_transcript(first, text_transcript("speech one")));
    let final_composition = session.finish();
    assert!(final_composition.assemble().is_err());
}

#[test]
fn deterministic_joining_respects_punctuation_and_explicit_whitespace() {
    let mut session = CompositionSession::new(0, 100);
    let index = session.push_speech(pcm(2_000, 100)).unwrap();
    session.push_typed_text(", exactly");
    session.push_pasted_text("\n".to_string());
    session.commit_insertion();
    assert!(session.set_speech_transcript(index, text_transcript("Hello")));
    let final_composition = session.finish();
    assert_eq!(final_composition.assemble().unwrap(), "Hello, exactly\n");
}

#[test]
fn sealed_segments_get_sequential_transcript_slots() {
    let mut session = CompositionSession::new(0, 100);
    assert_eq!(session.pending_transcript_count(), 0);
    let first = session.push_speech(pcm(2_000, 10)).unwrap();
    let second = session.push_speech(pcm(2_000, 10)).unwrap();
    assert_eq!((first, second), (0, 1));
    assert_eq!(session.speech_count(), 2);
    assert_eq!(session.pending_transcript_count(), 2);
    assert!(!session.all_transcripts_ready());
    assert!(!session.set_speech_transcript(7, text_transcript("stale")));
    assert!(session.set_speech_transcript(first, text_transcript("one")));
    assert_eq!(session.pending_transcript_count(), 1);
    assert!(session.set_speech_transcript(second, text_transcript("  two  ")));
    assert!(session.all_transcripts_ready());
    assert_eq!(session.finish().assemble().unwrap(), "one two");
}

#[test]
fn fail_safe_is_well_above_expected_session_size() {
    let ten_minutes_at_48khz = 48_000 * 2 * 60 * 10;
    assert!(MAX_SESSION_PCM_BYTES > ten_minutes_at_48khz);
}

#[test]
fn odd_bytes_do_not_count() {
    let mut compact = SilenceCompactor::new(100);
    compact.push_pcm(&[1, 2, 3], true);
    compact.push_pcm(&[9], true);
    compact.push_pcm(&[4, 5], true);
    assert_eq!(compact.estimated_bytes(), 4);
    assert_eq!(compact.finish().unwrap(), [1, 2, 4, 5]);
}

#[test]
fn long_gaps_keep_both_edges() {
    let speech = pcm(2_000, 10);
    let gap: Vec<u8> = (0..800i16).flat_map(|sample| sample.to_le_bytes()).collect();
    let mut compact = SilenceCompactor::new(100);
    compact.push_pcm(&speech, true);
    for chunk in gap.chunks(64) {
        compact.push_pcm(chunk, false);
    }
    compact.push_pcm(&speech, true);
    let output = compact.finish().unwrap();
    assert_eq!(
        output,
        [&speech[..], &gap[..50], &gap[gap.len() - 50..], &speech[..]].concat()
    );
}

#[test]
fn trailing_long_gap_is_sent_as_its_edges() {
    let speech = pcm(2_000, 10);
    let mut compact = SilenceCompactor::new(100);
    compact.push_pcm(&speech, true);
    compact.push_pcm(&pcm(0, 600), false);
    assert_eq!(compact.estimated_bytes(), speech.len() + 100);
    assert_eq!(compact.finish().unwrap().len(), speech.len() + 100);
}

#[test]
fn lengths_follow_the_rate() {
    let compact = SilenceCompactor::new(48_000);
    assert_eq!(compact.samples_for_seconds(5), 240_000);
    assert_eq!(compact.bytes_for_milliseconds(250), 24_000);
    assert_eq!(SilenceCompactor::new(3).bytes_for_milliseconds(250), 0);
}

#[test]
fn control_characters_are_not_typed() {
    let mut buffer = TypingBuffer::default();
    buffer.push_text("a\u{7}b\u{1b}\u{85}c");
    assert_eq!(buffer.preview_tail(64), "abc");
    assert!(!buffer.is_empty());
    buffer.push_paste(String::new());
    assert_eq!(buffer.take_actual(), "abc");
    assert!(buffer.is_empty());
    assert!(!buffer.backspace());
}

#[test]
fn pasted_text_never_shows() {
    let mut buffer = TypingBuffer::default();
    buffer.push_paste("secret".to_string());
    buffer.push_line_break();
    assert_eq!(buffer.preview_tail(64), "[pasted]\u{21b5}");
    assert_eq!(buffer.preview_tail(3), "\u{21b5}");
    assert_eq!(buffer.take_actual(), "secret\n");
}

#[test]
fn sessions_refuse_empty_audio_and_rates() {
    let mut session = CompositionSession::new(7, 0);
    assert_eq!(session.push_speech(pcm(1, 4)), None);
    let mut session = CompositionSession::new(7, 100);
    assert_eq!(session.push_speech(Vec::new()), None);
    assert_eq!(session.sample_rate(), 100);
    assert_eq!(session.push_speech(pcm(1, 4)), Some(0));
    assert_eq!(session.audio_bytes(), 8);
    assert!(!session.commit_insertion());
    assert_eq!(session.finish().target_hwnd(), 7);
}

#[test]
fn missing_transcripts_are_named() {
    let mut session = CompositionSession::new(0, 100);
    session.push_speech(pcm(1, 4));
    let error = session.finish().assemble().unwrap_err();
    assert_eq!(error, AssembleError::TranscriptMissing);
    assert_eq!(error.message(), "speech transcript is missing");
    assert_eq!(
        AssembleError::SlotsDoNotMatch.message(),
        "speech transcripts do not match speech segments"
    );
}

#[test]
fn typing_is_taken_back_atom_by_atom() {
    let mut session = CompositionSession::new(0, 100);
    session.push_typed_text("ab");
    session.push_pasted_text("long text".to_string());
    session.push_typed_line_break();
    assert_eq!(session.typing_preview_tail(64), "ab[pasted]\u{21b5}");
    assert!(session.backspace());
    assert!(session.backspace());
    assert_eq!(session.typing_preview_tail(64), "ab");
    assert!(session.backspace());
    assert!(session.backspace());
    assert!(session.typing_is_empty());
    assert!(!session.backspace());
}

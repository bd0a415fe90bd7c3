use ashe_worker::spoken_punctuation::{Conversion, apply_spoken_punctuation, convert, core_word};
use ashe_worker::stt::{Transcript, TranscriptWord};

fn word(text: &str) -> TranscriptWord {
    TranscriptWord {
        text: text.to_string(),
        start: Some(1.0f64.to_bits()),
        end: Some(2.0f64.to_bits()),
        kind: "word".to_string(),
    }
}

fn spacing() -> TranscriptWord {
    TranscriptWord {
        text: " ".to_string(),
        start: None,
        end: None,
        kind: "spacing".to_string(),
    }
}

/// Interleave words with single spaces, as the transcription endpoint
/// lays out word and spacing tokens.
fn stream(words: &[&str]) -> Vec<TranscriptWord> {
    let mut out = Vec::new();
    for (index, text) in words.iter().enumerate() {
        if index > 0 {
            out.push(spacing());
        }
        out.push(word(text));
    }
    out
}

fn transcript(text: &str, words: Vec<TranscriptWord>) -> Transcript {
    Transcript {
        text: text.to_string(),
        words,
    }
}

fn converted(groups: &[&str]) -> Transcript {
    let words = stream(groups);
    let text = words
        .iter()
        .map(|word| word.text.as_str())
        .collect::<Vec<_>>()
        .join("");
    apply_spoken_punctuation(&transcript(&text, words))
}

#[test]
fn reported_quote_doubling_collapses_to_one_pair() {
    let result = converted(&[
        "Double", "quote,", "\"The", "harness", "tree.", "Double", "quote.",
    ]);
    assert_eq!(result.text, "\"The harness tree.\"");
    assert!(result.words.iter().all(|word| {
        word.text != "Double" && word.text != "quote," && word.text != "quote."
    }));
}

#[test]
fn comma_and_period_glue_left() {
    let result = converted(&["hello", "comma", "world", "period"]);
    assert_eq!(result.text, "hello, world.");
}

#[test]
fn question_and_exclamation_marks() {
    let result = converted(&["really", "question", "mark"]);
    assert_eq!(result.text, "really?");
    let result = converted(&["wow", "exclamation", "mark", "note", "colon", "go"]);
    assert_eq!(result.text, "wow! note: go");
}

#[test]
fn new_paragraph_breaks_without_stray_spaces() {
    let result = converted(&["first", "new", "paragraph", "second"]);
    assert_eq!(result.text, "first\n\nsecond");
    let result = converted(&["a", "new", "line", "b"]);
    assert_eq!(result.text, "a\nb");
}

#[test]
fn explicit_open_and_close_quotes() {
    let result = converted(&["open", "quote", "hi", "there", "close", "quote"]);
    assert_eq!(result.text, "\"hi there\"");
}

#[test]
fn apostrophe_glues_both_sides() {
    let result = converted(&["don", "single", "quote", "t"]);
    assert_eq!(result.text, "don't");
}

#[test]
fn literal_escape_keeps_the_words() {
    let result = converted(&["literal", "comma", "ok"]);
    assert_eq!(result.text, "comma ok");
}

#[test]
fn bare_command_words_still_convert() {
    // Documented tradeoff: without `literal`, a command word is a
    // command even when meant literally.
    let result = converted(&["the", "word", "comma"]);
    assert_eq!(result.text, "the word,");
}

#[test]
fn transcript_without_commands_returns_unchanged() {
    let words = stream(&["just", "talking", "here"]);
    let text = "just talking here";
    let result = apply_spoken_punctuation(&transcript(text, stream(&["just", "talking", "here"])));
    assert_eq!(result.text, text);
    assert_eq!(result.words, words);
}

#[test]
fn surviving_words_keep_their_timestamps() {
    let result = converted(&["hello", "comma", "world"]);
    let hello = result
        .words
        .iter()
        .find(|word| word.text == "hello,")
        .expect("comma attaches to hello");
    assert_eq!(hello.start, Some(1.0f64.to_bits()));
    assert_eq!(hello.end, Some(2.0f64.to_bits()));
    let world = result
        .words
        .iter()
        .find(|word| word.text == "world")
        .expect("world survives");
    assert_eq!(world.start, Some(1.0f64.to_bits()));
}

#[test]
fn lone_command_leaves_no_content() {
    let result = converted(&["comma"]);
    assert_eq!(result.text, "");
    assert!(result.words.iter().all(|word| word.kind != "word"));
}

#[test]
fn every_command_has_its_symbol() {
    for (spoken, text) in [
        (vec!["a", "full", "stop"], "a."),
        (vec!["a", "exclamation", "point"], "a!"),
        (vec!["a", "semicolon", "b"], "a; b"),
        (vec!["a", "semi", "colon", "b"], "a; b"),
        (vec!["a", "colons", "b"], "a: b"),
        (vec!["a", "next", "line", "b"], "a\nb"),
        (vec!["a", "next", "paragraphs", "b"], "a\n\nb"),
        (vec!["it", "apostrophe", "s"], "it's"),
        (vec!["begin", "quote", "a", "end", "quotation"], "\"a\""),
        (vec!["double", "quotes", "a", "double", "quotes"], "\"a\""),
    ] {
        assert_eq!(converted(&spoken).text, text);
    }
}

#[test]
fn leading_commands_attach_to_the_next_word() {
    assert_eq!(converted(&["comma", "yes"]).text, ",yes");
    assert_eq!(converted(&["new", "line", "yes"]).words[0].text, "\nyes");
    assert_eq!(converted(&["close", "quote", "yes"]).text, "\"yes");
}

#[test]
fn literal_keeps_a_phrase_of_two_words() {
    assert_eq!(
        converted(&["Literal,", "question", "mark", "comma"]).text,
        "question mark,"
    );
    let kept: Vec<String> = converted(&["literal", "literal", "period"])
        .words
        .into_iter()
        .filter(|word| word.kind == "word")
        .map(|word| word.text)
        .collect();
    assert_eq!(kept, ["literal", "period"]);
    assert_eq!(converted(&["literal", "thing"]).text, "literal thing");
}

#[test]
fn edge_marks_do_not_hide_a_command() {
    let core = |text: &str| core_word(text).into_iter().collect::<String>();
    assert_eq!(core("\u{201c}(Comma).\u{2019}"), "Comma");
    assert_eq!(core("it's"), "it's");
    assert_eq!(core("..."), "");
    assert_eq!(converted(&["a", "\u{201c}COMMA,\u{201d}", "b"]).text, "a, b");
    assert_eq!(converted(&["a", "\u{212a}omma"]).text, "a \u{212a}omma");
    assert_eq!(converted(&["a", "question", "mar\u{212a}"]).text, "a?");
}

#[test]
fn commands_are_counted() {
    let words = stream(&["hello", "comma", "new", "line", "world"]);
    assert_eq!(
        convert(&words),
        Some(Conversion {
            words: vec![word("hello,\n"), word("world")],
            commands: 2,
        })
    );
    let escaped = convert(&stream(&["literal", "comma"])).unwrap();
    assert_eq!(escaped.commands, 0);
    assert_eq!(convert(&stream(&["plain", "speech"])), None);
}

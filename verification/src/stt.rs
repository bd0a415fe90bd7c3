//! Transcripts and the self-hosted speech-to-text request.

use vstd::arithmetic::div_mod::{lemma_div_denominator, lemma_fundamental_div_mod_converse};
use vstd::prelude::*;

use crate::composition::append_bytes;
use crate::config::{
    AppConfig, ConfigError, ConfigView, base_of, dictation_problem, endpoint_of, url_parts,
};
use crate::http::{status_name, status_text};
use crate::json::{Json, JsonView, document, read_document};
use crate::spoken_punctuation::{apply_spoken_punctuation, punctuated};
use crate::text::{
    CharClass, ascii_lower, ascii_lowered, chars_of, extend, lower_ascii, spells, split_words,
    string_of, strip_ends, text_views, trim, trimmed, words_of,
};

verus! {

/// A transcript with word tokens and optional timing.
#[derive(Debug, PartialEq)]
pub struct Transcript {
    pub text: String,
    pub words: Vec<TranscriptWord>,
}

/// One token of a transcript. `kind` is `word` for content, `spacing` for the
/// white space between words, and anything else for audio events.
///
/// A time is the IEEE 754 bit pattern of a number of seconds: the library
/// carries times and never computes with them.
#[derive(Debug, PartialEq)]
pub struct TranscriptWord {
    pub text: String,
    pub start: Option<u64>,
    pub end: Option<u64>,
    pub kind: String,
}

/// What a `TranscriptWord` holds.
pub struct WordView {
    pub text: Seq<char>,
    pub start: Option<u64>,
    pub end: Option<u64>,
    pub kind: Seq<char>,
}

/// What a `Transcript` holds.
pub struct TranscriptView {
    pub text: Seq<char>,
    pub words: Seq<WordView>,
}

impl View for TranscriptWord {
    type V = WordView;

    open spec fn view(&self) -> WordView {
        WordView { text: self.text@, start: self.start, end: self.end, kind: self.kind@ }
    }
}

pub open spec fn word_views(words: Seq<TranscriptWord>) -> Seq<WordView> {
    words.map_values(|w: TranscriptWord| w@)
}

pub proof fn word_views_push(words: Seq<TranscriptWord>, word: TranscriptWord)
    ensures
        word_views(words.push(word)) == word_views(words).push(word@),
{
    assert(word_views(words.push(word)) =~= word_views(words).push(word@));
}

impl View for Transcript {
    type V = TranscriptView;

    open spec fn view(&self) -> TranscriptView {
        TranscriptView { text: self.text@, words: word_views(self.words@) }
    }
}

impl Clone for TranscriptWord {
    fn clone(&self) -> (r: Self)
        ensures
            r@ == self@,
    {
        TranscriptWord {
            text: self.text.clone(),
            start: self.start,
            end: self.end,
            kind: self.kind.clone(),
        }
    }
}

impl Clone for Transcript {
    fn clone(&self) -> (r: Self)
        ensures
            r@ == self@,
    {
        let mut words: Vec<TranscriptWord> = Vec::new();
        let mut i: usize = 0;
        while i < self.words.len()
            invariant
                i <= self.words@.len(),
                word_views(words@) == word_views(self.words@).take(i as int),
            decreases self.words@.len() - i,
        {
            let word = self.words[i].clone();
            proof {
                word_views_push(words@, word);
            }
            words.push(word);
            i += 1;
            assert(word_views(words@) =~= word_views(self.words@).take(i as int));
        }
        assert(word_views(self.words@).take(i as int) =~= word_views(self.words@));
        Transcript { text: self.text.clone(), words }
    }
}

pub open spec fn ascii_letter(c: char) -> bool {
    'a' <= c <= 'z' || 'A' <= c <= 'Z'
}

/// The two-letter code for a lowercase three-letter language code.
pub open spec fn two_letter_code(code: Seq<char>) -> Option<Seq<char>> {
    if code == "ara"@ {
        Some("ar"@)
    } else if code == "ces"@ {
        Some("cs"@)
    } else if code == "dan"@ {
        Some("da"@)
    } else if code == "deu"@ {
        Some("de"@)
    } else if code == "ell"@ {
        Some("el"@)
    } else if code == "eng"@ {
        Some("en"@)
    } else if code == "fin"@ {
        Some("fi"@)
    } else if code == "fra"@ {
        Some("fr"@)
    } else if code == "heb"@ {
        Some("he"@)
    } else if code == "hin"@ {
        Some("hi"@)
    } else if code == "hun"@ {
        Some("hu"@)
    } else if code == "ind"@ {
        Some("id"@)
    } else if code == "ita"@ {
        Some("it"@)
    } else if code == "jpn"@ {
        Some("ja"@)
    } else if code == "kor"@ {
        Some("ko"@)
    } else if code == "msa"@ {
        Some("ms"@)
    } else if code == "nld"@ {
        Some("nl"@)
    } else if code == "nor"@ {
        Some("no"@)
    } else if code == "pol"@ {
        Some("pl"@)
    } else if code == "por"@ {
        Some("pt"@)
    } else if code == "ron"@ {
        Some("ro"@)
    } else if code == "rus"@ {
        Some("ru"@)
    } else if code == "spa"@ {
        Some("es"@)
    } else if code == "swe"@ {
        Some("sv"@)
    } else if code == "tha"@ {
        Some("th"@)
    } else if code == "tur"@ {
        Some("tr"@)
    } else if code == "ukr"@ {
        Some("uk"@)
    } else if code == "vie"@ {
        Some("vi"@)
    } else if code == "zho"@ {
        Some("zh"@)
    } else {
        None
    }
}

/// What a configured language asks of the engine.
pub enum LanguageView {
    /// Nothing configured: the engine detects the language.
    Detect,
    Code(Seq<char>),
    Unsupported(Seq<char>),
}

/// Empty means detection, two ASCII letters pass through in lowercase, a
/// known three-letter code maps to two letters, and nothing else is accepted.
pub open spec fn language_of(configured: Seq<char>) -> LanguageView {
    let code = trimmed(configured);
    if code.len() == 0 {
        LanguageView::Detect
    } else if code.len() == 2 && ascii_letter(code[0]) && ascii_letter(code[1]) {
        LanguageView::Code(ascii_lowered(code))
    } else {
        match two_letter_code(ascii_lowered(code)) {
            Some(mapped) => LanguageView::Code(mapped),
            None => LanguageView::Unsupported(code),
        }
    }
}

fn is_ascii_letter(c: char) -> (r: bool)
    ensures
        r == ascii_letter(c),
{
    ('a' <= c && c <= 'z') || ('A' <= c && c <= 'Z')
}

fn read_two_letter_code(code: &[char]) -> (r: Option<&'static str>)
    ensures
        match r {
            Some(mapped) => two_letter_code(code@) == Some(mapped@),
            None => two_letter_code(code@) is None,
        },
{
    if spells(code, "ara") {
        Some("ar")
    } else if spells(code, "ces") {
        Some("cs")
    } else if spells(code, "dan") {
        Some("da")
    } else if spells(code, "deu") {
        Some("de")
    } else if spells(code, "ell") {
        Some("el")
    } else if spells(code, "eng") {
        Some("en")
    } else if spells(code, "fin") {
        Some("fi")
    } else if spells(code, "fra") {
        Some("fr")
    } else if spells(code, "heb") {
        Some("he")
    } else if spells(code, "hin") {
        Some("hi")
    } else if spells(code, "hun") {
        Some("hu")
    } else if spells(code, "ind") {
        Some("id")
    } else if spells(code, "ita") {
        Some("it")
    } else if spells(code, "jpn") {
        Some("ja")
    } else if spells(code, "kor") {
        Some("ko")
    } else if spells(code, "msa") {
        Some("ms")
    } else if spells(code, "nld") {
        Some("nl")
    } else if spells(code, "nor") {
        Some("no")
    } else if spells(code, "pol") {
        Some("pl")
    } else if spells(code, "por") {
        Some("pt")
    } else if spells(code, "ron") {
        Some("ro")
    } else if spells(code, "rus") {
        Some("ru")
    } else if spells(code, "spa") {
        Some("es")
    } else if spells(code, "swe") {
        Some("sv")
    } else if spells(code, "tha") {
        Some("th")
    } else if spells(code, "tur") {
        Some("tr")
    } else if spells(code, "ukr") {
        Some("uk")
    } else if spells(code, "vie") {
        Some("vi")
    } else if spells(code, "zho") {
        Some("zh")
    } else {
        None
    }
}

/// A language code that the engine does not know.
#[derive(Debug, PartialEq)]
pub struct UnsupportedLanguage {
    pub code: String,
}

impl UnsupportedLanguage {
    pub fn message(&self) -> (r: String)
        ensures
            r@ == "unsupported STT language code `"@ + self.code@ + "`"@,
    {
        let mut out: Vec<char> = chars_of("unsupported STT language code `");
        extend(&mut out, &chars_of(&self.code));
        extend(&mut out, &chars_of("`"));
        string_of(&out)
    }
}

/// Map a configured language to the engine's two-letter code. Empty means
/// detection; anything unmapped is an error rather than a wrong language.
pub fn map_language(configured: &str) -> (r: Result<Option<String>, UnsupportedLanguage>)
    ensures
        match r {
            Ok(None) => language_of(configured@) is Detect,
            Ok(Some(code)) => language_of(configured@) == LanguageView::Code(code@),
            Err(e) => language_of(configured@) == LanguageView::Unsupported(e.code@),
        },
{
    let code: Vec<char> = strip_ends(&chars_of(configured), CharClass::WhiteSpace);
    if code.len() == 0 {
        return Ok(None);
    }
    let lower: Vec<char> = lower_ascii(&code);
    if code.len() == 2 && is_ascii_letter(code[0]) && is_ascii_letter(code[1]) {
        return Ok(Some(string_of(&lower)));
    }
    match read_two_letter_code(&lower) {
        Some(mapped) => Ok(Some(mapped.to_owned())),
        None => Err(UnsupportedLanguage { code: string_of(&code) }),
    }
}

/// Why a capture cannot be sent.
#[derive(Clone, Copy, Debug, PartialEq, Eq, Structural)]
pub enum CaptureError {
    NoAudio,
    OddByteCount,
    ZeroSampleRate,
}

impl CaptureError {
    pub fn message(&self) -> (r: &'static str)
        ensures
            r@ == match *self {
                CaptureError::NoAudio => "no audio captured"@,
                CaptureError::OddByteCount => "captured PCM has an odd byte count"@,
                CaptureError::ZeroSampleRate => "capture sample rate must be greater than zero"@,
            },
    {
        match self {
            CaptureError::NoAudio => "no audio captured",
            CaptureError::OddByteCount => "captured PCM has an odd byte count",
            CaptureError::ZeroSampleRate => "capture sample rate must be greater than zero",
        }
    }
}

/// What is wrong with a capture, if anything: the first complaint counts.
pub open spec fn capture_problem(pcm: Seq<u8>, sample_rate: nat) -> Option<CaptureError> {
    if pcm.len() == 0 {
        Some(CaptureError::NoAudio)
    } else if pcm.len() % 2 != 0 {
        Some(CaptureError::OddByteCount)
    } else if sample_rate == 0 {
        Some(CaptureError::ZeroSampleRate)
    } else {
        None
    }
}

pub fn validate_capture(pcm: &[u8], sample_rate: u32) -> (r: Result<(), CaptureError>)
    ensures
        match r {
            Ok(_) => capture_problem(pcm@, sample_rate as nat) is None,
            Err(e) => capture_problem(pcm@, sample_rate as nat) == Some(e),
        },
{
    if pcm.len() == 0 {
        return Err(CaptureError::NoAudio);
    }
    if pcm.len() % 2 != 0 {
        return Err(CaptureError::OddByteCount);
    }
    if sample_rate == 0 {
        return Err(CaptureError::ZeroSampleRate);
    }
    Ok(())
}

/// The low two bytes of `n`, little end first.
pub open spec fn le16(n: nat) -> Seq<u8> {
    seq![(n % 256) as u8, (n / 256 % 256) as u8]
}

/// The low four bytes of `n`, little end first.
pub open spec fn le32(n: nat) -> Seq<u8> {
    seq![
        (n % 256) as u8,
        (n / 256 % 256) as u8,
        (n / 65536 % 256) as u8,
        (n / 16777216 % 256) as u8,
    ]
}

/// The number that four bytes spell, little end first.
pub open spec fn from_le32(bytes: Seq<u8>) -> nat {
    bytes[0] as nat + bytes[1] as nat * 256 + bytes[2] as nat * 65536 + bytes[3] as nat * 16777216
}

/// The number that two bytes spell, little end first.
pub open spec fn from_le16(bytes: Seq<u8>) -> nat {
    bytes[0] as nat + bytes[1] as nat * 256
}

/// `RIFF`
pub open spec fn riff_tag() -> Seq<u8> {
    seq![0x52u8, 0x49, 0x46, 0x46]
}

/// `WAVE` and `fmt `
pub open spec fn wave_fmt_tags() -> Seq<u8> {
    seq![0x57u8, 0x41, 0x56, 0x45, 0x66, 0x6d, 0x74, 0x20]
}

/// `data`
pub open spec fn data_tag() -> Seq<u8> {
    seq![0x64u8, 0x61, 0x74, 0x61]
}

/// A WAV file of 16-bit mono PCM: the 44-byte header and the samples. Sizes
/// are kept modulo 2^32, as the header has room for.
pub open spec fn wav_of(pcm: Seq<u8>, sample_rate: nat) -> Seq<u8> {
    riff_tag() + le32(36 + pcm.len()) + wave_fmt_tags() + le32(16) + le16(1) + le16(1) + le32(
        sample_rate,
    ) + le32(sample_rate * 2) + le16(2) + le16(16) + data_tag() + le32(pcm.len()) + pcm
}

fn push_le16(out: &mut Vec<u8>, n: u16)
    ensures
        final(out)@ == old(out)@ + le16(n as nat),
{
    out.push((n % 256) as u8);
    out.push((n / 256 % 256) as u8);
    assert(out@ =~= old(out)@ + le16(n as nat));
}

fn push_le32(out: &mut Vec<u8>, n: u128)
    ensures
        final(out)@ == old(out)@ + le32(n as nat),
{
    out.push((n % 256) as u8);
    out.push((n / 256 % 256) as u8);
    out.push((n / 65536 % 256) as u8);
    out.push((n / 16777216 % 256) as u8);
    assert(out@ =~= old(out)@ + le32(n as nat));
}

/// Wrap little-endian mono 16-bit PCM in a 44-byte WAV header, so the engine
/// decodes the capture without further parameters.
pub fn encode_wav_mono16(pcm: &[u8], sample_rate: u32) -> (r: Vec<u8>)
    ensures
        r@ == wav_of(pcm@, sample_rate as nat),
{
    let data_len: u128 = pcm.len() as u128;
    let mut wav: Vec<u8> = vec![0x52, 0x49, 0x46, 0x46];
    assert(wav@ =~= riff_tag());
    push_le32(&mut wav, 36 + data_len);
    append_bytes(&mut wav, &[0x57, 0x41, 0x56, 0x45, 0x66, 0x6d, 0x74, 0x20]);
    push_le32(&mut wav, 16);
    push_le16(&mut wav, 1);
    push_le16(&mut wav, 1);
    push_le32(&mut wav, sample_rate as u128);
    push_le32(&mut wav, sample_rate as u128 * 2);
    push_le16(&mut wav, 2);
    push_le16(&mut wav, 16);
    append_bytes(&mut wav, &[0x64, 0x61, 0x74, 0x61]);
    push_le32(&mut wav, data_len);
    append_bytes(&mut wav, pcm);
    assert(wav@ =~= wav_of(pcm@, sample_rate as nat));
    wav
}

proof fn le32_reads_back(n: nat)
    ensures
        from_le32(le32(n)) == n % 0x1_0000_0000,
{
    let n1 = n / 256;
    let n2 = n1 / 256;
    let n3 = n2 / 256;
    let n4 = n3 / 256;
    lemma_div_denominator(n as int, 256, 256);
    lemma_div_denominator(n as int, 65536, 256);
    let low = n % 256 + n1 % 256 * 256 + n2 % 256 * 65536 + n3 % 256 * 16777216;
    lemma_fundamental_div_mod_converse(n as int, 0x1_0000_0000, n4 as int, low as int);
}

/// Where the parts of a file stand.
#[verifier::spinoff_prover]
#[verifier::rlimit(50)]
proof fn wav_parts(pcm: Seq<u8>, sample_rate: nat)
    ensures
        ({
            let wav = wav_of(pcm, sample_rate);
            &&& wav.len() == 44 + pcm.len()
            &&& wav.take(4) == riff_tag()
            &&& wav.subrange(4, 8) == le32(36 + pcm.len())
            &&& wav.subrange(8, 16) == wave_fmt_tags()
            &&& wav.subrange(16, 20) == le32(16)
            &&& wav.subrange(20, 22) == le16(1)
            &&& wav.subrange(22, 24) == le16(1)
            &&& wav.subrange(24, 28) == le32(sample_rate)
            &&& wav.subrange(28, 32) == le32(sample_rate * 2)
            &&& wav.subrange(32, 34) == le16(2)
            &&& wav.subrange(34, 36) == le16(16)
            &&& wav.subrange(36, 40) == data_tag()
            &&& wav.subrange(40, 44) == le32(pcm.len())
            &&& wav.skip(44) == pcm
        }),
{
    let wav = wav_of(pcm, sample_rate);
    assert(wav.take(4) =~= riff_tag());
    assert(wav.subrange(4, 8) =~= le32(36 + pcm.len()));
    assert(wav.subrange(8, 16) =~= wave_fmt_tags());
    assert(wav.subrange(16, 20) =~= le32(16));
    assert(wav.subrange(20, 22) =~= le16(1));
    assert(wav.subrange(22, 24) =~= le16(1));
    assert(wav.subrange(24, 28) =~= le32(sample_rate));
    assert(wav.subrange(28, 32) =~= le32(sample_rate * 2));
    assert(wav.subrange(32, 34) =~= le16(2));
    assert(wav.subrange(34, 36) =~= le16(16));
    assert(wav.subrange(36, 40) =~= data_tag());
    assert(wav.subrange(40, 44) =~= le32(pcm.len()));
    assert(wav.skip(44) =~= pcm);
}

/// A field that holds a number in four bytes, or in two, reads back.
proof fn field_reads_back(bytes: Seq<u8>, n: nat)
    ensures
        bytes == le32(n) && n < 0x1_0000_0000 ==> from_le32(bytes) == n,
        bytes == le32(n) ==> from_le32(bytes) == n % 0x1_0000_0000,
        bytes == le16(n) && n < 0x1_0000 ==> from_le16(bytes) == n,
{
    le32_reads_back(n);
}

/// A file of 16-bit mono PCM describes its capture: 44 bytes of header and
/// the samples unchanged. The sizes of the file and of the samples, the
/// format, the rate, and the bytes per second and per sample read back from
/// the header; the bytes per second are kept modulo 2^32.
#[verifier::spinoff_prover]
#[verifier::rlimit(50)]
pub proof fn wav_describes_its_capture(pcm: Seq<u8>, sample_rate: nat)
    requires
        sample_rate <= u32::MAX,
        pcm.len() <= u32::MAX - 36,
    ensures
        ({
            let wav = wav_of(pcm, sample_rate);
            &&& wav.len() == 44 + pcm.len()
            &&& wav.take(4) == riff_tag()
            &&& from_le32(wav.subrange(4, 8)) == 36 + pcm.len()
            &&& from_le32(wav.subrange(4, 8)) == wav.len() - 8
            &&& wav.subrange(8, 16) == wave_fmt_tags()
            &&& from_le32(wav.subrange(16, 20)) == 16
            &&& from_le16(wav.subrange(20, 22)) == 1
            &&& from_le16(wav.subrange(22, 24)) == 1
            &&& from_le32(wav.subrange(24, 28)) == sample_rate
            &&& from_le32(wav.subrange(28, 32)) == 2 * sample_rate % 0x1_0000_0000
            &&& from_le16(wav.subrange(32, 34)) == 2
            &&& from_le16(wav.subrange(34, 36)) == 16
            &&& wav.subrange(36, 40) == data_tag()
            &&& from_le32(wav.subrange(40, 44)) == pcm.len()
            &&& wav.skip(44) == pcm
        }),
{
    let wav = wav_of(pcm, sample_rate);
    wav_parts(pcm, sample_rate);
    field_reads_back(wav.subrange(4, 8), 36 + pcm.len());
    field_reads_back(wav.subrange(16, 20), 16);
    field_reads_back(wav.subrange(20, 22), 1);
    field_reads_back(wav.subrange(22, 24), 1);
    field_reads_back(wav.subrange(24, 28), sample_rate);
    field_reads_back(wav.subrange(28, 32), sample_rate * 2);
    field_reads_back(wav.subrange(32, 34), 2);
    field_reads_back(wav.subrange(34, 36), 16);
    field_reads_back(wav.subrange(40, 44), pcm.len());
}

/// A word entry of the engine's answer. It needs a text and both times, of
/// which either may be something other than a number.
pub open spec fn word_entry(entry: JsonView) -> Option<WordView> {
    match (entry.text_at("text"@), entry.get("start"@), entry.get("end"@)) {
        (Some(text), Some(start), Some(end)) => Some(
            WordView { text, start: start.number(), end: end.number(), kind: "word"@ },
        ),
        _ => None,
    }
}

/// The well-formed word entries, in order.
pub open spec fn word_entries(entries: Seq<JsonView>) -> Seq<WordView>
    decreases entries.len(),
{
    if entries.len() == 0 {
        Seq::empty()
    } else {
        match word_entry(entries.last()) {
            Some(word) => word_entries(entries.drop_last()).push(word),
            None => word_entries(entries.drop_last()),
        }
    }
}

/// The words of a text without times.
pub open spec fn untimed_words(text: Seq<char>) -> Seq<WordView> {
    words_of(text).map_values(
        |w: Seq<char>| WordView { text: w, start: None, end: None, kind: "word"@ },
    )
}

/// The transcript in an answer: its text, with the well-formed word entries
/// or, where there is none, with the words of the text. An answer without a
/// text holds no transcript.
pub open spec fn transcript_in(body: JsonView) -> Option<TranscriptView> {
    match body.text_at("text"@) {
        None => None,
        Some(text) => {
            let listed = match body.get("words"@) {
                Some(JsonView::List(entries)) => word_entries(entries),
                _ => Seq::empty(),
            };
            Some(
                TranscriptView {
                    text,
                    words: if listed.len() == 0 {
                        untimed_words(text)
                    } else {
                        listed
                    },
                },
            )
        },
    }
}

fn read_word(entry: &Json) -> (r: Option<TranscriptWord>)
    ensures
        match r {
            Some(word) => word_entry(entry@) == Some(word@),
            None => word_entry(entry@) is None,
        },
{
    match (entry.text_at("text"), entry.get("start"), entry.get("end")) {
        (Some(text), Some(start), Some(end)) => Some(
            TranscriptWord {
                text: text.clone(),
                start: start.number(),
                end: end.number(),
                kind: "word".to_owned(),
            },
        ),
        _ => None,
    }
}

fn read_words(entries: &Vec<Json>) -> (r: Vec<TranscriptWord>)
    ensures
        word_views(r@) == word_entries(Json::List(*entries)@->List_0),
{
    let ghost views = Json::List(*entries)@->List_0;
    let mut out: Vec<TranscriptWord> = Vec::new();
    let mut i: usize = 0;
    assert(word_views(out@) =~= word_entries(views.take(0)));
    while i < entries.len()
        invariant
            i <= entries@.len(),
            views == Json::List(*entries)@->List_0,
            word_views(out@) == word_entries(views.take(i as int)),
        decreases entries@.len() - i,
    {
        assert(views.take(i + 1).drop_last() =~= views.take(i as int));
        assert(views.take(i + 1).last() == entries@[i as int]@);
        if let Some(word) = read_word(&entries[i]) {
            proof {
                word_views_push(out@, word);
            }
            out.push(word);
        }
        i += 1;
    }
    assert(views.take(i as int) =~= views);
    out
}

fn read_untimed_words(text: &str) -> (r: Vec<TranscriptWord>)
    ensures
        word_views(r@) == untimed_words(text@),
{
    let words: Vec<Vec<char>> = split_words(text);
    let ghost views = untimed_words(text@);
    let mut out: Vec<TranscriptWord> = Vec::new();
    let mut i: usize = 0;
    while i < words.len()
        invariant
            i <= words@.len(),
            text_views(words@) == words_of(text@),
            views == untimed_words(text@),
            word_views(out@) == views.take(i as int),
        decreases words@.len() - i,
    {
        let word = TranscriptWord {
            text: string_of(&words[i]),
            start: None,
            end: None,
            kind: "word".to_owned(),
        };
        assert(text_views(words@)[i as int] == words@[i as int]@);
        assert(word@ == views[i as int]);
        proof {
            word_views_push(out@, word);
        }
        out.push(word);
        i += 1;
        assert(word_views(out@) =~= views.take(i as int));
    }
    assert(text_views(words@).len() == words@.len());
    assert(views.take(i as int) =~= views);
    out
}

/// The engine's answer held no transcript text.
#[derive(Clone, Copy, Debug, PartialEq, Eq, Structural)]
pub struct MissingText;

/// Read the engine's answer into a transcript. Malformed word entries are
/// skipped; the text stands.
pub fn parse_transcript(body: &Json) -> (r: Result<Transcript, MissingText>)
    ensures
        match r {
            Ok(transcript) => transcript_in(body@) == Some(transcript@),
            Err(_) => transcript_in(body@) is None,
        },
{
    let text: String = match body.text_at("text") {
        Some(text) => text.clone(),
        None => {
            return Err(MissingText);
        },
    };
    let mut words: Vec<TranscriptWord> = Vec::new();
    assert(word_views(words@) =~= Seq::empty());
    if let Some(Json::List(entries)) = body.get("words") {
        words = read_words(entries);
    }
    assert(word_views(words@).len() == words@.len());
    if words.len() == 0 {
        words = read_untimed_words(&text);
    }
    Ok(Transcript { text, words })
}

/// Why one transcription request gave no transcript.
#[derive(Clone, Copy, Debug, PartialEq, Eq, Structural)]
pub enum TranscribeError {
    /// The request could not be sent.
    RequestFailed,
    /// The body of the answer could not be read.
    ResponseUnreadable,
    /// The answer carried a status other than success.
    HttpStatus(u16),
    InvalidJson,
    MissingText,
}

impl TranscribeError {
    /// Transport failures, overload, timeouts and server errors may pass.
    pub open spec fn transient(self) -> bool {
        match self {
            TranscribeError::RequestFailed => true,
            TranscribeError::ResponseUnreadable => true,
            TranscribeError::HttpStatus(status) => 500 <= status <= 599 || status == 408 || status
                == 429,
            TranscribeError::InvalidJson => false,
            TranscribeError::MissingText => false,
        }
    }

    pub fn retryable(&self) -> (r: bool)
        ensures
            r == self.transient(),
    {
        match self {
            TranscribeError::RequestFailed => true,
            TranscribeError::ResponseUnreadable => true,
            TranscribeError::HttpStatus(status) => (500 <= *status && *status <= 599) || *status
                == 408 || *status == 429,
            TranscribeError::InvalidJson => false,
            TranscribeError::MissingText => false,
        }
    }

    pub open spec fn text(self) -> Seq<char> {
        match self {
            TranscribeError::RequestFailed => "self-hosted transcription request failed"@,
            TranscribeError::ResponseUnreadable =>
                "failed to read self-hosted transcription response"@,
            TranscribeError::HttpStatus(status) => "self-hosted transcription returned HTTP "@
                + status_name(status),
            TranscribeError::InvalidJson => "self-hosted transcription returned invalid JSON"@,
            TranscribeError::MissingText => "self-hosted transcript is missing text"@,
        }
    }

    /// What the failure is called, without the details of a transport error.
    pub fn message(&self) -> (r: String)
        ensures
            r@ == self.text(),
    {
        let mut out: Vec<char> = Vec::new();
        match self {
            TranscribeError::RequestFailed => {
                out = chars_of("self-hosted transcription request failed");
            },
            TranscribeError::ResponseUnreadable => {
                out = chars_of("failed to read self-hosted transcription response");
            },
            TranscribeError::HttpStatus(status) => {
                out = chars_of("self-hosted transcription returned HTTP ");
                extend(&mut out, &status_text(*status));
            },
            TranscribeError::InvalidJson => {
                out = chars_of("self-hosted transcription returned invalid JSON");
            },
            TranscribeError::MissingText => {
                out = chars_of("self-hosted transcript is missing text");
            },
        }
        string_of(&out)
    }
}

/// What an answer amounts to, given the document its body spells.
pub open spec fn reply_outcome(status: u16, body: Option<JsonView>) -> Result<
    TranscriptView,
    TranscribeError,
> {
    if !(200 <= status <= 299) {
        Err(TranscribeError::HttpStatus(status))
    } else {
        match body {
            None => Err(TranscribeError::InvalidJson),
            Some(tree) => match transcript_in(tree) {
                Some(transcript) => Ok(transcript),
                None => Err(TranscribeError::MissingText),
            },
        }
    }
}

pub open spec fn result_view(r: Result<Transcript, TranscribeError>) -> Result<
    TranscriptView,
    TranscribeError,
> {
    match r {
        Ok(transcript) => Ok(transcript@),
        Err(e) => Err(e),
    }
}

/// Judge an answer by its status and the document its body spells.
pub fn judge_reply(status: u16, body: Option<&Json>) -> (r: Result<Transcript, TranscribeError>)
    ensures
        result_view(r) == reply_outcome(
            status,
            match body {
                Some(tree) => Some(tree@),
                None => None,
            },
        ),
{
    if status < 200 || status > 299 {
        return Err(TranscribeError::HttpStatus(status));
    }
    match body {
        None => Err(TranscribeError::InvalidJson),
        Some(tree) => match parse_transcript(tree) {
            Ok(transcript) => Ok(transcript),
            Err(_) => Err(TranscribeError::MissingText),
        },
    }
}

/// Judge an answer by its status and body.
pub fn read_reply(status: u16, body: &[u8]) -> (r: Result<Transcript, TranscribeError>)
    ensures
        result_view(r) == reply_outcome(
            status,
            match document(body@) {
                Some((tree, _)) => Some(tree),
                None => None,
            },
        ),
{
    match read_document(body) {
        Some((tree, _)) => judge_reply(status, Some(&tree)),
        None => judge_reply(status, None),
    }
}

/// Requests sent for one recording at most.
pub const REQUEST_ATTEMPTS: usize = 2;

pub const TRANSIENT_RETRY_DELAY_MS: u64 = 250;

/// What follows one request.
#[derive(Debug, PartialEq)]
pub enum AttemptStep {
    Finish(Result<Transcript, TranscribeError>),
    /// Send the recording again, after a pause.
    Retry { attempt: usize, delay_ms: u64 },
}

/// Decide after request number `attempt`. One transient failure is retried;
/// everything else is final.
pub fn after_attempt(attempt: usize, outcome: Result<Transcript, TranscribeError>) -> (r:
    AttemptStep)
    requires
        1 <= attempt <= REQUEST_ATTEMPTS,
    ensures
        match r {
            AttemptStep::Finish(result) => result == outcome && (outcome is Ok
                || !outcome->Err_0.transient() || attempt == REQUEST_ATTEMPTS),
            AttemptStep::Retry { attempt: next, delay_ms } => {
                &&& outcome is Err
                &&& outcome->Err_0.transient()
                &&& next == attempt + 1
                &&& next <= REQUEST_ATTEMPTS
                &&& delay_ms == 250
            },
        },
{
    match outcome {
        Ok(transcript) => AttemptStep::Finish(Ok(transcript)),
        Err(e) => if !e.retryable() || attempt == REQUEST_ATTEMPTS {
            AttemptStep::Finish(Err(e))
        } else {
            AttemptStep::Retry { attempt: attempt + 1, delay_ms: TRANSIENT_RETRY_DELAY_MS }
        },
    }
}

/// The result of sending one recording, given how each request would turn
/// out, from request `attempt` on.
pub open spec fn run_result(
    outcomes: spec_fn(int) -> Result<TranscriptView, TranscribeError>,
    attempt: int,
) -> Result<TranscriptView, TranscribeError>
    decreases REQUEST_ATTEMPTS - attempt,
{
    match outcomes(attempt) {
        Err(e) if e.transient() && attempt < REQUEST_ATTEMPTS => run_result(outcomes, attempt + 1),
        result => result,
    }
}

/// The engine is asked once more exactly when the first request failed in a
/// way that may pass, and the second answer is then final.
pub proof fn one_transient_failure_is_retried(
    outcomes: spec_fn(int) -> Result<TranscriptView, TranscribeError>,
)
    ensures
        run_result(outcomes, 1) == match outcomes(1) {
            Err(e) if e.transient() => outcomes(2),
            first => first,
        },
{
    reveal_with_fuel(run_result, 3);
}

/// `endpoint` with the query of a transcription request.
pub open spec fn with_query(
    endpoint: Seq<char>,
    language: Option<Seq<char>>,
    word_timestamps: bool,
) -> Seq<char> {
    let base = match language {
        Some(code) => endpoint + "?language="@ + code,
        None => endpoint,
    };
    base.push(
        if base.contains('?') {
            '&'
        } else {
            '?'
        },
    ) + (if word_timestamps {
        "word_timestamps=1"@
    } else {
        "word_timestamps=0"@
    })
}

fn holds_char(chars: &[char], c: char) -> (r: bool)
    ensures
        r == chars@.contains(c),
{
    let mut i: usize = 0;
    while i < chars.len()
        invariant
            i <= chars@.len(),
            forall|j: int| 0 <= j < i ==> chars@[j] != c,
        decreases chars@.len() - i,
    {
        if chars[i] == c {
            assert(chars@[i as int] == c);
            return true;
        }
        i += 1;
    }
    false
}

/// Add the query of a transcription request to `endpoint`.
pub fn transcription_url(endpoint: &str, language: Option<&String>, word_timestamps: bool) -> (r:
    String)
    ensures
        r@ == with_query(
            endpoint@,
            match language {
                Some(code) => Some(code@),
                None => None,
            },
            word_timestamps,
        ),
{
    let mut url: Vec<char> = chars_of(endpoint);
    if let Some(code) = language {
        extend(&mut url, &chars_of("?language="));
        extend(&mut url, &chars_of(code));
    }
    let separator: char = if holds_char(&url, '?') {
        '&'
    } else {
        '?'
    };
    url.push(separator);
    extend(
        &mut url,
        &chars_of(
            if word_timestamps {
                "word_timestamps=1"
            } else {
                "word_timestamps=0"
            },
        ),
    );
    string_of(&url)
}

/// Check a capture and wrap it for the engine.
pub fn encode_capture(pcm: &[u8], sample_rate: u32) -> (r: Result<Vec<u8>, CaptureError>)
    ensures
        match r {
            Ok(wav) => capture_problem(pcm@, sample_rate as nat) is None && wav@ == wav_of(
                pcm@,
                sample_rate as nat,
            ),
            Err(e) => capture_problem(pcm@, sample_rate as nat) == Some(e),
        },
{
    match validate_capture(pcm, sample_rate) {
        Ok(_) => Ok(encode_wav_mono16(pcm, sample_rate)),
        Err(e) => Err(e),
    }
}

/// The transcript that dictation uses: the engine has no layer for dictation
/// commands, so they are carried out here where the setting asks for it.
pub fn finished_transcript(fetched: Transcript, spoken_punctuation: bool) -> (r: Transcript)
    ensures
        r@ == if spoken_punctuation {
            punctuated(fetched@)
        } else {
            fetched@
        },
{
    if spoken_punctuation {
        apply_spoken_punctuation(&fetched)
    } else {
        fetched
    }
}

/// Where to send a recording, and the token that authorizes it.
#[derive(Debug, PartialEq)]
pub struct TranscriptionRequest {
    pub url: String,
    pub token: String,
}

/// Why a recording cannot be sent.
#[derive(Debug, PartialEq)]
pub enum RequestError {
    Config(ConfigError),
    EmptyWav,
    Language(UnsupportedLanguage),
}

/// What a `RequestError` holds.
pub enum RequestErrorView {
    Config(ConfigError),
    EmptyWav,
    Language(Seq<char>),
}

impl View for RequestError {
    type V = RequestErrorView;

    open spec fn view(&self) -> RequestErrorView {
        match *self {
            RequestError::Config(e) => RequestErrorView::Config(e),
            RequestError::EmptyWav => RequestErrorView::EmptyWav,
            RequestError::Language(e) => RequestErrorView::Language(e.code@),
        }
    }
}

impl RequestError {
    pub fn message(&self) -> (r: String)
        ensures
            r@ == match self@ {
                RequestErrorView::Config(e) => e.text(),
                RequestErrorView::EmptyWav => "captured WAV is empty"@,
                RequestErrorView::Language(code) => "unsupported STT language code `"@ + code
                    + "`"@,
            },
    {
        match self {
            RequestError::Config(e) => e.message().to_owned(),
            RequestError::EmptyWav => "captured WAV is empty".to_owned(),
            RequestError::Language(e) => e.message(),
        }
    }
}

/// The URL and the token of a transcription request, or why there is none.
pub open spec fn request_outcome(
    c: ConfigView,
    language: Seq<char>,
    wav: Seq<u8>,
    word_timestamps: bool,
) -> Result<(Seq<char>, Seq<char>), RequestErrorView> {
    let endpoint = endpoint_of(
        base_of(c.worker_base_url),
        url_parts(base_of(c.worker_base_url)),
        "/v1/stt/transcribe"@,
    );
    match (dictation_problem(c), endpoint, language_of(language)) {
        (Some(e), _, _) => Err(RequestErrorView::Config(e)),
        (None, endpoint, language) => if wav.len() == 0 {
            Err(RequestErrorView::EmptyWav)
        } else {
            match (endpoint, language) {
                (Err(e), _) => Err(RequestErrorView::Config(e)),
                (Ok(_), LanguageView::Unsupported(code)) => Err(RequestErrorView::Language(code)),
                (Ok(url), LanguageView::Code(code)) => Ok(
                    (with_query(url, Some(code), word_timestamps), trimmed(c.stt_token)),
                ),
                (Ok(url), LanguageView::Detect) => Ok(
                    (with_query(url, None, word_timestamps), trimmed(c.stt_token)),
                ),
            }
        },
    }
}

/// Decide where a recording goes.
pub fn prepare_request(
    config: &AppConfig,
    language: &str,
    wav: &[u8],
    word_timestamps: bool,
) -> (r: Result<TranscriptionRequest, RequestError>)
    ensures
        match r {
            Ok(request) => request_outcome(config@, language@, wav@, word_timestamps) == Ok::<
                (Seq<char>, Seq<char>),
                RequestErrorView,
            >((request.url@, request.token@)),
            Err(e) => request_outcome(config@, language@, wav@, word_timestamps) == Err::<
                (Seq<char>, Seq<char>),
                RequestErrorView,
            >(e@),
        },
{
    if let Err(e) = config.validate_for_dictation() {
        return Err(RequestError::Config(e));
    }
    if wav.len() == 0 {
        return Err(RequestError::EmptyWav);
    }
    let endpoint: String = match config.worker_endpoint("/v1/stt/transcribe") {
        Ok(endpoint) => endpoint,
        Err(e) => {
            return Err(RequestError::Config(e));
        },
    };
    match map_language(language) {
        Ok(code) => Ok(
            TranscriptionRequest {
                url: transcription_url(&endpoint, code.as_ref(), word_timestamps),
                token: trim(&config.stt_token),
            },
        ),
        Err(e) => Err(RequestError::Language(e)),
    }
}

/// The languages that are known by three letters, with their two letters: each
/// is found, and nothing else is.
pub proof fn known_languages_are_found(code: Seq<char>)
    ensures
        two_letter_code("ara"@) == Some("ar"@),
        two_letter_code("ces"@) == Some("cs"@),
        two_letter_code("dan"@) == Some("da"@),
        two_letter_code("deu"@) == Some("de"@),
        two_letter_code("ell"@) == Some("el"@),
        two_letter_code("eng"@) == Some("en"@),
        two_letter_code("fin"@) == Some("fi"@),
        two_letter_code("fra"@) == Some("fr"@),
        two_letter_code("heb"@) == Some("he"@),
        two_letter_code("hin"@) == Some("hi"@),
        two_letter_code("hun"@) == Some("hu"@),
        two_letter_code("ind"@) == Some("id"@),
        two_letter_code("ita"@) == Some("it"@),
        two_letter_code("jpn"@) == Some("ja"@),
        two_letter_code("kor"@) == Some("ko"@),
        two_letter_code("msa"@) == Some("ms"@),
        two_letter_code("nld"@) == Some("nl"@),
        two_letter_code("nor"@) == Some("no"@),
        two_letter_code("pol"@) == Some("pl"@),
        two_letter_code("por"@) == Some("pt"@),
        two_letter_code("ron"@) == Some("ro"@),
        two_letter_code("rus"@) == Some("ru"@),
        two_letter_code("spa"@) == Some("es"@),
        two_letter_code("swe"@) == Some("sv"@),
        two_letter_code("tha"@) == Some("th"@),
        two_letter_code("tur"@) == Some("tr"@),
        two_letter_code("ukr"@) == Some("uk"@),
        two_letter_code("vie"@) == Some("vi"@),
        two_letter_code("zho"@) == Some("zh"@),
        two_letter_code(code) matches Some(mapped) ==> {
            ||| code == "ara"@ && mapped == "ar"@
            ||| code == "ces"@ && mapped == "cs"@
            ||| code == "dan"@ && mapped == "da"@
            ||| code == "deu"@ && mapped == "de"@
            ||| code == "ell"@ && mapped == "el"@
            ||| code == "eng"@ && mapped == "en"@
            ||| code == "fin"@ && mapped == "fi"@
            ||| code == "fra"@ && mapped == "fr"@
            ||| code == "heb"@ && mapped == "he"@
            ||| code == "hin"@ && mapped == "hi"@
            ||| code == "hun"@ && mapped == "hu"@
            ||| code == "ind"@ && mapped == "id"@
            ||| code == "ita"@ && mapped == "it"@
            ||| code == "jpn"@ && mapped == "ja"@
            ||| code == "kor"@ && mapped == "ko"@
            ||| code == "msa"@ && mapped == "ms"@
            ||| code == "nld"@ && mapped == "nl"@
            ||| code == "nor"@ && mapped == "no"@
            ||| code == "pol"@ && mapped == "pl"@
            ||| code == "por"@ && mapped == "pt"@
            ||| code == "ron"@ && mapped == "ro"@
            ||| code == "rus"@ && mapped == "ru"@
            ||| code == "spa"@ && mapped == "es"@
            ||| code == "swe"@ && mapped == "sv"@
            ||| code == "tha"@ && mapped == "th"@
            ||| code == "tur"@ && mapped == "tr"@
            ||| code == "ukr"@ && mapped == "uk"@
            ||| code == "vie"@ && mapped == "vi"@
            ||| code == "zho"@ && mapped == "zh"@
        },
{
    reveal_strlit("ara");
    reveal_strlit("ces");
    reveal_strlit("dan");
    reveal_strlit("deu");
    reveal_strlit("ell");
    reveal_strlit("eng");
    reveal_strlit("fin");
    reveal_strlit("fra");
    reveal_strlit("heb");
    reveal_strlit("hin");
    reveal_strlit("hun");
    reveal_strlit("ind");
    reveal_strlit("ita");
    reveal_strlit("jpn");
    reveal_strlit("kor");
    reveal_strlit("msa");
    reveal_strlit("nld");
    reveal_strlit("nor");
    reveal_strlit("pol");
    reveal_strlit("por");
    reveal_strlit("ron");
    reveal_strlit("rus");
    reveal_strlit("spa");
    reveal_strlit("swe");
    reveal_strlit("tha");
    reveal_strlit("tur");
    reveal_strlit("ukr");
    reveal_strlit("vie");
    reveal_strlit("zho");
    assert("ara"@.len() == 3 && "ara"@[0] == 'a' && "ara"@[1] == 'r' && "ara"@[2] == 'a');
    assert("ces"@.len() == 3 && "ces"@[0] == 'c' && "ces"@[1] == 'e' && "ces"@[2] == 's');
    assert("dan"@.len() == 3 && "dan"@[0] == 'd' && "dan"@[1] == 'a' && "dan"@[2] == 'n');
    assert("deu"@.len() == 3 && "deu"@[0] == 'd' && "deu"@[1] == 'e' && "deu"@[2] == 'u');
    assert("ell"@.len() == 3 && "ell"@[0] == 'e' && "ell"@[1] == 'l' && "ell"@[2] == 'l');
    assert("eng"@.len() == 3 && "eng"@[0] == 'e' && "eng"@[1] == 'n' && "eng"@[2] == 'g');
    assert("fin"@.len() == 3 && "fin"@[0] == 'f' && "fin"@[1] == 'i' && "fin"@[2] == 'n');
    assert("fra"@.len() == 3 && "fra"@[0] == 'f' && "fra"@[1] == 'r' && "fra"@[2] == 'a');
    assert("heb"@.len() == 3 && "heb"@[0] == 'h' && "heb"@[1] == 'e' && "heb"@[2] == 'b');
    assert("hin"@.len() == 3 && "hin"@[0] == 'h' && "hin"@[1] == 'i' && "hin"@[2] == 'n');
    assert("hun"@.len() == 3 && "hun"@[0] == 'h' && "hun"@[1] == 'u' && "hun"@[2] == 'n');
    assert("ind"@.len() == 3 && "ind"@[0] == 'i' && "ind"@[1] == 'n' && "ind"@[2] == 'd');
    assert("ita"@.len() == 3 && "ita"@[0] == 'i' && "ita"@[1] == 't' && "ita"@[2] == 'a');
    assert("jpn"@.len() == 3 && "jpn"@[0] == 'j' && "jpn"@[1] == 'p' && "jpn"@[2] == 'n');
    assert("kor"@.len() == 3 && "kor"@[0] == 'k' && "kor"@[1] == 'o' && "kor"@[2] == 'r');
    assert("msa"@.len() == 3 && "msa"@[0] == 'm' && "msa"@[1] == 's' && "msa"@[2] == 'a');
    assert("nld"@.len() == 3 && "nld"@[0] == 'n' && "nld"@[1] == 'l' && "nld"@[2] == 'd');
    assert("nor"@.len() == 3 && "nor"@[0] == 'n' && "nor"@[1] == 'o' && "nor"@[2] == 'r');
    assert("pol"@.len() == 3 && "pol"@[0] == 'p' && "pol"@[1] == 'o' && "pol"@[2] == 'l');
    assert("por"@.len() == 3 && "por"@[0] == 'p' && "por"@[1] == 'o' && "por"@[2] == 'r');
    assert("ron"@.len() == 3 && "ron"@[0] == 'r' && "ron"@[1] == 'o' && "ron"@[2] == 'n');
    assert("rus"@.len() == 3 && "rus"@[0] == 'r' && "rus"@[1] == 'u' && "rus"@[2] == 's');
    assert("spa"@.len() == 3 && "spa"@[0] == 's' && "spa"@[1] == 'p' && "spa"@[2] == 'a');
    assert("swe"@.len() == 3 && "swe"@[0] == 's' && "swe"@[1] == 'w' && "swe"@[2] == 'e');
    assert("tha"@.len() == 3 && "tha"@[0] == 't' && "tha"@[1] == 'h' && "tha"@[2] == 'a');
    assert("tur"@.len() == 3 && "tur"@[0] == 't' && "tur"@[1] == 'u' && "tur"@[2] == 'r');
    assert("ukr"@.len() == 3 && "ukr"@[0] == 'u' && "ukr"@[1] == 'k' && "ukr"@[2] == 'r');
    assert("vie"@.len() == 3 && "vie"@[0] == 'v' && "vie"@[1] == 'i' && "vie"@[2] == 'e');
    assert("zho"@.len() == 3 && "zho"@[0] == 'z' && "zho"@[1] == 'h' && "zho"@[2] == 'o');
}

/// What is asked of the engine is two lowercase letters or nothing.
pub proof fn language_codes_are_two_letters(configured: Seq<char>)
    ensures
        language_of(configured) matches LanguageView::Code(code) ==> {
            &&& code.len() == 2
            &&& 'a' <= code[0] <= 'z'
            &&& 'a' <= code[1] <= 'z'
        },
{
    known_languages_are_found(ascii_lowered(trimmed(configured)));
    reveal_strlit("ar");
    reveal_strlit("cs");
    reveal_strlit("da");
    reveal_strlit("de");
    reveal_strlit("el");
    reveal_strlit("en");
    reveal_strlit("fi");
    reveal_strlit("fr");
    reveal_strlit("he");
    reveal_strlit("hi");
    reveal_strlit("hu");
    reveal_strlit("id");
    reveal_strlit("it");
    reveal_strlit("ja");
    reveal_strlit("ko");
    reveal_strlit("ms");
    reveal_strlit("nl");
    reveal_strlit("no");
    reveal_strlit("pl");
    reveal_strlit("pt");
    reveal_strlit("ro");
    reveal_strlit("ru");
    reveal_strlit("es");
    reveal_strlit("sv");
    reveal_strlit("th");
    reveal_strlit("tr");
    reveal_strlit("uk");
    reveal_strlit("vi");
    reveal_strlit("zh");
    assert("ar"@.len() == 2 && "ar"@[0] == 'a' && "ar"@[1] == 'r');
    assert("cs"@.len() == 2 && "cs"@[0] == 'c' && "cs"@[1] == 's');
    assert("da"@.len() == 2 && "da"@[0] == 'd' && "da"@[1] == 'a');
    assert("de"@.len() == 2 && "de"@[0] == 'd' && "de"@[1] == 'e');
    assert("el"@.len() == 2 && "el"@[0] == 'e' && "el"@[1] == 'l');
    assert("en"@.len() == 2 && "en"@[0] == 'e' && "en"@[1] == 'n');
    assert("fi"@.len() == 2 && "fi"@[0] == 'f' && "fi"@[1] == 'i');
    assert("fr"@.len() == 2 && "fr"@[0] == 'f' && "fr"@[1] == 'r');
    assert("he"@.len() == 2 && "he"@[0] == 'h' && "he"@[1] == 'e');
    assert("hi"@.len() == 2 && "hi"@[0] == 'h' && "hi"@[1] == 'i');
    assert("hu"@.len() == 2 && "hu"@[0] == 'h' && "hu"@[1] == 'u');
    assert("id"@.len() == 2 && "id"@[0] == 'i' && "id"@[1] == 'd');
    assert("it"@.len() == 2 && "it"@[0] == 'i' && "it"@[1] == 't');
    assert("ja"@.len() == 2 && "ja"@[0] == 'j' && "ja"@[1] == 'a');
    assert("ko"@.len() == 2 && "ko"@[0] == 'k' && "ko"@[1] == 'o');
    assert("ms"@.len() == 2 && "ms"@[0] == 'm' && "ms"@[1] == 's');
    assert("nl"@.len() == 2 && "nl"@[0] == 'n' && "nl"@[1] == 'l');
    assert("no"@.len() == 2 && "no"@[0] == 'n' && "no"@[1] == 'o');
    assert("pl"@.len() == 2 && "pl"@[0] == 'p' && "pl"@[1] == 'l');
    assert("pt"@.len() == 2 && "pt"@[0] == 'p' && "pt"@[1] == 't');
    assert("ro"@.len() == 2 && "ro"@[0] == 'r' && "ro"@[1] == 'o');
    assert("ru"@.len() == 2 && "ru"@[0] == 'r' && "ru"@[1] == 'u');
    assert("es"@.len() == 2 && "es"@[0] == 'e' && "es"@[1] == 's');
    assert("sv"@.len() == 2 && "sv"@[0] == 's' && "sv"@[1] == 'v');
    assert("th"@.len() == 2 && "th"@[0] == 't' && "th"@[1] == 'h');
    assert("tr"@.len() == 2 && "tr"@[0] == 't' && "tr"@[1] == 'r');
    assert("uk"@.len() == 2 && "uk"@[0] == 'u' && "uk"@[1] == 'k');
    assert("vi"@.len() == 2 && "vi"@[0] == 'v' && "vi"@[1] == 'i');
    assert("zh"@.len() == 2 && "zh"@[0] == 'z' && "zh"@[1] == 'h');
}

/// A language is detected exactly where none is configured, two letters pass
/// in lowercase, and an unknown code is refused as it was written, never sent
/// as another language.
pub proof fn languages_are_never_guessed(configured: Seq<char>)
    ensures
        ({
            let code = trimmed(configured);
            let letter = |c: char| 'a' <= c <= 'z' || 'A' <= c <= 'Z';
            let asked = language_of(configured);
            &&& asked is Detect <==> code.len() == 0
            &&& code.len() == 2 && letter(code[0]) && letter(code[1]) ==> asked
                == LanguageView::Code(ascii_lowered(code))
            &&& asked matches LanguageView::Unsupported(refused) ==> refused == code
            &&& code.len() > 3 || code.len() == 1 ==> asked is Unsupported
            &&& asked matches LanguageView::Code(sent) ==> sent == ascii_lowered(code)
                || two_letter_code(ascii_lowered(code)) == Some(sent)
        }),
{
    known_languages_are_found(ascii_lowered(trimmed(configured)));
    three_letters_each();
}

proof fn three_letters_each()
    ensures
        forall|code: Seq<char>|
            #![trigger two_letter_code(code)]
            two_letter_code(code) is Some ==> code.len() == 3,
{
    assert forall|code: Seq<char>|
        #![trigger two_letter_code(code)]
        two_letter_code(code) is Some implies code.len() == 3 by {
        known_languages_are_found(code);
        reveal_strlit("ara");
        reveal_strlit("ces");
        reveal_strlit("dan");
        reveal_strlit("deu");
        reveal_strlit("ell");
        reveal_strlit("eng");
        reveal_strlit("fin");
        reveal_strlit("fra");
        reveal_strlit("heb");
        reveal_strlit("hin");
        reveal_strlit("hun");
        reveal_strlit("ind");
        reveal_strlit("ita");
        reveal_strlit("jpn");
        reveal_strlit("kor");
        reveal_strlit("msa");
        reveal_strlit("nld");
        reveal_strlit("nor");
        reveal_strlit("pol");
        reveal_strlit("por");
        reveal_strlit("ron");
        reveal_strlit("rus");
        reveal_strlit("spa");
        reveal_strlit("swe");
        reveal_strlit("tha");
        reveal_strlit("tur");
        reveal_strlit("ukr");
        reveal_strlit("vie");
        reveal_strlit("zho");
    }
}

/// How a language is written does not matter: white space around it and its
/// case are ignored.
pub proof fn languages_are_read_in_any_case(a: Seq<char>, b: Seq<char>)
    requires
        ascii_lowered(trimmed(a)) == ascii_lowered(trimmed(b)),
        language_of(a) is Code,
    ensures
        language_of(b) == language_of(a),
{
    let x = trimmed(a);
    let y = trimmed(b);
    assert(ascii_lowered(x).len() == x.len());
    assert(ascii_lowered(y).len() == y.len());
    three_letters_each();
    if x.len() == 2 {
        assert(ascii_lowered(x)[0] == ascii_lower(x[0]) && ascii_lowered(x)[1] == ascii_lower(
            x[1],
        ));
        assert(ascii_lowered(y)[0] == ascii_lower(y[0]) && ascii_lowered(y)[1] == ascii_lower(
            y[1],
        ));
    }
}

/// Only a capture of whole 16-bit samples at some rate is sent, and every such
/// capture is.
pub proof fn whole_captures_are_sent(pcm: Seq<u8>, sample_rate: nat)
    ensures
        capture_problem(pcm, sample_rate) is None <==> pcm.len() > 0 && pcm.len() % 2 == 0
            && sample_rate > 0,
        capture_problem(pcm, sample_rate) == Some(CaptureError::NoAudio) <==> pcm.len() == 0,
        capture_problem(pcm, sample_rate) == Some(CaptureError::OddByteCount) <==> pcm.len() % 2
            == 1,
        capture_problem(pcm, sample_rate) == Some(CaptureError::ZeroSampleRate) <==> pcm.len() > 0
            && pcm.len() % 2 == 0 && sample_rate == 0,
{
}

/// The word entries of an answer are read in order: one with a text and both
/// times becomes a word with that text and those times, and any other is left
/// out.
pub proof fn listed_words_are_read_in_order(entries: Seq<JsonView>, entry: JsonView)
    ensures
        word_entries(Seq::empty()).len() == 0,
        ({
            let text = entry.text_at("text"@);
            let start = entry.get("start"@);
            let end = entry.get("end"@);
            let before = word_entries(entries);
            let after = word_entries(entries.push(entry));
            &&& text is None || start is None || end is None ==> after == before
            &&& text is Some && start is Some && end is Some ==> {
                &&& after.len() == before.len() + 1
                &&& after.drop_last() == before
                &&& after.last().text == text->0
                &&& after.last().start == start->0.number()
                &&& after.last().end == end->0.number()
                &&& after.last().kind == "word"@
            }
        }),
{
    assert(entries.push(entry).drop_last() =~= entries);
    let before = word_entries(entries);
    if let Some(word) = word_entry(entry) {
        assert(before.push(word).drop_last() =~= before);
    }
}

/// An answer with a text holds a transcript with exactly that text, and the
/// words that it lists or else those of its text.
pub proof fn answers_hold_their_text(body: JsonView)
    ensures
        body.text_at("text"@) is None <==> transcript_in(body) is None,
        transcript_in(body) matches Some(transcript) ==> {
            let listed = match body.get("words"@) {
                Some(JsonView::List(entries)) => word_entries(entries),
                _ => Seq::empty(),
            };
            &&& body.text_at("text"@) == Some(transcript.text)
            &&& listed.len() > 0 ==> transcript.words == listed
            &&& listed.len() == 0 ==> transcript.words.len() == words_of(transcript.text).len()
            &&& listed.len() == 0 ==> forall|i: int|
                0 <= i < transcript.words.len() ==> {
                    let word = #[trigger] transcript.words[i];
                    &&& word.text == words_of(transcript.text)[i]
                    &&& word.start is None && word.end is None
                    &&& word.kind == "word"@
                }
        },
{
}

/// A transcript comes exactly of a successful status and a document with a
/// text; a refused request is told with its status, whatever came with it.
pub proof fn replies_are_judged_by_status_first(status: u16, body: Option<JsonView>)
    ensures
        ({
            let outcome = reply_outcome(status, body);
            let success = 200 <= status < 300;
            &&& outcome is Ok <==> success && (body matches Some(tree) && tree.text_at("text"@)
                is Some)
            &&& outcome matches Ok(transcript) ==> body->0.text_at("text"@) == Some(
                transcript.text,
            )
            &&& !success <==> outcome == Err::<TranscriptView, TranscribeError>(
                TranscribeError::HttpStatus(status),
            )
            &&& success && body is None ==> outcome == Err::<TranscriptView, TranscribeError>(
                TranscribeError::InvalidJson,
            )
        }),
{
}

/// A failure may pass when the connection broke, the server failed or timed
/// out, or there were too many requests; a refusal or a wrong answer does not.
pub proof fn transient_failures_may_pass(status: u16)
    ensures
        TranscribeError::RequestFailed.transient(),
        TranscribeError::ResponseUnreadable.transient(),
        !TranscribeError::InvalidJson.transient(),
        !TranscribeError::MissingText.transient(),
        500 <= status < 600 || status == 408 || status == 429
            <==> TranscribeError::HttpStatus(status).transient(),
{
}

/// The query follows the endpoint: the language where there is one, then
/// whether words carry times. The first parameter follows a question mark and
/// the second an ampersand.
pub proof fn queries_follow_the_endpoint(
    endpoint: Seq<char>,
    code: Seq<char>,
    word_timestamps: bool,
)
    requires
        !endpoint.contains('?'),
    ensures
        ({
            let flag = if word_timestamps {
                "word_timestamps=1"@
            } else {
                "word_timestamps=0"@
            };
            &&& with_query(endpoint, None, word_timestamps) == endpoint + "?"@ + flag
            &&& with_query(endpoint, Some(code), word_timestamps) == endpoint + "?language="@ + code
                + "&"@ + flag
        }),
{
    reveal_strlit("?");
    reveal_strlit("&");
    reveal_strlit("?language=");
    let flag = if word_timestamps {
        "word_timestamps=1"@
    } else {
        "word_timestamps=0"@
    };
    let base = endpoint + "?language="@ + code;
    assert(base[endpoint.len() as int] == '?');
    assert(endpoint.push('?') + flag =~= endpoint + "?"@ + flag);
    assert(base.push('&') + flag =~= base + "&"@ + flag);
}

/// A request carries the trimmed token and asks for the configured language
/// and for word times as told; without a configuration that allows dictation,
/// without audio or with an unknown language there is none.
pub proof fn requests_carry_what_is_configured(
    c: ConfigView,
    language: Seq<char>,
    wav: Seq<u8>,
    word_timestamps: bool,
)
    ensures
        ({
            let outcome = request_outcome(c, language, wav, word_timestamps);
            let endpoint = endpoint_of(
                base_of(c.worker_base_url),
                url_parts(base_of(c.worker_base_url)),
                "/v1/stt/transcribe"@,
            );
            &&& outcome is Ok <==> dictation_problem(c) is None && wav.len() > 0 && endpoint is Ok
                && !(language_of(language) is Unsupported)
            &&& outcome matches Ok((url, token)) ==> {
                &&& token == trimmed(c.stt_token)
                &&& language_of(language) is Detect ==> url == with_query(
                    endpoint->Ok_0,
                    None,
                    word_timestamps,
                )
                &&& language_of(language) matches LanguageView::Code(code) ==> url == with_query(
                    endpoint->Ok_0,
                    Some(code),
                    word_timestamps,
                )
            }
            &&& dictation_problem(c) matches Some(e) ==> outcome == Err::<
                (Seq<char>, Seq<char>),
                RequestErrorView,
            >(RequestErrorView::Config(e))
            &&& dictation_problem(c) is None && wav.len() == 0 ==> outcome == Err::<
                (Seq<char>, Seq<char>),
                RequestErrorView,
            >(RequestErrorView::EmptyWav)
        }),
{
}

} // verus!

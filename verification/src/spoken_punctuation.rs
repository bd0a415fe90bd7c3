//! Spoken punctuation commands for dictation.
//!
//! The pass runs on the token stream of a transcript: the words of a command
//! leave the stream, the symbol attaches to a neighboring content word, which
//! keeps its times, and the plain text is rebuilt with the spacing rules of
//! `text::joined`. The word `literal` before a command keeps the command words
//! as content.

use vstd::prelude::*;

use crate::stt::{Transcript, TranscriptView, TranscriptWord, WordView, word_views, word_views_push};
use crate::text::{
    CharClass, append_piece, ascii_lowered, chars_of, end_len, extend, joined, lower_ascii,
    lower_word, part, same_text, spells, start_len, string_of, strip_ends, text_views, trimmed,
    without_end, without_end_is_prefix, without_ends, without_start, without_start_is_suffix,
    word_lowered,
};

verus! {

/// What a command phrase asks for.
#[derive(Clone, Copy, Debug, PartialEq, Eq, Structural)]
pub enum Command {
    /// A symbol glued to the content word before it.
    AttachLeft(char),
    /// One line break between the neighbors, or two for a paragraph.
    LineBreak { paragraph: bool },
    /// A symbol glued to both neighbors.
    Glue(char),
    OpenQuote,
    CloseQuote,
    ToggleQuote,
}

/// The content core of a token: its text without the edge marks.
pub open spec fn core_of(text: Seq<char>) -> Seq<char> {
    without_ends(text, CharClass::EdgeMark)
}

/// The command that two neighboring lowercased cores spell, with the number
/// of content words it takes.
pub open spec fn command_of(first: Seq<char>, second: Option<Seq<char>>) -> Option<(Command, nat)> {
    let pair = |a: Seq<char>, b: Seq<char>| second == Some(a) || second == Some(b);
    if first == "period"@ {
        Some((Command::AttachLeft('.'), 1))
    } else if first == "full"@ && pair("stop"@, "stops"@) {
        Some((Command::AttachLeft('.'), 2))
    } else if first == "comma"@ {
        Some((Command::AttachLeft(','), 1))
    } else if first == "question"@ && pair("mark"@, "marks"@) {
        Some((Command::AttachLeft('?'), 2))
    } else if first == "exclamation"@ && (pair("mark"@, "marks"@) || pair("point"@, "points"@)) {
        Some((Command::AttachLeft('!'), 2))
    } else if first == "colon"@ || first == "colons"@ {
        Some((Command::AttachLeft(':'), 1))
    } else if first == "semicolon"@ || first == "semicolons"@ {
        Some((Command::AttachLeft(';'), 1))
    } else if first == "semi"@ && pair("colon"@, "colons"@) {
        Some((Command::AttachLeft(';'), 2))
    } else if (first == "new"@ || first == "next"@) && pair("line"@, "lines"@) {
        Some((Command::LineBreak { paragraph: false }, 2))
    } else if (first == "new"@ || first == "next"@) && pair("paragraph"@, "paragraphs"@) {
        Some((Command::LineBreak { paragraph: true }, 2))
    } else if first == "double"@ && pair("quote"@, "quotes"@) {
        Some((Command::ToggleQuote, 2))
    } else if (first == "open"@ || first == "begin"@) && pair("quote"@, "quotes"@) {
        Some((Command::OpenQuote, 2))
    } else if (first == "close"@ || first == "closed"@ || first == "end"@) && (pair(
        "quote"@,
        "quotes"@,
    ) || pair("quotation"@, "quotations"@)) {
        Some((Command::CloseQuote, 2))
    } else if first == "single"@ && pair("quote"@, "quotes"@) {
        Some((Command::Glue('\''), 2))
    } else if first == "apostrophe"@ || first == "apostrophes"@ {
        Some((Command::Glue('\''), 1))
    } else {
        None
    }
}

/// The command phrase that starts at content position `p`.
pub open spec fn command_at(cores: Seq<Seq<char>>, p: int) -> Option<(Command, nat)> {
    if 0 <= p < cores.len() {
        command_of(
            word_lowered(cores[p]),
            if p + 1 < cores.len() {
                Some(word_lowered(cores[p + 1]))
            } else {
                None
            },
        )
    } else {
        None
    }
}

/// Whether the content word at `p` is the escape word before a command.
pub open spec fn escape_at(cores: Seq<Seq<char>>, p: int) -> bool {
    ascii_lowered(cores[p]) == "literal"@ && command_at(cores, p + 1) is Some
}

/// A command phrase in the content words.
#[derive(Clone, Copy, PartialEq, Eq, Structural)]
pub struct Edit {
    /// Content position of the first word of the phrase.
    pub position: usize,
    /// Content words that the phrase takes.
    pub consumed: usize,
    pub command: Command,
}

/// How many content words the step at `p` moves over: an escape with the
/// phrase it keeps, a command phrase, or one plain word.
pub open spec fn step_len(cores: Seq<Seq<char>>, p: int) -> nat {
    if escape_at(cores, p) {
        1 + (command_at(cores, p + 1)->0).1
    } else if command_at(cores, p) is Some {
        (command_at(cores, p)->0).1
    } else {
        1
    }
}

/// Which content words from `p` on leave the stream: escape words and the
/// words of command phrases that no escape keeps.
pub open spec fn skips_from(cores: Seq<Seq<char>>, p: int) -> Seq<bool>
    decreases cores.len() - p,
{
    if p < 0 || p >= cores.len() {
        Seq::empty()
    } else {
        let n = step_len(cores, p);
        let here = if escape_at(cores, p) {
            Seq::new(n, |i: int| i == 0)
        } else {
            Seq::new(n, |i: int| command_at(cores, p) is Some)
        };
        here + skips_from(cores, p + n)
    }
}

/// The command phrases from `p` on, in order.
pub open spec fn edits_from(cores: Seq<Seq<char>>, p: int) -> Seq<Edit>
    decreases cores.len() - p,
{
    if p < 0 || p >= cores.len() {
        Seq::empty()
    } else {
        let rest = edits_from(cores, p + step_len(cores, p));
        match command_at(cores, p) {
            Some((command, consumed)) if !escape_at(cores, p) => seq![
                Edit { position: p as usize, consumed: consumed as usize, command },
            ] + rest,
            _ => rest,
        }
    }
}

proof fn command_fits(cores: Seq<Seq<char>>, p: int)
    ensures
        command_at(cores, p) matches Some((_, n)) ==> 1 <= n <= 2 && 0 <= p && p + n <= cores.len(),
        0 <= p < cores.len() ==> 1 <= step_len(cores, p) <= 3 && p + step_len(cores, p)
            <= cores.len(),
{
}

pub fn two_words(chars: &[char], a: &str, b: &str) -> (r: bool)
    ensures
        r == (chars@ == a@ || chars@ == b@),
{
    spells(chars, a) || spells(chars, b)
}

fn pair_is(second: &Option<Vec<char>>, a: &str, b: &str) -> (r: bool)
    ensures
        r == (second is Some && (second->0@ == a@ || second->0@ == b@)),
{
    match second {
        Some(chars) => two_words(chars, a, b),
        None => false,
    }
}

/// `command_of` on characters.
pub fn read_command(first: &[char], second: &Option<Vec<char>>) -> (r: Option<(Command, usize)>)
    ensures
        ({
            let s = match *second {
                Some(v) => Some(v@),
                None => None,
            };
            match r {
                Some((command, consumed)) => command_of(first@, s) == Some(
                    (command, consumed as nat),
                ),
                None => command_of(first@, s) is None,
            }
        }),
{
    if spells(first, "period") {
        Some((Command::AttachLeft('.'), 1))
    } else if spells(first, "full") && pair_is(second, "stop", "stops") {
        Some((Command::AttachLeft('.'), 2))
    } else if spells(first, "comma") {
        Some((Command::AttachLeft(','), 1))
    } else if spells(first, "question") && pair_is(second, "mark", "marks") {
        Some((Command::AttachLeft('?'), 2))
    } else if spells(first, "exclamation") && (pair_is(second, "mark", "marks") || pair_is(
        second,
        "point",
        "points",
    )) {
        Some((Command::AttachLeft('!'), 2))
    } else if two_words(first, "colon", "colons") {
        Some((Command::AttachLeft(':'), 1))
    } else if two_words(first, "semicolon", "semicolons") {
        Some((Command::AttachLeft(';'), 1))
    } else if spells(first, "semi") && pair_is(second, "colon", "colons") {
        Some((Command::AttachLeft(';'), 2))
    } else if two_words(first, "new", "next") && pair_is(second, "line", "lines") {
        Some((Command::LineBreak { paragraph: false }, 2))
    } else if two_words(first, "new", "next") && pair_is(second, "paragraph", "paragraphs") {
        Some((Command::LineBreak { paragraph: true }, 2))
    } else if spells(first, "double") && pair_is(second, "quote", "quotes") {
        Some((Command::ToggleQuote, 2))
    } else if two_words(first, "open", "begin") && pair_is(second, "quote", "quotes") {
        Some((Command::OpenQuote, 2))
    } else if (two_words(first, "close", "closed") || spells(first, "end")) && (pair_is(
        second,
        "quote",
        "quotes",
    ) || pair_is(second, "quotation", "quotations")) {
        Some((Command::CloseQuote, 2))
    } else if spells(first, "single") && pair_is(second, "quote", "quotes") {
        Some((Command::Glue('\''), 2))
    } else if two_words(first, "apostrophe", "apostrophes") {
        Some((Command::Glue('\''), 1))
    } else {
        None
    }
}

/// The command phrase that starts at content position `position`, with the
/// number of content words it takes.
pub fn match_command(cores: &[Vec<char>], position: usize) -> (r: Option<(Command, usize)>)
    ensures
        match r {
            Some((command, consumed)) => command_at(text_views(cores@), position as int) == Some(
                (command, consumed as nat),
            ),
            None => command_at(text_views(cores@), position as int) is None,
        },
{
    if position >= cores.len() {
        return None;
    }
    let first: Vec<char> = lower_word(&cores[position]);
    let second: Option<Vec<char>> = if cores.len() - position > 1 {
        Some(lower_word(&cores[position + 1]))
    } else {
        None
    };
    read_command(&first, &second)
}

/// Find the command phrases and the content words that leave the stream.
fn scan(cores: &[Vec<char>]) -> (r: (Vec<bool>, Vec<Edit>))
    ensures
        r.0@ == skips_from(text_views(cores@), 0),
        r.1@ == edits_from(text_views(cores@), 0),
{
    let ghost views = text_views(cores@);
    let mut skip: Vec<bool> = Vec::new();
    let mut edits: Vec<Edit> = Vec::new();
    let mut position: usize = 0;
    assert(skip@ + skips_from(views, 0) =~= skips_from(views, 0));
    assert(edits@ + edits_from(views, 0) =~= edits_from(views, 0));
    while position < cores.len()
        invariant
            position <= cores@.len(),
            views == text_views(cores@),
            skip@ + skips_from(views, position as int) == skips_from(views, 0),
            edits@ + edits_from(views, position as int) == edits_from(views, 0),
        decreases cores@.len() - position,
    {
        let ghost old_skip = skip@;
        let ghost old_edits = edits@;
        let ghost p = position as int;
        proof {
            command_fits(views, p);
            command_fits(views, p + 1);
        }
        let literal: bool = spells(&lower_ascii(&cores[position]), "literal");
        let kept: Option<(Command, usize)> = if literal {
            match_command(cores, position + 1)
        } else {
            None
        };
        let ghost here = skips_from(views, p).take(step_len(views, p) as int);
        match kept {
            Some((_, consumed)) => {
                skip.push(true);
                let mut k: usize = 0;
                while k < consumed
                    invariant
                        k <= consumed,
                        skip@ == old_skip + Seq::new((k + 1) as nat, |i: int| i == 0),
                    decreases consumed - k,
                {
                    skip.push(false);
                    k += 1;
                    assert(skip@ =~= old_skip + Seq::new((k + 1) as nat, |i: int| i == 0));
                }
                position = position + 1 + consumed;
            },
            None => {
                match match_command(cores, position) {
                    Some((command, consumed)) => {
                        let mut k: usize = 0;
                        while k < consumed
                            invariant
                                k <= consumed,
                                skip@ == old_skip + Seq::new(k as nat, |i: int| true),
                            decreases consumed - k,
                        {
                            skip.push(true);
                            k += 1;
                            assert(skip@ =~= old_skip + Seq::new(k as nat, |i: int| true));
                        }
                        edits.push(Edit { position, consumed, command });
                        position = position + consumed;
                    },
                    None => {
                        skip.push(false);
                        position = position + 1;
                    },
                }
            },
        }
        assert(position == p + step_len(views, p));
        assert(skip@ + skips_from(views, position as int) =~= old_skip + skips_from(views, p));
        assert(edits@ + edits_from(views, position as int) =~= old_edits + edits_from(views, p));
    }
    assert(skip@ + skips_from(views, position as int) =~= skip@);
    assert(edits@ + edits_from(views, position as int) =~= edits@);
    (skip, edits)
}

/// Indices of the content words among the first `n` tokens.
pub open spec fn content_upto(words: Seq<WordView>, n: int) -> Seq<usize>
    decreases n,
{
    if n <= 0 {
        Seq::empty()
    } else if words[n - 1].kind == "word"@ {
        content_upto(words, n - 1).push((n - 1) as usize)
    } else {
        content_upto(words, n - 1)
    }
}

/// Indices of the content words.
pub open spec fn content_of(words: Seq<WordView>) -> Seq<usize> {
    content_upto(words, words.len() as int)
}

/// The cores of the content words.
pub open spec fn cores_of(words: Seq<WordView>) -> Seq<Seq<char>> {
    content_of(words).map_values(|i: usize| core_of(words[i as int].text))
}

/// Content indices are in bounds, increasing, exactly those of the tokens of
/// kind `word`.
pub proof fn content_is_sorted(words: Seq<WordView>, n: int)
    requires
        0 <= n <= words.len(),
        words.len() <= usize::MAX,
    ensures
        content_upto(words, n).len() <= n,
        forall|k: int|
            0 <= k < content_upto(words, n).len() ==> (#[trigger] content_upto(words, n)[k]) < n
                && words[content_upto(words, n)[k] as int].kind == "word"@,
        forall|j: int, k: int|
            0 <= j < k < content_upto(words, n).len() ==> (#[trigger] content_upto(words, n)[j])
                < #[trigger] content_upto(words, n)[k],
        forall|i: int|
            0 <= i < n && #[trigger] words[i].kind == "word"@ ==> content_upto(words, n).contains(
                i as usize,
            ),
    decreases n,
{
    if n > 0 {
        content_is_sorted(words, n - 1);
        let before = content_upto(words, n - 1);
        let after = content_upto(words, n);
        assert forall|i: int|
            0 <= i < n && #[trigger] words[i].kind == "word"@ implies after.contains(
                i as usize,
            ) by {
            if i == n - 1 {
                assert(after.last() == i as usize);
            } else {
                assert(before.contains(i as usize));
                let k = choose|k: int| 0 <= k < before.len() && before[k] == i as usize;
                assert(after[k] == i as usize);
            }
        }
    }
}

/// Nearest content word before content position `p` that stays.
pub open spec fn anchor_before(content: Seq<usize>, skip: Seq<bool>, p: int) -> Option<usize>
    decreases p,
{
    if p <= 0 {
        None
    } else if !skip[p - 1] {
        Some(content[p - 1])
    } else {
        anchor_before(content, skip, p - 1)
    }
}

/// Nearest content word after content position `p` that stays.
pub open spec fn anchor_after(content: Seq<usize>, skip: Seq<bool>, p: int) -> Option<usize>
    decreases content.len() - p,
{
    if p + 1 >= content.len() {
        None
    } else if !skip[p + 1] {
        Some(content[p + 1])
    } else {
        anchor_after(content, skip, p + 1)
    }
}

/// `drop` with the run of spacing tokens that ends right before `from` added.
pub open spec fn with_spacing_before(
    words: Seq<WordView>,
    drop: Seq<bool>,
    from: int,
) -> Seq<bool> {
    Seq::new(
        drop.len(),
        |i: int|
            drop[i] || (i < from && forall|j: int|
                i <= j < from ==> #[trigger] words[j].kind == "spacing"@),
    )
}

/// `drop` with the run of spacing tokens that starts right after `from` added.
pub open spec fn with_spacing_after(
    words: Seq<WordView>,
    drop: Seq<bool>,
    from: int,
) -> Seq<bool> {
    Seq::new(
        drop.len(),
        |i: int|
            drop[i] || (from < i && forall|j: int|
                from < j <= i ==> #[trigger] words[j].kind == "spacing"@),
    )
}

/// The stream while commands are being carried out.
pub struct Draft {
    /// Current text of each token.
    pub texts: Seq<Seq<char>>,
    /// Tokens that leave the stream.
    pub drop: Seq<bool>,
    pub quote_open: bool,
}

impl Draft {
    pub open spec fn with_text(self, i: usize, text: Seq<char>) -> Draft {
        Draft { texts: self.texts.update(i as int, text), ..self }
    }

    /// `symbol` at the end of the word before, or else at the start of the
    /// word after.
    pub open spec fn with_symbol(
        self,
        prev: Option<usize>,
        next: Option<usize>,
        symbol: Seq<char>,
    ) -> Draft {
        match (prev, next) {
            (Some(a), _) => self.with_text(a, self.texts[a as int] + symbol),
            (None, Some(a)) => self.with_text(a, symbol + self.texts[a as int]),
            (None, None) => self,
        }
    }

    /// A double quote in front of word `a`, in place of any it starts with.
    pub open spec fn with_quote_before(self, a: usize) -> Draft {
        self.with_text(
            a,
            seq!['"'] + without_start(self.texts[a as int], CharClass::QuoteMark),
        )
    }

    /// A double quote behind word `a`, in place of any it ends with.
    pub open spec fn with_quote_after(self, a: usize) -> Draft {
        self.with_text(a, without_end(self.texts[a as int], CharClass::QuoteMark).push('"'))
    }
}

/// The stream after one command whose phrase spans the tokens `first` to
/// `last`, with the content words `prev` and `next` around it.
pub open spec fn carried_out(
    words: Seq<WordView>,
    draft: Draft,
    command: Command,
    first: int,
    last: int,
    prev: Option<usize>,
    next: Option<usize>,
) -> Draft {
    let left = Draft { drop: with_spacing_before(words, draft.drop, first), ..draft };
    let right = Draft { drop: with_spacing_after(words, draft.drop, last), ..draft };
    let both = Draft { drop: with_spacing_after(words, left.drop, last), ..draft };
    match command {
        Command::AttachLeft(symbol) => left.with_symbol(prev, next, seq![symbol]),
        Command::Glue(symbol) => both.with_symbol(prev, next, seq![symbol]),
        Command::LineBreak { paragraph } => both.with_symbol(
            prev,
            next,
            if paragraph {
                seq!['\n', '\n']
            } else {
                seq!['\n']
            },
        ),
        Command::OpenQuote => opened(left, right, draft, prev, next),
        Command::CloseQuote => closed(left, draft, prev, next),
        Command::ToggleQuote => if draft.quote_open {
            closed(left, draft, prev, next)
        } else {
            opened(left, right, draft, prev, next)
        },
    }
}

pub open spec fn opened(
    left: Draft,
    right: Draft,
    draft: Draft,
    prev: Option<usize>,
    next: Option<usize>,
) -> Draft {
    let result = match (prev, next) {
        (_, Some(a)) => right.with_quote_before(a),
        (Some(a), None) => left.with_quote_after(a),
        (None, None) => draft,
    };
    Draft { quote_open: true, ..result }
}

pub open spec fn closed(
    left: Draft,
    draft: Draft,
    prev: Option<usize>,
    next: Option<usize>,
) -> Draft {
    let result = match (prev, next) {
        (Some(a), _) => left.with_quote_after(a),
        (None, Some(a)) => draft.with_quote_before(a),
        (None, None) => draft,
    };
    Draft { quote_open: false, ..result }
}

/// The stream after the first `n` commands.
pub open spec fn draft_after(
    words: Seq<WordView>,
    content: Seq<usize>,
    skip: Seq<bool>,
    edits: Seq<Edit>,
    n: int,
) -> Draft
    decreases n,
{
    if n <= 0 {
        Draft {
            texts: words.map_values(|w: WordView| w.text),
            drop: initial_drop(words, content, skip, edits),
            quote_open: false,
        }
    } else {
        let edit = edits[n - 1];
        let end = edit.position + edit.consumed - 1;
        carried_out(
            words,
            draft_after(words, content, skip, edits, n - 1),
            edit.command,
            content[edit.position as int] as int,
            content[end] as int,
            anchor_before(content, skip, edit.position as int),
            anchor_after(content, skip, end),
        )
    }
}

/// Whether token `i` lies between the first and the last word of a phrase.
pub open spec fn inside_phrase(content: Seq<usize>, edit: Edit, i: int) -> bool {
    content[edit.position as int] <= i <= content[edit.position + edit.consumed - 1]
}

/// Skipped content words leave the stream, and so does everything inside a
/// command phrase.
pub open spec fn initial_drop(
    words: Seq<WordView>,
    content: Seq<usize>,
    skip: Seq<bool>,
    edits: Seq<Edit>,
) -> Seq<bool> {
    Seq::new(
        words.len(),
        |i: int|
            (exists|k: int| 0 <= k < content.len() && #[trigger] content[k] == i && skip[k])
                || exists|e: int|
                0 <= e < edits.len() && #[trigger] inside_phrase(content, edits[e], i),
    )
}

/// The tokens among the first `n` that stay, with their new texts and their
/// old times.
pub open spec fn kept_upto(words: Seq<WordView>, draft: Draft, n: int) -> Seq<WordView>
    decreases n,
{
    if n <= 0 {
        Seq::empty()
    } else if draft.drop[n - 1] {
        kept_upto(words, draft, n - 1)
    } else {
        kept_upto(words, draft, n - 1).push(
            WordView { text: draft.texts[n - 1], ..words[n - 1] },
        )
    }
}

/// The plain text of the first `n` tokens.
pub open spec fn text_upto(words: Seq<WordView>, n: int) -> Seq<char>
    decreases n,
{
    if n <= 0 {
        Seq::empty()
    } else if words[n - 1].kind == "spacing"@ {
        text_upto(words, n - 1) + words[n - 1].text
    } else if words[n - 1].kind == "word"@ {
        joined(text_upto(words, n - 1), words[n - 1].text)
    } else {
        text_upto(words, n - 1)
    }
}

/// The plain text of a token stream.
pub open spec fn rebuilt(words: Seq<WordView>) -> Seq<char> {
    trimmed(text_upto(words, words.len() as int))
}

/// The final state of the stream.
pub open spec fn final_draft(words: Seq<WordView>) -> Draft {
    let content = content_of(words);
    let skip = skips_from(cores_of(words), 0);
    let edits = edits_from(cores_of(words), 0);
    draft_after(words, content, skip, edits, edits.len() as int)
}

/// Whether the stream holds an escape or a command.
pub open spec fn has_commands(words: Seq<WordView>) -> bool {
    exists|k: int|
        0 <= k < skips_from(cores_of(words), 0).len() && #[trigger] skips_from(
            cores_of(words),
            0,
        )[k]
}

/// The token stream with its commands carried out.
pub open spec fn converted(words: Seq<WordView>) -> Seq<WordView> {
    kept_upto(words, final_draft(words), words.len() as int)
}

/// The transcript with its spoken punctuation carried out.
pub open spec fn punctuated(transcript: TranscriptView) -> TranscriptView {
    if has_commands(transcript.words) {
        TranscriptView {
            text: rebuilt(converted(transcript.words)),
            words: converted(transcript.words),
        }
    } else {
        transcript
    }
}

fn content_positions(words: &[TranscriptWord]) -> (r: Vec<usize>)
    ensures
        r@ == content_of(word_views(words@)),
{
    let mut out: Vec<usize> = Vec::new();
    let mut i: usize = 0;
    while i < words.len()
        invariant
            i <= words@.len(),
            out@ == content_upto(word_views(words@), i as int),
        decreases words@.len() - i,
    {
        if same_text(&words[i].kind, "word") {
            out.push(i);
        }
        i += 1;
    }
    out
}

/// The matchable core of a token: its text without the edge marks.
pub fn core_word(text: &str) -> (r: Vec<char>)
    ensures
        r@ == core_of(text@),
{
    strip_ends(&chars_of(text), CharClass::EdgeMark)
}

fn content_cores(words: &[TranscriptWord], content: &[usize]) -> (r: Vec<Vec<char>>)
    requires
        content@ == content_of(word_views(words@)),
    ensures
        text_views(r@) == cores_of(word_views(words@)),
{
    let ghost views = word_views(words@);
    let n: usize = words.len();
    proof {
        content_is_sorted(views, views.len() as int);
    }
    let mut out: Vec<Vec<char>> = Vec::new();
    let mut k: usize = 0;
    while k < content.len()
        invariant
            k <= content@.len(),
            views == word_views(words@),
            content@ == content_of(views),
            forall|k: int| 0 <= k < content@.len() ==> (#[trigger] content@[k]) < words@.len(),
            text_views(out@) == cores_of(views).take(k as int),
        decreases content@.len() - k,
    {
        let core: Vec<char> = core_word(&words[content[k]].text);
        let ghost before = out@;
        assert(core@ == cores_of(views)[k as int]);
        out.push(core);
        k += 1;
        assert(text_views(out@) =~= text_views(before).push(core@));
        assert(text_views(out@) =~= cores_of(views).take(k as int));
    }
    assert(cores_of(views).take(k as int) =~= cores_of(views));
    out
}

/// Nearest content word before content position `position` that stays.
pub fn nearest_before(content: &[usize], skip: &[bool], position: usize) -> (r: Option<usize>)
    requires
        content@.len() == skip@.len(),
        position <= content@.len(),
    ensures
        r == anchor_before(content@, skip@, position as int),
{
    let mut cursor: usize = position;
    while cursor > 0
        invariant
            cursor <= position <= content@.len(),
            content@.len() == skip@.len(),
            anchor_before(content@, skip@, position as int) == anchor_before(
                content@,
                skip@,
                cursor as int,
            ),
        decreases cursor,
    {
        if !skip[cursor - 1] {
            return Some(content[cursor - 1]);
        }
        cursor -= 1;
    }
    None
}

/// Nearest content word after content position `position` that stays.
pub fn nearest_after(content: &[usize], skip: &[bool], position: usize) -> (r: Option<usize>)
    requires
        content@.len() == skip@.len(),
        position < content@.len(),
    ensures
        r == anchor_after(content@, skip@, position as int),
{
    let n: usize = content.len();
    let mut cursor: usize = position + 1;
    while cursor < n
        invariant
            n == content@.len(),
            position < cursor <= content@.len(),
            content@.len() == skip@.len(),
            anchor_after(content@, skip@, position as int) == anchor_after(
                content@,
                skip@,
                cursor - 1,
            ),
        decreases content@.len() - cursor,
    {
        if !skip[cursor] {
            return Some(content[cursor]);
        }
        cursor += 1;
    }
    None
}

/// Drop the spacing tokens directly before `from`.
fn drop_before(words: &[TranscriptWord], drop: &mut Vec<bool>, from: usize)
    requires
        old(drop)@.len() == words@.len(),
        from < words@.len(),
    ensures
        final(drop)@ == with_spacing_before(word_views(words@), old(drop)@, from as int),
{
    let ghost views = word_views(words@);
    let ghost start = drop@;
    let mut cursor: usize = from;
    while cursor > 0 && same_text(&words[cursor - 1].kind, "spacing")
        invariant
            cursor <= from < words@.len(),
            views == word_views(words@),
            drop@.len() == start.len() == words@.len(),
            forall|j: int| cursor <= j < from ==> #[trigger] views[j].kind == "spacing"@,
            forall|i: int|
                0 <= i < drop@.len() ==> #[trigger] drop@[i] == (start[i] || cursor <= i < from),
        decreases cursor,
    {
        cursor -= 1;
        drop.set(cursor, true);
        assert(views[cursor as int].kind == "spacing"@);
    }
    let ghost expected = with_spacing_before(views, start, from as int);
    assert forall|i: int| 0 <= i < drop@.len() implies #[trigger] drop@[i] == expected[i] by {
        if i < cursor {
            assert(views[cursor - 1].kind != "spacing"@);
        }
    }
    assert(drop@ =~= expected);
}

/// Drop the spacing tokens directly after `from`.
fn drop_after(words: &[TranscriptWord], drop: &mut Vec<bool>, from: usize)
    requires
        old(drop)@.len() == words@.len(),
        from < words@.len(),
    ensures
        final(drop)@ == with_spacing_after(word_views(words@), old(drop)@, from as int),
{
    let ghost views = word_views(words@);
    let ghost start = drop@;
    let n: usize = words.len();
    let mut cursor: usize = from + 1;
    while cursor < n && same_text(&words[cursor].kind, "spacing")
        invariant
            n == words@.len(),
            from < cursor <= words@.len(),
            views == word_views(words@),
            drop@.len() == start.len() == words@.len(),
            forall|j: int| from < j < cursor ==> #[trigger] views[j].kind == "spacing"@,
            forall|i: int|
                0 <= i < drop@.len() ==> #[trigger] drop@[i] == (start[i] || from < i < cursor),
        decreases words@.len() - cursor,
    {
        drop.set(cursor, true);
        assert(views[cursor as int].kind == "spacing"@);
        cursor += 1;
    }
    let ghost expected = with_spacing_after(views, start, from as int);
    assert forall|i: int| 0 <= i < drop@.len() implies #[trigger] drop@[i] == expected[i] by {
        if i >= cursor {
            assert(views[cursor as int].kind != "spacing"@);
        }
    }
    assert(drop@ =~= expected);
}

/// Strip leading double quotes.
pub fn strip_leading_quotes(text: &[char]) -> (r: Vec<char>)
    ensures
        r@ == without_start(text@, CharClass::QuoteMark),
{
    let n: usize = start_len(text, CharClass::QuoteMark);
    let out: Vec<char> = part(text, n, text.len());
    assert(out@ =~= text@.skip(n as int));
    out
}

/// Strip trailing double quotes.
pub fn strip_trailing_quotes(text: &[char]) -> (r: Vec<char>)
    ensures
        r@ == without_end(text@, CharClass::QuoteMark),
{
    let n: usize = end_len(text, CharClass::QuoteMark);
    let out: Vec<char> = part(text, 0, n);
    assert(out@ =~= text@.take(n as int));
    out
}

/// The stream while commands are being carried out.
struct Working {
    texts: Vec<Vec<char>>,
    drop: Vec<bool>,
    quote_open: bool,
}

impl Working {
    spec fn draft(self) -> Draft {
        Draft { texts: text_views(self.texts@), drop: self.drop@, quote_open: self.quote_open }
    }

    fn set_text(&mut self, i: usize, text: Vec<char>)
        requires
            i < old(self).texts@.len(),
        ensures
            final(self).draft() == old(self).draft().with_text(i, text@),
            final(self).texts@.len() == old(self).texts@.len(),
    {
        let ghost before = self.texts@;
        self.texts.set(i, text);
        assert(text_views(self.texts@) =~= text_views(before).update(i as int, text@));
    }

    fn append(&mut self, i: usize, symbol: &[char])
        requires
            i < old(self).texts@.len(),
        ensures
            final(self).draft() == old(self).draft().with_text(
                i,
                old(self).draft().texts[i as int] + symbol@,
            ),
            final(self).texts@.len() == old(self).texts@.len(),
    {
        let mut text: Vec<char> = part(&self.texts[i], 0, self.texts[i].len());
        assert(text@ =~= self.texts@[i as int]@);
        extend(&mut text, symbol);
        self.set_text(i, text);
    }

    fn prepend(&mut self, i: usize, symbol: &[char])
        requires
            i < old(self).texts@.len(),
        ensures
            final(self).draft() == old(self).draft().with_text(
                i,
                symbol@ + old(self).draft().texts[i as int],
            ),
            final(self).texts@.len() == old(self).texts@.len(),
    {
        let mut text: Vec<char> = part(symbol, 0, symbol.len());
        assert(text@ =~= symbol@);
        extend(&mut text, &self.texts[i]);
        self.set_text(i, text);
    }

    fn place_symbol(&mut self, prev: Option<usize>, next: Option<usize>, symbol: &[char])
        requires
            prev matches Some(a) ==> a < old(self).texts@.len(),
            next matches Some(a) ==> a < old(self).texts@.len(),
        ensures
            final(self).draft() == old(self).draft().with_symbol(prev, next, symbol@),
            final(self).texts@.len() == old(self).texts@.len(),
    {
        if let Some(anchor) = prev {
            self.append(anchor, symbol);
        } else if let Some(anchor) = next {
            self.prepend(anchor, symbol);
        }
    }

    fn quote_before(&mut self, i: usize)
        requires
            i < old(self).texts@.len(),
        ensures
            final(self).draft() == old(self).draft().with_quote_before(i),
            final(self).texts@.len() == old(self).texts@.len(),
    {
        let stripped: Vec<char> = strip_leading_quotes(&self.texts[i]);
        let mut text: Vec<char> = Vec::new();
        text.push('"');
        extend(&mut text, &stripped);
        assert(text@ =~= seq!['"'] + stripped@);
        self.set_text(i, text);
    }

    fn quote_after(&mut self, i: usize)
        requires
            i < old(self).texts@.len(),
        ensures
            final(self).draft() == old(self).draft().with_quote_after(i),
            final(self).texts@.len() == old(self).texts@.len(),
    {
        let mut text: Vec<char> = strip_trailing_quotes(&self.texts[i]);
        text.push('"');
        self.set_text(i, text);
    }

    fn open_quote(
        &mut self,
        words: &[TranscriptWord],
        first: usize,
        last: usize,
        prev: Option<usize>,
        next: Option<usize>,
    )
        requires
            old(self).texts@.len() == old(self).drop@.len() == words@.len(),
            first < words@.len(),
            last < words@.len(),
            prev matches Some(a) ==> a < words@.len(),
            next matches Some(a) ==> a < words@.len(),
        ensures
            final(self).draft() == carried_out(
                word_views(words@),
                old(self).draft(),
                Command::OpenQuote,
                first as int,
                last as int,
                prev,
                next,
            ),
            final(self).texts@.len() == final(self).drop@.len() == words@.len(),
    {
        self.quote_open = true;
        if let Some(anchor) = next {
            drop_after(words, &mut self.drop, last);
            self.quote_before(anchor);
        } else if let Some(anchor) = prev {
            drop_before(words, &mut self.drop, first);
            self.quote_after(anchor);
        }
    }

    fn close_quote(
        &mut self,
        words: &[TranscriptWord],
        first: usize,
        last: usize,
        prev: Option<usize>,
        next: Option<usize>,
    )
        requires
            old(self).texts@.len() == old(self).drop@.len() == words@.len(),
            first < words@.len(),
            last < words@.len(),
            prev matches Some(a) ==> a < words@.len(),
            next matches Some(a) ==> a < words@.len(),
        ensures
            final(self).draft() == carried_out(
                word_views(words@),
                old(self).draft(),
                Command::CloseQuote,
                first as int,
                last as int,
                prev,
                next,
            ),
            final(self).texts@.len() == final(self).drop@.len() == words@.len(),
    {
        self.quote_open = false;
        if let Some(anchor) = prev {
            drop_before(words, &mut self.drop, first);
            self.quote_after(anchor);
        } else if let Some(anchor) = next {
            self.quote_before(anchor);
        }
    }

    /// Carry out one command.
    fn carry_out(
        &mut self,
        words: &[TranscriptWord],
        command: Command,
        first: usize,
        last: usize,
        prev: Option<usize>,
        next: Option<usize>,
    )
        requires
            old(self).texts@.len() == old(self).drop@.len() == words@.len(),
            first < words@.len(),
            last < words@.len(),
            prev matches Some(a) ==> a < words@.len(),
            next matches Some(a) ==> a < words@.len(),
        ensures
            final(self).draft() == carried_out(
                word_views(words@),
                old(self).draft(),
                command,
                first as int,
                last as int,
                prev,
                next,
            ),
            final(self).texts@.len() == final(self).drop@.len() == words@.len(),
    {
        match command {
            Command::AttachLeft(symbol) => {
                drop_before(words, &mut self.drop, first);
                let symbols: Vec<char> = vec![symbol];
                assert(symbols@ =~= seq![symbol]);
                self.place_symbol(prev, next, &symbols);
            },
            Command::Glue(symbol) => {
                drop_before(words, &mut self.drop, first);
                drop_after(words, &mut self.drop, last);
                let symbols: Vec<char> = vec![symbol];
                assert(symbols@ =~= seq![symbol]);
                self.place_symbol(prev, next, &symbols);
            },
            Command::LineBreak { paragraph } => {
                drop_before(words, &mut self.drop, first);
                drop_after(words, &mut self.drop, last);
                let mut breaks: Vec<char> = vec!['\n'];
                if paragraph {
                    breaks.push('\n');
                }
                assert(breaks@ =~= if paragraph {
                    seq!['\n', '\n']
                } else {
                    seq!['\n']
                });
                self.place_symbol(prev, next, &breaks);
            },
            Command::OpenQuote => self.open_quote(words, first, last, prev, next),
            Command::CloseQuote => self.close_quote(words, first, last, prev, next),
            Command::ToggleQuote => {
                if self.quote_open {
                    self.close_quote(words, first, last, prev, next);
                } else {
                    self.open_quote(words, first, last, prev, next);
                }
            },
        }
    }
}

/// Every content word is either skipped or kept, and every edit spans content
/// words that are skipped.
pub proof fn scan_is_complete(cores: Seq<Seq<char>>, p: int)
    requires
        0 <= p <= cores.len() <= usize::MAX,
    ensures
        skips_from(cores, p).len() == cores.len() - p,
        forall|e: int|
            0 <= e < edits_from(cores, p).len() ==> {
                let edit = #[trigger] edits_from(cores, p)[e];
                &&& p <= edit.position
                &&& 1 <= edit.consumed
                &&& edit.position + edit.consumed <= cores.len()
                &&& forall|k: int|
                    edit.position <= k < edit.position + edit.consumed
                        ==> #[trigger] skips_from(cores, p)[k - p]
            },
    decreases cores.len() - p,
{
    if p < cores.len() {
        command_fits(cores, p);
        command_fits(cores, p + 1);
        let n = step_len(cores, p);
        scan_is_complete(cores, p + n);
        let rest = edits_from(cores, p + n);
        let skips = skips_from(cores, p);
        let head = if command_at(cores, p) is Some && !escape_at(cores, p) {
            1int
        } else {
            0int
        };
        assert forall|e: int| 0 <= e < edits_from(cores, p).len() implies {
            let edit = #[trigger] edits_from(cores, p)[e];
            &&& p <= edit.position
            &&& 1 <= edit.consumed
            &&& edit.position + edit.consumed <= cores.len()
            &&& forall|k: int|
                edit.position <= k < edit.position + edit.consumed ==> #[trigger] skips[k - p]
        } by {
            if e >= head {
                let edit = rest[e - head];
                assert(edits_from(cores, p)[e] == edit);
                assert forall|k: int|
                    edit.position <= k < edit.position + edit.consumed implies #[trigger] skips[k
                    - p] by {
                    assert(skips_from(cores, p + n)[k - (p + n)]);
                    assert(skips[k - p] == skips_from(cores, p + n)[k - p - n]);
                }
            }
        }
    }
}

proof fn anchors_are_content(content: Seq<usize>, skip: Seq<bool>, p: int)
    requires
        content.len() == skip.len(),
        0 <= p <= content.len(),
    ensures
        anchor_before(content, skip, p) matches Some(a) ==> exists|k: int|
            0 <= k < p && #[trigger] content[k] == a && !skip[k],
        anchor_after(content, skip, p) matches Some(a) ==> exists|k: int|
            p < k < content.len() && #[trigger] content[k] == a && !skip[k],
{
    before_is_content(content, skip, p);
    after_is_content(content, skip, p);
}

proof fn before_is_content(content: Seq<usize>, skip: Seq<bool>, p: int)
    requires
        content.len() == skip.len(),
        0 <= p <= content.len(),
    ensures
        anchor_before(content, skip, p) matches Some(a) ==> exists|k: int|
            0 <= k < p && #[trigger] content[k] == a && !skip[k],
    decreases p,
{
    if p > 0 && skip[p - 1] {
        before_is_content(content, skip, p - 1);
    } else if p > 0 {
        assert(content[p - 1] == content[p - 1]);
    }
}

proof fn after_is_content(content: Seq<usize>, skip: Seq<bool>, p: int)
    requires
        content.len() == skip.len(),
        0 <= p <= content.len(),
    ensures
        anchor_after(content, skip, p) matches Some(a) ==> exists|k: int|
            p < k < content.len() && #[trigger] content[k] == a && !skip[k],
    decreases content.len() - p,
{
    if p + 1 < content.len() && skip[p + 1] {
        after_is_content(content, skip, p + 1);
    } else if p + 1 < content.len() {
        assert(content[p + 1] == content[p + 1]);
    }
}

/// What `scan` finds in the content words of a stream of `total` tokens.
spec fn scanned(total: int, content: Seq<usize>, skip: Seq<bool>, edits: Seq<Edit>) -> bool {
    &&& content.len() == skip.len()
    &&& content.len() <= usize::MAX
    &&& total <= usize::MAX
    &&& forall|k: int| 0 <= k < content.len() ==> (#[trigger] content[k]) < total
    &&& forall|e: int|
        0 <= e < edits.len() ==> 1 <= (#[trigger] edits[e]).consumed && edits[e].position
            + edits[e].consumed <= content.len()
}

/// Which tokens the skipped content words and the command phrases take out.
fn first_drop(total: usize, content: &[usize], skip: &[bool], edits: &[Edit], words: Ghost<
    Seq<WordView>,
>) -> (r: Vec<bool>)
    requires
        scanned(total as int, content@, skip@, edits@),
        words@.len() == total,
    ensures
        r@ == initial_drop(words@, content@, skip@, edits@),
{
    let mut drop: Vec<bool> = Vec::new();
    let mut n: usize = 0;
    while n < total
        invariant
            n <= total,
            drop@.len() == n,
            forall|i: int| 0 <= i < n ==> !#[trigger] drop@[i],
        decreases total - n,
    {
        drop.push(false);
        n += 1;
    }
    let mut k: usize = 0;
    while k < content.len()
        invariant
            k <= content@.len(),
            scanned(total as int, content@, skip@, edits@),
            drop@.len() == total,
            forall|i: int|
                0 <= i < total ==> (#[trigger] drop@[i] <==> exists|j: int|
                    0 <= j < k && #[trigger] content@[j] == i && skip@[j]),
        decreases content@.len() - k,
    {
        let ghost before = drop@;
        if skip[k] {
            drop.set(content[k], true);
        }
        k += 1;
        assert forall|i: int| 0 <= i < total implies (#[trigger] drop@[i] <==> exists|j: int|
            0 <= j < k && #[trigger] content@[j] == i && skip@[j]) by {
            if before[i] {
                let j = choose|j: int| 0 <= j < k - 1 && #[trigger] content@[j] == i && skip@[j];
                assert(content@[j] == i && skip@[j]);
            }
            if drop@[i] && !before[i] {
                assert(content@[k - 1] == i && skip@[k - 1]);
            }
        }
    }
    let ghost base = drop@;
    let mut e: usize = 0;
    while e < edits.len()
        invariant
            e <= edits@.len(),
            scanned(total as int, content@, skip@, edits@),
            drop@.len() == base.len() == total,
            forall|i: int|
                0 <= i < total ==> (#[trigger] drop@[i] <==> (base[i] || exists|d: int|
                    0 <= d < e && #[trigger] inside_phrase(content@, edits@[d], i))),
        decreases edits@.len() - e,
    {
        let ghost before = drop@;
        let first: usize = content[edits[e].position];
        let last: usize = content[edits[e].position + (edits[e].consumed - 1)];
        let mut i: usize = first;
        while i <= last
            invariant
                first <= i,
                last < total,
                i <= total,
                drop@.len() == before.len() == total,
                first <= last ==> i <= last + 1,
                first > last ==> i == first,
                forall|j: int|
                    0 <= j < total ==> #[trigger] drop@[j] == (before[j] || first <= j < i),
            decreases total - i,
        {
            drop.set(i, true);
            i += 1;
        }
        assert(forall|j: int|
            0 <= j < total ==> #[trigger] drop@[j] == (before[j] || inside_phrase(
                content@,
                edits@[e as int],
                j,
            )));
        e += 1;
        assert forall|i: int| 0 <= i < total implies (#[trigger] drop@[i] <==> (base[i]
            || exists|d: int| 0 <= d < e && #[trigger] inside_phrase(content@, edits@[d], i))) by {
            assert(before[i] ==> drop@[i]);
            if inside_phrase(content@, edits@[e - 1], i) {
                assert(drop@[i]);
            }
            if drop@[i] && !before[i] {
                assert(inside_phrase(content@, edits@[e - 1], i));
            }
        }
    }
    assert(drop@ =~= initial_drop(words@, content@, skip@, edits@));
    drop
}

/// The tokens that stay, with their new texts.
fn kept_words(words: &[TranscriptWord], working: &Working) -> (r: Vec<TranscriptWord>)
    requires
        working.texts@.len() == working.drop@.len() == words@.len(),
    ensures
        word_views(r@) == kept_upto(word_views(words@), working.draft(), words@.len() as int),
{
    let ghost views = word_views(words@);
    let mut out: Vec<TranscriptWord> = Vec::new();
    let mut i: usize = 0;
    assert(word_views(out@) =~= kept_upto(views, working.draft(), 0));
    while i < words.len()
        invariant
            i <= words@.len(),
            views == word_views(words@),
            working.texts@.len() == working.drop@.len() == words@.len(),
            word_views(out@) == kept_upto(views, working.draft(), i as int),
        decreases words@.len() - i,
    {
        if !working.drop[i] {
            let word = TranscriptWord {
                text: string_of(&working.texts[i]),
                start: words[i].start,
                end: words[i].end,
                kind: words[i].kind.clone(),
            };
            proof {
                word_views_push(out@, word);
                assert(working.draft().texts[i as int] == working.texts@[i as int]@);
                assert(word@ == WordView {
                    text: working.draft().texts[i as int],
                    ..views[i as int]
                });
            }
            out.push(word);
        }
        i += 1;
    }
    out
}

/// The plain text of a token stream, joined by the spacing rules of
/// `text::joined` and trimmed.
pub fn rebuild_text(words: &[TranscriptWord]) -> (r: String)
    ensures
        r@ == rebuilt(word_views(words@)),
{
    let ghost views = word_views(words@);
    let mut text: Vec<char> = Vec::new();
    let mut i: usize = 0;
    while i < words.len()
        invariant
            i <= words@.len(),
            views == word_views(words@),
            text@ == text_upto(views, i as int),
        decreases words@.len() - i,
    {
        if same_text(&words[i].kind, "spacing") {
            extend(&mut text, &chars_of(&words[i].text));
        } else if same_text(&words[i].kind, "word") {
            append_piece(&mut text, &chars_of(&words[i].text));
        }
        i += 1;
    }
    string_of(&strip_ends(&text, CharClass::WhiteSpace))
}

/// A token stream whose commands were carried out, and how many there were.
#[derive(Debug, PartialEq)]
pub struct Conversion {
    pub words: Vec<TranscriptWord>,
    pub commands: usize,
}

/// Carry out the commands of a token stream, or `None` where it holds neither
/// a command nor an escape.
pub fn convert(words: &[TranscriptWord]) -> (r: Option<Conversion>)
    ensures
        match r {
            Some(out) => {
                &&& has_commands(word_views(words@))
                &&& word_views(out.words@) == converted(word_views(words@))
                &&& out.commands == edits_from(cores_of(word_views(words@)), 0).len()
            },
            None => !has_commands(word_views(words@)),
        },
{
    let ghost views = word_views(words@);
    let total: usize = words.len();
    let content: Vec<usize> = content_positions(words);
    let cores: Vec<Vec<char>> = content_cores(words, &content);
    let (skip, edits) = scan(&cores);
    proof {
        content_is_sorted(views, views.len() as int);
        assert(cores_of(views).len() == content@.len());
        scan_is_complete(cores_of(views), 0);
        assert(scanned(total as int, content@, skip@, edits@));
    }
    let mut any: bool = false;
    let mut k: usize = 0;
    while k < skip.len()
        invariant
            k <= skip@.len(),
            any <==> exists|j: int| 0 <= j < k && #[trigger] skip@[j],
        decreases skip@.len() - k,
    {
        if skip[k] {
            any = true;
        }
        k += 1;
    }
    if !any {
        return None;
    }
    let mut texts: Vec<Vec<char>> = Vec::new();
    let mut i: usize = 0;
    while i < words.len()
        invariant
            i <= words@.len(),
            views == word_views(words@),
            text_views(texts@) == views.map_values(|w: WordView| w.text).take(i as int),
        decreases words@.len() - i,
    {
        let ghost before = texts@;
        let text: Vec<char> = chars_of(&words[i].text);
        texts.push(text);
        i += 1;
        assert(text_views(texts@) =~= text_views(before).push(text@));
        assert(text_views(texts@) =~= views.map_values(|w: WordView| w.text).take(i as int));
    }
    assert(text_views(texts@) =~= views.map_values(|w: WordView| w.text));
    assert(texts@.len() == text_views(texts@).len());
    let drop: Vec<bool> = first_drop(total, &content, &skip, &edits, Ghost(views));
    let mut working = Working { texts, drop, quote_open: false };
    let mut e: usize = 0;
    while e < edits.len()
        invariant
            e <= edits@.len(),
            views == word_views(words@),
            scanned(words@.len() as int, content@, skip@, edits@),
            working.texts@.len() == working.drop@.len() == words@.len(),
            working.draft() == draft_after(views, content@, skip@, edits@, e as int),
        decreases edits@.len() - e,
    {
        let edit: Edit = edits[e];
        let end: usize = edit.position + (edit.consumed - 1);
        let prev: Option<usize> = nearest_before(&content, &skip, edit.position);
        let next: Option<usize> = nearest_after(&content, &skip, end);
        proof {
            anchors_are_content(content@, skip@, edit.position as int);
            anchors_are_content(content@, skip@, end as int);
        }
        working.carry_out(words, edit.command, content[edit.position], content[end], prev, next);
        e += 1;
    }
    Some(Conversion { words: kept_words(words, &working), commands: edits.len() })
}

/// Carry out the spoken punctuation commands in `transcript` and drop the
/// command words. A transcript that holds none comes back unchanged.
pub fn apply_spoken_punctuation(transcript: &Transcript) -> (r: Transcript)
    ensures
        r@ == punctuated(transcript@),
{
    match convert(&transcript.words) {
        Some(converted) => Transcript {
            text: rebuild_text(&converted.words),
            words: converted.words,
        },
        None => transcript.clone(),
    }
}

/// Without a command phrase nothing changes, escape words included.
pub proof fn plain_speech_is_unchanged(transcript: TranscriptView)
    requires
        transcript.words.len() <= usize::MAX,
        forall|p: int| #[trigger] command_at(cores_of(transcript.words), p) is None,
    ensures
        punctuated(transcript) == transcript,
{
    let cores = cores_of(transcript.words);
    content_is_sorted(transcript.words, transcript.words.len() as int);
    scan_is_complete(cores, 0);
    no_command_no_skip(cores, 0);
}

proof fn no_command_no_skip(cores: Seq<Seq<char>>, p: int)
    requires
        0 <= p <= cores.len(),
        forall|q: int| #[trigger] command_at(cores, q) is None,
    ensures
        forall|k: int| 0 <= k < skips_from(cores, p).len() ==> !#[trigger] skips_from(cores, p)[k],
    decreases cores.len() - p,
{
    if p < cores.len() {
        assert(command_at(cores, p) is None);
        assert(command_at(cores, p + 1) is None);
        no_command_no_skip(cores, p + 1);
        assert forall|k: int| 0 <= k < skips_from(cores, p).len() implies !#[trigger] skips_from(
            cores,
            p,
        )[k] by {
            if k > 0 {
                assert(skips_from(cores, p)[k] == skips_from(cores, p + 1)[k - 1]);
            }
        }
    }
}

/// Carrying out commands never brings a token back, takes out spacing only,
/// and changes the text of content words only.
proof fn draft_only_drops_spacing(
    words: Seq<WordView>,
    content: Seq<usize>,
    skip: Seq<bool>,
    edits: Seq<Edit>,
    n: int,
)
    requires
        scanned(words.len() as int, content, skip, edits),
        0 <= n <= edits.len(),
        forall|k: int|
            0 <= k < content.len() ==> words[(#[trigger] content[k]) as int].kind == "word"@,
    ensures
        ({
            let start = initial_drop(words, content, skip, edits);
            let draft = draft_after(words, content, skip, edits, n);
            &&& draft.texts.len() == words.len()
            &&& draft.drop.len() == words.len()
            &&& forall|i: int|
                0 <= i < words.len() && start[i] ==> #[trigger] draft.drop[i]
            &&& forall|i: int|
                0 <= i < words.len() && #[trigger] draft.drop[i] && !start[i] ==> words[i].kind
                    == "spacing"@
            &&& forall|i: int|
                0 <= i < words.len() && words[i].kind != "word"@ ==> #[trigger] draft.texts[i]
                    == words[i].text
        }),
    decreases n,
{
    if n > 0 {
        draft_only_drops_spacing(words, content, skip, edits, n - 1);
        let before = draft_after(words, content, skip, edits, n - 1);
        let edit = edits[n - 1];
        let end = edit.position + edit.consumed - 1;
        anchors_are_content(content, skip, edit.position as int);
        anchors_are_content(content, skip, end);
        let first = content[edit.position as int] as int;
        let last = content[end] as int;
        let left = with_spacing_before(words, before.drop, first);
        let right = with_spacing_after(words, before.drop, last);
        let both = with_spacing_after(words, left, last);
        spacing_runs_are_spacing(words, before.drop, first);
        spacing_runs_are_spacing(words, before.drop, last);
        spacing_runs_are_spacing(words, left, last);
    }
}

proof fn spacing_runs_are_spacing(words: Seq<WordView>, drop: Seq<bool>, from: int)
    requires
        drop.len() == words.len(),
    ensures
        with_spacing_before(words, drop, from).len() == words.len(),
        with_spacing_after(words, drop, from).len() == words.len(),
        forall|i: int|
            0 <= i < words.len() && drop[i] ==> #[trigger] with_spacing_before(
                words,
                drop,
                from,
            )[i],
        forall|i: int|
            0 <= i < words.len() && drop[i] ==> #[trigger] with_spacing_after(words, drop, from)[i],
        forall|i: int|
            0 <= i < words.len() && #[trigger] with_spacing_before(words, drop, from)[i] && !drop[i]
                ==> words[i].kind == "spacing"@,
        forall|i: int|
            0 <= i < words.len() && #[trigger] with_spacing_after(words, drop, from)[i] && !drop[i]
                ==> words[i].kind == "spacing"@,
{
}

/// Exactly the skipped content words leave the stream: a command or escape
/// word never survives, and no other content word is lost.
pub proof fn exactly_the_command_words_leave(words: Seq<WordView>, k: int)
    requires
        words.len() <= usize::MAX,
        0 <= k < content_of(words).len(),
    ensures
        final_draft(words).drop.len() == words.len(),
        content_of(words)[k] < words.len(),
        final_draft(words).drop[content_of(words)[k] as int] == skips_from(cores_of(words), 0)[k],
{
    let content = content_of(words);
    let skip = skips_from(cores_of(words), 0);
    let edits = edits_from(cores_of(words), 0);
    let i = content[k] as int;
    content_is_sorted(words, words.len() as int);
    scan_is_complete(cores_of(words), 0);
    draft_only_drops_spacing(words, content, skip, edits, edits.len() as int);
    let start = initial_drop(words, content, skip, edits);
    kinds_differ();
    if start[i] && !skip[k] {
        if exists|j: int| 0 <= j < content.len() && #[trigger] content[j] == i && skip[j] {
            let j = choose|j: int| 0 <= j < content.len() && #[trigger] content[j] == i && skip[j];
            assert(j == k);
        } else {
            let e = choose|e: int|
                0 <= e < edits.len() && #[trigger] inside_phrase(content, edits[e], i);
            let edit = edits[e];
            let end = edit.position + edit.consumed - 1;
            assert(content[edit.position as int] <= content[k] <= content[end]);
            assert(edit.position <= k <= end);
            assert(skip[k - 0]);
        }
    }
}

/// No word of a command phrase is as long as `literal`.
proof fn phrases_do_not_hold_the_escape(first: Seq<char>, second: Option<Seq<char>>)
    ensures
        command_of(first, second) is Some ==> first.len() != 7,
        command_of(first, second) matches Some((_, n)) && n == 2 ==> (second matches Some(s)
            && s.len() != 7),
{
    reveal_strlit("period");
    reveal_strlit("full");
    reveal_strlit("comma");
    reveal_strlit("question");
    reveal_strlit("exclamation");
    reveal_strlit("colon");
    reveal_strlit("colons");
    reveal_strlit("semicolon");
    reveal_strlit("semicolons");
    reveal_strlit("semi");
    reveal_strlit("new");
    reveal_strlit("next");
    reveal_strlit("double");
    reveal_strlit("open");
    reveal_strlit("begin");
    reveal_strlit("close");
    reveal_strlit("closed");
    reveal_strlit("end");
    reveal_strlit("single");
    reveal_strlit("apostrophe");
    reveal_strlit("apostrophes");
    reveal_strlit("stop");
    reveal_strlit("stops");
    reveal_strlit("mark");
    reveal_strlit("marks");
    reveal_strlit("point");
    reveal_strlit("points");
    reveal_strlit("line");
    reveal_strlit("lines");
    reveal_strlit("paragraph");
    reveal_strlit("paragraphs");
    reveal_strlit("quote");
    reveal_strlit("quotes");
    reveal_strlit("quotation");
    reveal_strlit("quotations");
}

proof fn escapes_start_a_step(cores: Seq<Seq<char>>, q: int, p: int)
    requires
        0 <= q < p < cores.len(),
        escape_at(cores, p),
    ensures
        q + step_len(cores, q) <= p,
{
    reveal_strlit("literal");
    assert(cores[p].len() == ascii_lowered(cores[p]).len());
    assert(word_lowered(cores[p]).len() == 7);
    if q + 1 < cores.len() {
        let first = word_lowered(cores[q]);
        phrases_do_not_hold_the_escape(first, Some(word_lowered(cores[q + 1])));
        let second = if q + 2 < cores.len() {
            Some(word_lowered(cores[q + 2]))
        } else {
            None
        };
        phrases_do_not_hold_the_escape(word_lowered(cores[q + 1]), second);
    }
}

proof fn escaped_words_stay(cores: Seq<Seq<char>>, q: int, p: int)
    requires
        0 <= q <= p < cores.len() <= usize::MAX,
        escape_at(cores, p),
    ensures
        skips_from(cores, q)[p - q],
        forall|k: int|
            p < k <= p + (command_at(cores, p + 1)->0).1 ==> !#[trigger] skips_from(cores, q)[k
                - q],
    decreases p - q,
{
    command_fits(cores, q);
    command_fits(cores, p + 1);
    scan_is_complete(cores, q);
    if q < p {
        escapes_start_a_step(cores, q, p);
        let n = step_len(cores, q) as int;
        scan_is_complete(cores, q + n);
        escaped_words_stay(cores, q + n, p);
        assert forall|k: int| q + n <= k < cores.len() implies #[trigger] skips_from(cores, q)[k
            - q] == skips_from(cores, q + n)[k - (q + n)] by {}
        assert forall|k: int|
            p < k <= p + (command_at(cores, p + 1)->0).1 implies !#[trigger] skips_from(
            cores,
            q,
        )[k - q] by {
            assert(!skips_from(cores, q + n)[k - (q + n)]);
        }
    }
}

/// `literal` before a command keeps the words instead: the escape word leaves
/// and every word of the phrase stays.
pub proof fn literal_keeps_the_words(words: Seq<WordView>, p: int)
    requires
        words.len() <= usize::MAX,
        0 <= p < content_of(words).len(),
        escape_at(cores_of(words), p),
    ensures
        p + (command_at(cores_of(words), p + 1)->0).1 < content_of(words).len(),
        final_draft(words).drop[content_of(words)[p] as int],
        forall|k: int|
            p < k <= p + (command_at(cores_of(words), p + 1)->0).1 ==> !final_draft(
                words,
            ).drop[#[trigger] content_of(words)[k] as int],
{
    let cores = cores_of(words);
    content_is_sorted(words, words.len() as int);
    command_fits(cores, p + 1);
    escaped_words_stay(cores, 0, p);
    exactly_the_command_words_leave(words, p);
    assert forall|k: int| p < k <= p + (command_at(cores, p + 1)->0).1 implies !final_draft(
        words,
    ).drop[#[trigger] content_of(words)[k] as int] by {
        exactly_the_command_words_leave(words, k);
        assert(!skips_from(cores, 0)[k - 0]);
    }
}

proof fn kinds_differ()
    ensures
        "word"@ != "spacing"@,
{
    reveal_strlit("word");
    reveal_strlit("spacing");
    assert("word"@.len() != "spacing"@.len());
}

/// Indices of the tokens among the first `n` that stay.
pub open spec fn survivors(draft: Draft, n: int) -> Seq<int>
    decreases n,
{
    if n <= 0 {
        Seq::empty()
    } else if draft.drop[n - 1] {
        survivors(draft, n - 1)
    } else {
        survivors(draft, n - 1).push(n - 1)
    }
}

/// The tokens that stay keep their order, their times and their kinds; only
/// the text of a content word changes.
pub proof fn survivors_keep_their_times(words: Seq<WordView>)
    requires
        words.len() <= usize::MAX,
    ensures
        ({
            let out = converted(words);
            let from = survivors(final_draft(words), words.len() as int);
            &&& out.len() == from.len()
            &&& forall|j: int|
                0 <= j < from.len() ==> {
                    let i = #[trigger] from[j];
                    &&& 0 <= i < words.len()
                    &&& !final_draft(words).drop[i]
                    &&& out[j].start == words[i].start
                    &&& out[j].end == words[i].end
                    &&& out[j].kind == words[i].kind
                    &&& out[j].text == final_draft(words).texts[i]
                    &&& words[i].kind != "word"@ ==> out[j].text == words[i].text
                }
            &&& forall|a: int, b: int|
                0 <= a < b < from.len() ==> #[trigger] from[a] < #[trigger] from[b]
            &&& forall|i: int|
                0 <= i < words.len() && !#[trigger] final_draft(words).drop[i] ==> from.contains(i)
        }),
{
    let content = content_of(words);
    let skip = skips_from(cores_of(words), 0);
    let edits = edits_from(cores_of(words), 0);
    content_is_sorted(words, words.len() as int);
    scan_is_complete(cores_of(words), 0);
    draft_only_drops_spacing(words, content, skip, edits, edits.len() as int);
    survivors_are_kept(words, final_draft(words), words.len() as int);
}

proof fn survivors_are_kept(words: Seq<WordView>, draft: Draft, n: int)
    requires
        0 <= n <= words.len(),
    ensures
        ({
            let out = kept_upto(words, draft, n);
            let from = survivors(draft, n);
            &&& out.len() == from.len()
            &&& forall|j: int|
                0 <= j < from.len() ==> {
                    let i = #[trigger] from[j];
                    &&& 0 <= i < n
                    &&& !draft.drop[i]
                    &&& out[j] == WordView { text: draft.texts[i], ..words[i] }
                }
            &&& forall|a: int, b: int|
                0 <= a < b < from.len() ==> #[trigger] from[a] < #[trigger] from[b]
            &&& forall|i: int| 0 <= i < n && !#[trigger] draft.drop[i] ==> from.contains(i)
        }),
    decreases n,
{
    if n > 0 {
        survivors_are_kept(words, draft, n - 1);
        let before = survivors(draft, n - 1);
        let from = survivors(draft, n);
        assert forall|i: int| 0 <= i < n && !#[trigger] draft.drop[i] implies from.contains(i) by {
            if i == n - 1 {
                assert(from.last() == i);
            } else {
                assert(before.contains(i));
                let j = choose|j: int| 0 <= j < before.len() && before[j] == i;
                assert(from[j] == i);
            }
        }
    }
}

/// The stream after the first `n` commands of its words.
pub open spec fn draft_at(words: Seq<WordView>, n: int) -> Draft {
    draft_after(
        words,
        content_of(words),
        skips_from(cores_of(words), 0),
        edits_from(cores_of(words), 0),
        n,
    )
}

/// How many of the first `n` commands toggle a quote.
pub open spec fn toggles_upto(edits: Seq<Edit>, n: int) -> nat
    decreases n,
{
    if n <= 0 {
        0
    } else if edits[n - 1].command is ToggleQuote {
        toggles_upto(edits, n - 1) + 1
    } else {
        toggles_upto(edits, n - 1)
    }
}

proof fn stream_is_sound(words: Seq<WordView>, n: int)
    requires
        words.len() <= usize::MAX,
        0 <= n <= edits_from(cores_of(words), 0).len(),
    ensures
        scanned(
            words.len() as int,
            content_of(words),
            skips_from(cores_of(words), 0),
            edits_from(cores_of(words), 0),
        ),
        draft_at(words, n).texts.len() == words.len(),
        draft_at(words, n).drop.len() == words.len(),
{
    content_is_sorted(words, words.len() as int);
    scan_is_complete(cores_of(words), 0);
    draft_only_drops_spacing(
        words,
        content_of(words),
        skips_from(cores_of(words), 0),
        edits_from(cores_of(words), 0),
        n,
    );
}

proof fn nearest_word_before(content: Seq<usize>, skip: Seq<bool>, p: int, k: int)
    requires
        0 <= k < p,
        !skip[k],
        forall|j: int| k < j < p ==> #[trigger] skip[j],
    ensures
        anchor_before(content, skip, p) == Some(content[k]),
    decreases p,
{
    if k < p - 1 {
        assert(skip[p - 1]);
        nearest_word_before(content, skip, p - 1, k);
    }
}

proof fn no_word_before(content: Seq<usize>, skip: Seq<bool>, p: int)
    requires
        forall|j: int| 0 <= j < p ==> #[trigger] skip[j],
    ensures
        anchor_before(content, skip, p) is None,
    decreases p,
{
    if p > 0 {
        assert(skip[p - 1]);
        no_word_before(content, skip, p - 1);
    }
}

proof fn nearest_word_after(content: Seq<usize>, skip: Seq<bool>, p: int, k: int)
    requires
        p < k < content.len(),
        !skip[k],
        forall|j: int| p < j < k ==> #[trigger] skip[j],
    ensures
        anchor_after(content, skip, p) == Some(content[k]),
    decreases k - p,
{
    if p + 1 < k {
        assert(skip[p + 1]);
        nearest_word_after(content, skip, p + 1, k);
    }
}

proof fn no_word_after(content: Seq<usize>, skip: Seq<bool>, p: int)
    requires
        forall|j: int| p < j < content.len() ==> #[trigger] skip[j],
    ensures
        anchor_after(content, skip, p) is None,
    decreases content.len() - p,
{
    if p + 1 < content.len() {
        assert(skip[p + 1]);
        no_word_after(content, skip, p + 1);
    }
}

/// Whether a quote is open is what the last quote command left: it is open
/// after an opening one, closed after a closing one, the other way round after
/// a toggle, and untouched by every other command. A stream starts closed.
pub proof fn quote_commands_set_the_state(words: Seq<WordView>, n: int)
    requires
        0 <= n < edits_from(cores_of(words), 0).len(),
    ensures
        !draft_at(words, 0).quote_open,
        ({
            let before = draft_at(words, n).quote_open;
            let after = draft_at(words, n + 1).quote_open;
            let command = edits_from(cores_of(words), 0)[n].command;
            &&& command is OpenQuote ==> after
            &&& command is CloseQuote ==> !after
            &&& command is ToggleQuote ==> after == !before
            &&& (command is AttachLeft || command is Glue || command is LineBreak) ==> after
                == before
        }),
{
}

/// Toggled quotes alternate: where `double quote` is the only quote command,
/// a quote is open exactly after an odd number of them.
pub proof fn toggled_quotes_alternate(words: Seq<WordView>, n: int)
    requires
        0 <= n <= edits_from(cores_of(words), 0).len(),
        forall|e: int|
            0 <= e < n ==> !((#[trigger] edits_from(cores_of(words), 0)[e]).command is OpenQuote)
                && !(edits_from(cores_of(words), 0)[e].command is CloseQuote),
    ensures
        draft_at(words, n).quote_open <==> toggles_upto(edits_from(cores_of(words), 0), n) % 2 == 1,
    decreases n,
{
    if n > 0 {
        toggled_quotes_alternate(words, n - 1);
        quote_commands_set_the_state(words, n - 1);
        assert(!(edits_from(cores_of(words), 0)[n - 1].command is OpenQuote));
    }
}

/// The odd toggles of a stream open: the quote goes in front of the next word
/// that stays, the content word at `k`, and nothing else changes its text.
pub proof fn odd_toggles_open_the_next_word(words: Seq<WordView>, n: int, k: int)
    requires
        words.len() <= usize::MAX,
        0 <= n < edits_from(cores_of(words), 0).len(),
        forall|e: int|
            0 <= e < n ==> !((#[trigger] edits_from(cores_of(words), 0)[e]).command is OpenQuote)
                && !(edits_from(cores_of(words), 0)[e].command is CloseQuote),
        edits_from(cores_of(words), 0)[n].command is ToggleQuote,
        toggles_upto(edits_from(cores_of(words), 0), n) % 2 == 0,
        ({
            let edit = edits_from(cores_of(words), 0)[n];
            edit.position + edit.consumed <= k < content_of(words).len()
        }),
        !skips_from(cores_of(words), 0)[k],
        forall|j: int|
            edits_from(cores_of(words), 0)[n].position <= j < k ==> #[trigger] skips_from(
                cores_of(words),
                0,
            )[j],
    ensures
        ({
            let a = content_of(words)[k] as int;
            let before = draft_at(words, n).texts;
            let after = draft_at(words, n + 1).texts;
            &&& after[a].len() > 0
            &&& after[a][0] == '"'
            &&& after[a].drop_first() == without_start(before[a], CharClass::QuoteMark)
            &&& forall|i: int| 0 <= i < words.len() && i != a ==> #[trigger] after[i] == before[i]
        }),
{
    toggled_quotes_alternate(words, n);
    quotes_open_before_the_next_word(words, n, k);
}

/// The even toggles of a stream close: the quote goes behind the last word
/// that stays before it, the content word at `k`, and nothing else changes its
/// text.
pub proof fn even_toggles_close_the_word_before(words: Seq<WordView>, n: int, k: int)
    requires
        words.len() <= usize::MAX,
        0 <= n < edits_from(cores_of(words), 0).len(),
        forall|e: int|
            0 <= e < n ==> !((#[trigger] edits_from(cores_of(words), 0)[e]).command is OpenQuote)
                && !(edits_from(cores_of(words), 0)[e].command is CloseQuote),
        edits_from(cores_of(words), 0)[n].command is ToggleQuote,
        toggles_upto(edits_from(cores_of(words), 0), n) % 2 == 1,
        0 <= k < edits_from(cores_of(words), 0)[n].position,
        !skips_from(cores_of(words), 0)[k],
        forall|j: int|
            k < j < edits_from(cores_of(words), 0)[n].position ==> #[trigger] skips_from(
                cores_of(words),
                0,
            )[j],
    ensures
        ({
            let a = content_of(words)[k] as int;
            let before = draft_at(words, n).texts;
            let after = draft_at(words, n + 1).texts;
            &&& after[a].len() > 0
            &&& after[a].last() == '"'
            &&& after[a].drop_last() == without_end(before[a], CharClass::QuoteMark)
            &&& forall|i: int| 0 <= i < words.len() && i != a ==> #[trigger] after[i] == before[i]
        }),
{
    toggled_quotes_alternate(words, n);
    marks_join_the_word_before(words, n, k);
}

/// An opening quote stands in front of the next word that stays, the content
/// word at `k`, and nothing else changes its text.
pub proof fn quotes_open_before_the_next_word(words: Seq<WordView>, n: int, k: int)
    requires
        words.len() <= usize::MAX,
        0 <= n < edits_from(cores_of(words), 0).len(),
        ({
            let edit = edits_from(cores_of(words), 0)[n];
            &&& edit.command is OpenQuote || (edit.command is ToggleQuote && !draft_at(
                words,
                n,
            ).quote_open)
            &&& edit.position + edit.consumed <= k < content_of(words).len()
        }),
        !skips_from(cores_of(words), 0)[k],
        forall|j: int|
            edits_from(cores_of(words), 0)[n].position <= j < k ==> #[trigger] skips_from(
                cores_of(words),
                0,
            )[j],
    ensures
        ({
            let a = content_of(words)[k] as int;
            let before = draft_at(words, n).texts;
            let after = draft_at(words, n + 1).texts;
            &&& after[a].len() > 0
            &&& after[a][0] == '"'
            &&& after[a].drop_first() == without_start(before[a], CharClass::QuoteMark)
            &&& forall|i: int| 0 <= i < words.len() && i != a ==> #[trigger] after[i] == before[i]
        }),
{
    let content = content_of(words);
    let skip = skips_from(cores_of(words), 0);
    let edit = edits_from(cores_of(words), 0)[n];
    stream_is_sound(words, n);
    nearest_word_after(content, skip, edit.position + edit.consumed - 1, k);
    let a = content[k] as int;
    let rest = without_start(draft_at(words, n).texts[a], CharClass::QuoteMark);
    assert(draft_at(words, n + 1).texts[a] == seq!['"'] + rest);
    assert((seq!['"'] + rest).drop_first() =~= rest);
}

/// A symbol, a line break or a closing quote stands behind the last word that
/// stays before the command, the content word at `k`, and nothing else changes
/// its text. A closing quote takes the place of quote marks that were there.
pub proof fn marks_join_the_word_before(words: Seq<WordView>, n: int, k: int)
    requires
        words.len() <= usize::MAX,
        0 <= n < edits_from(cores_of(words), 0).len(),
        0 <= k < edits_from(cores_of(words), 0)[n].position,
        !skips_from(cores_of(words), 0)[k],
        forall|j: int|
            k < j < edits_from(cores_of(words), 0)[n].position ==> #[trigger] skips_from(
                cores_of(words),
                0,
            )[j],
    ensures
        ({
            let a = content_of(words)[k] as int;
            let command = edits_from(cores_of(words), 0)[n].command;
            let closes = command is CloseQuote || (command is ToggleQuote && draft_at(
                words,
                n,
            ).quote_open);
            let opens = command is OpenQuote || (command is ToggleQuote && !draft_at(
                words,
                n,
            ).quote_open);
            let before = draft_at(words, n).texts;
            let after = draft_at(words, n + 1).texts;
            &&& command matches Command::AttachLeft(c) ==> after[a] == before[a].push(c)
            &&& command matches Command::Glue(c) ==> after[a] == before[a].push(c)
            &&& command matches Command::LineBreak { paragraph } ==> after[a] == if paragraph {
                before[a].push('\n').push('\n')
            } else {
                before[a].push('\n')
            }
            &&& closes ==> after[a].len() > 0 && after[a].last() == '"' && after[a].drop_last()
                == without_end(before[a], CharClass::QuoteMark)
            &&& !opens ==> forall|i: int|
                0 <= i < words.len() && i != a ==> #[trigger] after[i] == before[i]
        }),
{
    let content = content_of(words);
    let skip = skips_from(cores_of(words), 0);
    let edit = edits_from(cores_of(words), 0)[n];
    stream_is_sound(words, n);
    nearest_word_before(content, skip, edit.position as int, k);
    let a = content[k] as int;
    let text = draft_at(words, n).texts[a];
    let after = draft_at(words, n + 1).texts[a];
    match edit.command {
        Command::AttachLeft(c) => {
            assert(after == text + seq![c]);
            assert(text + seq![c] =~= text.push(c));
        },
        Command::Glue(c) => {
            assert(after == text + seq![c]);
            assert(text + seq![c] =~= text.push(c));
        },
        Command::LineBreak { paragraph } => {
            assert(text + seq!['\n'] =~= text.push('\n'));
            assert(text + seq!['\n', '\n'] =~= text.push('\n').push('\n'));
        },
        _ => {
            let rest = without_end(text, CharClass::QuoteMark);
            assert(rest.push('"').drop_last() =~= rest);
        },
    }
}

/// A command with no word before it marks the next word that stays, the
/// content word at `k`, in front; an opening quote with no word behind it
/// marks the word before. Without any word to mark nothing changes.
pub proof fn marks_fall_back_to_the_other_side(words: Seq<WordView>, n: int, k: int)
    requires
        words.len() <= usize::MAX,
        0 <= n < edits_from(cores_of(words), 0).len(),
        0 <= k < content_of(words).len(),
        !skips_from(cores_of(words), 0)[k],
    ensures
        ({
            let a = content_of(words)[k] as int;
            let skip = skips_from(cores_of(words), 0);
            let edit = edits_from(cores_of(words), 0)[n];
            let command = edit.command;
            let open = draft_at(words, n).quote_open;
            let closes = command is CloseQuote || (command is ToggleQuote && open);
            let opens = command is OpenQuote || (command is ToggleQuote && !open);
            let none_before = forall|j: int| 0 <= j < edit.position ==> #[trigger] skip[j];
            let none_after = forall|j: int|
                edit.position <= j < content_of(words).len() ==> #[trigger] skip[j];
            let next = edit.position <= k && forall|j: int|
                edit.position <= j < k ==> #[trigger] skip[j];
            let previous = k < edit.position && forall|j: int|
                k < j < edit.position ==> #[trigger] skip[j];
            let before = draft_at(words, n).texts;
            let after = draft_at(words, n + 1).texts;
            &&& none_before && next ==> {
                &&& command matches Command::AttachLeft(c) ==> after[a] == seq![c] + before[a]
                &&& command matches Command::Glue(c) ==> after[a] == seq![c] + before[a]
                &&& command matches Command::LineBreak { paragraph } ==> after[a] == if paragraph {
                    seq!['\n', '\n'] + before[a]
                } else {
                    seq!['\n'] + before[a]
                }
                &&& closes ==> after[a] == seq!['"'] + without_start(
                    before[a],
                    CharClass::QuoteMark,
                )
            }
            &&& none_after && previous && opens ==> after[a] == without_end(
                before[a],
                CharClass::QuoteMark,
            ).push('"')
        }),
{
    let content = content_of(words);
    let skip = skips_from(cores_of(words), 0);
    let edit = edits_from(cores_of(words), 0)[n];
    let end = edit.position + edit.consumed - 1;
    stream_is_sound(words, n);
    scan_is_complete(cores_of(words), 0);
    assert forall|j: int| edit.position <= j <= end implies #[trigger] skip[j] by {
        assert(skip[j - 0]);
    }
    if forall|j: int| 0 <= j < edit.position ==> #[trigger] skip[j] {
        no_word_before(content, skip, edit.position as int);
        if edit.position <= k && forall|j: int| edit.position <= j < k ==> #[trigger] skip[j] {
            nearest_word_after(content, skip, end, k);
        }
    }
    if forall|j: int| edit.position <= j < content.len() ==> #[trigger] skip[j] {
        no_word_after(content, skip, end);
        if k < edit.position && forall|j: int| k < j < edit.position ==> #[trigger] skip[j] {
            nearest_word_before(content, skip, edit.position as int, k);
        }
    }
}

/// A word keeps its text through a command that it does not stand next to:
/// one with another word that stays between the two.
pub proof fn distant_words_are_untouched(words: Seq<WordView>, n: int, k: int, between: int)
    requires
        words.len() <= usize::MAX,
        0 <= n < edits_from(cores_of(words), 0).len(),
        0 <= k < content_of(words).len(),
        0 <= between < content_of(words).len(),
        !skips_from(cores_of(words), 0)[between],
        ({
            let p = edits_from(cores_of(words), 0)[n].position;
            k < between < p || p <= between < k
        }),
    ensures
        ({
            let a = content_of(words)[k] as int;
            draft_at(words, n + 1).texts[a] == draft_at(words, n).texts[a]
        }),
{
    let content = content_of(words);
    let skip = skips_from(cores_of(words), 0);
    let edit = edits_from(cores_of(words), 0)[n];
    let end = edit.position + edit.consumed - 1;
    stream_is_sound(words, n);
    scan_is_complete(cores_of(words), 0);
    content_is_sorted(words, words.len() as int);
    assert forall|j: int| edit.position <= j <= end implies #[trigger] skip[j] by {
        assert(skip[j - 0]);
    }
    anchor_before_is_within(content, skip, edit.position as int, between);
    anchor_after_is_within(content, skip, end, between);
    anchors_are_content(content, skip, edit.position as int);
    anchors_are_content(content, skip, end);
}

proof fn anchor_before_is_within(content: Seq<usize>, skip: Seq<bool>, p: int, m: int)
    requires
        content.len() == skip.len(),
        0 <= p <= content.len(),
        0 <= m < p ==> !skip[m],
    ensures
        0 <= m < p ==> exists|k: int|
            m <= k < p && Some(#[trigger] content[k]) == anchor_before(content, skip, p),
    decreases p,
{
    if 0 <= m < p - 1 && skip[p - 1] {
        anchor_before_is_within(content, skip, p - 1, m);
        assert(anchor_before(content, skip, p) == anchor_before(content, skip, p - 1));
    } else if 0 <= m < p {
        assert(anchor_before(content, skip, p) == Some(content[p - 1]));
    }
}

proof fn anchor_after_is_within(content: Seq<usize>, skip: Seq<bool>, p: int, m: int)
    requires
        content.len() == skip.len(),
        0 <= p <= content.len(),
        p < m < content.len() ==> !skip[m],
    ensures
        p < m < content.len() ==> exists|k: int|
            p < k <= m && Some(#[trigger] content[k]) == anchor_after(content, skip, p),
    decreases content.len() - p,
{
    if p + 1 < m < content.len() && skip[p + 1] {
        anchor_after_is_within(content, skip, p + 1, m);
        assert(anchor_after(content, skip, p) == anchor_after(content, skip, p + 1));
    } else if p < m < content.len() {
        assert(anchor_after(content, skip, p) == Some(content[p + 1]));
    }
}

/// A command closes the gap on the sides its mark is glued to: the spacing
/// token `i` right before the phrase leaves for every symbol, line break and
/// closing quote behind a word, and the spacing right behind the phrase leaves
/// for a glued symbol, a line break and an opening quote in front of a word.
/// The spacing behind an attached symbol or a closing quote stays, as does the
/// spacing before an opening quote, and so does spacing anywhere else.
pub proof fn commands_close_their_gaps(words: Seq<WordView>, n: int, i: int)
    requires
        words.len() <= usize::MAX,
        0 <= n < edits_from(cores_of(words), 0).len(),
        0 <= i < words.len(),
    ensures
        ({
            let edit = edits_from(cores_of(words), 0)[n];
            let command = edit.command;
            let end = edit.position + edit.consumed - 1;
            let first = content_of(words)[edit.position as int] as int;
            let last = content_of(words)[end] as int;
            let skip = skips_from(cores_of(words), 0);
            let open = draft_at(words, n).quote_open;
            let closes = command is CloseQuote || (command is ToggleQuote && open);
            let opens = command is OpenQuote || (command is ToggleQuote && !open);
            let word_before = exists|j: int| 0 <= j < edit.position && !#[trigger] skip[j];
            let word_after = exists|j: int|
                edit.position <= j < content_of(words).len() && !#[trigger] skip[j];
            let adjoins_before = i < first && forall|j: int|
                i <= j < first ==> #[trigger] words[j].kind == "spacing"@;
            let adjoins_after = last < i && forall|j: int|
                last < j <= i ==> #[trigger] words[j].kind == "spacing"@;
            let symbol = command is AttachLeft || command is Glue || command is LineBreak;
            let takes_before = symbol || (closes && word_before) || (opens && !word_after
                && word_before);
            let takes_after = command is Glue || command is LineBreak || (opens && word_after);
            draft_at(words, n + 1).drop[i] == (draft_at(words, n).drop[i] || (adjoins_before
                && takes_before) || (adjoins_after && takes_after))
        }),
{
    let content = content_of(words);
    let skip = skips_from(cores_of(words), 0);
    let edit = edits_from(cores_of(words), 0)[n];
    let end = edit.position + edit.consumed - 1;
    stream_is_sound(words, n);
    scan_is_complete(cores_of(words), 0);
    assert forall|j: int| edit.position <= j <= end implies #[trigger] skip[j] by {
        assert(skip[j - 0]);
    }
    anchors_are_content(content, skip, edit.position as int);
    anchors_are_content(content, skip, end);
    if anchor_before(content, skip, edit.position as int) is None {
        if exists|j: int| 0 <= j < edit.position && !#[trigger] skip[j] {
            let j = choose|j: int| 0 <= j < edit.position && !#[trigger] skip[j];
            anchor_before_is_within(content, skip, edit.position as int, j);
        }
    }
    if anchor_after(content, skip, end) is None {
        if exists|j: int| edit.position <= j < content.len() && !#[trigger] skip[j] {
            let j = choose|j: int| edit.position <= j < content.len() && !#[trigger] skip[j];
            anchor_after_is_within(content, skip, end, j);
        }
    }
}

/// The commands that `edits_from` finds are the phrases that no escape keeps:
/// each one is spelled where it stands, they follow one another without
/// overlap, a word that leaves is an escape or part of one of them, and a
/// phrase that stays has an escape before it.
pub proof fn commands_are_found_where_spoken(cores: Seq<Seq<char>>, from: int, p: int)
    requires
        cores.len() <= usize::MAX,
        0 <= from <= p < cores.len(),
    ensures
        ({
            let edits = edits_from(cores, from);
            let skips = skips_from(cores, from);
            &&& skips.len() == cores.len() - from
            &&& forall|e: int|
                0 <= e < edits.len() ==> {
                    let edit = #[trigger] edits[e];
                    &&& from <= edit.position
                    &&& command_at(cores, edit.position as int) == Some(
                        (edit.command, edit.consumed as nat),
                    )
                    &&& !escape_at(cores, edit.position as int)
                }
            &&& forall|e: int, f: int|
                0 <= e < f < edits.len() ==> (#[trigger] edits[e]).position + edits[e].consumed
                    <= (#[trigger] edits[f]).position
            &&& skips[p - from] ==> escape_at(cores, p) || exists|e: int|
                0 <= e < edits.len() && (#[trigger] edits[e]).position <= p < edits[e].position
                    + edits[e].consumed
            &&& !skips[p - from] && command_at(cores, p) is Some ==> exists|q: int|
                from <= q < p && #[trigger] escape_at(cores, q) && p <= q + (command_at(
                    cores,
                    q + 1,
                )->0).1
        }),
    decreases cores.len() - from,
{
    command_fits(cores, from);
    command_fits(cores, from + 1);
    scan_is_complete(cores, from);
    let n = step_len(cores, from) as int;
    let edits = edits_from(cores, from);
    let skips = skips_from(cores, from);
    let rest = edits_from(cores, from + n);
    let head = if command_at(cores, from) is Some && !escape_at(cores, from) {
        1int
    } else {
        0int
    };
    if from + n < cores.len() {
        let next = if p < from + n {
            from + n
        } else {
            p
        };
        commands_are_found_where_spoken(cores, from + n, next);
    }
    assert forall|e: int| 0 <= e < edits.len() implies {
        let edit = #[trigger] edits[e];
        &&& from <= edit.position
        &&& command_at(cores, edit.position as int) == Some((edit.command, edit.consumed as nat))
        &&& !escape_at(cores, edit.position as int)
    } by {
        if e >= head {
            assert(edits[e] == rest[e - head]);
        }
    }
    assert forall|e: int, f: int| 0 <= e < f < edits.len() implies (#[trigger] edits[e]).position
        + edits[e].consumed <= (#[trigger] edits[f]).position by {
        assert(edits[f] == rest[f - head]);
        if e >= head {
            assert(edits[e] == rest[e - head]);
        }
    }
    if p < from + n {
        if skips[p - from] && !escape_at(cores, p) {
            if escape_at(cores, from) {
                assert(p == from);
            } else {
                assert(edits[0].position == from);
            }
        }
        if !skips[p - from] && command_at(cores, p) is Some {
            assert(escape_at(cores, from));
        }
    } else {
        assert(skips[p - from] == skips_from(cores, from + n)[p - from - n]);
        if skips[p - from] && !escape_at(cores, p) {
            let e = choose|e: int|
                0 <= e < rest.len() && (#[trigger] rest[e]).position <= p < rest[e].position
                    + rest[e].consumed;
            assert(edits[e + head] == rest[e]);
        }
    }
}

/// A stream that holds a command is rebuilt: its text is that of the words
/// that it is left with.
pub proof fn text_follows_the_words(transcript: TranscriptView, p: int)
    requires
        transcript.words.len() <= usize::MAX,
        command_at(cores_of(transcript.words), p) is Some,
    ensures
        punctuated(transcript).words == converted(transcript.words),
        punctuated(transcript).text == rebuilt(punctuated(transcript).words),
{
    let cores = cores_of(transcript.words);
    content_is_sorted(transcript.words, transcript.words.len() as int);
    commands_are_found_where_spoken(cores, 0, p);
    if !skips_from(cores, 0)[p] {
        let q = choose|q: int|
            0 <= q < p && #[trigger] escape_at(cores, q) && p <= q + (command_at(
                cores,
                q + 1,
            )->0).1;
        escaped_words_stay(cores, 0, q);
        assert(skips_from(cores, 0)[q - 0]);
    }
}

/// The text of a stream is that of its tokens in order: a word ends it as it
/// is, with at most one space before it, spacing is added as it is, and other
/// tokens add nothing. The whole is trimmed.
pub proof fn text_holds_every_word(words: Seq<WordView>, n: int)
    requires
        0 < n <= words.len(),
    ensures
        ({
            let word = words[n - 1];
            let before = text_upto(words, n - 1);
            let after = text_upto(words, n);
            &&& word.kind == "word"@ ==> after == before + word.text || after == before.push(' ')
                + word.text
            &&& word.kind == "word"@ && before.len() == 0 ==> after == word.text
            &&& word.kind == "spacing"@ ==> after == before + word.text
            &&& word.kind != "word"@ && word.kind != "spacing"@ ==> after == before
        }),
        text_upto(words, 0).len() == 0,
        rebuilt(words) == trimmed(text_upto(words, words.len() as int)),
{
    kinds_differ();
    let before = text_upto(words, n - 1);
    if before.len() == 0 {
        assert(before + words[n - 1].text =~= words[n - 1].text);
    }
}

/// The core of a word is the word without the marks at its ends: one piece of
/// it, which neither starts nor ends with a mark, and all that leaves is marks.
pub proof fn cores_lose_only_marks(text: Seq<char>) -> (start: int)
    ensures
        0 <= start,
        start + core_of(text).len() <= text.len(),
        core_of(text) == text.subrange(start, start + core_of(text).len()),
        forall|i: int|
            0 <= i < text.len() && !(start <= i < start + core_of(text).len()) ==> {
                let c = #[trigger] text[i];
                !('a' <= c <= 'z' || 'A' <= c <= 'Z' || '0' <= c <= '9')
            },
        core_of(text).len() > 0 ==> {
            let first = core_of(text)[0];
            let last = core_of(text).last();
            &&& first != '.' && first != ',' && first != '?' && first != '!' && first != '"'
            &&& last != '.' && last != ',' && last != '?' && last != '!' && last != '"'
            &&& last != ';' && last != ':' && last != '\'' && last != ')' && last != ']'
        },
{
    let marks = CharClass::EdgeMark;
    let a = without_start(text, marks);
    let b = without_end(a, marks);
    without_start_is_suffix(text, marks);
    without_end_is_prefix(a, marks);
    let start = text.len() - a.len();
    assert(core_of(text) =~= text.subrange(start, start + b.len()));
    assert forall|i: int|
        0 <= i < text.len() && !(start <= i < start + core_of(text).len()) implies {
        let c = #[trigger] text[i];
        !('a' <= c <= 'z' || 'A' <= c <= 'Z' || '0' <= c <= '9')
    } by {
        if i < start {
            assert(marks.holds(text[i]));
        } else {
            assert(text[i] == a[i - start]);
            assert(marks.holds(a[i - start]));
        }
    }
    if b.len() > 0 {
        assert(b[0] == a[0]);
        assert(!marks.holds(a[0]));
    }
    start
}

proof fn names_differ()
    ensures
        "period"@ != "full"@ && "period"@ != "comma"@ && "period"@ != "question"@,
        "period"@ != "exclamation"@ && "period"@ != "colon"@ && "period"@ != "colons"@,
        "period"@ != "semicolon"@ && "period"@ != "semicolons"@ && "period"@ != "semi"@,
        "period"@ != "new"@ && "period"@ != "next"@ && "period"@ != "double"@,
        "comma"@ != "full"@ && "comma"@ != "question"@ && "comma"@ != "exclamation"@,
        "comma"@ != "colon"@ && "comma"@ != "colons"@ && "comma"@ != "semicolon"@,
        "comma"@ != "semicolons"@ && "comma"@ != "semi"@ && "comma"@ != "new"@,
        "comma"@ != "next"@ && "comma"@ != "double"@,
        "full"@ != "question"@ && "full"@ != "semi"@ && "full"@ != "next"@ && "full"@ != "new"@,
        "colon"@ != "full"@ && "colon"@ != "question"@ && "colon"@ != "exclamation"@,
        "colons"@ != "full"@ && "colons"@ != "question"@ && "colons"@ != "exclamation"@,
        "semicolon"@ != "full"@ && "semicolon"@ != "question"@ && "semicolon"@ != "exclamation"@,
        "semicolons"@ != "full"@ && "semicolons"@ != "question"@,
        "semicolons"@ != "exclamation"@,
        "semicolon"@ != "colon"@ && "semicolon"@ != "colons"@,
        "semicolons"@ != "colon"@ && "semicolons"@ != "colons"@,
{
    reveal_strlit("period");
    reveal_strlit("full");
    reveal_strlit("comma");
    reveal_strlit("question");
    reveal_strlit("exclamation");
    reveal_strlit("colon");
    reveal_strlit("colons");
    reveal_strlit("semicolon");
    reveal_strlit("semicolons");
    reveal_strlit("semi");
    reveal_strlit("new");
    reveal_strlit("next");
    reveal_strlit("double");
    assert("period"@.len() == 6 && "full"@.len() == 4 && "comma"@.len() == 5);
    assert("question"@.len() == 8 && "exclamation"@.len() == 11 && "colon"@.len() == 5);
    assert("colons"@.len() == 6 && "semicolon"@.len() == 9 && "semicolons"@.len() == 10);
    assert("semi"@.len() == 4 && "new"@.len() == 3 && "next"@.len() == 4);
    assert("double"@.len() == 6);
    assert("period"@[0] == 'p' && "colons"@[0] == 'c' && "double"@[0] == 'd');
    assert("comma"@[2] == 'm' && "colon"@[2] == 'l');
    assert("full"@[0] == 'f' && "semi"@[0] == 's' && "next"@[0] == 'n');
}

/// The spoken names of the symbols: each symbol has its names and no others,
/// in the singular or the plural, and a phrase takes as many words as it has.
pub proof fn symbols_have_their_names(first: Seq<char>, second: Option<Seq<char>>)
    ensures
        ({
            let spoken = command_of(first, second);
            let then_says = |a: Seq<char>, b: Seq<char>| second == Some(a) || second == Some(b);
            let attached = |c: char, n: nat| spoken == Some((Command::AttachLeft(c), n));
            &&& first == "period"@ ==> attached('.', 1)
            &&& first == "full"@ && then_says("stop"@, "stops"@) ==> attached('.', 2)
            &&& first == "comma"@ ==> attached(',', 1)
            &&& first == "colon"@ || first == "colons"@ ==> attached(':', 1)
            &&& first == "semicolon"@ || first == "semicolons"@ ==> attached(';', 1)
            &&& spoken matches Some((Command::AttachLeft(c), n)) ==> {
                ||| c == '.' && n == 1 && first == "period"@
                ||| c == '.' && n == 2 && first == "full"@ && then_says("stop"@, "stops"@)
                ||| c == ',' && n == 1 && first == "comma"@
                ||| c == '?' && n == 2 && first == "question"@ && then_says("mark"@, "marks"@)
                ||| c == '!' && n == 2 && first == "exclamation"@ && (then_says("mark"@, "marks"@)
                    || then_says("point"@, "points"@))
                ||| c == ':' && n == 1 && (first == "colon"@ || first == "colons"@)
                ||| c == ';' && n == 1 && (first == "semicolon"@ || first == "semicolons"@)
                ||| c == ';' && n == 2 && first == "semi"@ && then_says("colon"@, "colons"@)
            }
            &&& spoken matches Some((Command::Glue(c), n)) ==> {
                &&& c == '\''
                &&& (n == 2 && first == "single"@ && then_says("quote"@, "quotes"@)) || (n == 1
                    && (first == "apostrophe"@ || first == "apostrophes"@))
            }
            &&& spoken matches Some((Command::LineBreak { paragraph }, n)) ==> {
                &&& n == 2 && (first == "new"@ || first == "next"@)
                &&& paragraph ==> then_says("paragraph"@, "paragraphs"@)
                &&& !paragraph ==> then_says("line"@, "lines"@)
            }
            &&& spoken matches Some((Command::ToggleQuote, n)) ==> n == 2 && first == "double"@
                && then_says("quote"@, "quotes"@)
            &&& spoken matches Some((Command::OpenQuote, n)) ==> n == 2 && (first == "open"@
                || first == "begin"@) && then_says("quote"@, "quotes"@)
            &&& spoken matches Some((Command::CloseQuote, n)) ==> n == 2 && (first == "close"@
                || first == "closed"@ || first == "end"@) && (then_says("quote"@, "quotes"@)
                || then_says("quotation"@, "quotations"@))
        }),
{
    names_differ();
}

/// Singular and plural name the same, and so do the synonyms: `new` and
/// `next`, `open` and `begin`, `close`, `closed` and `end`, `mark` and `point`.
pub proof fn synonyms_mean_the_same()
    ensures
        command_of("question"@, Some("mark"@)) is Some,
        command_of("exclamation"@, Some("mark"@)) is Some,
        command_of("semi"@, Some("colon"@)) is Some,
        command_of("new"@, Some("line"@)) is Some,
        command_of("new"@, Some("paragraph"@)) is Some,
        command_of("double"@, Some("quote"@)) is Some,
        command_of("open"@, Some("quote"@)) is Some,
        command_of("close"@, Some("quote"@)) is Some,
        command_of("single"@, Some("quote"@)) is Some,
        command_of("question"@, Some("mark"@)) == command_of("question"@, Some("marks"@)),
        command_of("exclamation"@, Some("mark"@)) == command_of("exclamation"@, Some("points"@)),
        command_of("exclamation"@, Some("mark"@)) == command_of("exclamation"@, Some("point"@)),
        command_of("semi"@, Some("colon"@)) == command_of("semi"@, Some("colons"@)),
        command_of("new"@, Some("line"@)) == command_of("next"@, Some("line"@)),
        command_of("new"@, Some("line"@)) == command_of("next"@, Some("lines"@)),
        command_of("new"@, Some("paragraph"@)) == command_of("next"@, Some("paragraphs"@)),
        command_of("new"@, Some("paragraph"@)) != command_of("new"@, Some("line"@)),
        command_of("double"@, Some("quote"@)) == command_of("double"@, Some("quotes"@)),
        command_of("open"@, Some("quote"@)) == command_of("begin"@, Some("quotes"@)),
        command_of("close"@, Some("quote"@)) == command_of("closed"@, Some("quotes"@)),
        command_of("close"@, Some("quote"@)) == command_of("end"@, Some("quotation"@)),
        command_of("single"@, Some("quote"@)) == command_of("single"@, Some("quotes"@)),
        command_of("apostrophe"@, None) == command_of("apostrophes"@, None),
        command_of("apostrophe"@, None) is Some,
{
    reveal_strlit("period");
    reveal_strlit("full");
    reveal_strlit("comma");
    reveal_strlit("question");
    reveal_strlit("exclamation");
    reveal_strlit("colon");
    reveal_strlit("colons");
    reveal_strlit("semicolon");
    reveal_strlit("semicolons");
    reveal_strlit("semi");
    reveal_strlit("new");
    reveal_strlit("next");
    reveal_strlit("double");
    reveal_strlit("open");
    reveal_strlit("begin");
    reveal_strlit("close");
    reveal_strlit("closed");
    reveal_strlit("end");
    reveal_strlit("single");
    reveal_strlit("apostrophe");
    reveal_strlit("apostrophes");
    reveal_strlit("stop");
    reveal_strlit("stops");
    reveal_strlit("line");
    reveal_strlit("lines");
    reveal_strlit("paragraph");
    reveal_strlit("paragraphs");
    reveal_strlit("quote");
    reveal_strlit("quotes");
    reveal_strlit("quotation");
    reveal_strlit("quotations");
    assert("period"@[0] == 'p' && "colons"@[0] == 'c' && "double"@[0] == 'd');
    assert("closed"@[0] == 'c' && "colons"@[1] == 'o' && "closed"@[1] == 'l');
    assert("single"@[0] == 's');
    assert("comma"@[2] == 'm' && "colon"@[2] == 'l' && "close"@[2] == 'o' && "begin"@[2] == 'g');
    assert("full"@[0] == 'f' && "semi"@[0] == 's' && "next"@[0] == 'n' && "open"@[0] == 'o');
    assert("new"@[0] == 'n' && "end"@[0] == 'e');
    assert("end"@.len() == 3 && "close"@.len() == 5 && "quotation"@.len() == 9);
    assert("semicolons"@[0] == 's' && "apostrophe"@[0] == 'a');
    assert("exclamation"@[0] == 'e' && "apostrophes"@[0] == 'a');
    assert("stop"@[0] == 's' && "line"@[0] == 'l' && "stops"@[0] == 's' && "lines"@[0] == 'l');
    assert("quotation"@[0] == 'q' && "paragraph"@[0] == 'p');
    assert("quotations"@[0] == 'q' && "paragraphs"@[0] == 'p');
}

} // verus!

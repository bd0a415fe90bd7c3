//! Character classes and the string operations the other modules share.

use vstd::prelude::*;

verus! {

/// `String::push` appends one character and leaves the rest as it was.
pub assume_specification[ String::push ](s: &mut String, c: char)
    ensures
        final(s)@ == old(s)@.push(c),
;

/// The Unicode `White_Space` property.
pub open spec fn white_space(c: char) -> bool {
    let u = c as u32;
    ||| 0x9 <= u <= 0xd
    ||| u == 0x20
    ||| u == 0x85
    ||| u == 0xa0
    ||| u == 0x1680
    ||| 0x2000 <= u <= 0x200a
    ||| u == 0x2028
    ||| u == 0x2029
    ||| u == 0x202f
    ||| u == 0x205f
    ||| u == 0x3000
}

/// The Unicode general category `Cc`.
pub open spec fn control(c: char) -> bool {
    let u = c as u32;
    u <= 0x1f || 0x7f <= u <= 0x9f
}

pub fn is_white_space(c: char) -> (r: bool)
    ensures
        r == white_space(c),
{
    let u: u32 = c as u32;
    (0x9 <= u && u <= 0xd) || u == 0x20 || u == 0x85 || u == 0xa0 || u == 0x1680 || (0x2000 <= u
        && u <= 0x200a) || u == 0x2028 || u == 0x2029 || u == 0x202f || u == 0x205f || u == 0x3000
}

pub fn is_control(c: char) -> (r: bool)
    ensures
        r == control(c),
{
    let u: u32 = c as u32;
    u <= 0x1f || (0x7f <= u && u <= 0x9f)
}

/// `A`..`Z` to `a`..`z`, everything else unchanged.
pub open spec fn ascii_lower(c: char) -> char {
    if 'A' <= c <= 'Z' {
        ((c as u8) + 32) as char
    } else {
        c
    }
}

/// `ascii_lower` of every character.
pub open spec fn ascii_lowered(s: Seq<char>) -> Seq<char> {
    s.map_values(|c: char| ascii_lower(c))
}

/// The lowercase mapping as far as it can yield an ASCII letter. Besides
/// `A`..`Z` that is U+212A KELVIN SIGN, which maps to `k`; every other
/// character maps to text that holds a non-ASCII character or to itself.
pub open spec fn word_lower(c: char) -> char {
    if c as u32 == 0x212a {
        'k'
    } else {
        ascii_lower(c)
    }
}

/// `word_lower` of every character.
pub open spec fn word_lowered(s: Seq<char>) -> Seq<char> {
    s.map_values(|c: char| word_lower(c))
}

pub fn to_ascii_lower(c: char) -> (r: char)
    ensures
        r == ascii_lower(c),
{
    if 'A' <= c && c <= 'Z' {
        ((c as u8) + 32) as char
    } else {
        c
    }
}

pub fn to_word_lower(c: char) -> (r: char)
    ensures
        r == word_lower(c),
{
    if c as u32 == 0x212a {
        'k'
    } else {
        to_ascii_lower(c)
    }
}

/// The characters of a string in order.
pub fn chars_of(s: &str) -> (r: Vec<char>)
    ensures
        r@ == s@,
{
    let mut out: Vec<char> = Vec::new();
    for c in it: s.chars()
        invariant
            out@ == it.seq().take(it.index()),
            it.seq() == s@,
    {
        out.push(c);
        assert(out@ =~= it.seq().take(it.index() + 1));
    }
    out
}

/// The string of the given characters.
pub fn string_of(chars: &[char]) -> (r: String)
    ensures
        r@ == chars@,
{
    let mut out: String = String::new();
    let mut i: usize = 0;
    while i < chars.len()
        invariant
            i <= chars@.len(),
            out@ == chars@.take(i as int),
        decreases chars@.len() - i,
    {
        out.push(chars[i]);
        i += 1;
        assert(out@ =~= chars@.take(i as int));
    }
    assert(chars@.take(i as int) =~= chars@);
    out
}

/// Sets of characters that are stripped from the ends of a text.
#[derive(Clone, Copy)]
pub enum CharClass {
    /// The Unicode `White_Space` property.
    WhiteSpace,
    /// Punctuation that may be glued onto a spoken command word.
    EdgeMark,
    /// Straight and curly double quotes.
    QuoteMark,
    Slash,
}

impl CharClass {
    pub open spec fn holds(self, c: char) -> bool {
        match self {
            CharClass::WhiteSpace => white_space(c),
            CharClass::EdgeMark => {
                ||| c == '.'
                ||| c == ','
                ||| c == '?'
                ||| c == '!'
                ||| c == ';'
                ||| c == ':'
                ||| c == '"'
                ||| c == '\''
                ||| c == '('
                ||| c == ')'
                ||| c == '['
                ||| c == ']'
                ||| c == '\u{201c}'
                ||| c == '\u{201d}'
                ||| c == '\u{2018}'
                ||| c == '\u{2019}'
            },
            CharClass::QuoteMark => c == '"' || c == '\u{201c}' || c == '\u{201d}',
            CharClass::Slash => c == '/',
        }
    }

    pub fn contains(self, c: char) -> (r: bool)
        ensures
            r == self.holds(c),
    {
        match self {
            CharClass::WhiteSpace => is_white_space(c),
            CharClass::EdgeMark => c == '.' || c == ',' || c == '?' || c == '!' || c == ';' || c
                == ':' || c == '"' || c == '\'' || c == '(' || c == ')' || c == '[' || c == ']' || c
                == '\u{201c}' || c == '\u{201d}' || c == '\u{2018}' || c == '\u{2019}',
            CharClass::QuoteMark => c == '"' || c == '\u{201c}' || c == '\u{201d}',
            CharClass::Slash => c == '/',
        }
    }
}

/// `s` without its leading characters of `class`.
pub open spec fn without_start(s: Seq<char>, class: CharClass) -> Seq<char>
    decreases s.len(),
{
    if s.len() > 0 && class.holds(s[0]) {
        without_start(s.drop_first(), class)
    } else {
        s
    }
}

/// `s` without its trailing characters of `class`.
pub open spec fn without_end(s: Seq<char>, class: CharClass) -> Seq<char>
    decreases s.len(),
{
    if s.len() > 0 && class.holds(s.last()) {
        without_end(s.drop_last(), class)
    } else {
        s
    }
}

/// `s` without the characters of `class` at either end.
pub open spec fn without_ends(s: Seq<char>, class: CharClass) -> Seq<char> {
    without_end(without_start(s, class), class)
}

/// `s` without surrounding white space.
pub open spec fn trimmed(s: Seq<char>) -> Seq<char> {
    without_ends(s, CharClass::WhiteSpace)
}

/// The text that `without_start` leaves is a suffix whose first character, if
/// there is one, is outside the class.
pub proof fn without_start_is_suffix(s: Seq<char>, class: CharClass)
    ensures
        without_start(s, class).len() <= s.len(),
        without_start(s, class) == s.skip(s.len() - without_start(s, class).len()),
        without_start(s, class).len() > 0 ==> !class.holds(without_start(s, class)[0]),
        forall|i: int|
            0 <= i < s.len() - without_start(s, class).len() ==> class.holds(#[trigger] s[i]),
    decreases s.len(),
{
    if s.len() > 0 && class.holds(s[0]) {
        let t = s.drop_first();
        without_start_is_suffix(t, class);
        let r = without_start(s, class);
        assert(r =~= s.skip(s.len() - r.len()));
        assert forall|i: int| 0 <= i < s.len() - r.len() implies class.holds(#[trigger] s[i]) by {
            if i > 0 {
                assert(t[i - 1] == s[i]);
            }
        }
    } else {
        assert(s =~= s.skip(0));
    }
}

/// The text that `without_end` leaves is a prefix whose last character, if
/// there is one, is outside the class.
pub proof fn without_end_is_prefix(s: Seq<char>, class: CharClass)
    ensures
        without_end(s, class).len() <= s.len(),
        without_end(s, class) == s.take(without_end(s, class).len() as int),
        without_end(s, class).len() > 0 ==> !class.holds(without_end(s, class).last()),
        forall|i: int| without_end(s, class).len() <= i < s.len() ==> class.holds(#[trigger] s[i]),
    decreases s.len(),
{
    if s.len() > 0 && class.holds(s.last()) {
        let t = s.drop_last();
        without_end_is_prefix(t, class);
        let r = without_end(s, class);
        assert(r =~= s.take(r.len() as int));
        assert forall|i: int| r.len() <= i < s.len() implies class.holds(#[trigger] s[i]) by {
            if i < s.len() - 1 {
                assert(t[i] == s[i]);
            }
        }
    } else {
        assert(s =~= s.take(s.len() as int));
    }
}

/// Trimming twice trims once.
pub proof fn trimming_is_idempotent(s: Seq<char>)
    ensures
        trimmed(trimmed(s)) == trimmed(s),
{
    let w = CharClass::WhiteSpace;
    let a = without_start(s, w);
    let b = without_end(a, w);
    without_start_is_suffix(s, w);
    without_end_is_prefix(a, w);
    if b.len() > 0 {
        assert(b[0] == a[0]);
    }
}

/// The number of leading characters that belong to `class`.
pub fn start_len(chars: &[char], class: CharClass) -> (n: usize)
    ensures
        n <= chars@.len(),
        chars@.skip(n as int) == without_start(chars@, class),
{
    let mut i: usize = 0;
    assert(chars@.skip(0) =~= chars@);
    while i < chars.len() && class.contains(chars[i])
        invariant
            i <= chars@.len(),
            without_start(chars@, class) == without_start(chars@.skip(i as int), class),
        decreases chars@.len() - i,
    {
        assert(chars@.skip(i as int).drop_first() =~= chars@.skip(i + 1));
        i += 1;
    }
    i
}

/// How many characters remain once the trailing ones of `class` are gone.
pub fn end_len(chars: &[char], class: CharClass) -> (n: usize)
    ensures
        n <= chars@.len(),
        chars@.take(n as int) == without_end(chars@, class),
{
    let mut i: usize = chars.len();
    assert(chars@.take(i as int) =~= chars@);
    while i > 0 && class.contains(chars[i - 1])
        invariant
            i <= chars@.len(),
            without_end(chars@, class) == without_end(chars@.take(i as int), class),
        decreases i,
    {
        assert(chars@.take(i as int).drop_last() =~= chars@.take(i - 1));
        i -= 1;
    }
    i
}

/// The part of `chars` between `from` and `to`.
pub fn part(chars: &[char], from: usize, to: usize) -> (r: Vec<char>)
    requires
        from <= to <= chars@.len(),
    ensures
        r@ == chars@.subrange(from as int, to as int),
{
    let mut out: Vec<char> = Vec::new();
    let mut i: usize = from;
    while i < to
        invariant
            from <= i <= to <= chars@.len(),
            out@ == chars@.subrange(from as int, i as int),
        decreases to - i,
    {
        out.push(chars[i]);
        i += 1;
        assert(out@ =~= chars@.subrange(from as int, i as int));
    }
    out
}

/// Strip the characters of `class` from both ends.
pub fn strip_ends(chars: &[char], class: CharClass) -> (r: Vec<char>)
    ensures
        r@ == without_ends(chars@, class),
{
    let from: usize = start_len(chars, class);
    let tail: Vec<char> = part(chars, from, chars.len());
    assert(tail@ =~= chars@.skip(from as int));
    let to: usize = end_len(&tail, class);
    let out: Vec<char> = part(&tail, 0, to);
    assert(out@ =~= tail@.take(to as int));
    out
}

/// The text without surrounding white space.
pub fn trim(s: &str) -> (r: String)
    ensures
        r@ == trimmed(s@),
{
    string_of(&strip_ends(&chars_of(s), CharClass::WhiteSpace))
}

/// True when the text is empty or holds white space only.
pub fn is_blank(s: &str) -> (r: bool)
    ensures
        r == (trimmed(s@).len() == 0),
{
    strip_ends(&chars_of(s), CharClass::WhiteSpace).len() == 0
}

pub fn same_chars(a: &[char], b: &[char]) -> (r: bool)
    ensures
        r == (a@ == b@),
{
    if a.len() != b.len() {
        return false;
    }
    let mut i: usize = 0;
    while i < a.len()
        invariant
            i <= a@.len(),
            a@.len() == b@.len(),
            forall|j: int| 0 <= j < i ==> a@[j] == b@[j],
        decreases a@.len() - i,
    {
        if a[i] != b[i] {
            return false;
        }
        i += 1;
    }
    assert(a@ =~= b@);
    true
}

pub fn same_text(a: &str, b: &str) -> (r: bool)
    ensures
        r == (a@ == b@),
{
    same_chars(&chars_of(a), &chars_of(b))
}

/// Whether the characters spell `word`.
pub fn spells(chars: &[char], word: &str) -> (r: bool)
    ensures
        r == (chars@ == word@),
{
    same_chars(chars, &chars_of(word))
}

pub fn lower_ascii(chars: &[char]) -> (r: Vec<char>)
    ensures
        r@ == ascii_lowered(chars@),
{
    let mut out: Vec<char> = Vec::new();
    let mut i: usize = 0;
    while i < chars.len()
        invariant
            i <= chars@.len(),
            out@ == ascii_lowered(chars@.take(i as int)),
        decreases chars@.len() - i,
    {
        out.push(to_ascii_lower(chars[i]));
        i += 1;
        assert(out@ =~= ascii_lowered(chars@.take(i as int)));
    }
    assert(chars@.take(i as int) =~= chars@);
    out
}

pub fn lower_word(chars: &[char]) -> (r: Vec<char>)
    ensures
        r@ == word_lowered(chars@),
{
    let mut out: Vec<char> = Vec::new();
    let mut i: usize = 0;
    while i < chars.len()
        invariant
            i <= chars@.len(),
            out@ == word_lowered(chars@.take(i as int)),
        decreases chars@.len() - i,
    {
        out.push(to_word_lower(chars[i]));
        i += 1;
        assert(out@ =~= word_lowered(chars@.take(i as int)));
    }
    assert(chars@.take(i as int) =~= chars@);
    out
}

/// Whether `word` stands somewhere in `s`.
pub open spec fn holds_word(s: Seq<char>, word: Seq<char>) -> bool {
    exists|i: int|
        0 <= i <= s.len() - word.len() && #[trigger] s.subrange(i, i + word.len()) == word
}

/// Search for `word`.
pub fn contains_word(chars: &[char], word: &str) -> (r: bool)
    ensures
        r == holds_word(chars@, word@),
{
    let needle: Vec<char> = chars_of(word);
    let length: usize = needle.len();
    if length > chars.len() {
        return false;
    }
    let last: usize = chars.len() - length;
    let mut i: usize = 0;
    loop
        invariant
            i <= last,
            last + length == chars@.len(),
            last + length <= usize::MAX,
            length == needle@.len(),
            needle@ == word@,
            forall|j: int| 0 <= j < i ==> #[trigger] chars@.subrange(j, j + length) != word@,
        decreases last - i,
    {
        let window: Vec<char> = part(chars, i, i + length);
        if same_chars(&window, &needle) {
            assert(chars@.subrange(i as int, i + word@.len()) == word@);
            return true;
        }
        if i == last {
            return false;
        }
        i += 1;
    }
}

/// Append the characters of `piece`.
pub fn extend(out: &mut Vec<char>, piece: &[char])
    ensures
        final(out)@ == old(out)@ + piece@,
{
    let mut i: usize = 0;
    while i < piece.len()
        invariant
            i <= piece@.len(),
            out@ == old(out)@ + piece@.take(i as int),
        decreases piece@.len() - i,
    {
        out.push(piece[i]);
        i += 1;
        assert(out@ =~= old(out)@ + piece@.take(i as int));
    }
    assert(piece@.take(i as int) =~= piece@);
}

/// Whether a space belongs between two characters that become neighbors when
/// pieces of text are joined: none around white space, none before a closing
/// mark, none after an opening mark.
pub open spec fn boundary_space(left: char, right: char) -> bool {
    &&& !white_space(left)
    &&& !white_space(right)
    &&& !closing_mark(right)
    &&& !opening_mark(left)
}

pub open spec fn closing_mark(c: char) -> bool {
    ||| c == '.'
    ||| c == ','
    ||| c == '!'
    ||| c == '?'
    ||| c == ';'
    ||| c == ':'
    ||| c == '%'
    ||| c == ')'
    ||| c == ']'
    ||| c == '}'
    ||| c == '\''
    ||| c == '\u{2019}'
}

pub open spec fn opening_mark(c: char) -> bool {
    ||| c == '('
    ||| c == '['
    ||| c == '{'
    ||| c == '/'
    ||| c == '\''
    ||| c == '\u{2018}'
    ||| c == '\u{201c}'
}

pub fn needs_boundary_space(left: char, right: char) -> (r: bool)
    ensures
        r == boundary_space(left, right),
{
    if is_white_space(left) || is_white_space(right) {
        return false;
    }
    if matches!(
        right,
        '.' | ',' | '!' | '?' | ';' | ':' | '%' | ')' | ']' | '}' | '\'' | '\u{2019}'
    ) {
        return false;
    }
    !matches!(left, '(' | '[' | '{' | '/' | '\'' | '\u{2018}' | '\u{201c}')
}

/// `output` followed by `piece`, with one space between them where
/// `boundary_space` asks for it.
pub open spec fn joined(output: Seq<char>, piece: Seq<char>) -> Seq<char> {
    if output.len() > 0 && piece.len() > 0 && boundary_space(output.last(), piece[0]) {
        output.push(' ') + piece
    } else {
        output + piece
    }
}

pub fn append_piece(output: &mut Vec<char>, piece: &[char])
    ensures
        final(output)@ == joined(old(output)@, piece@),
{
    if piece.len() == 0 {
        assert(output@ + piece@ =~= output@);
        return;
    }
    if output.len() > 0 && needs_boundary_space(output[output.len() - 1], piece[0]) {
        output.push(' ');
    }
    extend(output, piece);
}

/// Length of the run of characters outside white space that `s` starts with.
pub open spec fn word_run(s: Seq<char>) -> nat
    decreases s.len(),
{
    if s.len() == 0 || white_space(s[0]) {
        0
    } else {
        1 + word_run(s.drop_first())
    }
}

pub proof fn word_run_fits(s: Seq<char>)
    ensures
        word_run(s) <= s.len(),
        s.len() > 0 && !white_space(s[0]) ==> word_run(s) > 0,
    decreases s.len(),
{
    if s.len() > 0 && !white_space(s[0]) {
        word_run_fits(s.drop_first());
    }
}

/// The words of `s`: its maximal runs outside white space, in order.
pub open spec fn words_of(s: Seq<char>) -> Seq<Seq<char>>
    decreases s.len(),
{
    let t = without_start(s, CharClass::WhiteSpace);
    if t.len() == 0 {
        Seq::empty()
    } else {
        proof {
            without_start_is_suffix(s, CharClass::WhiteSpace);
            word_run_fits(t);
        }
        seq![t.take(word_run(t) as int)] + words_of(t.skip(word_run(t) as int))
    }
}

pub open spec fn text_views(texts: Seq<Vec<char>>) -> Seq<Seq<char>> {
    texts.map_values(|t: Vec<char>| t@)
}

/// Split at white space.
pub fn split_words(s: &str) -> (r: Vec<Vec<char>>)
    ensures
        text_views(r@) == words_of(s@),
{
    let chars: Vec<char> = chars_of(s);
    let mut out: Vec<Vec<char>> = Vec::new();
    let mut i: usize = 0;
    assert(chars@.skip(0) =~= chars@);
    assert(text_views(out@) + words_of(chars@) =~= words_of(chars@));
    while i < chars.len()
        invariant
            i <= chars@.len(),
            text_views(out@) + words_of(chars@.skip(i as int)) == words_of(chars@),
        decreases chars@.len() - i,
    {
        let ghost rest = chars@.skip(i as int);
        let tail: Vec<char> = part(&chars, i, chars.len());
        assert(tail@ =~= rest);
        let gap: usize = start_len(&tail, CharClass::WhiteSpace);
        let from: usize = i + gap;
        let ghost t = rest.skip(gap as int);
        assert(t =~= chars@.skip(from as int));
        let mut to: usize = from;
        while to < chars.len() && !is_white_space(chars[to])
            invariant
                from <= to <= chars@.len(),
                t == chars@.skip(from as int),
                word_run(t) == to - from + word_run(chars@.skip(to as int)),
            decreases chars@.len() - to,
        {
            assert(chars@.skip(to as int).drop_first() =~= chars@.skip(to + 1));
            to += 1;
        }
        proof {
            without_start_is_suffix(rest, CharClass::WhiteSpace);
            word_run_fits(t);
        }
        if to > from {
            let word: Vec<char> = part(&chars, from, to);
            let ghost before = out@;
            out.push(word);
            assert(text_views(out@) =~= text_views(before).push(word@));
            assert(word@ =~= t.take(to - from));
            assert(t.skip(to - from) =~= chars@.skip(to as int));
            assert(text_views(out@) + words_of(chars@.skip(to as int)) =~= text_views(before) + (
            seq![word@] + words_of(chars@.skip(to as int))));
        } else {
            assert(t.len() == 0);
            assert(to == chars@.len());
            assert(chars@.skip(to as int) =~= t);
        }
        i = to;
    }
    assert(text_views(out@) + words_of(chars@.skip(i as int)) =~= text_views(out@));
    out
}

/// The decimal digit for `n` below ten.
pub open spec fn digit(n: nat) -> char {
    (48 + n) as char
}

/// `n` in decimal, without leading zeros.
pub open spec fn decimal(n: nat) -> Seq<char>
    decreases n,
{
    if n < 10 {
        seq![digit(n)]
    } else {
        decimal(n / 10).push(digit(n % 10))
    }
}

pub fn to_decimal(n: u64) -> (r: Vec<char>)
    ensures
        r@ == decimal(n as nat),
    decreases n,
{
    let last: char = (48 + (n % 10) as u8) as char;
    if n < 10 {
        let out: Vec<char> = vec![last];
        assert(out@ =~= seq![digit(n as nat)]);
        out
    } else {
        let mut out: Vec<char> = to_decimal(n / 10);
        out.push(last);
        out
    }
}

pub open spec fn is_digit(c: char) -> bool {
    '0' <= c <= '9'
}

/// The number that a non-empty run of decimal digits spells.
pub open spec fn digits_value(s: Seq<char>) -> Option<nat>
    decreases s.len(),
{
    if s.len() == 0 || !is_digit(s.last()) {
        None
    } else if s.len() == 1 {
        Some((s[0] as nat - 48) as nat)
    } else {
        match digits_value(s.drop_last()) {
            Some(v) => Some((v * 10 + (s.last() as nat - 48)) as nat),
            None => None,
        }
    }
}

/// The number that digits behind an optional `+` spell, if it is at most
/// `max`.
pub open spec fn unsigned_value(s: Seq<char>, max: nat) -> Option<nat> {
    let digits = if s.len() > 0 && s[0] == '+' {
        s.drop_first()
    } else {
        s
    };
    match digits_value(digits) {
        Some(v) => if v <= max {
            Some(v)
        } else {
            None
        },
        None => None,
    }
}

/// The number that digits behind an optional sign spell, if it fits `i32`.
pub open spec fn signed_value(s: Seq<char>) -> Option<int> {
    if s.len() > 0 && s[0] == '-' {
        match digits_value(s.drop_first()) {
            Some(v) => if v <= 0x8000_0000 {
                Some(-(v as int))
            } else {
                None
            },
            None => None,
        }
    } else {
        match unsigned_value(s, 0x7fff_ffff) {
            Some(v) => Some(v as int),
            None => None,
        }
    }
}

proof fn more_digits_never_shrink(s: Seq<char>, n: int)
    requires
        1 <= n <= s.len(),
    ensures
        digits_value(s) matches Some(v) ==> (digits_value(s.take(n)) matches Some(w) && w <= v),
    decreases s.len(),
{
    if n < s.len() {
        more_digits_never_shrink(s.drop_last(), n);
        assert(s.drop_last().take(n) =~= s.take(n));
    } else {
        assert(s.take(n) =~= s);
    }
}

/// Read decimal digits as a number of at most `max`.
pub fn read_digits(chars: &[char], max: u64) -> (r: Option<u64>)
    ensures
        match r {
            Some(v) => digits_value(chars@) == Some(v as nat) && v <= max,
            None => digits_value(chars@) matches Some(v) ==> v > max,
        },
{
    if chars.len() == 0 {
        return None;
    }
    let mut value: u64 = 0;
    let mut i: usize = 0;
    while i < chars.len()
        invariant
            i <= chars@.len(),
            chars@.len() > 0,
            value <= max,
            i == 0 ==> value == 0,
            i > 0 ==> digits_value(chars@.take(i as int)) == Some(value as nat),
        decreases chars@.len() - i,
    {
        let c: char = chars[i];
        let ghost next = chars@.take(i + 1);
        proof {
            more_digits_never_shrink(chars@, i + 1);
            assert(next.last() == c);
            assert(next.drop_last() =~= chars@.take(i as int));
        }
        if c < '0' || c > '9' {
            return None;
        }
        let d: u64 = (c as u32 - 48) as u64;
        if value > (u64::MAX - d) / 10 || value * 10 + d > max {
            assert(digits_value(next) matches Some(v) ==> v > max);
            return None;
        }
        value = value * 10 + d;
        i += 1;
    }
    assert(chars@.take(i as int) =~= chars@);
    Some(value)
}

/// Read an unsigned number of at most `max`.
pub fn read_unsigned(chars: &[char], max: u64) -> (r: Option<u64>)
    ensures
        match r {
            Some(v) => unsigned_value(chars@, max as nat) == Some(v as nat),
            None => unsigned_value(chars@, max as nat) is None,
        },
{
    if chars.len() > 0 && chars[0] == '+' {
        let rest: Vec<char> = part(chars, 1, chars.len());
        assert(rest@ =~= chars@.drop_first());
        read_digits(&rest, max)
    } else {
        read_digits(chars, max)
    }
}

/// Read a signed 32-bit number.
pub fn read_signed(chars: &[char]) -> (r: Option<i32>)
    ensures
        match r {
            Some(v) => signed_value(chars@) == Some(v as int),
            None => signed_value(chars@) is None,
        },
{
    if chars.len() > 0 && chars[0] == '-' {
        let rest: Vec<char> = part(chars, 1, chars.len());
        assert(rest@ =~= chars@.drop_first());
        match read_digits(&rest, 0x8000_0000) {
            Some(v) => Some((-(v as i64)) as i32),
            None => None,
        }
    } else {
        match read_unsigned(chars, 0x7fff_ffff) {
            Some(v) => Some(v as i32),
            None => None,
        }
    }
}

/// The pieces of `s` between the separators, empty ones included.
pub open spec fn pieces(s: Seq<char>, separator: char) -> Seq<Seq<char>>
    decreases s.len(),
{
    if s.len() == 0 {
        seq![Seq::empty()]
    } else {
        let before = pieces(s.drop_last(), separator);
        if s.last() == separator {
            before.push(Seq::empty())
        } else {
            before.drop_last().push(before.last().push(s.last()))
        }
    }
}

/// Split at every `separator`.
pub fn split_pieces(chars: &[char], separator: char) -> (r: Vec<Vec<char>>)
    ensures
        text_views(r@) == pieces(chars@, separator),
{
    let mut done: Vec<Vec<char>> = Vec::new();
    let mut current: Vec<char> = Vec::new();
    let mut i: usize = 0;
    assert(text_views(done@).push(current@) =~= pieces(chars@.take(0), separator));
    while i < chars.len()
        invariant
            i <= chars@.len(),
            text_views(done@).push(current@) == pieces(chars@.take(i as int), separator),
        decreases chars@.len() - i,
    {
        let ghost next = chars@.take(i + 1);
        let ghost before = text_views(done@).push(current@);
        assert(next.drop_last() =~= chars@.take(i as int));
        assert(before.last() == current@);
        assert(before.drop_last() =~= text_views(done@));
        if chars[i] == separator {
            done.push(current);
            assert(text_views(done@) =~= before);
            current = Vec::new();
        } else {
            current.push(chars[i]);
        }
        i += 1;
        assert(text_views(done@).push(current@) =~= pieces(next, separator));
    }
    assert(chars@.take(i as int) =~= chars@);
    let ghost before = text_views(done@).push(current@);
    done.push(current);
    assert(text_views(done@) =~= before);
    done
}

/// Two pieces meet with nothing or with one space between them, and both stay
/// whole. There is no space next to white space or next to an empty piece,
/// none before a closing mark and none behind an opening one, and one between
/// letters or digits.
pub proof fn pieces_meet_with_one_space_at_most(output: Seq<char>, piece: Seq<char>)
    ensures
        ({
            let all = joined(output, piece);
            let spaced = all == output.push(' ') + piece;
            let plain = all == output + piece;
            &&& spaced || plain
            &&& output.len() == 0 || piece.len() == 0 ==> plain
            &&& output.len() > 0 && piece.len() > 0 ==> {
                let left = output.last();
                let right = piece[0];
                let closes = right == '.' || right == ',' || right == '!' || right == '?' || right
                    == ';' || right == ':' || right == '%' || right == ')' || right == ']' || right
                    == '}' || right == '\'' || right == '\u{2019}';
                let opens = left == '(' || left == '[' || left == '{' || left == '/' || left
                    == '\'' || left == '\u{2018}' || left == '\u{201c}';
                let blank = left == ' ' || left == '\n' || left == '\t' || left == '\r' || right
                    == ' ' || right == '\n' || right == '\t' || right == '\r';
                let word = |c: char| 'a' <= c <= 'z' || 'A' <= c <= 'Z' || '0' <= c <= '9';
                &&& closes || opens || blank ==> plain
                &&& word(left) && word(right) ==> spaced
                &&& word(right) && (left == '.' || left == ',' || left == '?' || left == '!'
                    || left == ':' || left == ';' || left == ')') ==> spaced
                &&& word(left) && (right == '(' || right == '[' || right == '"') ==> spaced
            }
        }),
{
    let all = joined(output, piece);
    if output.len() == 0 || piece.len() == 0 {
        assert(all =~= output + piece);
    }
}

/// Trimming takes exactly the white space at the ends: the rest is one piece
/// of the text, and it neither starts nor ends with white space.
pub proof fn trimming_takes_only_the_ends(s: Seq<char>) -> (start: int)
    ensures
        0 <= start,
        start + trimmed(s).len() <= s.len(),
        trimmed(s) == s.subrange(start, start + trimmed(s).len()),
        forall|i: int| 0 <= i < start ==> white_space(#[trigger] s[i]),
        forall|i: int| start + trimmed(s).len() <= i < s.len() ==> white_space(#[trigger] s[i]),
        trimmed(s).len() > 0 ==> !white_space(trimmed(s)[0]) && !white_space(trimmed(s).last()),
{
    let w = CharClass::WhiteSpace;
    let a = without_start(s, w);
    let b = without_end(a, w);
    without_start_is_suffix(s, w);
    without_end_is_prefix(a, w);
    let start = s.len() - a.len();
    assert(trimmed(s) =~= s.subrange(start, start + b.len()));
    assert forall|i: int| 0 <= i < start implies white_space(#[trigger] s[i]) by {
        assert(w.holds(s[i]));
    }
    assert forall|i: int| start + b.len() <= i < s.len() implies white_space(#[trigger] s[i]) by {
        assert(s[i] == a[i - start]);
        assert(w.holds(a[i - start]));
    }
    if b.len() > 0 {
        assert(b[0] == a[0]);
        assert(!w.holds(a[0]));
    }
    start
}

/// White space is what separates words: the space, the tab and the line ends
/// are, letters, digits and marks are not.
pub proof fn words_hold_no_white_space(c: char)
    ensures
        c == ' ' || c == '\t' || c == '\n' || c == '\r' || c == '\u{a0}' || c == '\u{3000}'
            ==> white_space(c),
        '!' <= c <= '~' ==> !white_space(c),
        control(c) <==> c as u32 <= 0x1f || 0x7f <= c as u32 <= 0x9f,
{
}

/// Lowercasing turns the letters `A` to `Z` into `a` to `z` and keeps every
/// other character, so that text without capitals stays as it is.
pub proof fn only_capitals_are_lowered(s: Seq<char>, i: int)
    requires
        0 <= i < s.len(),
    ensures
        ascii_lowered(s).len() == s.len(),
        word_lowered(s).len() == s.len(),
        'A' <= s[i] <= 'Z' ==> ascii_lowered(s)[i] as u32 == s[i] as u32 + 32,
        !('A' <= s[i] <= 'Z') ==> ascii_lowered(s)[i] == s[i],
        s[i] as u32 != 0x212a ==> word_lowered(s)[i] == ascii_lowered(s)[i],
        s[i] as u32 == 0x212a ==> word_lowered(s)[i] == 'k',
        ascii_lowered(ascii_lowered(s)) == ascii_lowered(s),
{
    assert(ascii_lowered(ascii_lowered(s)) =~= ascii_lowered(s));
}

/// Decimal text reads back as its number, and has no leading zero but for zero
/// itself.
pub proof fn decimals_read_back(n: nat)
    ensures
        digits_value(decimal(n)) == Some(n),
        decimal(n).len() > 0,
        n > 0 ==> decimal(n)[0] != '0',
        forall|i: int| 0 <= i < decimal(n).len() ==> '0' <= #[trigger] decimal(n)[i] <= '9',
    decreases n,
{
    if n >= 10 {
        decimals_read_back(n / 10);
        assert(decimal(n).drop_last() =~= decimal(n / 10));
        assert(decimal(n).last() as nat == 48 + n % 10);
    } else {
        assert(decimal(n).last() as nat == 48 + n);
    }
}

/// A run of digits is worth ten times what stands before its last digit, and
/// that digit; anything else is no number.
pub proof fn digits_count_in_tens(s: Seq<char>, c: char)
    ensures
        digits_value(Seq::empty()) is None,
        '0' <= c <= '9' ==> digits_value(seq![c]) == Some((c as nat - 48) as nat),
        !('0' <= c <= '9') ==> digits_value(s.push(c)) is None,
        s.len() > 0 && '0' <= c <= '9' ==> digits_value(s.push(c)) == match digits_value(s) {
            Some(v) => Some((v * 10 + (c as nat - 48)) as nat),
            None => None,
        },
{
    assert(s.push(c).drop_last() =~= s);
}

/// A number is read with its sign: digits may stand behind a plus, a minus
/// makes them negative where the type has a sign, and a value out of range is
/// none.
pub proof fn numbers_are_read_with_their_sign(n: nat, max: nat)
    ensures
        unsigned_value(decimal(n), max) == if n <= max {
            Some(n)
        } else {
            None
        },
        unsigned_value(seq!['+'] + decimal(n), max) == unsigned_value(decimal(n), max),
        unsigned_value(seq!['-'] + decimal(n), max) is None,
        signed_value(decimal(n)) == if n <= 0x7fff_ffff {
            Some(n as int)
        } else {
            None
        },
        signed_value(seq!['-'] + decimal(n)) == if n <= 0x8000_0000 {
            Some(-(n as int))
        } else {
            None
        },
{
    decimals_read_back(n);
    let plus = seq!['+'] + decimal(n);
    let minus = seq!['-'] + decimal(n);
    assert(decimal(n)[0] != '+' && decimal(n)[0] != '-');
    assert(plus[0] == '+');
    assert(minus[0] == '-');
    assert(plus.drop_first() =~= decimal(n));
    assert(minus.drop_first() =~= decimal(n));
    signs_are_no_digits(minus);
}

proof fn signs_are_no_digits(s: Seq<char>)
    requires
        s.len() > 0,
        s[0] == '-',
    ensures
        digits_value(s) is None,
    decreases s.len(),
{
    if s.len() > 1 {
        signs_are_no_digits(s.drop_last());
    }
}

/// Words are what white space leaves: none is empty or holds white space, and
/// a text of one word has that word alone.
pub proof fn words_are_split_at_white_space(s: Seq<char>, k: int)
    ensures
        0 <= k < words_of(s).len() ==> words_of(s)[k].len() > 0 && forall|i: int|
            0 <= i < words_of(s)[k].len() ==> !white_space(#[trigger] words_of(s)[k][i]),
        words_of(s).len() == 0 <==> forall|i: int|
            0 <= i < s.len() ==> white_space(#[trigger] s[i]),
    decreases s.len(),
{
    let w = CharClass::WhiteSpace;
    let t = without_start(s, w);
    without_start_is_suffix(s, w);
    if t.len() > 0 {
        word_run_fits(t);
        let n = word_run(t) as int;
        word_runs_hold_no_white_space(t);
        words_are_split_at_white_space(t.skip(n), k - 1);
        assert(words_of(s)[0] =~= t.take(n));
        if 0 < k < words_of(s).len() {
            assert(words_of(s)[k] == words_of(t.skip(n))[k - 1]);
        }
        assert(s[s.len() - t.len()] == t[0]);
        assert(!w.holds(t[0]));
        assert(!white_space(s[s.len() - t.len()]));
    } else {
        assert forall|i: int| 0 <= i < s.len() implies white_space(#[trigger] s[i]) by {
            assert(w.holds(s[i]));
        }
    }
}

proof fn word_runs_hold_no_white_space(s: Seq<char>)
    ensures
        word_run(s) <= s.len(),
        forall|i: int| 0 <= i < word_run(s) ==> !white_space(#[trigger] s[i]),
        word_run(s) < s.len() ==> white_space(s[word_run(s) as int]),
    decreases s.len(),
{
    if s.len() > 0 && !white_space(s[0]) {
        let rest = s.drop_first();
        word_runs_hold_no_white_space(rest);
        assert forall|i: int| 0 <= i < word_run(s) implies !white_space(#[trigger] s[i]) by {
            if i > 0 {
                assert(s[i] == rest[i - 1]);
            }
        }
        if word_run(s) < s.len() {
            assert(s[word_run(s) as int] == rest[word_run(rest) as int]);
        }
    }
}

/// Splitting and joining again gives the text back: the pieces hold no
/// separator, and with one separator between each two of them they are the
/// text.
pub proof fn pieces_join_again(s: Seq<char>, separator: char, k: int)
    ensures
        pieces(s, separator).len() > 0,
        rejoined(pieces(s, separator), separator) == s,
        0 <= k < pieces(s, separator).len() ==> !pieces(s, separator)[k].contains(separator),
    decreases s.len(),
{
    if s.len() == 0 {
        assert(pieces(s, separator).drop_last() =~= Seq::empty());
        assert(rejoined(pieces(s, separator), separator) =~= s);
    } else {
        let before = pieces(s.drop_last(), separator);
        let all = pieces(s, separator);
        pieces_join_again(s.drop_last(), separator, k);
        pieces_join_again(s.drop_last(), separator, before.len() - 1);
        if s.last() == separator {
            assert(all.drop_last() =~= before);
        } else {
            assert(all.drop_last() =~= before.drop_last());
            let piece = before.last().push(s.last());
            assert(all.last() == piece);
            if k == all.len() - 1 && piece.contains(separator) {
                let i = choose|i: int| 0 <= i < piece.len() && piece[i] == separator;
                assert(before.last()[i] == separator);
                assert(before[k].contains(separator));
            }
        }
        assert(rejoined(all, separator) =~= s.drop_last().push(s.last()));
        assert(s.drop_last().push(s.last()) =~= s);
    }
}

/// Pieces with one separator between each two of them.
pub open spec fn rejoined(parts: Seq<Seq<char>>, separator: char) -> Seq<char>
    decreases parts.len(),
{
    if parts.len() == 0 {
        Seq::empty()
    } else if parts.len() == 1 {
        parts[0]
    } else {
        rejoined(parts.drop_last(), separator).push(separator) + parts.last()
    }
}

/// A word is held exactly by the texts that have it somewhere between what
/// comes before and behind it.
pub proof fn held_words_stand_in_the_text(before: Seq<char>, word: Seq<char>, behind: Seq<char>)
    ensures
        holds_word(before + word + behind, word),
        holds_word(word, word),
        before.len() < word.len() ==> !holds_word(before, word),
{
    let s = before + word + behind;
    let i = before.len() as int;
    assert(s.subrange(i, i + word.len()) =~= word);
    assert(word.subrange(0int, 0int + word.len()) =~= word);
}

} // verus!

use ashe_worker::text::{
    append_piece, chars_of, contains_word, is_blank, is_control, is_white_space,
    needs_boundary_space, read_signed, read_unsigned, split_pieces, split_words, string_of,
    to_decimal, to_word_lower, trim,
};

fn chars(text: &str) -> Vec<char> {
    text.chars().collect()
}

#[test]
fn character_classes_agree_with_std() {
    for c in '\u{0}'..='\u{10ffff}' {
        assert_eq!(is_white_space(c), c.is_whitespace());
        assert_eq!(is_control(c), c.is_control());
    }
}

#[test]
fn lowercase_agrees_with_std_as_far_as_ascii_goes() {
    for c in '\u{0}'..='\u{10ffff}' {
        let lower: String = c.to_lowercase().collect();
        if lower.is_ascii() {
            assert_eq!(lower, to_word_lower(c).to_string());
        } else {
            assert!(!to_word_lower(c).is_ascii());
        }
    }
}

#[test]
fn strings_survive_the_way_through_characters() {
    for text in ["", "abc", "d\u{e9}j\u{e0} \u{1f600}"] {
        assert_eq!(chars_of(text), chars(text));
        assert_eq!(string_of(&chars_of(text)), text);
    }
}

#[test]
fn trimming_takes_white_space_only() {
    for text in ["", "  ", " a b\t", "\u{a0}x\u{3000}", "a", "\na\r\n"] {
        assert_eq!(trim(text), text.trim());
        assert_eq!(trim(&trim(text)), trim(text));
        assert_eq!(is_blank(text), text.trim().is_empty());
    }
}

#[test]
fn words_are_split_at_white_space() {
    for text in ["", " ", "one", " one  two\tthree ", "a\u{2003}b"] {
        let words: Vec<String> = split_words(text)
            .into_iter()
            .map(|word| word.into_iter().collect())
            .collect();
        let expected: Vec<&str> = text.split_whitespace().collect();
        assert_eq!(words, expected);
    }
}

#[test]
fn pieces_keep_empty_ones() {
    for text in ["", ",", "a,b", ",a,,b,"] {
        let pieces: Vec<String> = split_pieces(&chars(text), ',')
            .into_iter()
            .map(|piece| piece.into_iter().collect())
            .collect();
        let expected: Vec<&str> = text.split(',').collect();
        assert_eq!(pieces, expected);
    }
}

#[test]
fn searching_agrees_with_std() {
    for (text, word) in [
        ("hello", "ell"),
        ("hello", "hello"),
        ("hello", "hellos"),
        ("hello", ""),
        ("", ""),
        ("", "a"),
        ("aab", "ab"),
        ("abab", "bb"),
    ] {
        assert_eq!(contains_word(&chars(text), word), text.contains(word));
    }
}

#[test]
fn numbers_are_written_and_read() {
    for n in [0u64, 7, 10, 99, 12_345, u64::MAX] {
        let digits: String = to_decimal(n).into_iter().collect();
        assert_eq!(digits, n.to_string());
        assert_eq!(read_unsigned(&chars(&digits), u64::MAX), Some(n));
    }
    for text in ["", "+", "-1", "1x", "18446744073709551616", "+5", "007"] {
        assert_eq!(
            read_unsigned(&chars(text), u64::MAX),
            text.parse::<u64>().ok()
        );
    }
    for text in ["", "-", "-2147483648", "-2147483649", "2147483647", "2147483648", "+3"] {
        assert_eq!(read_signed(&chars(text)), text.parse::<i32>().ok());
    }
}

#[test]
fn pieces_join_with_one_space_where_it_belongs() {
    let join = |left: &str, right: &str| {
        let mut out = chars(left);
        append_piece(&mut out, &chars(right));
        out.into_iter().collect::<String>()
    };
    assert_eq!(join("one", "two"), "one two");
    assert_eq!(join("one", ", two"), "one, two");
    assert_eq!(join("(", "two"), "(two");
    assert_eq!(join("one ", "two"), "one two");
    assert_eq!(join("", "two"), "two");
    assert_eq!(join("one", ""), "one");
    assert!(!needs_boundary_space('a', '%'));
    assert!(!needs_boundary_space('/', 'a'));
    assert!(needs_boundary_space('.', 'a'));
}

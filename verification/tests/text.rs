use gest::text::{decimal, is_whitespace, join, less, same, split_words, take_chars};

#[test]
fn spaces_are_those_of_unicode() {
    for code in 0..=0x10FFFFu32 {
        if let Some(c) = char::from_u32(code) {
            assert_eq!(is_whitespace(c), c.is_whitespace(), "{code:x}");
        }
    }
}

#[test]
fn words_are_split_as_std_does() {
    for text in ["", " ", "a", " a  b\tc\n", "ä\u{2003}ö\u{a0}ü", "one two three"] {
        let words: Vec<&str> = text.split_whitespace().collect();
        assert_eq!(split_words(text), words);
    }
}

#[test]
fn numbers_are_written_in_decimal() {
    for n in [0u128, 9, 10, 4294967295, u128::MAX] {
        assert_eq!(decimal(n), n.to_string());
    }
}

#[test]
fn texts_are_ordered_as_std_does() {
    let list = ["", "a", "aa", "ab", "b", "B", "ä", "\u{10000}", "\u{ffff}"];
    for a in list {
        for b in list {
            assert_eq!(less(a, b), a < b, "{a:?} {b:?}");
            assert_eq!(same(a, b), a == b);
        }
    }
}

#[test]
fn texts_are_joined_and_cut() {
    let parts = vec!["a".to_string(), "b".to_string(), String::new()];
    assert_eq!(join(&parts, ", "), "a, b, ");
    assert_eq!(join(&Vec::new(), ", "), "");
    assert_eq!(take_chars("äbc", 2), "äb");
    assert_eq!(take_chars("äbc", 9), "äbc");
}

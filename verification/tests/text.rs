use tauri_plugin_topcoat::headers::{is_value, visible_text};
use tauri_plugin_topcoat::text;

#[test]
fn white_space_is_what_unicode_says_it_is() {
    for c in '\0'..=char::MAX {
        assert_eq!(text::is_white(c), c.is_whitespace(), "{c:?}");
        assert_eq!(text::to_lower(c), c.to_ascii_lowercase(), "{c:?}");
    }
}

#[test]
fn trimming_takes_both_ends_or_one() {
    for whole in ["", " ", "a", " a ", "\t\u{3000}a b\u{a0}\n", "\u{feff}a\u{200b}"] {
        assert_eq!(text::trim(whole), whole.trim());
        assert_eq!(text::trim_end(whole), whole.trim_end());
    }
}

#[test]
fn splitting_keeps_every_piece() {
    for whole in ["", ",", "a", "a,b", ",a,,b,", "\u{e9},\u{1f600}"] {
        let pieces: Vec<&str> = whole.split(',').collect();
        assert_eq!(text::split_at_each(whole, ','), pieces);
        assert_eq!(text::join(&text::split_at_each(whole, ','), ","), whole);
    }
    assert_eq!(text::join(&Vec::new(), ", "), "");
    assert_eq!(
        text::split_once("a/b/c", '/'),
        ("a".to_owned(), "b/c".to_owned())
    );
    assert_eq!(text::split_once("abc", '/'), ("abc".to_owned(), String::new()));
    assert_eq!(text::strip_prefix("/ipc/x", "/ipc/").as_deref(), Some("x"));
    assert_eq!(text::strip_prefix("/ipc", "/ipc/"), None);
    assert_eq!(text::strip_prefix("/IPC/x", "/ipc/"), None);
}

#[test]
fn numbers_are_read_as_the_standard_library_reads_them() {
    for whole in [
        "", "+", "-", "0", "+0", "007", "42", "+42", "-1", "1_0", " 1", "1 ", "++1",
        "18446744073709551615", "18446744073709551616", "99999999999999999999999", "\u{661}",
    ] {
        assert_eq!(text::to_number(whole), whole.parse::<u64>().ok(), "{whole:?}");
    }
}

#[test]
fn numbers_are_written_as_the_standard_library_writes_them() {
    for number in [0, 1, 9, 10, 99, 100, 12345, u64::MAX] {
        assert_eq!(text::to_decimal(number), number.to_string());
        assert_eq!(text::to_zero_padded(number, 3), format!("{number:03}"));
    }
    for word in ["", "a", "abc", "\u{e9}t\u{e9}", "abcdef"] {
        assert_eq!(text::pad(word, 5), format!("{word:5}"));
    }
}

#[test]
fn texts_are_put_in_order() {
    let words: Vec<String> = ["b", "a", "ab", "", "\u{e9}", "a-b", "a_b", "Z"]
        .iter()
        .map(|word| word.to_string())
        .collect();
    let mut expected = words.clone();
    expected.sort_unstable();
    assert_eq!(text::sort(words), expected);
    assert!(text::is_before("a", "b"));
    assert!(!text::is_before("a", "a"));
    assert!(!text::is_before("b", "a"));
}

#[test]
fn texts_are_compared_whole() {
    assert!(text::same("", ""));
    assert!(text::same("\u{e9}", "\u{e9}"));
    assert!(!text::same("a", "A"));
    assert!(!text::same("a", "ab"));
    assert!(text::is_alike("Top", "tOP"));
    assert!(!text::is_alike("\u{e9}", "\u{c9}"));
    assert!(!text::is_alike("a", "aa"));
}

#[test]
fn a_header_value_is_text_or_it_is_not() {
    for byte in 0..=u8::MAX {
        let value = http::HeaderValue::from_bytes(&[b'a', byte]);
        assert_eq!(is_value(&[b'a', byte]), value.is_ok(), "{byte}");
        if let Ok(value) = value {
            assert_eq!(
                visible_text(&[b'a', byte]).as_deref(),
                value.to_str().ok(),
                "{byte}"
            );
        } else {
            assert_eq!(visible_text(&[b'a', byte]), None);
        }
    }
}

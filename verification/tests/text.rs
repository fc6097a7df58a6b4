use slint_clash::number::{decimal_text, parse_u16};
use slint_clash::sorting::{sort_by_name, text_at_most};
use slint_clash::text::{
    contains_text, from_chars, join2, join3, read_lossy, same_text, to_ascii_lower,
    to_ascii_upper, to_chars, to_lower, trim, white_space,
};

#[test]
fn white_space_is_that_of_unicode() {
    for code in 0..=0x10_ffff_u32 {
        if let Some(c) = char::from_u32(code) {
            assert_eq!(white_space(c), c.is_whitespace());
        }
    }
}

#[test]
fn trimming_takes_white_space_off_both_ends() {
    for text in ["", " ", "a", " a", "a ", "\t a b \n", "\u{3000}x\u{85}", " \u{200b} "] {
        assert_eq!(trim(text), text.trim());
    }
}

#[test]
fn ascii_letters_change_their_case() {
    let text = "aZ09-éÉ@[`{";
    assert_eq!(to_ascii_lower(text), text.to_ascii_lowercase());
    assert_eq!(to_ascii_upper(text), text.to_ascii_uppercase());
}

#[test]
fn texts_are_joined_and_compared() {
    assert_eq!(join2("a", "é"), "aé");
    assert_eq!(join3("a", "", "b"), "ab");
    assert!(same_text("é", "é"));
    assert!(!same_text("e", "é"));
    assert!(!same_text("a", "ab"));
    assert_eq!(from_chars(&to_chars("héllo"), 1, 4), "éll");
    let list = vec!["x".to_owned(), "y".to_owned()];
    assert!(contains_text(&list, "y"));
    assert!(!contains_text(&list, "z"));
}

#[test]
fn texts_are_ordered_as_by_the_standard_library() {
    let words = ["", "a", "ab", "b", "B", "é", "\u{ffff}", "\u{10000}", "aé", "a\u{10000}"];
    for a in words {
        for b in words {
            assert_eq!(text_at_most(a, b), a <= b);
        }
    }
}

#[test]
fn sorting_keeps_the_order_of_equal_names() {
    let words = ["b", "A", "a", "É", "B", "é", "ΑΣ", "ας", "c", "İ", "i̇"];
    let mut items: Vec<String> = words.iter().map(|w| w.to_string()).collect();
    let mut expected = items.clone();
    expected.sort_by_key(|name| name.to_lowercase());
    sort_by_name(&mut items);
    assert_eq!(items, expected);
}

#[test]
fn numbers_are_written_in_decimal() {
    for n in [0_u128, 1, 9, 10, 99, 100, 65535, u128::MAX] {
        assert_eq!(decimal_text(n), n.to_string());
    }
}

#[test]
fn ports_are_read_as_by_the_standard_library() {
    for text in [
        "", "0", "1", "+1", "-1", "-0", "+", "-", "00080", "65535", "65536", "99999", "1 ", " 1",
        "1x", "x", "١", "655350", "000000000000000000000065535", "++1", "+-1",
    ] {
        assert_eq!(parse_u16(text), text.parse::<u16>().ok());
    }
    for n in 0..=u16::MAX {
        assert_eq!(parse_u16(&decimal_text(n as u128)), Some(n));
    }
}

#[test]
fn lower_case_follows_unicode() {
    assert_eq!(to_lower("Work 2"), "work 2");
    assert_eq!(to_lower("ÉCOLE"), "école");
    assert_eq!(to_lower("ΟΔΟΣ"), "οδος");
}

#[test]
fn bytes_that_are_no_utf8_are_replaced() {
    assert_eq!(read_lossy("é{}".as_bytes()), "é{}");
    assert_eq!(read_lossy(b"a\xffb"), "a\u{fffd}b");
}

use katana::text::chars_of;
use katana::text::holds;
use katana::text::holds_terminator;
use katana::text::join;
use katana::text::occurs_at;
use katana::text::replace;
use katana::text::same_text;
use katana::text::split_lines;
use katana::text::starts_with;
use katana::text::string_of;
use katana::text::terminator;
use katana::text::trim;
use katana::text::whitespace;

fn owned(parts: &[&str]) -> Vec<String> {
    parts.iter().map(|part| String::from(*part)).collect()
}

#[test]
fn whitespace_is_what_unicode_calls_white_space() {
    for code in 0..0x11_0000u32 {
        if let Some(c) = char::from_u32(code) {
            assert_eq!(whitespace(c), c.is_whitespace());
        }
    }
}

#[test]
fn terminators_are_period_question_and_exclamation_mark() {
    for code in 0..0x11_0000u32 {
        if let Some(c) = char::from_u32(code) {
            assert_eq!(terminator(c), c == '.' || c == '?' || c == '!');
        }
    }
}

#[test]
fn characters_and_strings_go_both_ways() {
    let chars = chars_of("a’b\u{1F600}");
    assert_eq!(chars, vec!['a', '’', 'b', '\u{1F600}']);
    assert_eq!(string_of(&chars, 0, 4), "a’b\u{1F600}");
    assert_eq!(string_of(&chars, 1, 3), "’b");
    assert_eq!(string_of(&chars, 2, 2), "");
    assert_eq!(chars_of(""), Vec::<char>::new());
}

#[test]
fn same_text_compares_character_by_character() {
    assert!(same_text("pre", "pre"));
    assert!(same_text("", ""));
    assert!(!same_text("pre", "pro"));
    assert!(!same_text("pre", "pres"));
    assert!(!same_text("", "x"));
}

#[test]
fn trim_drops_outer_whitespace() {
    assert_eq!(trim("  a b \n"), "a b");
    assert_eq!(trim("\u{3000}\u{a0}x\u{2003}\t"), "x");
    assert_eq!(trim("x"), "x");
    assert_eq!(trim(" \t\n "), "");
    assert_eq!(trim(""), "");
    assert_eq!(trim("\u{200b}x "), "\u{200b}x");
}

#[test]
fn trim_agrees_with_the_standard_library() {
    let texts = ["", " ", " a", "a ", " a b ", "\n\ta\u{85}", "\u{1680}b\u{2028}\u{2029}", "\u{1c}c"];
    for text in texts {
        assert_eq!(trim(text), text.trim());
    }
}

#[test]
fn replace_takes_occurrences_from_left_to_right() {
    assert_eq!(replace("a&-&b&-&", "&-&", "."), "a.b.");
    assert_eq!(replace("aaa", "aa", "b"), "ba");
    assert_eq!(replace("aaaa", "aa", "b"), "bb");
    assert_eq!(replace("abab", "ab", "abab"), "abababab");
    assert_eq!(replace("&&&&", "&&&", ".."), "..&");
    assert_eq!(replace("abc", "abcd", "x"), "abc");
    assert_eq!(replace("abc", "c", ""), "ab");
    assert_eq!(replace("", "a", "b"), "");
}

#[test]
fn replace_with_nothing_to_find_changes_nothing() {
    assert_eq!(replace("abc", "", "x"), "abc");
    assert_eq!(replace("abc", "d", "x"), "abc");
}

#[test]
fn replace_agrees_with_the_standard_library() {
    let texts = ["", "a", "aaa", "abcabc", "&;&&;&", "x&&&&&&y", "ééé"];
    let pairs = [("a", "b"), ("aa", "a"), ("abc", ""), ("&;&", "."), ("&&&", ".."), ("é", "e")];
    for text in texts {
        for (from, to) in pairs {
            assert_eq!(replace(text, from, to), text.replace(from, to));
        }
    }
}

#[test]
fn occurrence_is_looked_for_at_one_place() {
    let text = chars_of("abcab");
    assert!(occurs_at(&text, 0, &chars_of("ab")));
    assert!(occurs_at(&text, 3, &chars_of("ab")));
    assert!(!occurs_at(&text, 1, &chars_of("ab")));
    assert!(!occurs_at(&text, 4, &chars_of("ab")));
    assert!(occurs_at(&text, 5, &chars_of("")));
    assert!(starts_with("^  note", "^  "));
    assert!(!starts_with("^ note", "^  "));
    assert!(!starts_with("^", "^  "));
    assert!(starts_with("x", ""));
}

#[test]
fn lines_are_what_stands_between_newlines() {
    assert_eq!(split_lines("a\n\nb\n"), owned(&["a", "", "b", ""]));
    assert_eq!(split_lines("one"), owned(&["one"]));
    assert_eq!(split_lines(""), owned(&[""]));
    assert_eq!(split_lines("\n"), owned(&["", ""]));
    assert_eq!(split_lines(" a \r\n b"), owned(&[" a \r", " b"]));
}

#[test]
fn lines_agree_with_the_standard_library() {
    let texts = ["", "\n", "a", "a\n", "\na", "a\n\n\nb", "\n\n"];
    for text in texts {
        let expected: Vec<String> = text.split("\n").map(String::from).collect();
        assert_eq!(split_lines(text), expected);
    }
}

#[test]
fn join_puts_the_separator_between() {
    assert_eq!(join(&owned(&["a", "b", "c"]), ", "), "a, b, c");
    assert_eq!(join(&owned(&["a"]), ", "), "a");
    assert_eq!(join(&owned(&[]), ", "), "");
    assert_eq!(join(&owned(&["", ""]), "-"), "-");
    assert_eq!(join(&owned(&["a", "b"]), ""), "ab");
}

#[test]
fn lines_joined_by_newlines_are_the_text() {
    let texts = ["", "\n", "a", "a\n", "\na", "a\n\n\nb", " x \n\t\ny. z\n"];
    for text in texts {
        assert_eq!(join(&split_lines(text), "\n"), text);
    }
}

#[test]
fn characters_are_looked_for_in_a_text() {
    assert!(holds("a&b", '&'));
    assert!(holds("&", '&'));
    assert!(!holds("and", '&'));
    assert!(!holds("", '&'));
    assert!(holds_terminator("so?"));
    assert!(holds_terminator(".x"));
    assert!(holds_terminator("a!b"));
    assert!(!holds_terminator("a,b;c:d"));
    assert!(!holds_terminator(""));
}

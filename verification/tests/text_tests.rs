use botty::text::{
    ascii_space, chars_of, decimal_string, find_in, has_prefix, lower_char, lower_chars,
    occurs_at, same_text, sep, split_words, trim, trim_end, Spacing,
};

fn cs(s: &str) -> Vec<char> {
    s.chars().collect()
}

#[test]
fn words_are_cut_at_separators() {
    assert_eq!(split_words("  a bc\t\td \r\n", Spacing::Ascii), vec!["a", "bc", "d"]);
    assert_eq!(split_words("", Spacing::Ascii), Vec::<&str>::new());
    assert_eq!(split_words(" \t", Spacing::Ascii), Vec::<&str>::new());
    assert_eq!(split_words("one", Spacing::Ascii), vec!["one"]);
    assert_eq!(split_words("a\u{b}b\u{c}c", Spacing::Ascii), vec!["a\u{b}b", "c"]);
    assert_eq!(split_words("a\u{2003}b\u{a0}c d", Spacing::Ascii), vec!["a\u{2003}b\u{a0}c", "d"]);
    assert_eq!(split_words("a\u{2003}b\u{a0}c d", Spacing::Unicode), vec!["a", "b", "c", "d"]);
    assert_eq!(split_words("\u{e9}t\u{e9} \u{4e2d}\u{6587}", Spacing::Ascii), vec!["\u{e9}t\u{e9}", "\u{4e2d}\u{6587}"]);
}

#[test]
fn separators() {
    for c in [' ', '\t', '\n', '\u{c}', '\r'] {
        assert!(ascii_space(c));
        assert!(sep(Spacing::Ascii, c));
    }
    assert!(!ascii_space('\u{b}'));
    assert!(!ascii_space('a'));
    assert!(sep(Spacing::Unicode, '\u{3000}'));
    assert!(!sep(Spacing::Ascii, '\u{3000}'));
    assert!(!sep(Spacing::Unicode, 'x'));
}

#[test]
fn searching() {
    assert_eq!(chars_of("h\u{e9}llo"), cs("h\u{e9}llo"));
    assert_eq!(find_in(&cs("a :b :c"), &cs(" :"), 0), Some(1));
    assert_eq!(find_in(&cs("a :b :c"), &cs(" :"), 2), Some(4));
    assert_eq!(find_in(&cs("a :b :c"), &cs(" :"), 5), None);
    assert_eq!(find_in(&cs("abc"), &cs(""), 0), Some(0));
    assert_eq!(find_in(&cs("abc"), &cs(""), 3), Some(3));
    assert_eq!(find_in(&cs("abc"), &cs(""), 4), None);
    assert_eq!(find_in(&cs("ab"), &cs("abc"), 0), None);
    assert_eq!(find_in(&cs("aab"), &cs("ab"), 0), Some(1));
    assert!(occurs_at(&cs("hello"), &cs("llo"), 2));
    assert!(!occurs_at(&cs("hello"), &cs("llo"), 3));
    assert!(!occurs_at(&cs("hello"), &cs("llo"), usize::MAX));
    assert!(same_text("abc", "abc"));
    assert!(!same_text("abc", "abd"));
    assert!(!same_text("abc", "ab"));
    assert!(same_text("", ""));
    assert!(has_prefix("!test me", "!test"));
    assert!(!has_prefix("a !test", "!test"));
    assert!(has_prefix("x", ""));
}

#[test]
fn lower_case() {
    assert_eq!(lower_char('A'), 'a');
    assert_eq!(lower_char('Z'), 'z');
    assert_eq!(lower_char('a'), 'a');
    assert_eq!(lower_char('@'), '@');
    assert_eq!(lower_char('['), '[');
    assert_eq!(lower_char('\u{c9}'), '\u{c9}');
    assert_eq!(lower_chars("Hello, W\u{d6}RLD 1"), cs("hello, w\u{d6}rld 1"));
}

#[test]
fn trimming() {
    assert_eq!(trim("  a b \t", Spacing::Ascii), "a b");
    assert_eq!(trim("\u{2003}a\u{a0}", Spacing::Unicode), "a");
    assert_eq!(trim("\u{2003}a\u{a0}", Spacing::Ascii), "\u{2003}a\u{a0}");
    assert_eq!(trim("   ", Spacing::Ascii), "");
    assert_eq!(trim("", Spacing::Unicode), "");
    assert_eq!(trim("x", Spacing::Unicode), "x");
    assert_eq!(trim_end("rust???", '?'), "rust");
    assert_eq!(trim_end("?a?b", '?'), "?a?b");
    assert_eq!(trim_end("???", '?'), "");
    assert_eq!(trim_end("", '?'), "");
}

#[test]
fn decimal_numerals() {
    assert_eq!(decimal_string(0), "0");
    assert_eq!(decimal_string(7), "7");
    assert_eq!(decimal_string(10), "10");
    assert_eq!(decimal_string(-1), "-1");
    assert_eq!(decimal_string(1203), "1203");
    assert_eq!(decimal_string(i32::MAX), "2147483647");
    assert_eq!(decimal_string(i32::MIN), "-2147483648");
}

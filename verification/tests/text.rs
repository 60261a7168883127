use git_hook_installer::lines::{join_normalized, split_lines};
use git_hook_installer::managed_block::normalize_newline_join;
use git_hook_installer::names::{decimal_chars, first_unused_name, numbered};
use git_hook_installer::order::{compare_keys, compare_text, rising_order, sort_names, Rank};
use git_hook_installer::text::{
    chars_of, count_leading_spaces, count_trailing_spaces, has_prefix, is_space_char, same_chars,
    string_of, trimmed,
};

fn chars(text: &str) -> Vec<char> {
    text.chars().collect()
}

fn lines(texts: &[&str]) -> Vec<Vec<char>> {
    texts.iter().map(|t| chars(t)).collect()
}

fn split(text: &str) -> Vec<String> {
    split_lines(&chars(text)).iter().map(|l| l.iter().collect()).collect()
}

#[test]
fn strings_and_characters_convert_both_ways() {
    for text in ["", "abc", "häß✓\n\t", "a\u{10FFFF}b"] {
        assert_eq!(chars_of(text), chars(text));
        assert_eq!(string_of(&chars(text)), text);
    }
    assert!(same_chars(&chars("ab"), &chars("ab")));
    assert!(!same_chars(&chars("ab"), &chars("abc")));
    assert!(!same_chars(&chars("ab"), &chars("ac")));
    assert!(has_prefix(&chars("gitdir: x"), &chars("gitdir:")));
    assert!(has_prefix(&chars("x"), &chars("")));
    assert!(!has_prefix(&chars("git"), &chars("gitdir:")));
}

#[test]
fn white_space_is_what_unicode_says() {
    for c in [' ', '\t', '\n', '\r', '\u{B}', '\u{C}', '\u{85}', '\u{A0}', '\u{1680}', '\u{2000}', '\u{200A}', '\u{2028}', '\u{2029}', '\u{202F}', '\u{205F}', '\u{3000}'] {
        assert!(is_space_char(c));
    }
    for c in ['a', '\u{8}', '\u{E}', '\u{1F}', '\u{200B}', '\u{FEFF}', '\u{180E}', '_'] {
        assert!(!is_space_char(c));
    }
    for code in 0..0x3100u32 {
        if let Some(c) = char::from_u32(code) {
            assert_eq!(is_space_char(c), c.is_whitespace());
        }
    }
    assert_eq!(trimmed(&chars(" \t a b \u{3000}\n")), chars("a b"));
    assert_eq!(trimmed(&chars("   ")), chars(""));
    assert_eq!(count_leading_spaces(&chars("  x ")), 2);
    assert_eq!(count_trailing_spaces(&chars("  x ")), 1);
    assert_eq!(count_trailing_spaces(&chars("   ")), 3);
}

#[test]
fn lines_end_at_newlines_and_lose_one_carriage_return() {
    assert_eq!(split(""), Vec::<String>::new());
    assert_eq!(split("a"), vec!["a"]);
    assert_eq!(split("a\n"), vec!["a"]);
    assert_eq!(split("a\nb"), vec!["a", "b"]);
    assert_eq!(split("a\r\nb\r\n"), vec!["a", "b"]);
    assert_eq!(split("\n\n"), vec!["", ""]);
    assert_eq!(split("a\r"), vec!["a\r"]);
    assert_eq!(split("a\r\r\nb"), vec!["a\r", "b"]);
    assert_eq!(split("\r\n"), vec![""]);
    for text in ["", "a", "a\n", "\n", "a\r\nb", "a\n\nb\n\n", "x\r", "\r\n\r", "a\r\r\n"] {
        let expected: Vec<String> = text.lines().map(|l| l.to_string()).collect();
        assert_eq!(split(text), expected);
    }
}

#[test]
fn joined_lines_end_in_one_newline() {
    assert_eq!(string_of(&join_normalized(&lines(&[]))), "\n");
    assert_eq!(string_of(&join_normalized(&lines(&["a"]))), "a\n");
    assert_eq!(string_of(&join_normalized(&lines(&["a", "b"]))), "a\nb\n");
    assert_eq!(string_of(&join_normalized(&lines(&["a", ""]))), "a\n");
    assert_eq!(string_of(&join_normalized(&lines(&["a", "", ""]))), "a\n\n");
    assert_eq!(string_of(&join_normalized(&lines(&[""]))), "\n");
    assert_eq!(normalize_newline_join(&lines(&["x", "y"])), "x\ny\n");
}

#[test]
fn texts_are_compared_character_by_character() {
    assert_eq!(compare_text(&chars("a"), &chars("b")), Rank::Before);
    assert_eq!(compare_text(&chars("b"), &chars("a")), Rank::After);
    assert_eq!(compare_text(&chars("ab"), &chars("ab")), Rank::Same);
    assert_eq!(compare_text(&chars("a"), &chars("ab")), Rank::Before);
    assert_eq!(compare_text(&chars(""), &chars("")), Rank::Same);
    assert_eq!(compare_text(&chars("Z"), &chars("a")), Rank::Before);
    assert_eq!(compare_text(&chars("é"), &chars("z")), Rank::After);
    for (a, b) in [("x.10", "x.2"), ("", "a"), ("ab", "b"), ("a b", "a/b"), ("\u{FFFF}", "\u{10000}")] {
        assert_eq!(compare_text(&chars(a), &chars(b)), Rank::Before);
        assert!(a < b);
    }
    assert_eq!(compare_keys(&lines(&["a", "b"]), &lines(&["a", "b", ""])), Rank::Before);
    assert_eq!(compare_keys(&lines(&["a", "c"]), &lines(&["a", "b", "z"])), Rank::After);
    assert_eq!(compare_keys(&lines(&[]), &lines(&[])), Rank::Same);
}

#[test]
fn rising_order_lists_each_key_once() {
    let keys = vec![lines(&["b"]), lines(&["a", "z"]), lines(&["b"]), lines(&["a"]), lines(&[]), lines(&["a", "z"])];
    assert_eq!(rising_order(&keys), vec![4, 3, 1, 0]);
    assert_eq!(rising_order(&vec![]), Vec::<usize>::new());
    let sorted: Vec<String> = sort_names(&lines(&["b", "a", "b", "", "ab"])).iter().map(|n| n.iter().collect()).collect();
    assert_eq!(sorted, vec!["", "a", "ab", "b"]);
}

#[test]
fn names_are_numbered_from_one() {
    assert_eq!(string_of(&decimal_chars(0)), "0");
    assert_eq!(string_of(&decimal_chars(7)), "7");
    assert_eq!(string_of(&decimal_chars(10)), "10");
    assert_eq!(string_of(&decimal_chars(10_000)), "10000");
    assert_eq!(string_of(&decimal_chars(u32::MAX)), "4294967295");
    assert_eq!(string_of(&numbered(&chars("x.bak"), 0)), "x.bak");
    assert_eq!(string_of(&numbered(&chars("x.bak"), 12)), "x.bak.12");
    let taken = lines(&["f", "f.1", "f.3"]);
    assert_eq!(first_unused_name(&taken, &chars("f")), Some((chars("f.2"), 2)));
    assert_eq!(first_unused_name(&taken, &chars("g")), Some((chars("g"), 0)));
}

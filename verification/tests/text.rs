use mashinka::grow::lang::lines_of;
use mashinka::text::{
    chars_of, find, join_text, keep_letters_and_numbers, letter_or_number, replace, same,
    split_once_text, split_text, string_of, trim, whitespace,
};

fn chars(s: &str) -> Vec<char> {
    s.chars().collect()
}

fn strings(list: Vec<Vec<char>>) -> Vec<String> {
    list.iter().map(|v| v.iter().collect()).collect()
}

#[test]
fn chars_and_strings_go_both_ways() {
    assert_eq!(vec!['ж', 'a', ' ', '7'], chars_of("жa 7"));
    assert_eq!("жa 7", string_of(&vec!['ж', 'a', ' ', '7']));
    assert_eq!("", string_of(&chars_of("")));
}

#[test]
fn whitespace_is_what_std_calls_whitespace() {
    for code in 0..=0x10FFFF_u32 {
        if let Some(c) = char::from_u32(code) {
            assert_eq!(c.is_whitespace(), whitespace(c), "U+{:04X}", code);
        }
    }
}

#[test]
fn trim_is_what_std_trims() {
    for s in ["", " ", "a", "  a b \n", "\u{a0}x\u{3000}", "\t\r\n", "a\u{85}", " - "] {
        assert_eq!(s.trim(), string_of(&trim(&chars(s))), "{:?}", s);
    }
}

#[test]
fn find_gives_the_first_occurrence() {
    assert_eq!(Some(2), find(&chars("ab--c--"), &chars("--"), 0));
    assert_eq!(Some(5), find(&chars("ab--c--"), &chars("--"), 3));
    assert_eq!(None, find(&chars("ab--c--"), &chars("--"), 6));
    assert_eq!(None, find(&chars("ab"), &chars("abc"), 0));
    assert_eq!(Some(0), find(&chars("ab"), &chars(""), 0));
}

#[test]
fn split_is_what_std_splits() {
    for (s, pat) in [
        ("a,b,,c", ","),
        ("", ","),
        (",", ","),
        ("a---b------c", "---"),
        ("aaaa", "aa"),
        ("abc", ""),
        ("", ""),
        ("бумага,А4,297 мм", ","),
    ] {
        let expected: Vec<String> = s.split(pat).map(ToString::to_string).collect();
        assert_eq!(expected, strings(split_text(&chars(s), &chars(pat))), "{:?} {:?}", s, pat);
    }
}

#[test]
fn split_once_is_what_std_splits_once() {
    for (s, pat) in [("a:b:c", ":"), ("abc", ":"), (":", ":"), ("k: v", ": "), ("", ":")] {
        let expected = s.split_once(pat).map(|(a, b)| (chars(a), chars(b)));
        assert_eq!(expected, split_once_text(&chars(s), &chars(pat)), "{:?}", s);
    }
}

#[test]
fn replace_is_what_std_replaces() {
    for (s, pat, rep) in [
        ("[a] and [a]", "[a]", "x"),
        ("aaa", "aa", "b"),
        ("abc", "", "-"),
        ("abc", "d", "e"),
        ("", "a", "b"),
        ("[k][k]", "[k]", "[k]"),
    ] {
        assert_eq!(
            s.replace(pat, rep),
            string_of(&replace(&chars(s), &chars(pat), &chars(rep))),
            "{:?} {:?} {:?}",
            s,
            pat,
            rep
        );
    }
}

#[test]
fn join_puts_the_separator_between_the_pieces() {
    assert_eq!("a, b, c", string_of(&join_text(&vec![chars("a"), chars("b"), chars("c")], &chars(", "))));
    assert_eq!("a", string_of(&join_text(&vec![chars("a")], &chars(","))));
    assert_eq!("", string_of(&join_text(&Vec::new(), &chars(","))));
}

#[test]
fn same_compares_scalar_value_by_scalar_value() {
    assert!(same(&chars("ab"), &chars("ab")));
    assert!(!same(&chars("ab"), &chars("ac")));
    assert!(!same(&chars("ab"), &chars("abc")));
}

#[test]
fn letters_and_numbers_are_kept() {
    assert_eq!("title", string_of(&keep_letters_and_numbers(&chars("$title@"))));
    assert_eq!("published", string_of(&keep_letters_and_numbers(&chars("  published"))));
    assert_eq!("заголовок7", string_of(&keep_letters_and_numbers(&chars("заголовок-7!"))));
}

#[test]
fn lines_are_what_std_calls_lines() {
    for s in ["", "a", "a\n", "a\nb", "a\r\nb\r\n", "a\r", "\n", "\n\n", "a\n\nb", "\r\n", "a\r\r\n"] {
        let expected: Vec<String> = s.lines().map(ToString::to_string).collect();
        assert_eq!(expected, strings(lines_of(&chars(s))), "{:?}", s);
    }
}

#[test]
fn letter_or_number_is_what_std_calls_alphanumeric() {
    for code in 0..=0x10FFFF_u32 {
        if let Some(c) = char::from_u32(code) {
            assert_eq!(c.is_alphanumeric(), letter_or_number(c), "U+{:04X}", code);
        }
    }
}

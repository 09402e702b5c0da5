use tito::error::decimal;
use tito::settings::split_colons;
use tito::text::{chars_of, extend, is_blank, replace, slice, stands_at, text_of, trim};

fn chars(s: &str) -> Vec<char> {
    s.chars().collect()
}

#[test]
fn trim_agrees_with_the_standard_library() {
    for s in [
        "",
        " ",
        "\n\t \r",
        "a",
        " a",
        "a ",
        "  a b  ",
        "Hello, Tito! \n",
        "\u{a0}x\u{2009}y\u{3000}",
        "\u{1680}\u{2028}\u{2029}\u{202f}\u{205f}z\u{85}\u{c}\u{b}",
        "\u{200b}not blank\u{feff}",
        "\u{1f916} robot \u{1f916}",
    ] {
        assert_eq!(trim(s), s.trim());
    }
}

#[test]
fn blank_characters_are_those_of_the_standard_library() {
    for code in 0u32..0x3100 {
        if let Some(c) = char::from_u32(code) {
            assert_eq!(is_blank(c), c.is_whitespace());
        }
    }
    assert!(!is_blank('\u{1f916}'));
    assert!(!is_blank('\u{feff}'));
}

#[test]
fn replace_agrees_with_the_standard_library() {
    for (s, pattern, value) in [
        ("", "ab", "x"),
        ("ab", "ab", "x"),
        ("abab", "ab", ""),
        ("aaa", "aa", "b"),
        ("aaaa", "aa", "b"),
        ("ababa", "aba", "-"),
        ("{pwd}/a.exe", "{pwd}", "/tmp/w"),
        ("{{pwd}}", "{pwd}", "x"),
        ("{pwd", "{pwd}", "x"),
        ("\u{e9}t\u{e9}", "t", "\u{1f916}"),
        ("xyz", "abcdef", "!"),
        ("a.b.c", ".", ".."),
    ] {
        assert_eq!(replace(s, pattern, value), s.replace(pattern, value));
    }
}

#[test]
fn replacement_is_not_searched_again() {
    assert_eq!(replace("ab", "a", "aa"), "aab");
    assert_eq!(replace("{pwd}", "{pwd}", "{pwd}{pwd}"), "{pwd}{pwd}");
}

#[test]
fn split_agrees_with_the_standard_library() {
    for s in ["", ":", "::", "a", "a:b", "a:b:c", ":a", "a:", "a::b", "C:\\x:y:", "\u{e9}:\u{1f916}"] {
        let expected: Vec<String> = s.split(':').map(|part| part.to_string()).collect();
        assert_eq!(split_colons(s), expected);
    }
}

#[test]
fn decimal_digits() {
    for n in [0usize, 1, 9, 10, 11, 99, 100, 101, 307, 1000, 65535, 4294967295, usize::MAX] {
        assert_eq!(decimal(n), n.to_string());
    }
    assert_eq!(decimal(0), "0");
    assert_eq!(decimal(120), "120");
}

#[test]
fn slices_and_extensions() {
    let text = chars("hello");
    assert_eq!(slice(&text, 0, 5), text);
    assert_eq!(slice(&text, 1, 3), chars("el"));
    assert_eq!(slice(&text, 2, 2), chars(""));
    let mut out = chars("ab");
    extend(&mut out, &chars("cd"));
    assert_eq!(out, chars("abcd"));
    extend(&mut out, &chars(""));
    assert_eq!(out, chars("abcd"));
}

#[test]
fn pattern_stands_where_its_characters_stand() {
    let text = chars("abcabc");
    assert!(stands_at(&text, &chars("abc"), 0));
    assert!(stands_at(&text, &chars("abc"), 3));
    assert!(!stands_at(&text, &chars("abc"), 1));
    assert!(stands_at(&text, &chars(""), 6));
    assert!(!stands_at(&text, &chars("abd"), 3));
}

#[test]
fn characters_and_back() {
    for s in ["", "a", "h\u{e9}llo", "\u{1f916}:\u{3000}"] {
        assert_eq!(chars_of(s), chars(s));
        assert_eq!(text_of(&chars(s)), s);
    }
    assert_eq!(chars_of("ab"), vec!['a', 'b']);
    assert_eq!(text_of(&vec!['x', 'y', 'z']), "xyz");
}

use agent_workspace::text::{
    chars_of, contains_text, decimal, find, find_char, is_ascii_alphanumeric, is_ascii_digit,
    is_whitespace, join, parse_u32, push_unique, split_once, str_eq, string_of,
    to_ascii_lowercase, trim, trim_end_char, trim_end_text, trimmed_nonempty,
};

fn chars(text: &str) -> Vec<char> {
    text.chars().collect()
}

fn text(cs: &[char]) -> String {
    cs.iter().collect()
}

#[test]
fn character_classes_agree_with_the_standard_library() {
    for code in 0u32..=0x10FFFF {
        if let Some(c) = char::from_u32(code) {
            assert_eq!(is_whitespace(c), c.is_whitespace(), "white space: {code:#x}");
            assert_eq!(is_ascii_digit(c), c.is_ascii_digit(), "digit: {code:#x}");
            assert_eq!(
                is_ascii_alphanumeric(c),
                c.is_ascii_alphanumeric(),
                "alphanumeric: {code:#x}"
            );
            assert_eq!(to_ascii_lowercase(c), c.to_ascii_lowercase(), "lower: {code:#x}");
        }
    }
}

#[test]
fn conversions_keep_every_character() {
    for sample in ["", "a", "caf\u{e9} \u{1F600}\n", "  x  "] {
        assert_eq!(chars_of(sample), chars(sample));
        assert_eq!(string_of(&chars(sample)), sample);
    }
}

#[test]
fn trimming_agrees_with_the_standard_library() {
    for sample in [
        "",
        " ",
        "a",
        "  a  ",
        "\t\na b\r\n",
        "\u{a0}x\u{3000}",
        " \u{2028} ",
        "x ",
        " x",
        "\u{200b}x",
    ] {
        assert_eq!(text(trim(&chars(sample))), sample.trim(), "sample: {sample:?}");
    }
}

#[test]
fn trimmed_nonempty_is_none_for_blank_input() {
    assert_eq!(trimmed_nonempty(""), None);
    assert_eq!(trimmed_nonempty(" \t\n"), None);
    assert_eq!(trimmed_nonempty("  a b  "), Some(String::from("a b")));
    assert_eq!(trimmed_nonempty("x"), Some(String::from("x")));
}

#[test]
fn push_unique_keeps_the_first_occurrence() {
    let mut values = vec![String::from("a")];
    push_unique(&mut values, String::from("b"));
    push_unique(&mut values, String::from("a"));
    push_unique(&mut values, String::from("b"));
    push_unique(&mut values, String::from("c"));
    assert_eq!(values, vec!["a", "b", "c"]);
    assert!(contains_text(&values, "b"));
    assert!(!contains_text(&values, "d"));
}

#[test]
fn searching_finds_the_first_occurrence() {
    assert_eq!(find_char(&chars("a/b/c"), '/'), 1);
    assert_eq!(find_char(&chars("abc"), '/'), 3);
    assert_eq!(find_char(&chars(""), '/'), 0);
    assert_eq!(find(&chars("a..b..c"), &chars("..")), Some(1));
    assert_eq!(find(&chars("a.b.c"), &chars("..")), None);
    assert_eq!(find(&chars("abc"), &chars("")), Some(0));
    assert_eq!(find(&chars(""), &chars("")), Some(0));
    assert_eq!(find(&chars("ab"), &chars("abc")), None);
    assert_eq!(find(&chars("xxab"), &chars("ab")), Some(2));
}

#[test]
fn splitting_agrees_with_the_standard_library() {
    for sample in ["a/b", "a/b/c", "/", "", "abc", "a/", "/b"] {
        let cs = chars(sample);
        let ours = split_once(&cs, '/').map(|(head, tail)| (text(head), text(tail)));
        let theirs = sample.split_once('/').map(|(h, t)| (h.to_string(), t.to_string()));
        assert_eq!(ours, theirs, "sample: {sample:?}");
    }
}

#[test]
fn trailing_text_is_removed_as_often_as_it_stands() {
    for sample in ["repo.git", "repo.git.git", "repo", ".git", "", "repo.gi", "a.git/"] {
        assert_eq!(
            text(trim_end_text(&chars(sample), &chars(".git"))),
            sample.trim_end_matches(".git"),
            "sample: {sample:?}"
        );
        assert_eq!(
            text(trim_end_char(&chars(sample), '/')),
            sample.trim_end_matches('/'),
            "sample: {sample:?}"
        );
    }
    assert_eq!(text(trim_end_char(&chars("a///"), '/')), "a");
    assert_eq!(text(trim_end_text(&chars("abc"), &chars(""))), "abc");
}

#[test]
fn strings_compare_by_their_characters() {
    assert!(str_eq("", ""));
    assert!(str_eq("auth", "auth"));
    assert!(!str_eq("auth", "Auth"));
    assert!(!str_eq("auth", "auth "));
}

#[test]
fn numbers_are_read_as_the_standard_library_reads_them() {
    for sample in [
        "0",
        "3",
        "007",
        "+5",
        "4294967295",
        "4294967296",
        "99999999999999999999999",
        "",
        "+",
        "-1",
        "1a",
        " 1",
        "1 ",
        "++1",
        "\u{663}",
    ] {
        assert_eq!(parse_u32(&chars(sample)), sample.parse::<u32>().ok(), "sample: {sample:?}");
    }
}

#[test]
fn numbers_are_written_in_decimal() {
    for n in [0u64, 7, 10, 99, 100, 1700000000, u64::MAX] {
        assert_eq!(decimal(n), n.to_string());
    }
}

#[test]
fn joining_puts_the_separator_between_the_texts() {
    let list = vec![String::from("a"), String::from("b"), String::from("c")];
    assert_eq!(join(&list, ", "), "a, b, c");
    assert_eq!(join(&list[..1], ", "), "a");
    assert_eq!(join(&[], ", "), "");
}

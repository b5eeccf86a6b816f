use regex::Regex;
use udiffx::text::{
    chars_of, decimal_chars, find_chars, is_ascii_punctuation_char, is_whitespace_char,
    join_chars, lines_chars, lowercase_chars, normalize_ws_chars, replace_crlf_chars,
    split_chars, string_of, strip_whitespace_chars, trim_chars, trim_end_punctuation_chars,
    utf8_len_of, wide_decimal_chars,
};

fn chars(s: &str) -> Vec<char> {
    s.chars().collect()
}

fn text(v: &Vec<char>) -> String {
    v.iter().collect()
}

fn texts(v: &Vec<Vec<char>>) -> Vec<String> {
    v.iter().map(text).collect()
}

const SAMPLES: [&str; 12] = [
    "",
    " ",
    "a",
    "  a b  ",
    "\ta\u{a0}b\u{3000}c\r",
    "fn   main()  {",
    "line 1\nline 2\r\nline 3\n",
    "\n",
    "\r\n\r\n",
    "tail\r",
    "é \u{2003} ü\u{85}",
    "a\n\nb",
];

#[test]
fn test_chars_round_trip() {
    for s in SAMPLES {
        assert_eq!(chars_of(s), chars(s));
        assert_eq!(string_of(&chars(s)), s);
    }
}

#[test]
fn test_is_whitespace_agrees_with_std_on_every_char() {
    for n in 0..=0x10ffffu32 {
        if let Some(c) = char::from_u32(n) {
            assert_eq!(is_whitespace_char(c), c.is_whitespace(), "U+{:04X}", n);
        }
    }
}

#[test]
fn test_is_ascii_punctuation_agrees_with_std_on_every_char() {
    for n in 0..=0x10ffffu32 {
        if let Some(c) = char::from_u32(n) {
            assert_eq!(is_ascii_punctuation_char(c), c.is_ascii_punctuation(), "U+{:04X}", n);
        }
    }
}

#[test]
fn test_strip_whitespace_agrees_with_the_whitespace_pattern() {
    let re = Regex::new(r"\s+").unwrap();
    for s in SAMPLES {
        assert_eq!(text(&strip_whitespace_chars(&chars(s))), re.replace_all(s, "").to_string());
    }
    assert_eq!(text(&strip_whitespace_chars(&chars("  a b\tc\n"))), "abc");
}

#[test]
fn test_trim_agrees_with_std() {
    for s in SAMPLES {
        assert_eq!(text(&trim_chars(&chars(s))), s.trim());
    }
    assert_eq!(text(&trim_chars(&chars("  a b  "))), "a b");
}

#[test]
fn test_split_agrees_with_std() {
    for s in SAMPLES {
        let expected: Vec<String> = s.split('\n').map(|p| p.to_string()).collect();
        assert_eq!(texts(&split_chars(&chars(s), '\n')), expected);
    }
    assert_eq!(texts(&split_chars(&chars("a\nb\n"), '\n')), vec!["a", "b", ""]);
    assert_eq!(texts(&split_chars(&chars(""), '\n')), vec![""]);
}

#[test]
fn test_lines_agrees_with_std() {
    for s in SAMPLES {
        let expected: Vec<String> = s.lines().map(|p| p.to_string()).collect();
        assert_eq!(texts(&lines_chars(&chars(s))), expected, "{:?}", s);
    }
    assert_eq!(texts(&lines_chars(&chars("a\r\nb\n"))), vec!["a", "b"]);
    assert_eq!(texts(&lines_chars(&chars("a\nb\r"))), vec!["a", "b\r"]);
    assert!(lines_chars(&chars("")).is_empty());
}

#[test]
fn test_join_is_the_inverse_of_split() {
    for s in SAMPLES {
        let parts = split_chars(&chars(s), '\n');
        assert_eq!(text(&join_chars(&parts, &chars("\n"))), s);
    }
    let parts = vec![chars("a"), chars("b"), chars("")];
    assert_eq!(text(&join_chars(&parts, &chars(", "))), "a, b, ");
    assert_eq!(text(&join_chars(&Vec::new(), &chars(", "))), "");
}

#[test]
fn test_normalize_ws_agrees_with_std() {
    for s in SAMPLES {
        let expected = s.split_whitespace().collect::<Vec<_>>().join(" ");
        assert_eq!(text(&normalize_ws_chars(&chars(s))), expected);
    }
    assert_eq!(text(&normalize_ws_chars(&chars("fn   main()  {"))), "fn main() {");
}

#[test]
fn test_replace_crlf_agrees_with_std() {
    for s in SAMPLES {
        assert_eq!(text(&replace_crlf_chars(&chars(s))), s.replace("\r\n", "\n"));
    }
    assert_eq!(text(&replace_crlf_chars(&chars("a\r\r\nb\r"))), "a\r\nb\r");
}

#[test]
fn test_lowercase_is_that_of_std() {
    assert_eq!(text(&lowercase_chars(&chars("## Section Title"))), "## section title");
    assert_eq!(text(&lowercase_chars(&chars("ÀÉ Σ"))), "ÀÉ Σ".to_lowercase());
}

#[test]
fn test_trim_end_punctuation() {
    assert_eq!(text(&trim_end_punctuation_chars(&chars("done..."))), "done");
    assert_eq!(text(&trim_end_punctuation_chars(&chars("a.b"))), "a.b");
    assert_eq!(text(&trim_end_punctuation_chars(&chars("?!"))), "");
    for s in SAMPLES {
        assert_eq!(
            text(&trim_end_punctuation_chars(&chars(s))),
            s.trim_end_matches(|c: char| c.is_ascii_punctuation())
        );
    }
}

#[test]
fn test_find_agrees_with_std() {
    let hay = "abcabc";
    for pat in ["", "a", "bc", "cab", "abcabc", "abcabcd", "x"] {
        assert_eq!(find_chars(&chars(hay), &chars(pat)), hay.find(pat), "{:?}", pat);
    }
    assert_eq!(find_chars(&chars(""), &chars("")), Some(0));
    assert_eq!(find_chars(&chars(""), &chars("a")), None);
}

#[test]
fn test_decimal() {
    for n in [0usize, 1, 9, 10, 11, 99, 100, 12345, usize::MAX] {
        assert_eq!(text(&decimal_chars(n)), n.to_string());
    }
    assert_eq!(text(&wide_decimal_chars(u128::MAX)), u128::MAX.to_string());
    assert_eq!(text(&wide_decimal_chars(usize::MAX as u128 + 1)), (usize::MAX as u128 + 1).to_string());
}

#[test]
fn test_utf8_len() {
    for s in SAMPLES {
        assert_eq!(utf8_len_of(&chars(s)), s.len());
    }
    assert_eq!(utf8_len_of(&chars("é€😀a")), 2 + 3 + 4 + 1);
}

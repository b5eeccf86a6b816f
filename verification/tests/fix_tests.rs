use regex::Regex;
use udiffx::hashline::fix::{
    equals_ignoring_whitespace, leading_whitespace, restore_indent_for_paired_replacement,
    restore_leading_indent, splice_lines, strip_all_whitespace, strip_insert_anchor_echo_after,
    strip_insert_anchor_echo_before, strip_insert_boundary_echo, strip_merge_operator_chars,
    strip_range_boundary_echo, strip_trailing_continuation_tokens,
};
use udiffx::hashline::merge::{is_covered, maybe_expand_single_line_merge, LineSpan};
use udiffx::hashline::wrap::restore_old_wrapped_lines;

fn chars(s: &str) -> Vec<char> {
    s.chars().collect()
}

fn text(v: &Vec<char>) -> String {
    v.iter().collect()
}

fn lines(v: &[&str]) -> Vec<Vec<char>> {
    v.iter().map(|s| chars(s)).collect()
}

fn texts(v: &Vec<Vec<char>>) -> Vec<String> {
    v.iter().map(text).collect()
}

#[test]
fn test_equals_ignoring_whitespace() {
    assert!(equals_ignoring_whitespace(&chars("a b"), &chars("a b")));
    assert!(equals_ignoring_whitespace(&chars("  a b "), &chars("ab")));
    assert!(equals_ignoring_whitespace(&chars(""), &chars(" \t")));
    assert!(!equals_ignoring_whitespace(&chars("a b"), &chars("a c")));
    assert!(!equals_ignoring_whitespace(&chars("A"), &chars("a")));
    assert_eq!(text(&strip_all_whitespace(&chars(" a\tb \u{2003}c"))), "abc");
}

#[test]
fn test_strip_trailing_continuation_tokens() {
    let strip = |s: &str| text(&strip_trailing_continuation_tokens(&chars(s)));
    assert_eq!(strip("a&&"), "a");
    assert_eq!(strip("a||"), "a");
    assert_eq!(strip("a??"), "a");
    assert_eq!(strip("a???"), "a?");
    assert_eq!(strip("a?"), "a");
    assert_eq!(strip("a|||"), "a|");
    assert_eq!(strip("a&"), "a&");
    assert_eq!(strip("a|"), "a|");
    for t in [":", "=", ",", "+", "-", "*", "/", ".", "("] {
        assert_eq!(strip(&format!("x{}", t)), "x");
    }
    assert_eq!(strip("a=="), "a=");
    assert_eq!(strip("a &&  \t"), "a ");
    assert_eq!(strip("a =\u{a0}"), "a ");
    // without a connective the text stays as it is, whitespace and all
    assert_eq!(strip("a;  "), "a;  ");
    assert_eq!(strip("a)"), "a)");
    assert_eq!(strip(""), "");
    assert_eq!(strip("  "), "  ");
    assert_eq!(strip("&&"), "");
}

#[test]
fn test_strip_merge_operator_chars() {
    assert_eq!(text(&strip_merge_operator_chars(&chars("a&&b||c??d?e|f&g"))), "abcdefg");
    assert_eq!(text(&strip_merge_operator_chars(&chars("a + b"))), "a + b");
    assert_eq!(text(&strip_merge_operator_chars(&chars("|&?"))), "");
}

#[test]
fn test_leading_whitespace() {
    assert_eq!(text(&leading_whitespace(&chars("  \tx y "))), "  \t");
    assert_eq!(text(&leading_whitespace(&chars("x"))), "");
    assert_eq!(text(&leading_whitespace(&chars("   "))), "   ");
    assert_eq!(text(&leading_whitespace(&chars(""))), "");
}

#[test]
fn test_restore_leading_indent() {
    let restore = |t: &str, l: &str| text(&restore_leading_indent(&chars(t), &chars(l)));
    assert_eq!(restore("    old", "new"), "    new");
    assert_eq!(restore("\told", "new"), "\tnew");
    assert_eq!(restore("    old", " new"), " new");
    assert_eq!(restore("old", "new"), "new");
    assert_eq!(restore("    old", ""), "");
}

#[test]
fn test_restore_indent_for_paired_replacement() {
    let old = lines(&["  a", "    b", "c"]);
    let new = lines(&["x", "y", "z"]);
    assert_eq!(
        texts(&restore_indent_for_paired_replacement(&old, &new)),
        vec!["  x", "    y", "z"]
    );
    // another number of lines: nothing is restored
    let new = lines(&["x", "y"]);
    assert_eq!(texts(&restore_indent_for_paired_replacement(&old, &new)), vec!["x", "y"]);
}

#[test]
fn test_splice_lines() {
    let base = lines(&["a", "b", "c"]);
    assert_eq!(texts(&splice_lines(&base, 1, 2, &lines(&["x", "y"]))), vec!["a", "x", "y", "c"]);
    assert_eq!(texts(&splice_lines(&base, 0, 3, &Vec::new())), Vec::<String>::new());
    assert_eq!(texts(&splice_lines(&base, 3, 3, &lines(&["x"]))), vec!["a", "b", "c", "x"]);
    // an index beyond the end counts as the end
    assert_eq!(texts(&splice_lines(&base, 2, 9, &lines(&["x"]))), vec!["a", "b", "x"]);
    assert_eq!(texts(&splice_lines(&base, 7, 9, &lines(&["x"]))), vec!["a", "b", "c", "x"]);
    assert_eq!(texts(&splice_lines(&base, 2, 1, &lines(&["x"]))), vec!["a", "b", "x", "c"]);
}

#[test]
fn test_strip_insert_anchor_echo() {
    let dst = lines(&[" anchor ", "new"]);
    assert_eq!(texts(&strip_insert_anchor_echo_after(&chars("anchor"), &dst)), vec!["new"]);
    assert_eq!(
        texts(&strip_insert_anchor_echo_before(&chars("anchor"), &dst)),
        vec![" anchor ", "new"]
    );
    let dst = lines(&["new", "anchor"]);
    assert_eq!(texts(&strip_insert_anchor_echo_before(&chars("anchor"), &dst)), vec!["new"]);
    // a single line is never left out
    let dst = lines(&["anchor"]);
    assert_eq!(texts(&strip_insert_anchor_echo_after(&chars("anchor"), &dst)), vec!["anchor"]);
    assert_eq!(texts(&strip_insert_anchor_echo_before(&chars("anchor"), &dst)), vec!["anchor"]);
    let dst = lines(&["up", "new", "down"]);
    assert_eq!(
        texts(&strip_insert_boundary_echo(&chars("up"), &chars("down"), &dst)),
        vec!["new"]
    );
    let dst = lines(&["up", "down"]);
    assert_eq!(
        texts(&strip_insert_boundary_echo(&chars("up"), &chars("down"), &dst)),
        vec!["down"]
    );
}

#[test]
fn test_strip_range_boundary_echo() {
    let file = lines(&["a", "b", "c", "d"]);
    let strip = |start: usize, end: usize, dst: &[&str]| {
        texts(&strip_range_boundary_echo(&file, start, end, &lines(dst)))
    };
    assert_eq!(strip(2, 2, &["a", "B", "c"]), vec!["B"]);
    assert_eq!(strip(2, 3, &["a", "B", "C"]), vec!["B", "C"]);
    assert_eq!(strip(2, 3, &["B", "C", "d"]), vec!["B", "C"]);
    // no more lines than the range: nothing is left out
    assert_eq!(strip(2, 3, &["a", "d"]), vec!["a", "d"]);
    assert_eq!(strip(2, 2, &["a"]), vec!["a"]);
    // nothing stands above the first line, or below the last
    assert_eq!(strip(1, 1, &["a", "b"]), vec!["a"]);
    assert_eq!(strip(4, 4, &["c", "d"]), vec!["d"]);
    assert_eq!(strip(4, 4, &["x", "d"]), vec!["x", "d"]);
}

#[test]
fn test_restore_old_wrapped_lines() {
    let restore = |old: &[&str], new: &[&str]| {
        texts(&restore_old_wrapped_lines(&lines(old), &lines(new)))
    };
    assert_eq!(
        restore(&["let total = first + second;"], &["let total = first", "    + second;"]),
        vec!["let total = first + second;"]
    );
    assert_eq!(
        restore(
            &["head", "call(alpha, beta, gamma);", "tail"],
            &["HEAD", "call(alpha,", "  beta,", "  gamma);", "TAIL"]
        ),
        vec!["HEAD", "call(alpha, beta, gamma);", "TAIL"]
    );
    // fewer than six bytes: left as it is
    assert_eq!(restore(&["a + b"], &["a +", "b"]), vec!["a +", "b"]);
    assert_eq!(restore(&["ab cde"], &["ab", "cde"]), vec!["ab", "cde"]);
    // bytes are counted, not characters: three of two bytes each are enough
    assert_eq!(restore(&["éé é"], &["éé", "é"]), vec!["éé é"]);
    assert_eq!(restore(&["abc def"], &["abc", "def"]), vec!["abc def"]);
    // two old lines with that text: left as it is
    assert_eq!(
        restore(&["abc def ghi", "abcdefghi"], &["abc def", "ghi"]),
        vec!["abc def", "ghi"]
    );
    // two runs for the same old line: left as they are
    assert_eq!(
        restore(&["abcdefgh"], &["abcd", "efgh", "abcd", "efgh"]),
        vec!["abcd", "efgh", "abcd", "efgh"]
    );
    assert_eq!(restore(&[], &["abcd", "efgh"]), vec!["abcd", "efgh"]);
    assert_eq!(restore(&["abcdefgh"], &["abcdefgh"]), vec!["abcdefgh"]);
    // two old lines, each wrapped
    assert_eq!(
        restore(&["first line here", "second line here"], &["first", "line here", "second line", "here"]),
        vec!["first line here", "second line here"]
    );
}

#[test]
fn test_is_covered() {
    let spans = vec![LineSpan { first: 2, last: 4 }, LineSpan { first: 7, last: 7 }];
    for (n, expected) in [(1, false), (2, true), (3, true), (4, true), (5, false), (7, true), (8, false)] {
        assert_eq!(is_covered(&spans, n), expected, "{}", n);
    }
    assert!(!is_covered(&Vec::new(), 1));
}

#[test]
fn test_maybe_expand_single_line_merge() {
    let file = lines(&["line1 &&", "line2", "tail"]);
    let touched = vec![LineSpan { first: 1, last: 1 }];
    let content = lines(&["line1 || line2"]);
    let m = maybe_expand_single_line_merge(1, &content, &file, &touched).unwrap();
    assert_eq!((m.start_line, m.delete_count), (1, 2));
    assert_eq!(texts(&m.new_lines), vec!["line1 || line2"]);

    // the line below is named by an edit
    let touched2 = vec![LineSpan { first: 1, last: 2 }];
    assert!(maybe_expand_single_line_merge(1, &content, &file, &touched2).is_none());
    // more than one new line
    let two = lines(&["line1 ||", "line2"]);
    assert!(maybe_expand_single_line_merge(1, &two, &file, &touched).is_none());
    // no such line
    assert!(maybe_expand_single_line_merge(0, &content, &file, &touched).is_none());
    assert!(maybe_expand_single_line_merge(4, &content, &file, &touched).is_none());
    // the line does not end with a connective
    let plain = lines(&["line1", "line2", "tail"]);
    assert!(maybe_expand_single_line_merge(1, &content, &plain, &touched).is_none());
    // the new line holds the two texts in the other order
    let swapped = lines(&["line2 || line1"]);
    assert!(maybe_expand_single_line_merge(1, &swapped, &file, &touched).is_none());
    // the new line is more than 32 characters longer than both lines
    let long = lines(&["line1 || line2 /* and a very long remark that was not there */"]);
    assert!(maybe_expand_single_line_merge(1, &long, &file, &touched).is_none());

    // the line above is absorbed
    let file = lines(&["let x = first +", "second", "tail"]);
    let touched = vec![LineSpan { first: 2, last: 2 }];
    let content = lines(&["let x = first + second"]);
    let m = maybe_expand_single_line_merge(2, &content, &file, &touched).unwrap();
    assert_eq!((m.start_line, m.delete_count), (1, 2));
    let touched = vec![LineSpan { first: 1, last: 2 }];
    assert!(maybe_expand_single_line_merge(2, &content, &file, &touched).is_none());
}

fn all_texts(alphabet: &[char], max_len: usize) -> Vec<String> {
    let mut out = vec![String::new()];
    let mut last = vec![String::new()];
    for _ in 0..max_len {
        let mut next = Vec::new();
        for t in &last {
            for c in alphabet {
                let mut u = t.clone();
                u.push(*c);
                next.push(u);
            }
        }
        out.extend(next.iter().cloned());
        last = next;
    }
    out
}

#[test]
fn test_continuation_tokens_agree_with_the_pattern() {
    let re = Regex::new(r"(?:&&|\|\||\?\?|\?|:|=|,|\+|-|\*|/|\.|\()\s*$").unwrap();
    let alphabet = ['a', '&', '|', '?', '=', ' ', '(', '.', '\n'];
    for t in all_texts(&alphabet, 5) {
        assert_eq!(
            text(&strip_trailing_continuation_tokens(&chars(&t))),
            re.replace_all(&t, "").to_string(),
            "{:?}",
            t
        );
    }
}

#[test]
fn test_merge_operators_agree_with_the_pattern() {
    let re = Regex::new(r"[|&?]").unwrap();
    let alphabet = ['a', '&', '|', '?', ' '];
    for t in all_texts(&alphabet, 5) {
        assert_eq!(
            text(&strip_merge_operator_chars(&chars(&t))),
            re.replace_all(&t, "").to_string(),
            "{:?}",
            t
        );
    }
}

use regex::Regex;
use udiffx::hashline::{
    apply_hashline_edits, compute_line_hash, format_hash_lines, format_line_tag, parse_edit,
    parse_tag, stream_hash_lines_from_lines, stream_hash_lines_from_utf8, validate_line_ref,
    HashlineEdit, HashlineError, HashlineStreamOptions, LineTag,
};

fn make_tag(line: usize, content: &str) -> LineTag {
    parse_tag(&format_line_tag(line, content)).unwrap()
}

fn tag_pattern() -> Regex {
    Regex::new(r"^\s*[>+-]*\s*(\d+)\s*#\s*([ZPMQVRWSNKTXJBYH]{2})").unwrap()
}

#[test]
fn test_compute_line_hash() {
    let hash = compute_line_hash(1, "hello");
    assert!(tag_pattern().is_match(&format!("1#{}", hash)));

    let a = compute_line_hash(1, "hello");
    let b = compute_line_hash(1, "hello");
    assert_eq!(a, b);

    let c = compute_line_hash(1, "world");
    assert_ne!(a, c);

    let empty = compute_line_hash(1, "");
    assert_eq!(empty.len(), 2);
}

#[test]
fn test_format_hash_lines() {
    let result = format_hash_lines("hello", 1);
    let hash = compute_line_hash(1, "hello");
    assert_eq!(result, format!("1#{}:hello", hash));

    let result = format_hash_lines("foo\nbar\nbaz", 1);
    let lines: Vec<&str> = result.split('\n').collect();
    assert_eq!(lines.len(), 3);
    assert!(lines[0].starts_with("1#"));
    assert!(lines[1].starts_with("2#"));
    assert!(lines[2].starts_with("3#"));

    let result = format_hash_lines("foo\nbar", 10);
    let lines: Vec<&str> = result.split('\n').collect();
    assert!(lines[0].starts_with("10#"));
    assert!(lines[1].starts_with("11#"));
}

#[test]
fn test_parse_tag() {
    let ref_tag = parse_tag("5#QQ").unwrap();
    assert_eq!(ref_tag.line, 5);
    assert_eq!(ref_tag.hash, "QQ");

    assert!(parse_tag("1#Q").is_err());

    let ref_tag = parse_tag("100#QQQQ").unwrap();
    assert_eq!(ref_tag.line, 100);
    assert_eq!(ref_tag.hash, "QQ");

    assert!(parse_tag("5QQ").is_err());
    assert!(parse_tag("abc#Q").is_err());
    assert!(parse_tag("0#QQ").is_err());
    assert!(parse_tag("").is_err());
}

#[test]
fn test_apply_hashline_edits_replace() {
    let content = "aaa\nbbb\nccc";
    let edits = vec![HashlineEdit::SetLine {
        tag: make_tag(2, "bbb"),
        content: vec!["BBB".to_string()],
    }];

    let result = apply_hashline_edits(content, edits).unwrap();
    assert_eq!(result.content, "aaa\nBBB\nccc");
    assert_eq!(result.first_changed_line, Some(2));
}

#[test]
fn test_apply_hashline_edits_insert_after() {
    let content = "aaa\nbbb\nccc";
    let edits = vec![HashlineEdit::Append {
        after: Some(make_tag(1, "aaa")),
        content: vec!["NEW".to_string()],
    }];

    let result = apply_hashline_edits(content, edits).unwrap();
    assert_eq!(result.content, "aaa\nNEW\nbbb\nccc");
    assert_eq!(result.first_changed_line, Some(2));
}

#[test]
fn test_apply_hashline_edits_delete() {
    let content = "aaa\nbbb\nccc";
    let edits = vec![HashlineEdit::SetLine {
        tag: make_tag(2, "bbb"),
        content: vec![],
    }];

    let result = apply_hashline_edits(content, edits).unwrap();
    assert_eq!(result.content, "aaa\nccc");
    assert_eq!(result.first_changed_line, Some(2));
}

#[test]
fn test_apply_hashline_edits_multiple() {
    let content = "aaa\nbbb\nccc\nddd\neee";
    let edits = vec![
        HashlineEdit::SetLine {
            tag: make_tag(2, "bbb"),
            content: vec!["BBB".to_string()],
        },
        HashlineEdit::SetLine {
            tag: make_tag(4, "ddd"),
            content: vec!["DDD".to_string()],
        },
    ];

    let result = apply_hashline_edits(content, edits).unwrap();
    assert_eq!(result.content, "aaa\nBBB\nccc\nDDD\neee");
    assert_eq!(result.first_changed_line, Some(2));
}

#[test]
fn test_autocorrect_strip_anchor_echo() {
    let content = "aaa\nbbb\nccc";
    let edits = vec![HashlineEdit::Append {
        after: Some(make_tag(2, "bbb")),
        content: vec!["bbb".to_string(), "NEW".to_string()],
    }];

    let result = apply_hashline_edits(content, edits).unwrap();
    assert_eq!(result.content, "aaa\nbbb\nNEW\nccc");
}

#[test]
fn test_autocorrect_merge_next_line() {
    let content = "line1 &&\nline2\ntail";
    let edits = vec![HashlineEdit::SetLine {
        tag: make_tag(1, "line1 &&"),
        content: vec!["line1 || line2".to_string()],
    }];

    let result = apply_hashline_edits(content, edits).unwrap();
    assert_eq!(result.content, "line1 || line2\ntail");
}

fn set_line(line: usize, old: &str, new: &[&str]) -> HashlineEdit {
    HashlineEdit::SetLine {
        tag: make_tag(line, old),
        content: new.iter().map(|s| s.to_string()).collect(),
    }
}

fn lines_of(v: &[&str]) -> Vec<String> {
    v.iter().map(|s| s.to_string()).collect()
}

#[test]
fn test_digest_code() {
    let code = |d: u32| udiffx::hashline::tag::digest_code(d).iter().collect::<String>();
    assert_eq!(code(0xfb0077f9), "HK");
    assert_eq!(code(0x02cc5d05), "ZR");
    assert_eq!(code(0), "ZZ");
    assert_eq!(code(0xff), "HH");
    assert_eq!(code(0x100), "ZZ");
    let alphabet: Vec<char> = "ZPMQVRWSNKTXJBYH".chars().collect();
    for b in 0..256u32 {
        let expected: String = [alphabet[(b >> 4) as usize], alphabet[(b & 0x0f) as usize]].iter().collect();
        assert_eq!(code(0xabcd_ef00 | b), expected);
    }
}

#[test]
fn test_line_hash_known_values() {
    // XXH32 of "hello" with seed 0 is 0xfb0077f9: low byte 0xf9, symbols H and K.
    assert_eq!(compute_line_hash(1, "hello"), "HK");
    // XXH32 of the empty input with seed 0 is 0x02cc5d05: low byte 0x05.
    assert_eq!(compute_line_hash(1, ""), "ZR");
    assert_eq!(compute_line_hash(7, "world"), "XQ");
    assert_eq!(compute_line_hash(1, "NOT_B"), "RM");
}

#[test]
fn test_line_hash_ignores_whitespace_and_line_number() {
    let h = compute_line_hash(1, "fn main() {");
    assert_eq!(h, "WJ");
    assert_eq!(compute_line_hash(99, "fn main() {"), h);
    assert_eq!(compute_line_hash(1, "    fn main() {"), h);
    assert_eq!(compute_line_hash(1, "fn main() {   \t"), h);
    assert_eq!(compute_line_hash(1, "fnmain(){"), h);
    assert_eq!(compute_line_hash(1, "fn main() {\r"), h);
    assert_eq!(compute_line_hash(1, "fn\u{a0}main()\u{3000}{"), h);
    assert_eq!(compute_line_hash(1, "   "), compute_line_hash(1, ""));
}

#[test]
fn test_format_line_tag_exact() {
    assert_eq!(format_line_tag(5, "hello"), "5#HK");
    assert_eq!(format_line_tag(120, ""), "120#ZR");
    assert_eq!(format_line_tag(0, "a"), "0#RW");
}

#[test]
fn test_format_hash_lines_exact() {
    assert_eq!(format_hash_lines("a\nb\nc\n", 1), "1#RW:a\n2#XH:b\n3#PX:c\n4#ZR:");
    assert_eq!(format_hash_lines("", 1), "1#ZR:");
    assert_eq!(format_hash_lines("hello", usize::MAX), format!("{}#HK:hello", usize::MAX));
    assert_eq!(
        format_hash_lines("a\nb", usize::MAX),
        format!("{}#RW:a\n{}#XH:b", usize::MAX, usize::MAX as u128 + 1)
    );
}

#[test]
fn test_tag_round_trip_on_a_file() {
    let content = "fn main() {\n    let x = 1;\n\n}\n";
    let file_lines: Vec<String> = content.split('\n').map(|s| s.to_string()).collect();
    let view = format_hash_lines(content, 1);
    let rows: Vec<&str> = view.split('\n').collect();
    assert_eq!(rows.len(), file_lines.len());
    for (i, row) in rows.iter().enumerate() {
        let tag = parse_tag(row).unwrap();
        assert_eq!(tag.line, i + 1);
        assert!(validate_line_ref(&tag, &file_lines).is_ok());
    }
}

#[test]
fn test_parse_tag_forms() {
    let t = parse_tag("  >+ 12 # QQ rest").unwrap();
    assert_eq!((t.line, t.hash.as_str()), (12, "QQ"));
    let t = parse_tag("->+7#ZH:content").unwrap();
    assert_eq!((t.line, t.hash.as_str()), (7, "ZH"));
    let t = parse_tag("007#PM").unwrap();
    assert_eq!((t.line, t.hash.as_str()), (7, "PM"));
    assert!(parse_tag("5#qq").is_err());
    assert!(parse_tag("5#QA").is_err());
    assert!(parse_tag("x5#QQ").is_err());
    assert!(parse_tag("5 5#QQ").is_err());
}

#[test]
fn test_parse_tag_messages() {
    assert_eq!(
        parse_tag("5QQ").unwrap_err(),
        "Invalid line reference \"5QQ\". Expected format \"LINE#ID\" (e.g. \"5#aa\")."
    );
    assert_eq!(
        parse_tag("0#QQ").unwrap_err(),
        "Line number must be >= 1, got 0 in \"0#QQ\"."
    );
    assert_eq!(
        parse_tag("99999999999999999999999999999999999999999#QQ").unwrap_err(),
        "Invalid line number"
    );
    let max = format!("{}#QQ", usize::MAX);
    assert_eq!(parse_tag(&max).unwrap().line, usize::MAX);
    let over = format!("{}#QQ", usize::MAX as u128 + 1);
    assert_eq!(parse_tag(&over).unwrap_err(), "Invalid line number");
}

#[test]
fn test_parse_tag_agrees_with_the_tag_pattern() {
    let re = tag_pattern();
    let samples = [
        "5#QQ", "1#Q", "100#QQQQ", "5QQ", "abc#Q", "", " 5 # QQ", ">>5#ZP", "+-+12#HH tail",
        "5#", "#QQ", "5#Q Q", "5 #\tJB", "\u{a0}3#KT", "3\u{2003}#\u{3000}XJ", "5#zz", "- 5#QQ",
        "5-#QQ", "12#BYH",
    ];
    for s in samples {
        let parsed = parse_tag(s);
        match re.captures(s) {
            Some(caps) => {
                let tag = parsed.unwrap();
                assert_eq!(tag.line.to_string(), caps[1].trim_start_matches('0'), "{:?}", s);
                assert_eq!(tag.hash, &caps[2], "{:?}", s);
            }
            None => assert!(parsed.is_err(), "{:?}", s),
        }
    }
}

#[test]
fn test_parse_edit_forms() {
    assert_eq!(
        parse_edit("5#QQ:new content").unwrap(),
        HashlineEdit::SetLine {
            tag: LineTag { line: 5, hash: "QQ".to_string() },
            content: lines_of(&["new content"]),
        }
    );
    assert_eq!(
        parse_edit("  4#ZZ-5#PP:replaced  ").unwrap(),
        HashlineEdit::Replace {
            first: LineTag { line: 4, hash: "ZZ".to_string() },
            last: LineTag { line: 5, hash: "PP".to_string() },
            content: lines_of(&["replaced"]),
        }
    );
    assert_eq!(
        parse_edit(">+2#ZZ appended text").unwrap(),
        HashlineEdit::Append {
            after: Some(LineTag { line: 2, hash: "ZZ".to_string() }),
            content: lines_of(&["appended text"]),
        }
    );
    assert_eq!(
        parse_edit("<+3#ZZ prepended").unwrap(),
        HashlineEdit::Prepend {
            before: Some(LineTag { line: 3, hash: "ZZ".to_string() }),
            content: lines_of(&["prepended"]),
        }
    );
    // what follows the colon is kept as it is, up to the trimming of the whole line
    assert_eq!(
        parse_edit("5#QQ:  x: y").unwrap(),
        HashlineEdit::SetLine {
            tag: LineTag { line: 5, hash: "QQ".to_string() },
            content: lines_of(&["  x: y"]),
        }
    );
    assert_eq!(
        parse_edit("5#QQ:").unwrap(),
        HashlineEdit::SetLine {
            tag: LineTag { line: 5, hash: "QQ".to_string() },
            content: lines_of(&[""]),
        }
    );
}

#[test]
fn test_parse_edit_insertion_with_a_colon_in_its_content() {
    assert_eq!(
        parse_edit(">+2#ZZ key: value").unwrap(),
        HashlineEdit::Append {
            after: Some(LineTag { line: 2, hash: "ZZ".to_string() }),
            content: lines_of(&["key: value"]),
        }
    );
    assert_eq!(
        parse_edit("<+3#ZZ a: b").unwrap(),
        HashlineEdit::Prepend {
            before: Some(LineTag { line: 3, hash: "ZZ".to_string() }),
            content: lines_of(&["a: b"]),
        }
    );
    assert_eq!(
        parse_edit("  >+  2#ZZ let x: u8 = 1-2;  ").unwrap(),
        HashlineEdit::Append {
            after: Some(LineTag { line: 2, hash: "ZZ".to_string() }),
            content: lines_of(&["let x: u8 = 1-2;"]),
        }
    );
    assert_eq!(
        parse_edit("<+3#ZZ :").unwrap(),
        HashlineEdit::Prepend {
            before: Some(LineTag { line: 3, hash: "ZZ".to_string() }),
            content: lines_of(&[":"]),
        }
    );
    // a mark without a space behind the tag is no insertion, and no replacement
    assert_eq!(parse_edit(">+2#ZZ:x").unwrap_err(), "Could not parse hashline edit: >+2#ZZ:x");
    assert_eq!(parse_edit("<+3#ZZ").unwrap_err(), "Could not parse hashline edit: <+3#ZZ");
    // other marks before a tag belong to the tag
    assert_eq!(
        parse_edit("+2#ZZ:x").unwrap(),
        HashlineEdit::SetLine {
            tag: LineTag { line: 2, hash: "ZZ".to_string() },
            content: lines_of(&["x"]),
        }
    );
    assert_eq!(
        parse_edit(">+x y: z").unwrap_err(),
        "Invalid line reference \"x\". Expected format \"LINE#ID\" (e.g. \"5#aa\")."
    );
}

#[test]
fn test_parse_edit_errors() {
    assert_eq!(parse_edit("  nonsense ").unwrap_err(), "Could not parse hashline edit: nonsense");
    assert_eq!(parse_edit(">+2#ZZ").unwrap_err(), "Could not parse hashline edit: >+2#ZZ");
    assert_eq!(parse_edit("").unwrap_err(), "Could not parse hashline edit: ");
    assert_eq!(
        parse_edit("x:y").unwrap_err(),
        "Invalid line reference \"x\". Expected format \"LINE#ID\" (e.g. \"5#aa\")."
    );
    // the first tag of a range is read first
    assert_eq!(
        parse_edit("a-b:y").unwrap_err(),
        "Invalid line reference \"a\". Expected format \"LINE#ID\" (e.g. \"5#aa\")."
    );
    assert_eq!(
        parse_edit("1#QQ-b:y").unwrap_err(),
        "Invalid line reference \"b\". Expected format \"LINE#ID\" (e.g. \"5#aa\")."
    );
    assert_eq!(
        parse_edit("<+0#QQ text").unwrap_err(),
        "Line number must be >= 1, got 0 in \"0#QQ\"."
    );
}

#[test]
fn test_validate_line_ref() {
    let file = lines_of(&["a", "b", "c"]);
    assert!(validate_line_ref(&make_tag(2, "b"), &file).is_ok());
    assert!(validate_line_ref(&make_tag(2, "  b "), &file).is_ok());
    let err = validate_line_ref(&make_tag(9, "b"), &file).unwrap_err();
    assert!(matches!(err, HashlineError::OutOfRange { line: 9, len: 3 }));
    assert_eq!(err.message(), "Line 9 does not exist (file has 3 lines)");
    let err = validate_line_ref(&make_tag(2, "NOT_B"), &file).unwrap_err();
    match &err {
        HashlineError::HashMismatch(e) => {
            assert_eq!(e.mismatches.len(), 1);
            assert_eq!(e.mismatches[0].line, 2);
            assert_eq!(e.mismatches[0].expected, "RM");
            assert_eq!(e.mismatches[0].actual, "XH");
            assert_eq!(e.file_lines, file);
        }
        other => panic!("unexpected error {:?}", other),
    }
}

#[test]
fn test_hash_mismatch_report() {
    let edits = vec![set_line(2, "NOT_B", &["B"])];
    let err = apply_hashline_edits("a\nb\nc\n", edits).unwrap_err();
    assert!(matches!(err, HashlineError::HashMismatch(_)));
    let message = err.message();
    assert!(message.contains(">>> 2#XH:b"));
    assert_eq!(
        message,
        "1 line has changed since last read. Use the updated LINE#ID references shown below (>>> marks changed lines).\n\n    1#RW:a\n>>> 2#XH:b\n    3#PX:c\n    4#ZR:\n"
    );
}

#[test]
fn test_hash_mismatch_report_with_gap() {
    let content = "a\nb\nc\nd\ne\nf\ng\nh\ni\nj";
    let edits = vec![set_line(1, "x", &["A"]), set_line(9, "y", &["I"])];
    let message = apply_hashline_edits(content, edits).unwrap_err().message();
    let expected = format!(
        "2 lines have changed since last read. Use the updated LINE#ID references shown below (>>> marks changed lines).\n\n>>> 1#{}:a\n    2#{}:b\n    3#{}:c\n    ...\n    7#{}:g\n    8#{}:h\n>>> 9#{}:i\n    10#{}:j\n",
        compute_line_hash(1, "a"),
        compute_line_hash(1, "b"),
        compute_line_hash(1, "c"),
        compute_line_hash(1, "g"),
        compute_line_hash(1, "h"),
        compute_line_hash(1, "i"),
        compute_line_hash(1, "j"),
    );
    assert_eq!(message, expected);
}

#[test]
fn test_apply_no_edits_leaves_the_text() {
    let result = apply_hashline_edits("a\r\nb", Vec::new()).unwrap();
    assert_eq!(result.content, "a\r\nb");
    assert_eq!(result.first_changed_line, None);
    assert!(result.noop_edits.is_empty());
}

#[test]
fn test_apply_errors() {
    let content = "a\nb\nc";
    let err = apply_hashline_edits(
        content,
        vec![HashlineEdit::Append { after: None, content: vec![] }],
    )
    .unwrap_err();
    assert!(matches!(err, HashlineError::EmptyInsertAfter));
    assert_eq!(err.message(), "Insert-after edit requires non-empty dst");

    let err = apply_hashline_edits(
        content,
        vec![HashlineEdit::Prepend { before: Some(make_tag(1, "a")), content: vec![] }],
    )
    .unwrap_err();
    assert!(matches!(err, HashlineError::EmptyInsertBefore));
    assert_eq!(err.message(), "Insert-before edit requires non-empty dst");

    let err = apply_hashline_edits(
        content,
        vec![HashlineEdit::Insert {
            after: make_tag(1, "a"),
            before: make_tag(2, "b"),
            content: vec![],
        }],
    )
    .unwrap_err();
    assert!(matches!(err, HashlineError::EmptyInsertBetween));
    assert_eq!(err.message(), "Insert-between edit requires non-empty dst");

    let err = apply_hashline_edits(
        content,
        vec![HashlineEdit::Insert {
            after: make_tag(2, "b"),
            before: make_tag(2, "b"),
            content: lines_of(&["x"]),
        }],
    )
    .unwrap_err();
    assert!(matches!(err, HashlineError::InsertOrder { after: 2, before: 2 }));
    assert_eq!(err.message(), "insert requires after (2) < before (2)");

    let err = apply_hashline_edits(
        content,
        vec![HashlineEdit::Replace {
            first: make_tag(3, "c"),
            last: make_tag(2, "b"),
            content: lines_of(&["x"]),
        }],
    )
    .unwrap_err();
    assert!(matches!(err, HashlineError::InvertedRange { first: 3, last: 2 }));
    assert_eq!(err.message(), "Range start line 3 must be <= end line 2");

    let err = apply_hashline_edits(content, vec![set_line(4, "d", &["x"])]).unwrap_err();
    assert!(matches!(err, HashlineError::OutOfRange { line: 4, len: 3 }));

    // an error of an earlier edit comes before the mismatch of a later one
    let err = apply_hashline_edits(
        content,
        vec![set_line(1, "wrong", &["x"]), set_line(7, "d", &["x"])],
    )
    .unwrap_err();
    assert!(matches!(err, HashlineError::OutOfRange { line: 7, len: 3 }));
}

#[test]
fn test_apply_replace_range() {
    let result = apply_hashline_edits(
        "a\nb\nc\nd",
        vec![HashlineEdit::Replace {
            first: make_tag(2, "b"),
            last: make_tag(3, "c"),
            content: lines_of(&["X", "Y", "Z"]),
        }],
    )
    .unwrap();
    assert_eq!(result.content, "a\nX\nY\nZ\nd");
    assert_eq!(result.first_changed_line, Some(2));
}

#[test]
fn test_apply_insertions() {
    let content = "a\nb\nc";
    let result = apply_hashline_edits(
        content,
        vec![HashlineEdit::Prepend {
            before: Some(make_tag(2, "b")),
            content: lines_of(&["P"]),
        }],
    )
    .unwrap();
    assert_eq!(result.content, "a\nP\nb\nc");
    assert_eq!(result.first_changed_line, Some(2));

    let result = apply_hashline_edits(
        content,
        vec![HashlineEdit::Insert {
            after: make_tag(1, "a"),
            before: make_tag(3, "c"),
            content: lines_of(&["I"]),
        }],
    )
    .unwrap();
    assert_eq!(result.content, "a\nb\nI\nc");
    assert_eq!(result.first_changed_line, Some(3));

    let result = apply_hashline_edits(
        content,
        vec![HashlineEdit::Append { after: None, content: lines_of(&["end"]) }],
    )
    .unwrap();
    assert_eq!(result.content, "a\nb\nc\nend");
    assert_eq!(result.first_changed_line, Some(4));

    let result = apply_hashline_edits(
        content,
        vec![HashlineEdit::Prepend { before: None, content: lines_of(&["top"]) }],
    )
    .unwrap();
    assert_eq!(result.content, "top\na\nb\nc");
    assert_eq!(result.first_changed_line, Some(1));
}

#[test]
fn test_apply_insertions_into_an_empty_file() {
    let result = apply_hashline_edits(
        "",
        vec![HashlineEdit::Append { after: None, content: lines_of(&["x", "y"]) }],
    )
    .unwrap();
    assert_eq!(result.content, "x\ny");
    assert_eq!(result.first_changed_line, Some(1));

    let result = apply_hashline_edits(
        "",
        vec![HashlineEdit::Prepend { before: None, content: lines_of(&["x"]) }],
    )
    .unwrap();
    assert_eq!(result.content, "x");
    assert_eq!(result.first_changed_line, Some(1));
}

#[test]
fn test_apply_boundary_echo_of_insert() {
    let result = apply_hashline_edits(
        "a\nb\nc",
        vec![HashlineEdit::Insert {
            after: make_tag(1, "a"),
            before: make_tag(2, "b"),
            content: lines_of(&[" a", "NEW", "b "]),
        }],
    )
    .unwrap();
    assert_eq!(result.content, "a\nNEW\nb\nc");

    let result = apply_hashline_edits(
        "a\nb\nc",
        vec![HashlineEdit::Prepend {
            before: Some(make_tag(2, "b")),
            content: lines_of(&["NEW", "b"]),
        }],
    )
    .unwrap();
    assert_eq!(result.content, "a\nNEW\nb\nc");
}

#[test]
fn test_apply_range_echo_is_left_out() {
    // the content repeats the lines above and below the replaced line
    let result =
        apply_hashline_edits("a\nb\nc", vec![set_line(2, "b", &["a", "B", "c"])]).unwrap();
    assert_eq!(result.content, "a\nB\nc");
}

#[test]
fn test_apply_restores_indentation() {
    let result =
        apply_hashline_edits("fn f() {\n    old();\n}", vec![set_line(2, "old();", &["new();"])])
            .unwrap();
    assert_eq!(result.content, "fn f() {\n    new();\n}");
    // a new line with its own indentation keeps it
    let result =
        apply_hashline_edits("fn f() {\n    old();\n}", vec![set_line(2, "old();", &["  new();"])])
            .unwrap();
    assert_eq!(result.content, "fn f() {\n  new();\n}");
}

#[test]
fn test_apply_restores_wrapped_line() {
    let content = "keep\nlet total = first + second;\nend";
    let edits = vec![HashlineEdit::Replace {
        first: make_tag(1, "keep"),
        last: make_tag(2, "let total = first + second;"),
        content: lines_of(&["kept", "let total = first", "    + second;"]),
    }];
    let result = apply_hashline_edits(content, edits).unwrap();
    assert_eq!(result.content, "kept\nlet total = first + second;\nend");
}

#[test]
fn test_apply_noop_edit_is_noted() {
    let result = apply_hashline_edits("a\n  b\nc", vec![set_line(2, "b", &["b"])]).unwrap();
    assert_eq!(result.content, "a\n  b\nc");
    assert_eq!(result.first_changed_line, None);
    assert_eq!(result.noop_edits.len(), 1);
    assert_eq!(result.noop_edits[0].edit_index, 0);
    assert_eq!(result.noop_edits[0].loc, "2#XH");
    assert_eq!(result.noop_edits[0].current_content, "  b");
}

#[test]
fn test_apply_repeated_edit_runs_once() {
    let edits = vec![
        HashlineEdit::Append { after: Some(make_tag(1, "a")), content: lines_of(&["x"]) },
        HashlineEdit::Append { after: Some(make_tag(1, "a")), content: lines_of(&["x"]) },
        HashlineEdit::Append { after: Some(make_tag(1, "a")), content: lines_of(&["y"]) },
    ];
    let result = apply_hashline_edits("a\nb", edits).unwrap();
    assert_eq!(result.content, "a\ny\nx\nb");
}

#[test]
fn test_apply_runs_from_the_bottom_up() {
    // the first edit makes the file longer; the second still hits its line
    let edits = vec![
        HashlineEdit::Append { after: Some(make_tag(1, "a")), content: lines_of(&["1", "2", "3"]) },
        set_line(3, "c", &["C"]),
        HashlineEdit::Prepend { before: Some(make_tag(3, "c")), content: lines_of(&["p"]) },
        HashlineEdit::Append { after: Some(make_tag(3, "c")), content: lines_of(&["q"]) },
    ];
    let result = apply_hashline_edits("a\nb\nc", edits).unwrap();
    assert_eq!(result.content, "a\n1\n2\n3\nb\np\nC\nq");
    assert_eq!(result.first_changed_line, Some(2));
}

#[test]
fn test_apply_is_independent_of_the_order_of_the_edits() {
    let make = || {
        vec![
            set_line(2, "b", &["B"]),
            HashlineEdit::Append { after: Some(make_tag(4, "d")), content: lines_of(&["x"]) },
            HashlineEdit::Prepend { before: Some(make_tag(1, "a")), content: lines_of(&["top"]) },
            HashlineEdit::Replace {
                first: make_tag(3, "c"),
                last: make_tag(4, "d"),
                content: lines_of(&["CD"]),
            },
            HashlineEdit::Append { after: None, content: lines_of(&["end"]) },
        ]
    };
    let expected = apply_hashline_edits("a\nb\nc\nd\ne", make()).unwrap();
    // the range 3..=4 is replaced first; the insertion after line 4 then falls
    // behind what has become the fourth line
    assert_eq!(expected.content, "top\na\nB\nCD\ne\nx\nend");
    assert_eq!(expected.first_changed_line, Some(1));
    let orders: [[usize; 5]; 4] = [[4, 3, 2, 1, 0], [1, 0, 3, 2, 4], [2, 4, 0, 1, 3], [3, 1, 4, 0, 2]];
    for order in orders {
        let edits = make();
        let reordered: Vec<HashlineEdit> = order.iter().map(|&i| edits[i].clone()).collect();
        let result = apply_hashline_edits("a\nb\nc\nd\ne", reordered).unwrap();
        assert_eq!(result.content, expected.content);
        assert_eq!(result.first_changed_line, expected.first_changed_line);
    }
}

#[test]
fn test_merge_expansion_with_final_newline() {
    let edits = vec![set_line(1, "line1 &&", &["line1 || line2"])];
    let result = apply_hashline_edits("line1 &&\nline2\ntail\n", edits).unwrap();
    assert_eq!(result.content, "line1 || line2\ntail\n");
    assert_eq!(result.first_changed_line, Some(1));
}

#[test]
fn test_merge_expansion_absorbs_the_previous_line() {
    let edits = vec![set_line(2, "second", &["let x = first + second"])];
    let result = apply_hashline_edits("let x = first +\nsecond\ntail", edits).unwrap();
    assert_eq!(result.content, "let x = first + second\ntail");
    assert_eq!(result.first_changed_line, Some(1));
}

#[test]
fn test_merge_expansion_spares_a_line_that_is_named() {
    let edits = vec![
        set_line(1, "line1 &&", &["line1 || line2"]),
        set_line(2, "line2", &["other"]),
    ];
    let result = apply_hashline_edits("line1 &&\nline2\ntail", edits).unwrap();
    assert_eq!(result.content, "line1 || line2\nother\ntail");
}

#[test]
fn test_stream_hash_lines() {
    let chunks = stream_hash_lines_from_lines(Vec::new(), HashlineStreamOptions::default());
    assert_eq!(chunks, vec!["1#ZR:"]);

    let chunks = stream_hash_lines_from_lines(
        lines_of(&["a", "b", "c"]),
        HashlineStreamOptions::default(),
    );
    assert_eq!(chunks, vec!["1#RW:a\n2#XH:b\n3#PX:c"]);

    let options = HashlineStreamOptions {
        start_line: Some(10),
        max_chunk_lines: Some(2),
        max_chunk_bytes: None,
    };
    let chunks = stream_hash_lines_from_lines(lines_of(&["a", "b", "c"]), options);
    assert_eq!(chunks, vec!["10#RW:a\n11#XH:b", "12#PX:c"]);

    // "1#RW:a" has 6 bytes; two of them with a line feed have 13
    let options = HashlineStreamOptions {
        start_line: None,
        max_chunk_lines: None,
        max_chunk_bytes: Some(13),
    };
    let chunks = stream_hash_lines_from_lines(lines_of(&["a", "b", "c"]), options);
    assert_eq!(chunks, vec!["1#RW:a\n2#XH:b", "3#PX:c"]);
    let options = HashlineStreamOptions {
        start_line: None,
        max_chunk_lines: None,
        max_chunk_bytes: Some(12),
    };
    let chunks = stream_hash_lines_from_lines(lines_of(&["a", "b", "c"]), options);
    assert_eq!(chunks, vec!["1#RW:a", "2#XH:b", "3#PX:c"]);
    // bytes are counted, not characters: "é" has two
    let options = HashlineStreamOptions {
        start_line: None,
        max_chunk_lines: None,
        max_chunk_bytes: Some(14),
    };
    let tagged = format_hash_lines("é", 1);
    assert_eq!(tagged.len(), 7);
    let chunks = stream_hash_lines_from_lines(lines_of(&["é", "b", "c"]), options);
    assert_eq!(chunks, vec![format!("{}\n2#XH:b", tagged), "3#PX:c".to_string()]);
}

#[test]
fn test_stream_chunks_put_together_are_the_view() {
    let content = "fn main() {\n    let x = 1;\n\n    println!(\"é {}\", x);\n}\n";
    let file_lines: Vec<String> = content.split('\n').map(|s| s.to_string()).collect();
    let view = format_hash_lines(content, 1);
    for max_lines in [0usize, 1, 2, 3, 200] {
        for max_bytes in [0usize, 1, 10, 20, 40, 65536] {
            let options = HashlineStreamOptions {
                start_line: None,
                max_chunk_lines: Some(max_lines),
                max_chunk_bytes: Some(max_bytes),
            };
            let chunks = stream_hash_lines_from_lines(file_lines.clone(), options);
            assert!(!chunks.is_empty());
            assert!(chunks.len() <= file_lines.len());
            assert_eq!(chunks.join("\n"), view, "{} {}", max_lines, max_bytes);
            for chunk in &chunks {
                let rows = chunk.split('\n').count();
                assert!(rows <= max_lines.max(1));
                assert!(rows == 1 || chunk.len() <= max_bytes);
            }
        }
    }
}

#[test]
fn test_stream_hash_lines_default_options() {
    let options = HashlineStreamOptions::default();
    assert_eq!(options.start_line, Some(1));
    assert_eq!(options.max_chunk_lines, Some(200));
    assert_eq!(options.max_chunk_bytes, Some(64 * 1024));
}

#[test]
fn test_stream_hash_lines_from_utf8() {
    let chunks = stream_hash_lines_from_utf8(b"a\nb\n", HashlineStreamOptions::default());
    assert_eq!(chunks, vec!["1#RW:a\n2#XH:b\n3#ZR:"]);
    let chunks = stream_hash_lines_from_utf8(b"", HashlineStreamOptions::default());
    assert_eq!(chunks, vec!["1#ZR:"]);
    // a byte that is no UTF-8 becomes the replacement character
    let chunks = stream_hash_lines_from_utf8(b"a\xffb", HashlineStreamOptions::default());
    assert_eq!(chunks, vec![format_hash_lines("a\u{fffd}b", 1)]);
}

use udiffx::patch_completer::complete::complete;
use udiffx::patch_completer::hunk::{compute_hunk_bounds, score_candidate};
use udiffx::patch_completer::matching::{
    ends_with_either, fuzzy_match_lowered, is_markdown_heading, line_matches, lower_line,
    normalize_ws_of, strip_markdown_heading, suffix_match, LoweredLine,
};
use udiffx::patch_completer::search::{search_candidates_for_tier, CandidateMatch, LineFate};
use udiffx::{Error, MatchTier};

fn chars(s: &str) -> Vec<char> {
    s.chars().collect()
}

fn text(v: &Vec<char>) -> String {
    v.iter().collect()
}

fn lines(v: &[&str]) -> Vec<Vec<char>> {
    v.iter().map(|s| chars(s)).collect()
}

fn matches(orig: &str, patch: &str, tier: MatchTier) -> bool {
    line_matches(&chars(orig), &chars(patch), tier)
}

#[test]
fn test_tiers_are_ordered() {
    assert!(MatchTier::Strict < MatchTier::Resilient);
    assert!(MatchTier::Resilient < MatchTier::Fuzzy);
    assert_eq!(MatchTier::Strict.looser(MatchTier::Fuzzy), MatchTier::Fuzzy);
    assert_eq!(MatchTier::Resilient.looser(MatchTier::Strict), MatchTier::Resilient);
    assert_eq!(MatchTier::Strict.looser(MatchTier::Strict), MatchTier::Strict);
    for a in [MatchTier::Strict, MatchTier::Resilient, MatchTier::Fuzzy] {
        for b in [MatchTier::Strict, MatchTier::Resilient, MatchTier::Fuzzy] {
            assert_eq!(a.looser(b), a.max(b));
        }
    }
}

#[test]
fn test_line_matches_strict() {
    assert!(matches("let x = 1;", "let x = 1;", MatchTier::Strict));
    assert!(!matches("let x = 1;", "let x = 1; ", MatchTier::Strict));
    assert!(!matches(" let x = 1;", "let x = 1;", MatchTier::Strict));
    assert!(!matches("Let x", "let x", MatchTier::Strict));
    assert!(matches("", "", MatchTier::Strict));
}

#[test]
fn test_line_matches_resilient() {
    let t = MatchTier::Resilient;
    assert!(matches("    let x = 1;", "let x = 1;  ", t));
    assert!(matches("fn   main()  {", "fn main() {", t));
    assert!(matches("##   Title  here", "#  Title here", t));
    assert!(!matches("## Title", "Title", t));
    // the end of a line is enough, from ten characters on
    assert!(matches("This is a long line with some suffix.", "some suffix.", t));
    assert!(matches("0123456789", "abc 0123456789", t));
    assert!(!matches("box of foxes", "x", t));
    assert!(!matches("namespace", "name", t));
    assert!(!matches("a 123456789", "123456789", t));
    assert!(!matches("Let x = 1;", "let x = 1;", t));
    // a blank line matches a blank line only
    assert!(matches("   ", "", t));
    assert!(!matches("   ", "x", t));
    assert!(!matches("x", "\t", t));
}

#[test]
fn test_line_matches_fuzzy() {
    let t = MatchTier::Fuzzy;
    assert!(matches("## Section Title", "## section title", t));
    assert!(matches("Use the `Particle` class", "use the particle class", t));
    assert!(matches("Use  the `Particle`   class", "use the particle class", t));
    assert!(matches("Done.", "done", t));
    assert!(matches("Really?!", "really...", t));
    assert!(matches("SOME LONGER TEXT WITH AN END", "with an end", t));
    assert!(matches("# Heading  One", "###   heading one", t));
    assert!(!matches("one thing", "another thing", t));
    assert!(!matches("", "x", t));
    assert!(matches(" ", "", t));
}

fn lowered_of(line: &str, normalized: &str, heading: Option<&str>) -> LoweredLine {
    LoweredLine { line: chars(line), normalized: chars(normalized), heading: heading.map(chars) }
}

#[test]
fn test_fuzzy_match_lowered() {
    let same = |a: &LoweredLine, b: &LoweredLine| fuzzy_match_lowered(a, b);
    // equal lines
    assert!(same(&lowered_of("abc", "x", None), &lowered_of("abc", "y", None)));
    // equal once whitespace is normalised
    assert!(same(&lowered_of("a  b", "x", None), &lowered_of(" a b ", "y", None)));
    // two headings with one text
    assert!(same(&lowered_of("# one", "x", Some("t")), &lowered_of("## two", "y", Some("t"))));
    assert!(!same(&lowered_of("# one", "x", Some("t")), &lowered_of("## two", "y", Some("u"))));
    assert!(!same(&lowered_of("one", "x", Some("t")), &lowered_of("two", "y", None)));
    assert!(!same(&lowered_of("one", "x", None), &lowered_of("two", "y", None)));
    // one normalised line is the end of the other, from ten characters on
    assert!(same(&lowered_of("a", "xx 0123456789", None), &lowered_of("b", "0123456789", None)));
    assert!(same(&lowered_of("a", "0123456789", None), &lowered_of("b", "xx 0123456789", None)));
    assert!(!same(&lowered_of("a", "xx 123456789", None), &lowered_of("b", "123456789", None)));
    // backticks are left out
    assert!(same(&lowered_of("the `x` here", "x", None), &lowered_of("the x here", "y", None)));
    assert!(same(&lowered_of("the  `x` here", "x", None), &lowered_of("the x  here", "y", None)));
    // trailing punctuation is left out
    assert!(same(&lowered_of("done.", "x", None), &lowered_of("done!?", "y", None)));
    assert!(!same(&lowered_of("done.", "x", None), &lowered_of(".done", "y", None)));
    // case is not looked at here: the forms are given
    assert!(!same(&lowered_of("Abc", "x", None), &lowered_of("abc", "y", None)));
}

#[test]
fn test_lower_line() {
    let l = lower_line(&chars("##  Section   Title"));
    assert_eq!(text(&l.line), "##  section   title");
    assert_eq!(text(&l.normalized), "## section title");
    assert_eq!(l.heading.as_ref().map(text), Some("section title".to_string()));
    let l = lower_line(&chars("Plain  Line"));
    assert_eq!(text(&l.line), "plain  line");
    assert_eq!(text(&l.normalized), "plain line");
    assert!(l.heading.is_none());
}

#[test]
fn test_ends_with_either() {
    assert!(ends_with_either(&chars("xx 0123456789"), &chars("0123456789")));
    assert!(ends_with_either(&chars("0123456789"), &chars("xx 0123456789")));
    assert!(ends_with_either(&chars("0123456789"), &chars("0123456789")));
    assert!(!ends_with_either(&chars("x 123456789"), &chars("123456789")));
    assert!(!ends_with_either(&chars("0123456789 x"), &chars("0123456789")));
    assert!(!ends_with_either(&chars(""), &chars("")));
}

#[test]
fn test_suffix_match() {
    assert!(suffix_match(&chars("a long line with some suffix."), &chars("some suffix."), false));
    assert!(suffix_match(&chars("some suffix."), &chars("a long line with some suffix."), false));
    assert!(suffix_match(&chars("x  0123456789"), &chars("0123456789"), false));
    assert!(!suffix_match(&chars("x 123456789"), &chars("123456789"), false));
    assert!(!suffix_match(&chars("A LONG LINE WITH SOME SUFFIX."), &chars("some suffix."), false));
    assert!(suffix_match(&chars("A LONG LINE WITH SOME SUFFIX."), &chars("some suffix."), true));
    assert!(!suffix_match(&chars("some suffix. and more"), &chars("some suffix."), false));
}

#[test]
fn test_headings_and_whitespace() {
    assert!(is_markdown_heading(&chars("# a")));
    assert!(is_markdown_heading(&chars("#")));
    assert!(!is_markdown_heading(&chars(" # a")));
    assert!(!is_markdown_heading(&chars("")));
    assert_eq!(text(&strip_markdown_heading(&chars("###   Title # x"))), "Title # x");
    assert_eq!(text(&strip_markdown_heading(&chars("Title"))), "Title");
    assert_eq!(text(&strip_markdown_heading(&chars("##"))), "");
    assert_eq!(text(&normalize_ws_of(&chars("  a \t b\u{a0}\u{a0}c  "))), "a b c");
    assert_eq!(text(&normalize_ws_of(&chars("   "))), "");
}

#[test]
fn test_search_candidates_strict() {
    let orig = lines(&["a", "b", "a", "b", "c"]);
    let hunk = lines(&[" a", "+x", " b"]);
    let found = search_candidates_for_tier(&orig, &hunk, 0, MatchTier::Strict);
    assert_eq!(found.iter().map(|c| c.idx).collect::<Vec<_>>(), vec![0, 2]);
    assert!(found.iter().all(|c| c.tier == MatchTier::Strict));
    assert!(found.iter().all(|c| c.matched_count == 2 && c.exact_ws_count == 2));
    let found = search_candidates_for_tier(&orig, &hunk, 1, MatchTier::Strict);
    assert_eq!(found.iter().map(|c| c.idx).collect::<Vec<_>>(), vec![2]);
    let found = search_candidates_for_tier(&orig, &hunk, 3, MatchTier::Strict);
    assert!(found.is_empty());
    let found = search_candidates_for_tier(&orig, &hunk, 6, MatchTier::Strict);
    assert!(found.is_empty());
}

#[test]
fn test_search_candidates_fates() {
    let orig = lines(&["a", "b"]);
    // a blank context line where the file has none, and context beyond the end
    let hunk = lines(&[" a", " ", "-b", "+B", " c"]);
    let found = search_candidates_for_tier(&orig, &hunk, 0, MatchTier::Strict);
    assert_eq!(found.len(), 1);
    let c = &found[0];
    assert_eq!(c.idx, 0);
    assert_eq!(c.matched_count, 2);
    assert_eq!(c.exact_ws_count, 2);
    assert_eq!(c.fates.len(), 5);
    assert!(matches!(&c.fates[0], LineFate::Matched { text, exact: true } if text == &chars("a")));
    assert!(matches!(&c.fates[1], LineFate::Converted));
    assert!(matches!(&c.fates[2], LineFate::Matched { text, exact: true } if text == &chars("b")));
    assert!(matches!(&c.fates[3], LineFate::Addition));
    assert!(matches!(&c.fates[4], LineFate::Overhang));
}

#[test]
fn test_search_candidates_overhang_rules() {
    let orig = lines(&["a", "b"]);
    // one line in the file and one beyond it: not enough
    let hunk = lines(&[" b", " c"]);
    assert!(search_candidates_for_tier(&orig, &hunk, 0, MatchTier::Strict).is_empty());
    // two lines in the file and two beyond: not more in the file than beyond
    let hunk = lines(&[" a", " b", " c", " d"]);
    assert!(search_candidates_for_tier(&orig, &hunk, 0, MatchTier::Strict).is_empty());
    // two in the file, one beyond
    let hunk = lines(&[" a", " b", " c"]);
    assert_eq!(search_candidates_for_tier(&orig, &hunk, 0, MatchTier::Strict).len(), 1);
    // a removal beyond the end never fits
    let hunk = lines(&[" a", " b", "-c"]);
    assert!(search_candidates_for_tier(&orig, &hunk, 0, MatchTier::Strict).is_empty());
    // blank lines alone are no match
    let orig = lines(&["", "", "x"]);
    let hunk = lines(&[" ", ""]);
    assert!(search_candidates_for_tier(&orig, &hunk, 0, MatchTier::Strict).is_empty());
}

#[test]
fn test_search_candidates_lenient_reach() {
    let mut rows: Vec<String> = (0..150).map(|i| format!("row {}", i)).collect();
    rows[100] = "  target line".to_string();
    rows[101] = "  target line".to_string();
    let orig: Vec<Vec<char>> = rows.iter().map(|r| chars(r)).collect();
    let hunk = lines(&[" target line"]);
    assert!(search_candidates_for_tier(&orig, &hunk, 0, MatchTier::Strict).is_empty());
    // at the looser tiers a match more than 100 lines away is not looked at
    let found = search_candidates_for_tier(&orig, &hunk, 0, MatchTier::Resilient);
    assert_eq!(found.iter().map(|c| c.idx).collect::<Vec<_>>(), vec![100]);
    let found = search_candidates_for_tier(&orig, &hunk, 1, MatchTier::Fuzzy);
    assert_eq!(found.iter().map(|c| c.idx).collect::<Vec<_>>(), vec![100, 101]);
    rows[101] = "target line".to_string();
    let orig: Vec<Vec<char>> = rows.iter().map(|r| chars(r)).collect();
    let found = search_candidates_for_tier(&orig, &hunk, 0, MatchTier::Strict);
    assert_eq!(found.iter().map(|c| c.idx).collect::<Vec<_>>(), vec![101]);
}

#[test]
fn test_score_candidate() {
    let c = CandidateMatch {
        idx: 7,
        tier: MatchTier::Strict,
        fates: Vec::new(),
        matched_count: 3,
        exact_ws_count: 2,
    };
    assert_eq!(score_candidate(&c, 0), (2, -7));
    assert_eq!(score_candidate(&c, 7), (2, 0));
    assert_eq!(score_candidate(&c, 10), (2, -3));
}

#[test]
fn test_compute_hunk_bounds() {
    let orig = lines(&["line 1", "line 2", "line 3"]);
    let hunk = lines(&[" line 2", "+line 2.5", " line 3"]);
    let b = compute_hunk_bounds(&orig, &hunk, 0).unwrap();
    assert_eq!((b.old_start, b.old_count, b.new_count), (2, 2, 3));
    assert_eq!(b.tier, Some(MatchTier::Strict));
    assert_eq!(b.final_hunk_lines, lines(&[" line 2", "+line 2.5", " line 3"]));

    // the text of the file is what the hunk is written with
    let orig = lines(&["    Indented line", "next"]);
    let hunk = lines(&["-Indented line", "+changed", "", " next", " beyond"]);
    let b = compute_hunk_bounds(&orig, &hunk, 0).unwrap();
    assert_eq!((b.old_start, b.old_count, b.new_count), (1, 2, 3));
    assert_eq!(b.tier, Some(MatchTier::Resilient));
    assert_eq!(b.final_hunk_lines, lines(&["-    Indented line", "+changed", "+", " next"]));
}

#[test]
fn test_compute_hunk_bounds_is_exact() {
    // whatever the tier, the old side of the completed hunk is the file's own
    // lines, and the counts are those of its lines
    let orig = lines(&["# Title", "  alpha  beta", "", "Gamma.", "delta", "omega"]);
    let hunks: Vec<Vec<Vec<char>>> = vec![
        lines(&[" # Title", "-  alpha  beta", "+x"]),
        lines(&[" alpha beta", "", "-Gamma.", "+g"]),
        lines(&[" ## title", " ALPHA BETA", "+y", " ", "-gamma"]),
        lines(&[" delta", "", "+z", " omega", " beyond"]),
        lines(&["+only", "+additions"]),
    ];
    for hunk in &hunks {
        let b = compute_hunk_bounds(&orig, hunk, 0).unwrap();
        let old: Vec<Vec<char>> = b
            .final_hunk_lines
            .iter()
            .filter(|l| l[0] != '+')
            .map(|l| l[1..].to_vec())
            .collect();
        assert_eq!(old.len(), b.old_count);
        assert_eq!(old, orig[b.old_start - 1..b.old_start - 1 + b.old_count].to_vec());
        let left = b.final_hunk_lines.iter().filter(|l| l[0] != '-').count();
        assert_eq!(left, b.new_count);
        assert!(b.final_hunk_lines.iter().all(|l| [' ', '-', '+'].contains(&l[0])));
    }
}

#[test]
fn test_compute_hunk_bounds_strict_wins_over_a_nearer_looser_match() {
    let orig = lines(&["    fn do_work() {", "    old_call();", "    }", "fn do_work() {", "    old_call();", "}"]);
    let hunk = lines(&[" fn do_work() {", "-    old_call();", "+    new_call();", " }"]);
    let b = compute_hunk_bounds(&orig, &hunk, 0).unwrap();
    assert_eq!(b.tier, Some(MatchTier::Strict));
    assert_eq!((b.old_start, b.old_count, b.new_count), (4, 3, 3));
    // without the strict match the looser one is taken
    let b = compute_hunk_bounds(&orig[..3].to_vec(), &hunk, 0).unwrap();
    assert_eq!(b.tier, Some(MatchTier::Resilient));
    assert_eq!((b.old_start, b.old_count, b.new_count), (1, 3, 3));
}

#[test]
fn test_compute_hunk_bounds_additions_only() {
    let orig = lines(&["a", "b"]);
    let hunk = lines(&["+x", "+y"]);
    let b = compute_hunk_bounds(&orig, &hunk, 0).unwrap();
    assert_eq!((b.old_start, b.old_count, b.new_count), (3, 0, 2));
    assert_eq!(b.tier, None);
    assert_eq!(b.final_hunk_lines, lines(&["+x", "+y"]));
    let b = compute_hunk_bounds(&orig, &Vec::new(), 0).unwrap();
    assert_eq!((b.old_start, b.old_count, b.new_count), (3, 0, 0));
}

#[test]
fn test_compute_hunk_bounds_not_found() {
    let orig = lines(&["a", "b"]);
    let hunk = lines(&[" a", "", "-zz", "+x"]);
    let err = compute_hunk_bounds(&orig, &hunk, 1).unwrap_err();
    match &err {
        Error::PatchCompletion { reason, context_pattern } => {
            assert_eq!(
                reason,
                "Could not find patch context in original file (starting search from line 2)"
            );
            assert_eq!(context_pattern, &vec!["a".to_string(), "zz".to_string()]);
        }
        other => panic!("unexpected {:?}", other),
    }
}

#[test]
fn test_complete_exact_text() {
    let (completed, tier) =
        complete("line 1\nline 2\nline 3\n", "@@\n line 2\n+line 2.5\n line 3\n").unwrap();
    assert_eq!(completed, "@@ -2,2 +2,3 @@\n line 2\n+line 2.5\n line 3\n");
    assert_eq!(tier, Some(MatchTier::Strict));
}

#[test]
fn test_complete_rewrites_a_numbered_header_and_keeps_the_lines_before() {
    let patch = "--- a/f\n+++ b/f\n@@ -10,2 +10,3 @@ fn x\n line 2\n+line 2.5\n line 3\n";
    let (completed, _) = complete("line 1\nline 2\nline 3\n", patch).unwrap();
    assert_eq!(completed, "--- a/f\n+++ b/f\n@@ -2,2 +2,3 @@\n line 2\n+line 2.5\n line 3\n");
}

#[test]
fn test_complete_moves_later_hunks_by_what_earlier_ones_add() {
    let original = "a\nb\nc\nd\ne\nf\n";
    let patch = "@@\n a\n+A1\n+A2\n b\n@@\n-d\n e\n@@\n f\n+g\n";
    let (completed, tier) = complete(original, patch).unwrap();
    assert_eq!(
        completed,
        "@@ -1,2 +1,4 @@\n a\n+A1\n+A2\n b\n@@ -4,2 +6,1 @@\n-d\n e\n@@ -6,1 +7,2 @@\n f\n+g\n"
    );
    assert_eq!(tier, Some(MatchTier::Strict));
}

#[test]
fn test_complete_searches_behind_the_hunk_before() {
    // the second hunk is not laid on the first "x"
    let original = "x\ny\nx\nz\n";
    let patch = "@@\n x\n-y\n@@\n-x\n+X\n";
    let (completed, _) = complete(original, patch).unwrap();
    assert_eq!(completed, "@@ -1,2 +1,1 @@\n x\n-y\n@@ -3,1 +2,1 @@\n-x\n+X\n");
}

#[test]
fn test_complete_additions_only() {
    let (completed, tier) = complete("a\nb\n", "@@\n+c\n+d\n").unwrap();
    assert_eq!(completed, "@@ -0,0 +3,2 @@\n+c\n+d\n");
    assert_eq!(tier, None);
    let (completed, tier) = complete("", "@@\n+c\n").unwrap();
    assert_eq!(completed, "@@ -0,0 +1,1 @@\n+c\n");
    assert_eq!(tier, None);
    // behind a hunk that has made the text longer
    let (completed, tier) = complete("a\nb\n", "@@\n a\n+a2\n@@\n+c\n").unwrap();
    assert_eq!(completed, "@@ -1,1 +1,2 @@\n a\n+a2\n@@ -0,0 +4,1 @@\n+c\n");
    assert_eq!(tier, Some(MatchTier::Strict));
}

#[test]
fn test_complete_line_endings() {
    let (completed, tier) =
        complete("line 1\r\nline 2\r\nline 3\r\n", "@@\r\n line 2\r\n+line 2.5\r\n line 3\r\n")
            .unwrap();
    assert_eq!(completed, "@@ -2,2 +2,3 @@\n line 2\n+line 2.5\n line 3\n");
    assert_eq!(tier, Some(MatchTier::Strict));
}

#[test]
fn test_complete_blank_lines_in_the_hunk() {
    // an empty line of the patch is blank context; written, it is a single space
    let (completed, _) = complete("a\n\nb\n", "@@\n a\n\n-b\n+B\n").unwrap();
    assert_eq!(completed, "@@ -1,3 +1,3 @@\n a\n \n-b\n+B\n");
    // without a blank line in the file the blank context becomes an addition
    let (completed, _) = complete("a\nb\n", "@@\n a\n\n-b\n+B\n").unwrap();
    assert_eq!(completed, "@@ -1,2 +1,3 @@\n a\n+\n-b\n+B\n");
}

#[test]
fn test_complete_without_hunks() {
    let (completed, tier) = complete("a\n", "just text\nmore\n").unwrap();
    assert_eq!(completed, "just text\nmore\n");
    assert_eq!(tier, None);
    let (completed, tier) = complete("a\n", "").unwrap();
    assert_eq!(completed, "");
    assert_eq!(tier, None);
}

#[test]
fn test_complete_fails_at_the_first_hunk_that_is_not_found() {
    let err = complete("a\nb\n", "@@\n a\n+x\n@@\n nowhere\n+y\n@@\n neither\n+z\n").unwrap_err();
    assert!(matches!(&err, Error::PatchCompletion { reason, context_pattern }
        if reason == "Could not find patch context in original file (starting search from line 2)"
            && context_pattern == &vec!["nowhere".to_string()]));
}

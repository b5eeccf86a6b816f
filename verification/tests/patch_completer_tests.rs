use udiffx::patch_completer::complete;

#[test]
fn test_patch_completer_complete_simple() {
    // -- Setup & Fixtures
    let original = "line 1\nline 2\nline 3\n";
    let patch = "@@\n line 2\n+line 2.5\n line 3\n";

    // -- Exec
    let (completed, _) = complete(original, patch).unwrap();

    // -- Check
    assert!(completed.contains("@@ -2,2 +2,3 @@"));
    assert!(completed.contains(" line 2\n+line 2.5\n line 3"));
}

#[test]
fn test_patch_completer_complete_partial_suffix() {
    // -- Setup & Fixtures
    let original = "This is a long line with some suffix.\nAnother line.\n";
    // Only the end of the line is given as context
    let patch = "@@\n some suffix.\n+New line after suffix.\n Another line.\n";

    // -- Exec
    let (completed, _) = complete(original, patch).unwrap();

    // -- Check
    assert!(completed.contains("@@ -1,2 +1,3 @@"));
    assert!(completed.contains(" some suffix.\n+New line after suffix.\n Another line."));
}

#[test]
fn test_patch_completer_complete_whitespace_mismatch() {
    // -- Setup & Fixtures
    let original = "    Indented line\n";
    // The context line has lost its indentation
    let patch = "@@\n Indented line\n+    New indented line\n";

    // -- Exec
    let (completed, _) = complete(original, patch).unwrap();

    // -- Check
    assert!(completed.contains("@@ -1,1 +1,2 @@"));
}

/// Verifies that a short substring like "x" does not false-positive match a longer line.
/// The old `contains`-based logic would have matched "x" against "box of foxes".
#[test]
fn test_patch_completer_complete_no_false_positive_contains_short() {
    // -- Setup & Fixtures
    let original = "box of foxes\nthe letter x\nanother line\n";
    // Context line "x" should only match "the letter x", not "box of foxes"
    let patch = "@@\n the letter x\n+inserted after x\n another line\n";

    // -- Exec
    let (completed, _) = complete(original, patch).unwrap();

    // -- Check
    // Should match starting at line 2 ("the letter x"), not line 1 ("box of foxes")
    assert!(completed.contains("@@ -2,2 +2,3 @@"));
    assert!(completed.contains("+inserted after x"));
}

/// Verifies that a line which is a substring of another does not false-positive match.
/// E.g., context "name" should not match original "namespace" via contains.
#[test]
fn test_patch_completer_complete_no_false_positive_contains_substring() {
    // -- Setup & Fixtures
    let original = "namespace\nname\nvalue\n";
    // Context "name" should match line 2, not line 1 ("namespace")
    let patch = "@@\n name\n+new name line\n value\n";

    // -- Exec
    let (completed, _) = complete(original, patch).unwrap();

    // -- Check
    assert!(completed.contains("@@ -2,2 +2,3 @@"));
    assert!(completed.contains("+new name line"));
}

/// Verifies normalized whitespace equality works (multiple spaces collapsed).
#[test]
fn test_patch_completer_complete_normalized_ws_equality() {
    // -- Setup & Fixtures
    let original = "fn   main()  {\n    println!(\"hello\");\n}\n";
    // Runs of spaces are collapsed to single spaces in the patch
    let patch = "@@\n fn main() {\n-    println!(\"hello\");\n+    println!(\"world\");\n }\n";

    // -- Exec
    let (completed, _) = complete(original, patch).unwrap();

    // -- Check
    assert!(completed.contains("@@ -1,3 +1,3 @@"));
    assert!(completed.contains("+    println!(\"world\");"));
}

/// Verifies that when duplicate patterns exist, the scoring system prefers
/// the match with exact whitespace over a normalized match.
#[test]
fn test_patch_completer_complete_scoring_exact_ws_preferred() {
    // -- Setup & Fixtures
    // Two blocks that match trimmed, but only the second has exact whitespace.
    let original = "\
    fn hello() {
        println!(\"hello\");
    }
fn hello() {
    println!(\"hello\");
}
";
    // Patch context uses no leading indentation, matching the second block exactly.
    let patch = "@@\n fn hello() {\n-    println!(\"hello\");\n+    println!(\"world\");\n }\n";

    // -- Exec
    let (completed, _) = complete(original, patch).unwrap();

    // -- Check
    // Should match the second block (line 4), not the first (line 1).
    assert!(completed.contains("@@ -4,3 +4,3 @@"));
    assert!(completed.contains("+    println!(\"world\");"));
}

/// Verifies that when two identical blocks exist, the match closest to
/// search_from (i.e., the first one) is preferred.
#[test]
fn test_patch_completer_complete_scoring_proximity_preferred() {
    // -- Setup & Fixtures
    // Two identical blocks; scoring should prefer the first (closer to search_from=0).
    let original = "\
fn greet() {
    println!(\"hi\");
}
fn other() {}
fn greet() {
    println!(\"hi\");
}
";
    let patch = "@@\n fn greet() {\n-    println!(\"hi\");\n+    println!(\"hey\");\n }\n";

    // -- Exec
    let (completed, _) = complete(original, patch).unwrap();

    // -- Check
    // Both blocks are identical (same exact_ws_count), so proximity wins: line 1.
    assert!(completed.contains("@@ -1,3 +1,3 @@"));
    assert!(completed.contains("+    println!(\"hey\");"));
}

/// Verifies that a blank context line in the patch that doesn't match a non-blank
/// original line causes a match failure at that position, preventing alignment drift.
#[test]
fn test_patch_completer_complete_blank_context_no_skip() {
    // -- Setup & Fixtures
    // Original has no blank line between line 2 and line 3.
    let original = "line 1\nline 2\nline 3\nline 4\n";
    // Patch has a blank context line between "line 2" and "line 3" that doesn't exist
    // in the original. This should NOT silently skip and cause drift.
    let patch = "@@\n line 2\n \n-line 3\n+line 3 modified\n line 4\n";

    // -- Exec
    let (completed, _) = complete(original, patch).unwrap();

    // -- Check
    // The unmatched blank context line is converted to an addition, and the rest
    // of the hunk aligns correctly without drift.
    assert!(completed.contains("@@ -2,3 +2,4 @@"));
    assert!(completed.contains("+line 3 modified"));
    // "line 3" should be a removal line (not misaligned)
    assert!(completed.contains("-line 3\n"));
}

/// Verifies that blank context lines match correctly when the original also has
/// blank lines in the corresponding positions.
#[test]
fn test_patch_completer_complete_blank_context_matches_blank_original() {
    // -- Setup & Fixtures
    let original = "line 1\nline 2\n\nline 4\nline 5\n";
    // Blank context line aligns with the blank line in original (line 3).
    let patch = "@@\n line 2\n \n-line 4\n+line 4 modified\n line 5\n";

    // -- Exec
    let (completed, _) = complete(original, patch).unwrap();

    // -- Check
    assert!(completed.contains("@@ -2,4 +2,4 @@"));
    assert!(completed.contains("+line 4 modified"));
}

/// Verifies that when a blank context line doesn't match at one position,
/// the search continues and finds the correct position where it does match.
#[test]
fn test_patch_completer_complete_blank_context_finds_correct_position() {
    // -- Setup & Fixtures
    // First "line A" is followed by non-blank "line B", second "line A" is followed by blank.
    let original = "line A\nline B\nline C\nline A\n\nline D\n";
    // Patch expects blank line after "line A", so it should match the second occurrence.
    let patch = "@@\n line A\n \n-line D\n+line D modified\n";

    // -- Exec
    let (completed, _) = complete(original, patch).unwrap();

    // -- Check
    // Should match the second "line A" at line 4, not the first at line 1.
    assert!(completed.contains("@@ -4,3 +4,3 @@"));
    assert!(completed.contains("+line D modified"));
}

/// Verifies that when a strict match exists, it is preferred over a resilient match
/// at a different position.
#[test]
fn test_patch_completer_complete_strict_match_preferred() {
    // -- Setup & Fixtures
    // Line 1 has extra leading spaces (only matches via trimmed/resilient).
    // Line 4 matches strictly (exact same text as patch context).
    let original = "\
    fn do_work() {
    old_call();
    }
fn do_work() {
    old_call();
}
";
    // Patch context has no leading indentation, matching the second block strictly.
    let patch = "@@\n fn do_work() {\n-    old_call();\n+    new_call();\n }\n";

    // -- Exec
    let (completed, _) = complete(original, patch).unwrap();

    // -- Check
    // Should match the second block (line 4) via strict, not the first (line 1) via resilient.
    assert!(completed.contains("@@ -4,3 +4,3 @@"));
    assert!(completed.contains("+    new_call();"));
}

/// Verifies that a casing mismatch in context lines is resolved by the fuzzy tier.
#[test]
fn test_patch_completer_complete_case_insensitive_fallback() {
    // -- Setup & Fixtures
    let original = "## Section Title\nSome content here.\nMore content.\n";
    // Patch context uses different casing ("section title" vs "Section Title").
    let patch = "@@\n ## section title\n-Some content here.\n+Replaced content here.\n More content.\n";

    // -- Exec
    let (completed, _) = complete(original, patch).unwrap();

    // -- Check
    assert!(completed.contains("@@ -1,3 +1,3 @@"));
    assert!(completed.contains("+Replaced content here."));
}

/// Verifies that when a resilient match exists (whitespace difference), fuzzy is not needed.
/// Indirectly confirmed by the correct match position and successful patch application.
#[test]
fn test_patch_completer_complete_fuzzy_not_used_when_resilient_matches() {
    // -- Setup & Fixtures
    // Original has extra spaces; patch context has single spaces.
    // This should match at resilient tier (whitespace normalization), not fuzzy.
    let original = "fn   example()  {\n    let x = 1;\n    let y = 2;\n}\n";
    let patch = "@@\n fn example() {\n-    let x = 1;\n+    let x = 42;\n     let y = 2;\n }\n";

    // -- Exec
    let (completed, _) = complete(original, patch).unwrap();

    // -- Check
    // Should match at line 1 via resilient tier (normalized whitespace).
    assert!(completed.contains("@@ -1,4 +1,4 @@"));
    assert!(completed.contains("+    let x = 42;"));
}

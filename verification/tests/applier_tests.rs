use udiffx::applier::{
    conclude, decide_delete, decide_hashline, decide_new, decide_patch, decide_rename,
    patch_outcome, plan_directive, DeleteKind, NewWrite, Plan,
};
use udiffx::apply_changes_info::{DirectiveInfo, DirectiveKind};
use udiffx::extract::extract_file_changes;
use udiffx::files_context::{format_file_entry, format_files_context};
use udiffx::fs_guard::{
    check_collapsed, check_for_read, check_for_write, guarded_target, resolve_base_dir,
};
use udiffx::hashline::{format_line_tag, parse_tag, HashlineEdit};
use udiffx::{apply_patch, Content, Error, FileDirective, MatchTier};

fn first_patch(input: &str) -> (String, String) {
    let (changes, _) = extract_file_changes(input, false).unwrap();
    assert_eq!(changes.len(), 1, "Should have 1 directive");
    match changes.get(0) {
        FileDirective::Patch { file_path, content } => (file_path.clone(), content.content.clone()),
        other => panic!("expected a patch, got {:?}", other),
    }
}

#[test]
fn test_changes_001() {
    let initial_content = r###"# Dev Chat

Update this dev chat history with each of you answer with the `## Request: ...` title/section for each ask (concise title)

## Request: Code Improvement Assessment

The current implementation provides a solid foundation for a button explosion effect. To reach production-grade quality, the following improvements are suggested:

- **Canvas Scaling**: Implement `devicePixelRatio` handling to ensure sharp rendering on high-resolution displays.
- **Animation Control**: Guard the `animate` loop to prevent multiple concurrent `requestAnimationFrame` instances if the logic is expanded.
- **Resource Management**: Implement a particle pool to reduce GC pressure from constant object instantiation.
- **Interaction UX**: Transition from a hardcoded `setTimeout` to a state-based reset that triggers when all particles have faded out.
- **Accessibility**: Add ARIA attributes to handle the temporary disappearance of the primary interaction element.
"###;

    let input = r###"
<FILE_CHANGES>
<FILE_PATCH file_path="original.md">
```md
@@
 - **Accessibility**: Add ARIA attributes to handle the temporary disappearance of the primary interaction element.

+## Request: Architecture Refactoring
+
+Splitting the JavaScript files is a highly recommended step for maintainability. As the project grows, separating concerns improves readability and simplifies testing:
+
+- **Particle Module**: Move the `Particle` class to a dedicated file to encapsulate particle-specific logic.
+- **Animation Engine**: Extract the core canvas setup and the `requestAnimationFrame` loop.
+- **Application Entry**: Use `js/main.js` strictly for DOM initialization and orchestrating interactions.
+
+This modular structure follows modern development standards and leverages ES module capabilities.
+
```
</FILE_PATCH>
</FILE_CHANGES>
"###;
    let (file_path, patch) = first_patch(input);
    assert_eq!(file_path, "original.md");
    let decision = decide_patch(&file_path, Some(initial_content), &patch);
    assert!(
        decision.result.is_ok(),
        "Directive should have succeeded. Error: {:?}",
        decision.result
    );

    let final_content = decision.result.unwrap();
    assert!(final_content.contains("## Request: Architecture Refactoring"));
    assert!(final_content.contains(
        "- **Particle Module**: Move the `Particle` class to a dedicated file to encapsulate particle-specific logic."
    ));
    assert!(final_content.starts_with(initial_content));
}

#[test]
fn test_changes_with_newline_surround() {
    let initial_content = r###"# bind m send-keys "tmux list-panes -a -F '#{?session_attached,ATTACHED,DETACHED} #S:#I.#P \"#{window_name}\" #{pane_current_path} #{pane_current_command}'" Enter

## Disabled for now, since tmux-plugins
# bind-key -T copy-mode-vi o send-keys -X copy-pipe-and-cancel "pbpaste | xargs open"
# bind-key -T copy-mode o    send-keys -X copy-pipe-and-cancel "pbpaste | xargs open"


# Clear right panels
bind K send-keys -t 2 "clear" Enter "\\" Enter C-l \; send-keys -t 3 "clear" Enter "\\" Enter C-l
"###;

    let input = r#"
<FILE_CHANGES>

<FILE_PATCH file_path="keys.conf">
```conf
@@
 ## Disabled for now, since tmux-plugins
 # bind-key -T copy-mode-vi o send-keys -X copy-pipe-and-cancel "pbpaste | xargs open"
 # bind-key -T copy-mode o    send-keys -X copy-pipe-and-cancel "pbpaste | xargs open"
+bind-key -T copy-mode-vi o send-keys -X copy-pipe-and-cancel "xargs open"
+bind-key -T copy-mode    o send-keys -X copy-pipe-and-cancel "xargs open"


 # Clear right panels
```
</FILE_PATCH>

</FILE_CHANGES>
"#;

    let (file_path, patch) = first_patch(input);
    assert_eq!(file_path, "keys.conf");
    let decision = decide_patch(&file_path, Some(initial_content), &patch);
    assert!(
        decision.result.is_ok(),
        "Directive should have succeeded. Error: {:?}",
        decision.result
    );

    let final_content = decision.result.unwrap();
    assert!(final_content
        .contains("bind-key -T copy-mode-vi o send-keys -X copy-pipe-and-cancel \"xargs open\""));
    assert!(final_content
        .contains("bind-key -T copy-mode    o send-keys -X copy-pipe-and-cancel \"xargs open\""));
}

#[test]
fn test_apply_patch_simple() {
    let (text, tier) =
        apply_patch("f.txt", "line 1\nline 2\nline 3\n", "@@\n line 2\n+line 2.5\n line 3\n")
            .unwrap();
    assert_eq!(text, "line 1\nline 2\nline 2.5\nline 3\n");
    assert_eq!(tier, Some(MatchTier::Strict));
}

#[test]
fn test_apply_patch_adds_the_final_newline() {
    let (text, tier) = apply_patch("f.txt", "a\nb", "@@\n a\n-b\n+B\n").unwrap();
    assert_eq!(text, "a\nB\n");
    assert_eq!(tier, Some(MatchTier::Strict));
}

#[test]
fn test_apply_patch_to_an_empty_text() {
    let (text, tier) = apply_patch("f.txt", "", "@@\n+one\n+two\n").unwrap();
    assert_eq!(text, "one\ntwo\n");
    assert_eq!(tier, None);
}

#[test]
fn test_apply_patch_appends_to_a_text() {
    let (text, tier) = apply_patch("f.txt", "a\nb\n", "@@\n+c\n+d\n").unwrap();
    assert_eq!(text, "a\nb\nc\nd\n");
    assert_eq!(tier, None);
}

#[test]
fn test_apply_patch_with_two_hunks() {
    let original = "a\nb\nc\nd\ne\nf\n";
    let patch = "@@\n a\n+A2\n b\n@@\n e\n-f\n+F\n+G\n";
    let (text, tier) = apply_patch("f.txt", original, patch).unwrap();
    assert_eq!(text, "a\nA2\nb\nc\nd\ne\nF\nG\n");
    assert_eq!(tier, Some(MatchTier::Strict));
}

#[test]
fn test_apply_patch_fuzzy_casing() {
    let original = "## Section Title\nSome content here.\nMore content.\n";
    let patch =
        "@@\n ## section title\n-Some content here.\n+Replaced content here.\n More content.\n";
    let (text, tier) = apply_patch("f.md", original, patch).unwrap();
    assert_eq!(text, "## Section Title\nReplaced content here.\nMore content.\n");
    assert_eq!(tier, Some(MatchTier::Fuzzy));
}

#[test]
fn test_apply_patch_reports_the_loosest_tier() {
    let original = "alpha\n    beta\ngamma\nDelta\nepsilon\n";
    // the first hunk matches exactly, the second up to whitespace
    let patch = "@@\n alpha\n+one\n@@\n beta\n+two\n";
    let (text, tier) = apply_patch("f.txt", original, patch).unwrap();
    assert_eq!(text, "alpha\none\n    beta\ntwo\ngamma\nDelta\nepsilon\n");
    assert_eq!(tier, Some(MatchTier::Resilient));
    // a third hunk matches up to case only
    let patch = "@@\n alpha\n+one\n@@\n beta\n+two\n@@\n delta\n+three\n";
    let (text, tier) = apply_patch("f.txt", original, patch).unwrap();
    assert_eq!(text, "alpha\none\n    beta\ntwo\ngamma\nDelta\nthree\nepsilon\n");
    assert_eq!(tier, Some(MatchTier::Fuzzy));
}

#[test]
fn test_apply_patch_not_found() {
    let err = apply_patch("f.txt", "a\nb\n", "@@\n zzz\n-yyy\n+x\n").unwrap_err();
    match &err {
        Error::PatchCompletion { reason, context_pattern } => {
            assert_eq!(
                reason,
                "Could not find patch context in original file (starting search from line 1)"
            );
            assert_eq!(context_pattern, &vec!["zzz".to_string(), "yyy".to_string()]);
        }
        other => panic!("unexpected {:?}", other),
    }
    assert_eq!(
        err.message(),
        "patch completion error: Could not find patch context in original file (starting search from line 1)\nContext lines:\nzzz\nyyy"
    );
}

#[test]
fn test_apply_patch_errors_of_the_applier() {
    // the completer reads over carriage returns, the applier does not
    let err = apply_patch("f.txt", "a\r\nb\r\n", "@@\n a\n+x\n").unwrap_err();
    assert!(matches!(&err, Error::DiffyApplyPatch { path, cause }
        if path == "f.txt" && cause == "error applying hunk #1"));
    assert_eq!(err.message(), "diffy apply patch error: error applying hunk #1");
    // a hunk of additions has the old range 0,0, which the parser refuses
    // behind another hunk
    let err = apply_patch("f.txt", "a\nb\n", "@@\n a\n+a2\n@@\n+c\n").unwrap_err();
    assert!(matches!(&err, Error::DiffyParsePatch { path, cause }
        if path == "f.txt" && cause.contains("hunks not in order or overlap")));
}

#[test]
fn test_patch_outcome() {
    let ok = patch_outcome("f", Some(MatchTier::Resilient), Ok("text".to_string())).unwrap();
    assert_eq!(ok, ("text".to_string(), Some(MatchTier::Resilient)));
    let err = patch_outcome("f", None, Err("error applying hunk #2".to_string())).unwrap_err();
    assert!(matches!(&err, Error::DiffyApplyPatch { path, cause }
        if path == "f" && cause == "error applying hunk #2"));
    assert_eq!(err.message(), "diffy apply patch error: error applying hunk #2");
}

#[test]
fn test_decide_new() {
    assert_eq!(decide_new("a", None, "x").unwrap(), NewWrite::Create);
    assert_eq!(decide_new("a", Some("y"), "x").unwrap(), NewWrite::Overwrite);
    assert_eq!(decide_new("a", Some(""), "x").unwrap(), NewWrite::Overwrite);
    let err = decide_new("a", Some("x"), "x").unwrap_err();
    assert!(matches!(&err, Error::ApplyNoChanges { path } if path == "a"));
}

#[test]
fn test_decide_patch() {
    let d = decide_patch("a", Some("x\ny\n"), "@@\n x\n-y\n+z\n");
    assert_eq!(d.match_tier, Some(MatchTier::Strict));
    assert_eq!(d.result.unwrap(), "x\nz\n");
    // a file that does not exist is patched as an empty one
    let d = decide_patch("a", None, "@@\n+new\n");
    assert_eq!(d.match_tier, None);
    assert_eq!(d.result.unwrap(), "new\n");
    // a patch that leaves the file as it is: no changes, but the tier is known
    let d = decide_patch("a", Some("x\ny\n"), "@@\n x\n-y\n+y\n");
    assert_eq!(d.match_tier, Some(MatchTier::Strict));
    assert!(matches!(d.result.unwrap_err(), Error::ApplyNoChanges { path } if path == "a"));
    let d = decide_patch("a", Some("x\n"), "@@\n nothing like it\n+z\n");
    assert_eq!(d.match_tier, None);
    assert!(matches!(d.result.unwrap_err(), Error::PatchCompletion { .. }));
}

#[test]
fn test_decide_hashline() {
    let tag = |line: usize, text: &str| parse_tag(&format_line_tag(line, text)).unwrap();
    let edit = |new: &str| {
        vec![HashlineEdit::SetLine { tag: tag(2, "b"), content: vec![new.to_string()] }]
    };
    assert_eq!(decide_hashline("f", Some("a\nb\nc"), edit("B")).unwrap(), "a\nB\nc");
    let err = decide_hashline("f", Some("a\nb\nc"), edit("b")).unwrap_err();
    assert!(matches!(&err, Error::ApplyNoChanges { path } if path == "f"));
    let err = decide_hashline("f", Some("a\nX\nc"), edit("B")).unwrap_err();
    assert!(matches!(&err, Error::Hashline(_)));
    assert!(err.message().contains(">>> 2#"));
    let err = decide_hashline("f", None, edit("B")).unwrap_err();
    assert_eq!(err.message(), "Line 2 does not exist (file has 1 lines)");
    let append = vec![HashlineEdit::Append { after: None, content: vec!["x".to_string()] }];
    assert_eq!(decide_hashline("f", None, append).unwrap(), "x");
    // no edits on a file that does not exist: an empty file is written
    assert_eq!(decide_hashline("f", None, Vec::new()).unwrap(), "");
    let err = decide_hashline("f", Some(""), Vec::new()).unwrap_err();
    assert!(matches!(&err, Error::ApplyNoChanges { .. }));
}

#[test]
fn test_decide_rename_and_delete() {
    assert!(decide_rename("a", true).is_ok());
    let err = decide_rename("a", false).unwrap_err();
    assert!(matches!(&err, Error::ApplyPathNotFound { op, path }
        if op == "rename source" && path == "a"));
    assert_eq!(err.message(), "Path not found for rename source: a");
    assert_eq!(decide_delete("a", true, false).unwrap(), DeleteKind::TrashFile);
    assert_eq!(decide_delete("a", true, true).unwrap(), DeleteKind::TrashDir);
    let err = decide_delete("a", false, true).unwrap_err();
    assert_eq!(err.message(), "Path not found for delete: a");
}

#[test]
fn test_conclude() {
    let new = FileDirective::New {
        file_path: "a".to_string(),
        content: Content::from_raw("x".to_string()),
    };
    let info = conclude(DirectiveInfo::from(&new), Ok(()), None);
    assert!(info.success());
    assert_eq!(info.error_msg(), None);
    assert_eq!(info.kind(), "New");
    assert_eq!(info.file_path(), "a");
    let info = conclude(
        DirectiveInfo::from(&new),
        Err(Error::apply_no_changes("a")),
        Some(MatchTier::Fuzzy),
    );
    assert!(!info.success());
    assert_eq!(info.error_msg(), Some("No changes applied to: a"));
    assert_eq!(info.match_tier, Some(MatchTier::Fuzzy));
}

#[test]
fn test_directive_info_from() {
    let rename = FileDirective::Rename { from_path: "a".to_string(), to_path: "b".to_string() };
    let info = DirectiveInfo::from(&rename);
    assert!(!info.success());
    assert_eq!(info.kind(), "Rename");
    assert_eq!(info.file_path(), "b");
    assert!(matches!(&info.kind, DirectiveKind::Rename { from_path, file_path }
        if from_path == "a" && file_path == "b"));
    let fail = FileDirective::Fail {
        kind: "FILE_NEW".to_string(),
        file_path: None,
        error_msg: "bad".to_string(),
    };
    let info = DirectiveInfo::from(&fail);
    assert_eq!(info.kind(), "Fail");
    assert_eq!(info.file_path(), "unknown");
    assert_eq!(info.error_msg(), Some("bad"));
    assert!(!info.success());
    let hashline = FileDirective::HashlinePatch { file_path: "h".to_string(), edits: Vec::new() };
    let info = DirectiveInfo::from(&hashline);
    assert_eq!(info.kind(), "HashlinePatch");
    assert_eq!(info.file_path(), "h");
    let delete = FileDirective::Delete { file_path: "d".to_string() };
    assert_eq!(DirectiveInfo::from(&delete).kind(), "Delete");
    let patch = FileDirective::Patch {
        file_path: "p".to_string(),
        content: Content::from_raw(String::new()),
    };
    assert_eq!(DirectiveInfo::from(&patch).kind(), "Patch");
    assert_eq!(DirectiveInfo::from(&patch).match_tier, None);
}

#[test]
fn test_check_collapsed() {
    assert!(check_collapsed("/a/b/c", "/a/b").is_ok());
    assert!(check_collapsed("/a/b", "/a/b").is_ok());
    let err = check_collapsed("/a/c", "/a/b").unwrap_err();
    assert!(matches!(&err, Error::SecurityViolation { target, base_dir }
        if target == "/a/c" && base_dir == "/a/b"));
    assert_eq!(
        err.message(),
        "Security violation, target '/a/c' is outside base dir '/a/b'"
    );
    assert!(check_collapsed("", "/a").is_err());
    assert!(check_collapsed("/a", "").is_ok());
}

#[test]
fn test_check_for_write_collapses_both_paths() {
    assert!(check_for_write("work/a/../b.txt", "work").is_ok());
    assert!(check_for_write("work/a/./b.txt", "work/x/..").is_ok());
    assert!(check_for_read("/base/sub/file", "/base/sub").is_ok());
    let err = check_for_write("work/../etc/passwd", "work").unwrap_err();
    assert!(matches!(&err, Error::SecurityViolation { target, base_dir }
        if target == "etc/passwd" && base_dir == "work"));
    assert!(check_for_read("/base/other", "/base/sub").is_err());
}

#[test]
fn test_safety_violation() {
    let err = guarded_target("./work", "../etc/passwd").unwrap_err();
    assert!(matches!(err, Error::SecurityViolation { .. }));
    let delete = FileDirective::Delete { file_path: "../etc/passwd".to_string() };
    let err = plan_directive("./work", delete).unwrap_err();
    assert!(matches!(&err, Error::SecurityViolation { target, base_dir }
        if target == "./etc/passwd" && base_dir == "./work"));
    let rename = FileDirective::Rename {
        from_path: "inside.txt".to_string(),
        to_path: "a/../../outside.txt".to_string(),
    };
    assert!(matches!(
        plan_directive("./work", rename).unwrap_err(),
        Error::SecurityViolation { .. }
    ));
    assert_eq!(guarded_target("./work", "sub/a.txt").unwrap(), "./work/sub/a.txt");
}

#[test]
fn test_plan_directive() {
    let new = FileDirective::New {
        file_path: "src/a.txt".to_string(),
        content: Content::from_raw("\nbody".to_string()),
    };
    match plan_directive("/base", new).unwrap() {
        Plan::WriteNew { full_path, file_path, content } => {
            assert_eq!(full_path, "/base/src/a.txt");
            assert_eq!(file_path, "src/a.txt");
            assert_eq!(content, "body");
        }
        other => panic!("unexpected {:?}", other),
    }
    let rename = FileDirective::Rename { from_path: "a".to_string(), to_path: "b/c".to_string() };
    match plan_directive("/base", rename).unwrap() {
        Plan::Rename { full_from, full_to, from_path } => {
            assert_eq!((full_from.as_str(), full_to.as_str()), ("/base/a", "/base/b/c"));
            assert_eq!(from_path, "a");
        }
        other => panic!("unexpected {:?}", other),
    }
    let fail = FileDirective::Fail {
        kind: "FILE_NEW".to_string(),
        file_path: None,
        error_msg: "Missing attribute 'file_path' for tag 'FILE_NEW'".to_string(),
    };
    let err = plan_directive("/base", fail).unwrap_err();
    assert!(matches!(&err, Error::Custom(m)
        if m == "Missing attribute 'file_path' for tag 'FILE_NEW'"));
}

#[test]
fn test_resolve_base_dir() {
    assert_eq!(resolve_base_dir("/home/me", "work").unwrap(), "/home/me/work");
    assert_eq!(resolve_base_dir("/home/me", "./work/../out").unwrap(), "/home/me/out");
    assert_eq!(resolve_base_dir("/home/me", "/home/me/a/b").unwrap(), "/home/me/a/b");
    let err = resolve_base_dir("/home/me", "../other").unwrap_err();
    assert!(matches!(&err, Error::SecurityViolation { target, base_dir }
        if target == "/home/other" && base_dir == "/home/me"));
    assert!(resolve_base_dir("/home/me", "/etc").is_err());
}

#[test]
fn test_error_messages() {
    assert_eq!(Error::custom("plain").message(), "plain");
    assert_eq!(
        Error::parse_missing_attribute("FILE_NEW", "file_path").message(),
        "Missing attribute 'file_path' for tag 'FILE_NEW'"
    );
    assert_eq!(
        Error::parse_unknown_directive_tag("FILE_X").message(),
        "Unknown directive tag 'FILE_X'"
    );
    assert_eq!(
        Error::apply_path_not_found("delete", "a/b").message(),
        "Path not found for delete: a/b"
    );
    assert_eq!(
        Error::security_violation("/x", "/y").message(),
        "Security violation, target '/x' is outside base dir '/y'"
    );
    assert_eq!(Error::io_read_file("p", "c").message(), "Read file failed: p, cause: c");
    assert_eq!(Error::io_create_file("p", "c").message(), "Create file failed: p, cause: c");
    assert_eq!(Error::io_write_file("p", "c").message(), "Write file failed: p, cause: c");
    assert_eq!(
        Error::io_rename_path("a", "b", "c").message(),
        "Rename path failed: a -> b, cause: c"
    );
    assert_eq!(Error::io_delete_file("p", "c").message(), "Delete file failed: p, cause: c");
    assert_eq!(Error::io_delete_dir_all("p", "c").message(), "Delete dir failed: p, cause: c");
    assert_eq!(Error::simple_fs("c").message(), "simple_fs error: c");
    assert_eq!(Error::diffy_parse_patch("p", "c").message(), "diffy parse patch error: c");
    assert_eq!(Error::diffy_apply_patch("p", "c").message(), "diffy apply patch error: c");
    assert_eq!(
        Error::patch_completion("why", vec!["a".to_string(), "b".to_string()]).message(),
        "patch completion error: why\nContext lines:\na\nb"
    );
    assert!(matches!(Error::io_read_file("p", "c"), Error::IoReadFile(pc)
        if pc.path == "p" && pc.cause == "c"));
}

#[test]
fn test_format_files_context() {
    assert_eq!(format_files_context(&Vec::new()), None);
    assert_eq!(
        format_file_entry("src/main.rs", "fn main() {}"),
        "<FILE_CONTENT path=\"src/main.rs\">\nfn main() {}\n</FILE_CONTENT>\n\n"
    );
    let files = vec![
        ("src/lib.rs".to_string(), "pub mod a;".to_string()),
        ("src/main.rs".to_string(), "fn main() {}\n".to_string()),
        ("empty".to_string(), String::new()),
    ];
    assert_eq!(
        format_files_context(&files).unwrap(),
        "<FILE_CONTENT path=\"src/lib.rs\">\npub mod a;\n</FILE_CONTENT>\n\n<FILE_CONTENT path=\"src/main.rs\">\nfn main() {}\n</FILE_CONTENT>\n\n<FILE_CONTENT path=\"empty\">\n\n</FILE_CONTENT>\n\n"
    );
}

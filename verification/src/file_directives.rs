//! The directives of a change block, and the content that two of them carry.

use crate::hashline::edit::{edit_views, EditView, HashlineEdit};
use crate::text::{
    chars_of, find_char, index_of, last_index_of, leading, rfind_char, slice_chars, string_of,
    trim_end, trim_end_chars, trim_start, trim_start_chars, whitespace,
};
use vstd::prelude::*;

verus! {

/// The two fence lines that were taken off a content.
#[derive(Debug, Clone)]
pub struct CodeFence {
    pub start: String,
    pub end: String,
}

/// What a `CodeFence` stands for.
pub struct CodeFenceView {
    pub start: Seq<char>,
    pub end: Seq<char>,
}

impl View for CodeFence {
    type V = CodeFenceView;

    open spec fn view(&self) -> CodeFenceView {
        CodeFenceView { start: self.start@, end: self.end@ }
    }
}

/// The content of a directive: the text that is written or applied, and the
/// fence that stood around it, if one did.
#[derive(Debug, Clone)]
pub struct Content {
    pub content: String,
    pub code_fence: Option<CodeFence>,
}

/// What a `Content` stands for.
pub struct ContentView {
    pub content: Seq<char>,
    pub code_fence: Option<CodeFenceView>,
}

impl View for Content {
    type V = ContentView;

    open spec fn view(&self) -> ContentView {
        ContentView {
            content: self.content@,
            code_fence: match self.code_fence {
                Some(f) => Some(f@),
                None => None,
            },
        }
    }
}

/// `s` without one leading line feed.
pub open spec fn without_leading_newline(s: Seq<char>) -> Seq<char> {
    if s.len() > 0 && s[0] == '\n' {
        s.skip(1)
    } else {
        s
    }
}

/// Whether `s` begins with three backticks.
pub open spec fn starts_with_fence(s: Seq<char>) -> bool {
    s.len() >= 3 && s[0] == '`' && s[1] == '`' && s[2] == '`'
}

/// Whether `s` ends with three backticks.
pub open spec fn ends_with_fence(s: Seq<char>) -> bool {
    s.len() >= 3 && s[s.len() - 1] == '`' && s[s.len() - 2] == '`' && s[s.len() - 3] == '`'
}

/// The fenced content in `raw`, where `raw` is fenced: after leading
/// whitespace it begins with a line of three backticks or more, and before
/// trailing whitespace it ends with a line that, after its own leading
/// whitespace, begins with three backticks and ends with three. The content
/// is what stands between the two lines, without one leading line feed.
pub open spec fn fenced(raw: Seq<char>) -> Option<ContentView> {
    let t = trim_start(raw);
    let f = index_of(t, '\n');
    if starts_with_fence(t) && f < t.len() {
        let remaining = t.skip(f as int + 1);
        let e = trim_end(remaining);
        match last_index_of(e, '\n') {
            Some(l) => {
                let last_line = e.skip(l + 1);
                if ends_with_fence(e) && starts_with_fence(trim_start(last_line)) {
                    Some(
                        ContentView {
                            content: without_leading_newline(remaining.take(l + 1)),
                            code_fence: Some(
                                CodeFenceView { start: t.take(f as int), end: last_line },
                            ),
                        },
                    )
                } else {
                    None
                }
            },
            None => None,
        }
    } else {
        None
    }
}

/// The content that a raw payload stands for: one leading line feed is taken
/// off; then, where what is left is fenced, the fence is taken off too.
pub open spec fn content_of(raw: Seq<char>) -> ContentView {
    let body = without_leading_newline(raw);
    match fenced(body) {
        Some(c) => c,
        None => ContentView { content: body, code_fence: None },
    }
}

fn strip_leading_newline(v: &Vec<char>) -> (r: Vec<char>)
    ensures
        r@ == without_leading_newline(v@),
{
    if v.len() > 0 && v[0] == '\n' {
        let r = slice_chars(v, 1, v.len());
        assert(v@.skip(1) == v@.subrange(1, v.len() as int));
        r
    } else {
        let r = slice_chars(v, 0, v.len());
        assert(v@ == v@.subrange(0, v.len() as int));
        r
    }
}

fn has_fence_start(v: &Vec<char>) -> (r: bool)
    ensures
        r == starts_with_fence(v@),
{
    v.len() >= 3 && v[0] == '`' && v[1] == '`' && v[2] == '`'
}

fn has_fence_end(v: &Vec<char>) -> (r: bool)
    ensures
        r == ends_with_fence(v@),
{
    v.len() >= 3 && v[v.len() - 1] == '`' && v[v.len() - 2] == '`' && v[v.len() - 3] == '`'
}

impl Content {
    /// Reads the content of a directive from its raw payload.
    pub fn from_raw(raw: String) -> (r: Content)
        ensures
            r@ == content_of(raw@),
    {
        let body = strip_leading_newline(&chars_of(raw.as_str()));
        let t = trim_start_chars(&body);
        let f = find_char(&t, '\n');
        if has_fence_start(&t) && f < t.len() {
            let remaining = slice_chars(&t, f + 1, t.len());
            assert(remaining@ == t@.skip(f + 1));
            let e = trim_end_chars(&remaining);
            if let Some(l) = rfind_char(&e, '\n') {
                let last_line = slice_chars(&e, l + 1, e.len());
                assert(last_line@ == e@.skip(l + 1));
                if has_fence_end(&e) && has_fence_start(&trim_start_chars(&last_line)) {
                    proof {
                        crate::text::lemma_trailing(remaining@, whitespace());
                    }
                    let inner = slice_chars(&remaining, 0, l + 1);
                    assert(inner@ == remaining@.take(l + 1));
                    let content = strip_leading_newline(&inner);
                    let start = slice_chars(&t, 0, f);
                    assert(start@ == t@.take(f as int));
                    return Content {
                        content: string_of(&content),
                        code_fence: Some(
                            CodeFence { start: string_of(&start), end: string_of(&last_line) },
                        ),
                    };
                }
            }
        }
        Content { content: string_of(&body), code_fence: None }
    }
}

/// One change to the files.
#[derive(Debug, Clone)]
#[allow(inconsistent_fields)]
pub enum FileDirective {
    /// Creates a file, or writes it anew.
    New { file_path: String, content: Content },
    /// Applies a loose patch to a file.
    Patch { file_path: String, content: Content },
    /// Applies line-tagged edits to a file.
    HashlinePatch { file_path: String, edits: Vec<HashlineEdit> },
    /// Moves a file.
    Rename { from_path: String, to_path: String },
    /// Deletes a file or a directory.
    Delete { file_path: String },
    /// A directive that could not be read: it is kept in its place, to be
    /// reported there.
    Fail { kind: String, file_path: Option<String>, error_msg: String },
}

/// What a `FileDirective` stands for.
#[allow(inconsistent_fields)]
pub enum DirectiveView {
    New { file_path: Seq<char>, content: ContentView },
    Patch { file_path: Seq<char>, content: ContentView },
    HashlinePatch { file_path: Seq<char>, edits: Seq<EditView> },
    Rename { from_path: Seq<char>, to_path: Seq<char> },
    Delete { file_path: Seq<char> },
    Fail { kind: Seq<char>, file_path: Option<Seq<char>>, error_msg: Seq<char> },
}

/// What an optional string stands for.
pub open spec fn string_option_view(s: Option<String>) -> Option<Seq<char>> {
    match s {
        Some(s) => Some(s@),
        None => None,
    }
}

impl View for FileDirective {
    type V = DirectiveView;

    open spec fn view(&self) -> DirectiveView {
        match *self {
            FileDirective::New { file_path, content } => DirectiveView::New {
                file_path: file_path@,
                content: content@,
            },
            FileDirective::Patch { file_path, content } => DirectiveView::Patch {
                file_path: file_path@,
                content: content@,
            },
            FileDirective::HashlinePatch { file_path, edits } => DirectiveView::HashlinePatch {
                file_path: file_path@,
                edits: edit_views(edits@),
            },
            FileDirective::Rename { from_path, to_path } => DirectiveView::Rename {
                from_path: from_path@,
                to_path: to_path@,
            },
            FileDirective::Delete { file_path } => DirectiveView::Delete { file_path: file_path@ },
            FileDirective::Fail { kind, file_path, error_msg } => DirectiveView::Fail {
                kind: kind@,
                file_path: string_option_view(file_path),
                error_msg: error_msg@,
            },
        }
    }
}

/// The views of a list of directives.
pub open spec fn directive_views(v: Seq<FileDirective>) -> Seq<DirectiveView> {
    v.map_values(|d: FileDirective| d@)
}

} // verus!

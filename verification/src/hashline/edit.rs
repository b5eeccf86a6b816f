//! The edits of a hashline patch, and the parser of their one-line text form.

use crate::hashline::tag::{parse_tag_chars, parse_tag_spec, LineTag, TagView};
use crate::text::{
    append_chars, chars_of, find_char, index_of, slice_chars, string_of, string_texts, trim,
    trim_chars,
};
use vstd::prelude::*;

verus! {

/// One edit of a file, each line it names given by a tag. `content` holds the
/// new lines, none of which contains a line feed.
#[derive(Debug, Clone, PartialEq, Eq)]
#[allow(inconsistent_fields)]
pub enum HashlineEdit {
    /// Replaces one line.
    SetLine { tag: LineTag, content: Vec<String> },
    /// Replaces the lines from `first` to `last`, both included.
    Replace { first: LineTag, last: LineTag, content: Vec<String> },
    /// Inserts after a line, or at the end of the file.
    Append { after: Option<LineTag>, content: Vec<String> },
    /// Inserts before a line, or at the start of the file.
    Prepend { before: Option<LineTag>, content: Vec<String> },
    /// Inserts between two lines, just before `before`.
    Insert { after: LineTag, before: LineTag, content: Vec<String> },
}

/// What a `HashlineEdit` stands for.
#[allow(inconsistent_fields)]
pub enum EditView {
    SetLine { tag: TagView, content: Seq<Seq<char>> },
    Replace { first: TagView, last: TagView, content: Seq<Seq<char>> },
    Append { after: Option<TagView>, content: Seq<Seq<char>> },
    Prepend { before: Option<TagView>, content: Seq<Seq<char>> },
    Insert { after: TagView, before: TagView, content: Seq<Seq<char>> },
}

/// What an optional tag stands for.
pub open spec fn tag_option_view(t: Option<LineTag>) -> Option<TagView> {
    match t {
        Some(t) => Some(t@),
        None => None,
    }
}

impl View for HashlineEdit {
    type V = EditView;

    open spec fn view(&self) -> EditView {
        match *self {
            HashlineEdit::SetLine { tag, content } => EditView::SetLine {
                tag: tag@,
                content: string_texts(content@),
            },
            HashlineEdit::Replace { first, last, content } => EditView::Replace {
                first: first@,
                last: last@,
                content: string_texts(content@),
            },
            HashlineEdit::Append { after, content } => EditView::Append {
                after: tag_option_view(after),
                content: string_texts(content@),
            },
            HashlineEdit::Prepend { before, content } => EditView::Prepend {
                before: tag_option_view(before),
                content: string_texts(content@),
            },
            HashlineEdit::Insert { after, before, content } => EditView::Insert {
                after: after@,
                before: before@,
                content: string_texts(content@),
            },
        }
    }
}

impl EditView {
    /// The new lines of the edit.
    pub open spec fn content(self) -> Seq<Seq<char>> {
        match self {
            EditView::SetLine { content, .. } => content,
            EditView::Replace { content, .. } => content,
            EditView::Append { content, .. } => content,
            EditView::Prepend { content, .. } => content,
            EditView::Insert { content, .. } => content,
        }
    }
}

/// The views of a list of edits.
pub open spec fn edit_views(edits: Seq<HashlineEdit>) -> Seq<EditView> {
    edits.map_values(|e: HashlineEdit| e@)
}

// ---------------------------------------------------------------------------
// The text form
// ---------------------------------------------------------------------------

/// The message for a line that has none of the four forms.
pub open spec fn unparsable_edit_message(t: Seq<char>) -> Seq<char> {
    "Could not parse hashline edit: "@ + t
}

/// The tag and the content of a line `XYtag content`, where `XY` are the two
/// characters of an insertion mark: what follows the mark is trimmed, and split
/// at its first space.
pub open spec fn anchored_parts(t: Seq<char>) -> Option<(Seq<char>, Seq<char>)> {
    let rest = trim(t.skip(2));
    let si = index_of(rest, ' ');
    if si < rest.len() {
        Some((rest.take(si as int), rest.skip(si as int + 1)))
    } else {
        None
    }
}

/// Whether `t` begins with the two characters `a` and `b`.
pub open spec fn has_mark(t: Seq<char>, a: char, b: char) -> bool {
    t.len() >= 2 && t[0] == a && t[1] == b
}

/// The edit of a line `REF:CONTENT`, where `REF` is what stands before the
/// first colon at `ci`: a `Replace` where `REF` holds a `-` (the tags on
/// either side of the first one), and a `SetLine` otherwise.
pub open spec fn replacement_edit(t: Seq<char>, ci: int) -> Result<EditView, Seq<char>> {
    let ref_part = trim(t.take(ci));
    let content = seq![t.skip(ci + 1)];
    let di = index_of(ref_part, '-');
    if di < ref_part.len() {
        match parse_tag_spec(ref_part.take(di as int)) {
            Err(m) => Err(m),
            Ok(first) => match parse_tag_spec(ref_part.skip(di as int + 1)) {
                Err(m) => Err(m),
                Ok(last) => Ok(EditView::Replace { first, last, content }),
            },
        }
    } else {
        match parse_tag_spec(ref_part) {
            Err(m) => Err(m),
            Ok(tag) => Ok(EditView::SetLine { tag, content }),
        }
    }
}

/// The edit that one line of text stands for. The line is trimmed first.
///
/// A line that begins with `>+` is an `Append`, and one that begins with `<+`
/// a `Prepend`: `>+TAG CONTENT`, the tag ending at the first space and the
/// content being all that follows it, colons too. Without a space such a line
/// is an error. Any other line is `REF:CONTENT`, split at its first colon, or
/// an error where it has no colon.
pub open spec fn parse_edit_spec(line: Seq<char>) -> Result<EditView, Seq<char>> {
    let t = trim(line);
    if has_mark(t, '>', '+') {
        match anchored_parts(t) {
            None => Err(unparsable_edit_message(t)),
            Some((ref_part, content)) => match parse_tag_spec(ref_part) {
                Err(m) => Err(m),
                Ok(tag) => Ok(EditView::Append { after: Some(tag), content: seq![content] }),
            },
        }
    } else if has_mark(t, '<', '+') {
        match anchored_parts(t) {
            None => Err(unparsable_edit_message(t)),
            Some((ref_part, content)) => match parse_tag_spec(ref_part) {
                Err(m) => Err(m),
                Ok(tag) => Ok(EditView::Prepend { before: Some(tag), content: seq![content] }),
            },
        }
    } else {
        let ci = index_of(t, ':');
        if ci < t.len() {
            replacement_edit(t, ci as int)
        } else {
            Err(unparsable_edit_message(t))
        }
    }
}

/// What a parsed edit, or the message in its place, stands for.
pub open spec fn edit_result_view(r: Result<HashlineEdit, String>) -> Result<
    EditView,
    Seq<char>,
> {
    match r {
        Ok(e) => Ok(e@),
        Err(m) => Err(m@),
    }
}

fn single_line(text: &Vec<char>) -> (r: Vec<String>)
    ensures
        string_texts(r@) == seq![text@],
{
    let mut out: Vec<String> = Vec::new();
    out.push(string_of(text));
    assert(string_texts(out@) =~= seq![text@]);
    out
}

fn split_anchored(t: &Vec<char>) -> (r: Option<(Vec<char>, Vec<char>)>)
    requires
        t.len() >= 2,
    ensures
        match r {
            Some((a, b)) => anchored_parts(t@) == Some((a@, b@)),
            None => anchored_parts(t@) is None,
        },
{
    let after_mark = slice_chars(t, 2, t.len());
    assert(after_mark@ == t@.skip(2));
    let rest = trim_chars(&after_mark);
    let si = find_char(&rest, ' ');
    if si < rest.len() {
        let a = slice_chars(&rest, 0, si);
        let b = slice_chars(&rest, si + 1, rest.len());
        Some((a, b))
    } else {
        None
    }
}

/// Reads one line of a hashline patch.
pub fn parse_edit(line: &str) -> (r: Result<HashlineEdit, String>)
    ensures
        edit_result_view(r) == parse_edit_spec(line@),
{
    let raw = chars_of(line);
    let t = trim_chars(&raw);
    let appends = t.len() >= 2 && t[0] == '>' && t[1] == '+';
    let prepends = t.len() >= 2 && t[0] == '<' && t[1] == '+';
    if appends || prepends {
        return match split_anchored(&t) {
            None => Err(unparsable(&t)),
            Some((ref_part, content_part)) => match parse_tag_chars(&ref_part) {
                Err(m) => Err(m),
                Ok(tag) => {
                    let content = single_line(&content_part);
                    if appends {
                        Ok(HashlineEdit::Append { after: Some(tag), content })
                    } else {
                        Ok(HashlineEdit::Prepend { before: Some(tag), content })
                    }
                },
            },
        };
    }
    let ci = find_char(&t, ':');
    if ci >= t.len() {
        return Err(unparsable(&t));
    }
    let before = slice_chars(&t, 0, ci);
    let ref_part = trim_chars(&before);
    let content_part = slice_chars(&t, ci + 1, t.len());
    let content = single_line(&content_part);
    let di = find_char(&ref_part, '-');
    if di < ref_part.len() {
        let first_ref = slice_chars(&ref_part, 0, di);
        let last_ref = slice_chars(&ref_part, di + 1, ref_part.len());
        let first = match parse_tag_chars(&first_ref) {
            Err(m) => {
                return Err(m);
            },
            Ok(tag) => tag,
        };
        let last = match parse_tag_chars(&last_ref) {
            Err(m) => {
                return Err(m);
            },
            Ok(tag) => tag,
        };
        Ok(HashlineEdit::Replace { first, last, content })
    } else {
        match parse_tag_chars(&ref_part) {
            Err(m) => Err(m),
            Ok(tag) => Ok(HashlineEdit::SetLine { tag, content }),
        }
    }
}

fn unparsable(t: &Vec<char>) -> (r: String)
    ensures
        r@ == unparsable_edit_message(t@),
{
    let mut m = chars_of("Could not parse hashline edit: ");
    append_chars(&mut m, t);
    string_of(&m)
}

} // verus!

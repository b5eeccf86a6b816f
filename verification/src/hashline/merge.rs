//! The merge of two lines into one: a replacement of a single line that also
//! holds the text of the line next to it is taken to replace both.

use crate::hashline::fix::{
    looks_continued, strip_merge_operator_chars, strip_trailing_continuation_tokens,
    without_continuation, without_merge_operators,
};
use crate::text::{copy_lines, find, find_chars, strip_whitespace, strip_whitespace_chars, texts};
use vstd::prelude::*;

verus! {

/// A range of lines `first..=last` that an edit names.
pub struct LineSpan {
    pub first: usize,
    pub last: usize,
}

/// What a `LineSpan` stands for.
pub struct LineSpanView {
    pub first: nat,
    pub last: nat,
}

impl View for LineSpan {
    type V = LineSpanView;

    open spec fn view(&self) -> LineSpanView {
        LineSpanView { first: self.first as nat, last: self.last as nat }
    }
}

/// The views of a list of line spans.
pub open spec fn line_span_views(v: Seq<LineSpan>) -> Seq<LineSpanView> {
    v.map_values(|s: LineSpan| s@)
}

/// Whether one of `spans` holds line `n`.
pub open spec fn covers(spans: Seq<LineSpanView>, n: nat) -> bool {
    exists|i: int| 0 <= i < spans.len() && (#[trigger] spans[i]).first <= n <= spans[i].last
}

/// Whether one of `spans` holds line `n`.
pub fn is_covered(spans: &Vec<LineSpan>, n: usize) -> (r: bool)
    ensures
        r == covers(line_span_views(spans@), n as nat),
{
    let ghost sv = line_span_views(spans@);
    let mut i: usize = 0;
    while i < spans.len()
        invariant
            i <= spans.len(),
            sv == line_span_views(spans@),
            forall|j: int| 0 <= j < i ==> !((#[trigger] sv[j]).first <= n <= sv[j].last),
        decreases spans.len() - i,
    {
        assert(sv[i as int] == spans@[i as int]@);
        if spans[i].first <= n && n <= spans[i].last {
            return true;
        }
        i += 1;
    }
    false
}

/// A replacement of two lines by the content of an edit of one line.
pub struct MergedExpansion {
    pub start_line: usize,
    pub delete_count: usize,
    pub new_lines: Vec<Vec<char>>,
}

/// What a `MergedExpansion` stands for.
pub struct MergedExpansionView {
    pub start_line: nat,
    pub delete_count: nat,
    pub new_lines: Seq<Seq<char>>,
}

impl View for MergedExpansion {
    type V = MergedExpansionView;

    open spec fn view(&self) -> MergedExpansionView {
        MergedExpansionView {
            start_line: self.start_line as nat,
            delete_count: self.delete_count as nat,
            new_lines: texts(self.new_lines@),
        }
    }
}

/// Whether `a` occurs in `text` before `b` does, both taken at their first
/// occurrence.
pub open spec fn occurs_before(text: Seq<char>, a: Seq<char>, b: Seq<char>) -> bool {
    match (find(text, a), find(text, b)) {
        (Some(ai), Some(bi)) => ai < bi,
        _ => false,
    }
}

/// Whether the new line holds `line` and the line below it: `line` ends with a
/// connective, the line below is named by no edit, and the new line, without
/// whitespace, holds the text of `line` without its connective before the
/// text of the line below, and is at most 32 characters longer than both.
pub open spec fn absorbs_next(
    line: nat,
    new_canon: Seq<char>,
    file_lines: Seq<Seq<char>>,
    touched: Seq<LineSpanView>,
) -> bool {
    let orig_canon = strip_whitespace(file_lines[line - 1]);
    looks_continued(orig_canon) && line < file_lines.len() && !covers(touched, line + 1) && {
        let next_canon = strip_whitespace(file_lines[line as int]);
        occurs_before(new_canon, without_continuation(orig_canon), next_canon) && new_canon.len()
            <= orig_canon.len() + next_canon.len() + 32
    }
}

/// Whether there is a line above `line` that could have been merged into the
/// new line: it exists and no edit names it.
pub open spec fn has_free_previous(line: nat, touched: Seq<LineSpanView>) -> bool {
    line >= 2 && !covers(touched, (line - 1) as nat)
}

/// Whether the new line holds the line above `line` and `line`: the line above
/// ends with a connective, and the new line, without whitespace and operator
/// characters, holds the text of the line above without its connective before
/// the text of `line`, and is at most 32 characters longer than both.
pub open spec fn absorbs_previous(
    line: nat,
    new_canon: Seq<char>,
    file_lines: Seq<Seq<char>>,
) -> bool {
    let orig_canon = strip_whitespace(file_lines[line - 1]);
    let prev_canon = strip_whitespace(file_lines[line - 2]);
    looks_continued(prev_canon) && occurs_before(
        without_merge_operators(new_canon),
        without_merge_operators(without_continuation(prev_canon)),
        without_merge_operators(orig_canon),
    ) && new_canon.len() <= prev_canon.len() + orig_canon.len() + 32
}

/// The two lines that an edit of line `line` replaces in place of one, if it
/// does: the edit has a single new line, that line and line `line` hold more
/// than whitespace, and the new line absorbs the line below, or else the line
/// above.
pub open spec fn merge_expansion(
    line: nat,
    content: Seq<Seq<char>>,
    file_lines: Seq<Seq<char>>,
    touched: Seq<LineSpanView>,
) -> Option<MergedExpansionView> {
    if content.len() != 1 || line < 1 || line > file_lines.len() {
        None
    } else {
        let new_canon = strip_whitespace(content[0]);
        let orig_canon = strip_whitespace(file_lines[line - 1]);
        if new_canon.len() == 0 || orig_canon.len() == 0 {
            None
        } else if absorbs_next(line, new_canon, file_lines, touched) {
            Some(MergedExpansionView { start_line: line, delete_count: 2, new_lines: content })
        } else if has_free_previous(line, touched) && absorbs_previous(
            line,
            new_canon,
            file_lines,
        ) {
            Some(
                MergedExpansionView {
                    start_line: (line - 1) as nat,
                    delete_count: 2,
                    new_lines: content,
                },
            )
        } else {
            None
        }
    }
}

fn found_before(text: &Vec<char>, a: &Vec<char>, b: &Vec<char>) -> (r: bool)
    ensures
        r == occurs_before(text@, a@, b@),
{
    match (find_chars(text, a), find_chars(text, b)) {
        (Some(ai), Some(bi)) => ai < bi,
        _ => false,
    }
}

/// Sum of three lengths, as far as it can be counted.
fn within_margin(new_len: usize, a: usize, b: usize) -> (r: bool)
    ensures
        r == (new_len <= a + b + 32),
{
    let sum: u128 = a as u128 + b as u128 + 32;
    (new_len as u128) <= sum
}

/// Looks whether the single new line of an edit of line `line` also holds the
/// line below or the line above, and gives the two lines to replace if so.
pub fn maybe_expand_single_line_merge(
    line: usize,
    content: &Vec<Vec<char>>,
    file_lines: &Vec<Vec<char>>,
    explicitly_touched_lines: &Vec<LineSpan>,
) -> (r: Option<MergedExpansion>)
    ensures
        match r {
            Some(m) => merge_expansion(
                line as nat,
                texts(content@),
                texts(file_lines@),
                line_span_views(explicitly_touched_lines@),
            ) == Some(m@),
            None => merge_expansion(
                line as nat,
                texts(content@),
                texts(file_lines@),
                line_span_views(explicitly_touched_lines@),
            ) is None,
        },
{
    if content.len() != 1 {
        return None;
    }
    if line < 1 || line > file_lines.len() {
        return None;
    }
    let ghost fl = texts(file_lines@);
    assert(texts(content@)[0] == content@[0]@);
    assert(fl[line - 1] == file_lines@[line - 1]@);
    let new_canon = strip_whitespace_chars(&content[0]);
    if new_canon.len() == 0 {
        return None;
    }
    let orig_canon = strip_whitespace_chars(&file_lines[line - 1]);
    if orig_canon.len() == 0 {
        return None;
    }
    let orig_canon_for_match = strip_trailing_continuation_tokens(&orig_canon);
    let orig_looks_like_continuation = orig_canon_for_match.len() < orig_canon.len();

    if orig_looks_like_continuation && line < file_lines.len() && !is_covered(
        explicitly_touched_lines,
        line + 1,
    ) {
        assert(fl[line as int] == file_lines@[line as int]@);
        let next_canon = strip_whitespace_chars(&file_lines[line]);
        if found_before(&new_canon, &orig_canon_for_match, &next_canon) && within_margin(
            new_canon.len(),
            orig_canon.len(),
            next_canon.len(),
        ) {
            return Some(
                MergedExpansion {
                    start_line: line,
                    delete_count: 2,
                    new_lines: copy_lines(content),
                },
            );
        }
    }
    if line >= 2 && !is_covered(explicitly_touched_lines, line - 1) {
        assert(fl[line - 2] == file_lines@[line - 2]@);
        let prev_canon = strip_whitespace_chars(&file_lines[line - 2]);
        let prev_canon_for_match = strip_trailing_continuation_tokens(&prev_canon);
        if !(prev_canon_for_match.len() < prev_canon.len()) {
            return None;
        }
        let new_ops = strip_merge_operator_chars(&new_canon);
        let prev_ops = strip_merge_operator_chars(&prev_canon_for_match);
        let orig_ops = strip_merge_operator_chars(&orig_canon);
        if found_before(&new_ops, &prev_ops, &orig_ops) && within_margin(
            new_canon.len(),
            prev_canon.len(),
            orig_canon.len(),
        ) {
            return Some(
                MergedExpansion {
                    start_line: line - 1,
                    delete_count: 2,
                    new_lines: copy_lines(content),
                },
            );
        }
    }
    None
}

} // verus!

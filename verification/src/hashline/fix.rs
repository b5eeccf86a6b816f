//! The corrections that are made to the content of an edit before it is
//! spliced in: lines that only repeat what stands next to the edit are left
//! out, wrapped lines are put back together, and lost indentation is restored.

use crate::text::{
    append_lines, chars_eq, concat_chars, copy_chars, copy_lines, leading, leading_whitespace_len,
    slice_chars, slice_lines, strip_whitespace, strip_whitespace_chars, texts, trailing,
    trailing_whitespace_len, whitespace,
};
use vstd::prelude::*;

verus! {

// ---------------------------------------------------------------------------
// Comparing and stripping
// ---------------------------------------------------------------------------

/// Whether `a` and `b` are the same text once all whitespace is left out.
pub open spec fn same_ignoring_whitespace(a: Seq<char>, b: Seq<char>) -> bool {
    strip_whitespace(a) == strip_whitespace(b)
}

/// Whether `a` and `b` are the same text but for whitespace.
pub fn equals_ignoring_whitespace(a: &Vec<char>, b: &Vec<char>) -> (r: bool)
    ensures
        r == same_ignoring_whitespace(a@, b@),
{
    if chars_eq(a, b) {
        return true;
    }
    let x = strip_whitespace_chars(a);
    let y = strip_whitespace_chars(b);
    chars_eq(&x, &y)
}

/// `s` without its whitespace.
pub fn strip_all_whitespace(s: &Vec<char>) -> (r: Vec<char>)
    ensures
        r@ == strip_whitespace(s@),
{
    strip_whitespace_chars(s)
}

/// Whether `a` followed by `b` is one of the connectives `&&`, `||` and `??`.
pub open spec fn is_double_connective(a: char, b: char) -> bool {
    (a == '&' && b == '&') || (a == '|' && b == '|') || (a == '?' && b == '?')
}

/// Whether `c` is one of the connectives `? : = , + - * / . (`.
pub open spec fn is_single_connective(c: char) -> bool {
    c == '?' || c == ':' || c == '=' || c == ',' || c == '+' || c == '-' || c == '*' || c == '/'
        || c == '.' || c == '('
}

/// `s` without the connective that it ends with, and without the whitespace
/// behind that connective; `s` itself where it ends with none. A connective of
/// two characters is taken whole.
pub open spec fn without_continuation(s: Seq<char>) -> Seq<char> {
    let t = s.take(s.len() - trailing(s, whitespace()));
    if t.len() >= 2 && is_double_connective(t[t.len() - 2], t[t.len() - 1]) {
        t.take(t.len() - 2)
    } else if t.len() >= 1 && is_single_connective(t[t.len() - 1]) {
        t.take(t.len() - 1)
    } else {
        s
    }
}

/// Whether `s` ends with a connective, so that the next line continues it.
pub open spec fn looks_continued(s: Seq<char>) -> bool {
    without_continuation(s).len() < s.len()
}

/// `s` without the connective that it ends with.
pub fn strip_trailing_continuation_tokens(s: &Vec<char>) -> (r: Vec<char>)
    ensures
        r@ == without_continuation(s@),
{
    let w = trailing_whitespace_len(s);
    let n = s.len() - w;
    if n >= 2 && ((s[n - 2] == '&' && s[n - 1] == '&') || (s[n - 2] == '|' && s[n - 1] == '|') || (
    s[n - 2] == '?' && s[n - 1] == '?')) {
        slice_chars(s, 0, n - 2)
    } else if n >= 1 && (s[n - 1] == '?' || s[n - 1] == ':' || s[n - 1] == '=' || s[n - 1] == ','
        || s[n - 1] == '+' || s[n - 1] == '-' || s[n - 1] == '*' || s[n - 1] == '/' || s[n - 1]
        == '.' || s[n - 1] == '(') {
        slice_chars(s, 0, n - 1)
    } else {
        copy_chars(s)
    }
}

/// Whether `c` is one of the operator characters `|`, `&` and `?`.
pub open spec fn is_merge_operator(c: char) -> bool {
    c == '|' || c == '&' || c == '?'
}

/// `s` without the operator characters `|`, `&` and `?`.
pub open spec fn without_merge_operators(s: Seq<char>) -> Seq<char> {
    s.filter(|c: char| !is_merge_operator(c))
}

/// `s` without the operator characters `|`, `&` and `?`.
pub fn strip_merge_operator_chars(s: &Vec<char>) -> (r: Vec<char>)
    ensures
        r@ == without_merge_operators(s@),
{
    let mut out: Vec<char> = Vec::new();
    let mut i: usize = 0;
    proof {
        reveal(Seq::filter);
    }
    while i < s.len()
        invariant
            i <= s.len(),
            out@ == without_merge_operators(s@.take(i as int)),
        decreases s.len() - i,
    {
        proof {
            s@.take(i as int).lemma_filter_push(s@[i as int], |c: char| !is_merge_operator(c));
            assert(s@.take(i + 1) =~= s@.take(i as int).push(s@[i as int]));
        }
        let c = s[i];
        if !(c == '|' || c == '&' || c == '?') {
            out.push(c);
        }
        i += 1;
    }
    assert(s@.take(s.len() as int) == s@);
    out
}

// ---------------------------------------------------------------------------
// Indentation
// ---------------------------------------------------------------------------

/// The whitespace that `s` begins with.
pub open spec fn indent_of(s: Seq<char>) -> Seq<char> {
    s.take(leading(s, whitespace()) as int)
}

/// The whitespace that `s` begins with.
pub fn leading_whitespace(s: &Vec<char>) -> (r: Vec<char>)
    ensures
        r@ == indent_of(s@),
{
    let n = leading_whitespace_len(s);
    slice_chars(s, 0, n)
}

/// `line` behind the indentation of `template`, where `line` is not empty and
/// has no indentation of its own; `line` itself otherwise.
pub open spec fn with_indent_of(template: Seq<char>, line: Seq<char>) -> Seq<char> {
    if line.len() == 0 || indent_of(template).len() == 0 || indent_of(line).len() > 0 {
        line
    } else {
        indent_of(template) + line
    }
}

/// `line` behind the indentation of `template_line`, where it has none of its own.
pub fn restore_leading_indent(template_line: &Vec<char>, line: &Vec<char>) -> (r: Vec<char>)
    ensures
        r@ == with_indent_of(template_line@, line@),
{
    if line.len() == 0 {
        return copy_chars(line);
    }
    let template_indent = leading_whitespace(template_line);
    if template_indent.len() == 0 {
        return copy_chars(line);
    }
    let indent = leading_whitespace(line);
    if indent.len() != 0 {
        return copy_chars(line);
    }
    concat_chars(&template_indent, line)
}

/// The new lines, each behind the indentation of the old line in its place,
/// where there are as many new lines as old ones; the new lines otherwise.
pub open spec fn with_indents_of(old_lines: Seq<Seq<char>>, new_lines: Seq<Seq<char>>) -> Seq<
    Seq<char>,
> {
    if old_lines.len() != new_lines.len() {
        new_lines
    } else {
        Seq::new(new_lines.len(), |i: int| with_indent_of(old_lines[i], new_lines[i]))
    }
}

/// The new lines behind the indentation of the old ones, line by line.
pub fn restore_indent_for_paired_replacement(
    old_lines: &Vec<Vec<char>>,
    new_lines: &Vec<Vec<char>>,
) -> (r: Vec<Vec<char>>)
    ensures
        texts(r@) == with_indents_of(texts(old_lines@), texts(new_lines@)),
{
    if old_lines.len() != new_lines.len() {
        return copy_lines(new_lines);
    }
    let mut out: Vec<Vec<char>> = Vec::new();
    let mut i: usize = 0;
    while i < new_lines.len()
        invariant
            i <= new_lines.len(),
            old_lines.len() == new_lines.len(),
            out.len() == i,
            forall|j: int|
                0 <= j < i ==> (#[trigger] out@[j])@ == with_indent_of(
                    old_lines@[j]@,
                    new_lines@[j]@,
                ),
        decreases new_lines.len() - i,
    {
        out.push(restore_leading_indent(&old_lines[i], &new_lines[i]));
        i += 1;
    }
    assert(texts(out@) =~= with_indents_of(texts(old_lines@), texts(new_lines@)));
    out
}

// ---------------------------------------------------------------------------
// Splicing
// ---------------------------------------------------------------------------

/// `lines` with the lines `from..to` replaced by `new_lines`. An index beyond
/// the end counts as the end.
pub open spec fn splice(
    lines: Seq<Seq<char>>,
    from: int,
    to: int,
    new_lines: Seq<Seq<char>>,
) -> Seq<Seq<char>> {
    let a = if from < 0 {
        0
    } else if from > lines.len() {
        lines.len() as int
    } else {
        from
    };
    let b = if to < a {
        a
    } else if to > lines.len() {
        lines.len() as int
    } else {
        to
    };
    lines.take(a) + new_lines + lines.skip(b)
}

/// `lines` with the lines `from..to` replaced by `new_lines`.
pub fn splice_lines(
    lines: &Vec<Vec<char>>,
    from: usize,
    to: usize,
    new_lines: &Vec<Vec<char>>,
) -> (r: Vec<Vec<char>>)
    ensures
        texts(r@) == splice(texts(lines@), from as int, to as int, texts(new_lines@)),
{
    let a = if from > lines.len() {
        lines.len()
    } else {
        from
    };
    let b = if to < a {
        a
    } else if to > lines.len() {
        lines.len()
    } else {
        to
    };
    let mut out = slice_lines(lines, 0, a);
    append_lines(&mut out, new_lines);
    let tail = slice_lines(lines, b, lines.len());
    append_lines(&mut out, &tail);
    assert(texts(out@) =~= splice(texts(lines@), from as int, to as int, texts(new_lines@)));
    out
}

// ---------------------------------------------------------------------------
// Echoes of the lines next to an edit
// ---------------------------------------------------------------------------

/// The lines to insert after `anchor`, without a first line that only repeats
/// the anchor. A single line is never left out.
pub open spec fn without_echo_after(anchor: Seq<char>, dst: Seq<Seq<char>>) -> Seq<Seq<char>> {
    if dst.len() > 1 && same_ignoring_whitespace(dst[0], anchor) {
        dst.skip(1)
    } else {
        dst
    }
}

/// The lines to insert before `anchor`, without a last line that only repeats
/// the anchor. A single line is never left out.
pub open spec fn without_echo_before(anchor: Seq<char>, dst: Seq<Seq<char>>) -> Seq<Seq<char>> {
    if dst.len() > 1 && same_ignoring_whitespace(dst.last(), anchor) {
        dst.drop_last()
    } else {
        dst
    }
}

/// The lines to insert between two anchors, without a first line that repeats
/// the upper anchor and then without a last line that repeats the lower one.
pub open spec fn without_boundary_echo(
    after_line: Seq<char>,
    before_line: Seq<char>,
    dst: Seq<Seq<char>>,
) -> Seq<Seq<char>> {
    without_echo_before(before_line, without_echo_after(after_line, dst))
}

/// The lines to insert after `anchor_line`, without a first line that repeats it.
pub fn strip_insert_anchor_echo_after(anchor_line: &Vec<char>, dst_lines: &Vec<Vec<char>>) -> (r:
    Vec<Vec<char>>)
    ensures
        texts(r@) == without_echo_after(anchor_line@, texts(dst_lines@)),
{
    if dst_lines.len() > 1 && equals_ignoring_whitespace(&dst_lines[0], anchor_line) {
        assert(texts(dst_lines@)[0] == dst_lines@[0]@);
        let r = slice_lines(dst_lines, 1, dst_lines.len());
        assert(texts(dst_lines@).skip(1) =~= texts(dst_lines@).subrange(1, dst_lines.len() as int));
        r
    } else {
        if dst_lines.len() > 1 {
            assert(texts(dst_lines@)[0] == dst_lines@[0]@);
        }
        copy_lines(dst_lines)
    }
}

/// The lines to insert before `anchor_line`, without a last line that repeats it.
pub fn strip_insert_anchor_echo_before(anchor_line: &Vec<char>, dst_lines: &Vec<Vec<char>>) -> (r:
    Vec<Vec<char>>)
    ensures
        texts(r@) == without_echo_before(anchor_line@, texts(dst_lines@)),
{
    if dst_lines.len() > 1 {
        assert(texts(dst_lines@).last() == dst_lines@[dst_lines.len() - 1]@);
    }
    if dst_lines.len() > 1 && equals_ignoring_whitespace(
        &dst_lines[dst_lines.len() - 1],
        anchor_line,
    ) {
        let r = slice_lines(dst_lines, 0, dst_lines.len() - 1);
        assert(texts(dst_lines@).drop_last() =~= texts(dst_lines@).subrange(
            0,
            dst_lines.len() - 1,
        ));
        r
    } else {
        copy_lines(dst_lines)
    }
}

/// The lines to insert between two anchors, without the lines that repeat them.
pub fn strip_insert_boundary_echo(
    after_line: &Vec<char>,
    before_line: &Vec<char>,
    dst_lines: &Vec<Vec<char>>,
) -> (r: Vec<Vec<char>>)
    ensures
        texts(r@) == without_boundary_echo(after_line@, before_line@, texts(dst_lines@)),
{
    let a = strip_insert_anchor_echo_after(after_line, dst_lines);
    strip_insert_anchor_echo_before(before_line, &a)
}

/// The lines that replace the lines `start_line..=end_line` of a file, without
/// a first line that repeats the line above the range and then without a last
/// line that repeats the line below it. Nothing is left out where the content
/// is a single line, or has no more lines than the range.
pub open spec fn without_range_echo(
    file_lines: Seq<Seq<char>>,
    start_line: nat,
    end_line: nat,
    dst: Seq<Seq<char>>,
) -> Seq<Seq<char>> {
    if dst.len() <= 1 || dst.len() <= end_line - start_line + 1 {
        dst
    } else {
        let head = if 2 <= start_line <= file_lines.len() + 1 && same_ignoring_whitespace(
            dst[0],
            file_lines[start_line - 2],
        ) {
            dst.skip(1)
        } else {
            dst
        };
        if end_line < file_lines.len() && head.len() > 0 && same_ignoring_whitespace(
            head.last(),
            file_lines[end_line as int],
        ) {
            head.drop_last()
        } else {
            head
        }
    }
}

/// The lines that replace a range, without the lines that repeat what stands next to it.
pub fn strip_range_boundary_echo(
    file_lines: &Vec<Vec<char>>,
    start_line: usize,
    end_line: usize,
    dst_lines: &Vec<Vec<char>>,
) -> (r: Vec<Vec<char>>)
    ensures
        texts(r@) == without_range_echo(
            texts(file_lines@),
            start_line as nat,
            end_line as nat,
            texts(dst_lines@),
        ),
{
    let n = dst_lines.len();
    if n <= 1 {
        return copy_lines(dst_lines);
    }
    if start_line <= end_line && n - 1 <= end_line - start_line {
        return copy_lines(dst_lines);
    }
    strip_range_echo_ends(file_lines, start_line, end_line, dst_lines)
}

fn strip_range_echo_ends(
    file_lines: &Vec<Vec<char>>,
    start_line: usize,
    end_line: usize,
    dst_lines: &Vec<Vec<char>>,
) -> (r: Vec<Vec<char>>)
    requires
        dst_lines.len() > 1,
        dst_lines.len() > end_line - start_line + 1,
    ensures
        texts(r@) == without_range_echo(
            texts(file_lines@),
            start_line as nat,
            end_line as nat,
            texts(dst_lines@),
        ),
{
    let n = dst_lines.len();
    let ghost dst = texts(dst_lines@);
    let ghost fl = texts(file_lines@);
    let mut from: usize = 0;
    assert(dst[0] == dst_lines@[0]@);
    if start_line >= 2 && start_line - 2 < file_lines.len() {
        assert(fl[start_line - 2] == file_lines@[start_line - 2]@);
        if equals_ignoring_whitespace(&dst_lines[0], &file_lines[start_line - 2]) {
            from = 1;
        }
    }
    let ghost head = if from == 1 {
        dst.skip(1)
    } else {
        dst
    };
    assert(head =~= dst.subrange(from as int, n as int));
    let mut to: usize = n;
    assert(head.last() == dst_lines@[n - 1]@);
    if end_line < file_lines.len() {
        assert(fl[end_line as int] == file_lines@[end_line as int]@);
        if equals_ignoring_whitespace(&dst_lines[n - 1], &file_lines[end_line]) {
            to = n - 1;
        }
    }
    let r = slice_lines(dst_lines, from, to);
    assert(head.drop_last() =~= dst.subrange(from as int, n - 1));
    r
}

} // verus!

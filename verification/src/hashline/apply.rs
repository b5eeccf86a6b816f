//! Applying a batch of edits to a text: every tag is checked against the text
//! as it stands, repeated edits are dropped, and the rest are run from the
//! bottom of the file to the top.

use crate::hashline::edit::{edit_views, EditView, HashlineEdit};
use crate::hashline::fix::{
    restore_indent_for_paired_replacement, splice, splice_lines, strip_insert_anchor_echo_after,
    strip_insert_anchor_echo_before, strip_insert_boundary_echo, strip_range_boundary_echo,
    with_indents_of, without_boundary_echo, without_echo_after, without_echo_before,
    without_range_echo,
};
use crate::hashline::merge::{
    line_span_views, maybe_expand_single_line_merge, merge_expansion, LineSpan, LineSpanView,
    MergedExpansionView,
};
use crate::hashline::mismatch::{
    check_tag, check_tag_chars, mismatch_views, HashMismatch, HashlineError, HashlineErrorView,
    HashlineMismatchError, MismatchErrorView, MismatchView,
};
use crate::hashline::order::{
    execution_order, execution_order_of, kept, kept_edits, places, sort_key_views, sort_keys,
    sort_keys_of,
};
use crate::hashline::tag::{LineTag, TagView};
use crate::hashline::wrap::{restore_old_wrapped_lines, with_wrapped_restored};
use crate::text::{
    append_chars, chars_of, copy_chars, copy_lines, decimal, decimal_chars, join, join_chars,
    line_count, lines_eq, lines_of_strings, slice_lines, split, split_chars, string_of,
    string_texts, strings_of_lines, texts,
};
use vstd::prelude::*;

verus! {

/// An edit that changed nothing.
#[derive(Debug)]
pub struct NoopEdit {
    /// The place of the edit among the edits that were run.
    pub edit_index: usize,
    /// The tag, or the tags, that the edit named.
    pub loc: String,
    /// The lines that the edit left as they were.
    pub current_content: String,
}

/// What a `NoopEdit` stands for.
pub struct NoopView {
    pub edit_index: nat,
    pub loc: Seq<char>,
    pub current_content: Seq<char>,
}

impl View for NoopEdit {
    type V = NoopView;

    open spec fn view(&self) -> NoopView {
        NoopView {
            edit_index: self.edit_index as nat,
            loc: self.loc@,
            current_content: self.current_content@,
        }
    }
}

/// The views of a list of such edits.
pub open spec fn noop_views(v: Seq<NoopEdit>) -> Seq<NoopView> {
    v.map_values(|n: NoopEdit| n@)
}

/// What applying a batch of edits gave.
#[derive(Debug)]
pub struct ApplyHashlineResult {
    /// The new text.
    pub content: String,
    /// The first line, counted from 1, at which an edit changed the text.
    pub first_changed_line: Option<usize>,
    /// The edits that changed nothing.
    pub noop_edits: Vec<NoopEdit>,
}

/// What an `ApplyHashlineResult` stands for.
pub struct ApplyView {
    pub content: Seq<char>,
    pub first_changed_line: Option<nat>,
    pub noop_edits: Seq<NoopView>,
}

/// What an optional line number stands for.
pub open spec fn line_option_view(l: Option<usize>) -> Option<nat> {
    match l {
        Some(n) => Some(n as nat),
        None => None,
    }
}

impl View for ApplyHashlineResult {
    type V = ApplyView;

    open spec fn view(&self) -> ApplyView {
        ApplyView {
            content: self.content@,
            first_changed_line: line_option_view(self.first_changed_line),
            noop_edits: noop_views(self.noop_edits@),
        }
    }
}

// ---------------------------------------------------------------------------
// The lines that the edits name
// ---------------------------------------------------------------------------

/// The lines that an edit names.
pub open spec fn named_spans(e: EditView) -> Seq<LineSpanView> {
    match e {
        EditView::SetLine { tag, .. } => seq![LineSpanView { first: tag.line, last: tag.line }],
        EditView::Replace { first, last, .. } => seq![
            LineSpanView { first: first.line, last: last.line },
        ],
        EditView::Append { after: Some(tag), .. } => seq![
            LineSpanView { first: tag.line, last: tag.line },
        ],
        EditView::Append { after: None, .. } => Seq::empty(),
        EditView::Prepend { before: Some(tag), .. } => seq![
            LineSpanView { first: tag.line, last: tag.line },
        ],
        EditView::Prepend { before: None, .. } => Seq::empty(),
        EditView::Insert { after, before, .. } => seq![
            LineSpanView { first: after.line, last: after.line },
            LineSpanView { first: before.line, last: before.line },
        ],
    }
}

/// The lines that the edits of a batch name.
pub open spec fn touched_spans(edits: Seq<EditView>) -> Seq<LineSpanView>
    decreases edits.len(),
{
    if edits.len() == 0 {
        Seq::empty()
    } else {
        touched_spans(edits.drop_last()) + named_spans(edits.last())
    }
}

fn push_span(spans: &mut Vec<LineSpan>, first: usize, last: usize)
    ensures
        line_span_views(final(spans)@) == line_span_views(old(spans)@).push(
            LineSpanView { first: first as nat, last: last as nat },
        ),
{
    spans.push(LineSpan { first, last });
    assert(line_span_views(spans@) =~= line_span_views(old(spans)@).push(
        LineSpanView { first: first as nat, last: last as nat },
    ));
}

fn collect_touched(edits: &Vec<HashlineEdit>) -> (r: Vec<LineSpan>)
    ensures
        line_span_views(r@) == touched_spans(edit_views(edits@)),
{
    let ghost ev = edit_views(edits@);
    let mut spans: Vec<LineSpan> = Vec::new();
    let mut i: usize = 0;
    assert(line_span_views(spans@) =~= Seq::<LineSpanView>::empty());
    while i < edits.len()
        invariant
            i <= edits.len(),
            ev == edit_views(edits@),
            line_span_views(spans@) == touched_spans(ev.take(i as int)),
        decreases edits.len() - i,
    {
        proof {
            let next = ev.take(i + 1);
            assert(next.drop_last() =~= ev.take(i as int));
            assert(next.last() == edits@[i as int]@);
        }
        let ghost before = line_span_views(spans@);
        match &edits[i] {
            HashlineEdit::SetLine { tag, .. } => {
                push_span(&mut spans, tag.line, tag.line);
                assert(line_span_views(spans@) =~= before + named_spans(edits@[i as int]@));
            },
            HashlineEdit::Replace { first, last, .. } => {
                push_span(&mut spans, first.line, last.line);
                assert(line_span_views(spans@) =~= before + named_spans(edits@[i as int]@));
            },
            HashlineEdit::Append { after, .. } => {
                if let Some(tag) = after {
                    push_span(&mut spans, tag.line, tag.line);
                }
                assert(line_span_views(spans@) =~= before + named_spans(edits@[i as int]@));
            },
            HashlineEdit::Prepend { before: anchor, .. } => {
                if let Some(tag) = anchor {
                    push_span(&mut spans, tag.line, tag.line);
                }
                assert(line_span_views(spans@) =~= before + named_spans(edits@[i as int]@));
            },
            HashlineEdit::Insert { after, before: anchor, .. } => {
                push_span(&mut spans, after.line, after.line);
                push_span(&mut spans, anchor.line, anchor.line);
                assert(line_span_views(spans@) =~= before + named_spans(edits@[i as int]@));
            },
        }
        i += 1;
    }
    assert(ev.take(edits.len() as int) == ev);
    spans
}

// ---------------------------------------------------------------------------
// The check of a batch
// ---------------------------------------------------------------------------

/// The mismatch of one tag, if there is one, or the error of that tag.
pub open spec fn check_one(tag: TagView, lines: Seq<Seq<char>>) -> Result<
    Seq<MismatchView>,
    HashlineErrorView,
> {
    match check_tag(tag, lines) {
        Err(e) => Err(e),
        Ok(Some(m)) => Ok(seq![m]),
        Ok(None) => Ok(Seq::empty()),
    }
}

/// The mismatches of two tags, the first tag checked first.
pub open spec fn check_two(a: TagView, b: TagView, lines: Seq<Seq<char>>) -> Result<
    Seq<MismatchView>,
    HashlineErrorView,
> {
    match check_one(a, lines) {
        Err(e) => Err(e),
        Ok(x) => match check_one(b, lines) {
            Err(e) => Err(e),
            Ok(y) => Ok(x + y),
        },
    }
}

/// The check of one edit: an insertion needs content, the anchors of an
/// `Insert` and the ends of a `Replace` must stand in order, and every tag must
/// name a line of the file. The mismatches of its tags are the result.
pub open spec fn check_edit(e: EditView, lines: Seq<Seq<char>>) -> Result<
    Seq<MismatchView>,
    HashlineErrorView,
> {
    match e {
        EditView::SetLine { tag, .. } => check_one(tag, lines),
        EditView::Append { after, content } => if content.len() == 0 {
            Err(HashlineErrorView::EmptyInsertAfter)
        } else {
            match after {
                Some(tag) => check_one(tag, lines),
                None => Ok(Seq::empty()),
            }
        },
        EditView::Prepend { before, content } => if content.len() == 0 {
            Err(HashlineErrorView::EmptyInsertBefore)
        } else {
            match before {
                Some(tag) => check_one(tag, lines),
                None => Ok(Seq::empty()),
            }
        },
        EditView::Insert { after, before, content } => if content.len() == 0 {
            Err(HashlineErrorView::EmptyInsertBetween)
        } else if before.line <= after.line {
            Err(HashlineErrorView::InsertOrder { after: after.line, before: before.line })
        } else {
            check_two(after, before, lines)
        },
        EditView::Replace { first, last, .. } => if first.line > last.line {
            Err(HashlineErrorView::InvertedRange { first: first.line, last: last.line })
        } else {
            check_two(first, last, lines)
        },
    }
}

/// The check of a batch, edit by edit: the first error ends it; otherwise the
/// mismatches of all the edits are the result, in the order of the edits.
pub open spec fn check_edits(edits: Seq<EditView>, lines: Seq<Seq<char>>) -> Result<
    Seq<MismatchView>,
    HashlineErrorView,
>
    decreases edits.len(),
{
    if edits.len() == 0 {
        Ok(Seq::empty())
    } else {
        match check_edits(edits.drop_last(), lines) {
            Err(e) => Err(e),
            Ok(found) => match check_edit(edits.last(), lines) {
                Err(e) => Err(e),
                Ok(more) => Ok(found + more),
            },
        }
    }
}

/// Whether `tag` names a line of a file of `len` lines.
pub open spec fn in_file(tag: TagView, len: nat) -> bool {
    1 <= tag.line <= len
}

/// Whether an edit can be run on a file of `len` lines: what `check_edit` asks.
pub open spec fn well_placed(e: EditView, len: nat) -> bool {
    match e {
        EditView::SetLine { tag, .. } => in_file(tag, len),
        EditView::Replace { first, last, .. } => in_file(first, len) && in_file(last, len)
            && first.line <= last.line,
        EditView::Append { after, content } => content.len() > 0 && (after matches Some(tag)
            ==> in_file(tag, len)),
        EditView::Prepend { before, content } => content.len() > 0 && (before matches Some(tag)
            ==> in_file(tag, len)),
        EditView::Insert { after, before, content } => content.len() > 0 && in_file(after, len)
            && in_file(before, len) && after.line < before.line,
    }
}

fn check_one_into(tag: &LineTag, lines: &Vec<Vec<char>>, found: &mut Vec<HashMismatch>) -> (r:
    Result<(), HashlineError>)
    ensures
        match r {
            Ok(()) => check_one(tag@, texts(lines@)) is Ok && mismatch_views(final(found)@)
                == mismatch_views(old(found)@) + check_one(tag@, texts(lines@))->Ok_0 && in_file(
                tag@,
                lines.len() as nat,
            ),
            Err(e) => check_one(tag@, texts(lines@)) == Err::<Seq<MismatchView>, HashlineErrorView>(
                e@,
            ),
        },
{
    match check_tag_chars(tag, lines) {
        Err(e) => Err(e),
        Ok(None) => {
            assert(mismatch_views(found@) =~= mismatch_views(old(found)@) + Seq::<
                MismatchView,
            >::empty());
            Ok(())
        },
        Ok(Some(m)) => {
            let ghost mv = m@;
            found.push(m);
            assert(mismatch_views(found@) =~= mismatch_views(old(found)@) + seq![mv]);
            Ok(())
        },
    }
}

fn check_two_into(
    a: &LineTag,
    b: &LineTag,
    lines: &Vec<Vec<char>>,
    found: &mut Vec<HashMismatch>,
) -> (r: Result<(), HashlineError>)
    ensures
        match r {
            Ok(()) => check_two(a@, b@, texts(lines@)) is Ok && mismatch_views(final(found)@)
                == mismatch_views(old(found)@) + check_two(a@, b@, texts(lines@))->Ok_0 && in_file(
                a@,
                lines.len() as nat,
            ) && in_file(b@, lines.len() as nat),
            Err(e) => check_two(a@, b@, texts(lines@)) == Err::<Seq<MismatchView>, HashlineErrorView>(
                e@,
            ),
        },
{
    match check_one_into(a, lines, found) {
        Err(e) => {
            return Err(e);
        },
        Ok(()) => {},
    }
    let ghost mid = mismatch_views(found@);
    match check_one_into(b, lines, found) {
        Err(e) => {
            return Err(e);
        },
        Ok(()) => {},
    }
    proof {
        let x = check_one(a@, texts(lines@))->Ok_0;
        let y = check_one(b@, texts(lines@))->Ok_0;
        assert((mismatch_views(old(found)@) + x) + y =~= mismatch_views(old(found)@) + (x + y));
    }
    Ok(())
}

fn check_edit_into(edit: &HashlineEdit, lines: &Vec<Vec<char>>, found: &mut Vec<HashMismatch>) -> (r:
    Result<(), HashlineError>)
    ensures
        match r {
            Ok(()) => check_edit(edit@, texts(lines@)) is Ok && mismatch_views(final(found)@)
                == mismatch_views(old(found)@) + check_edit(edit@, texts(lines@))->Ok_0
                && well_placed(edit@, lines.len() as nat),
            Err(e) => check_edit(edit@, texts(lines@)) == Err::<Seq<MismatchView>, HashlineErrorView>(
                e@,
            ),
        },
{
    let ghost nothing = Seq::<MismatchView>::empty();
    assert(mismatch_views(found@) + nothing =~= mismatch_views(found@));
    match edit {
        HashlineEdit::SetLine { tag, .. } => check_one_into(tag, lines, found),
        HashlineEdit::Append { after, content } => {
            assert(string_texts(content@).len() == content.len());
            if content.len() == 0 {
                return Err(HashlineError::EmptyInsertAfter);
            }
            match after {
                Some(tag) => check_one_into(tag, lines, found),
                None => Ok(()),
            }
        },
        HashlineEdit::Prepend { before, content } => {
            assert(string_texts(content@).len() == content.len());
            if content.len() == 0 {
                return Err(HashlineError::EmptyInsertBefore);
            }
            match before {
                Some(tag) => check_one_into(tag, lines, found),
                None => Ok(()),
            }
        },
        HashlineEdit::Insert { after, before, content } => {
            assert(string_texts(content@).len() == content.len());
            if content.len() == 0 {
                return Err(HashlineError::EmptyInsertBetween);
            }
            if before.line <= after.line {
                return Err(HashlineError::InsertOrder { after: after.line, before: before.line });
            }
            check_two_into(after, before, lines, found)
        },
        HashlineEdit::Replace { first, last, .. } => {
            if first.line > last.line {
                return Err(HashlineError::InvertedRange { first: first.line, last: last.line });
            }
            check_two_into(first, last, lines, found)
        },
    }
}

fn check_edits_exec(edits: &Vec<HashlineEdit>, lines: &Vec<Vec<char>>) -> (r: Result<
    Vec<HashMismatch>,
    HashlineError,
>)
    ensures
        match r {
            Ok(found) => check_edits(edit_views(edits@), texts(lines@)) == Ok::<
                Seq<MismatchView>,
                HashlineErrorView,
            >(mismatch_views(found@)) && forall|i: int|
                0 <= i < edits.len() ==> well_placed(
                    #[trigger] edit_views(edits@)[i],
                    lines.len() as nat,
                ),
            Err(e) => check_edits(edit_views(edits@), texts(lines@)) == Err::<
                Seq<MismatchView>,
                HashlineErrorView,
            >(e@),
        },
{
    let ghost ev = edit_views(edits@);
    let ghost fl = texts(lines@);
    let mut found: Vec<HashMismatch> = Vec::new();
    assert(mismatch_views(found@) =~= Seq::<MismatchView>::empty());
    let mut i: usize = 0;
    while i < edits.len()
        invariant
            i <= edits.len(),
            ev == edit_views(edits@),
            fl == texts(lines@),
            check_edits(ev.take(i as int), fl) == Ok::<Seq<MismatchView>, HashlineErrorView>(
                mismatch_views(found@),
            ),
            forall|j: int| 0 <= j < i ==> well_placed(#[trigger] ev[j], lines.len() as nat),
        decreases edits.len() - i,
    {
        proof {
            let next = ev.take(i + 1);
            assert(next.drop_last() =~= ev.take(i as int));
            assert(next.last() == edits@[i as int]@);
            assert(ev[i as int] == edits@[i as int]@);
        }
        match check_edit_into(&edits[i], lines, &mut found) {
            Err(e) => {
                proof {
                    // an error in edit i is the error of every longer batch
                    lemma_check_edits_error(ev, fl, i + 1);
                }
                return Err(e);
            },
            Ok(()) => {},
        }
        i += 1;
    }
    assert(ev.take(edits.len() as int) == ev);
    Ok(found)
}

/// Once the first `k` edits give an error, the whole batch gives that error.
pub proof fn lemma_check_edits_error(edits: Seq<EditView>, lines: Seq<Seq<char>>, k: int)
    requires
        0 <= k <= edits.len(),
        check_edits(edits.take(k), lines) is Err,
    ensures
        check_edits(edits, lines) == check_edits(edits.take(k), lines),
    decreases edits.len() - k,
{
    if k < edits.len() {
        let next = edits.take(k + 1);
        assert(next.drop_last() =~= edits.take(k));
        lemma_check_edits_error(edits, lines, k + 1);
    } else {
        assert(edits.take(k) == edits);
    }
}

// ---------------------------------------------------------------------------
// Running one edit
// ---------------------------------------------------------------------------

/// The lines of the file while the edits are run, with what has been noted so far.
pub struct RunState {
    pub lines: Vec<Vec<char>>,
    pub first_changed: Option<usize>,
    pub noops: Vec<NoopEdit>,
}

/// What a `RunState` stands for.
pub struct RunView {
    pub lines: Seq<Seq<char>>,
    pub first_changed: Option<nat>,
    pub noops: Seq<NoopView>,
}

impl View for RunState {
    type V = RunView;

    open spec fn view(&self) -> RunView {
        RunView {
            lines: texts(self.lines@),
            first_changed: line_option_view(self.first_changed),
            noops: noop_views(self.noops@),
        }
    }
}

/// The first changed line, once `line` has changed too.
pub open spec fn touch(first_changed: Option<nat>, line: nat) -> Option<nat> {
    match first_changed {
        None => Some(line),
        Some(l) => if line < l {
            Some(line)
        } else {
            Some(l)
        },
    }
}

/// The text `LINE#ID` of a tag.
pub open spec fn tag_text(t: TagView) -> Seq<char> {
    decimal(t.line) + seq!['#'] + t.hash
}

impl RunView {
    /// The state after an edit that changed nothing.
    pub open spec fn skipped(self, idx: nat, loc: Seq<char>, current: Seq<char>) -> RunView {
        RunView {
            lines: self.lines,
            first_changed: self.first_changed,
            noops: self.noops.push(NoopView { edit_index: idx, loc, current_content: current }),
        }
    }

    /// The state after the lines `from..to` have been replaced by `new_lines`,
    /// `line` being the first line that this changed.
    pub open spec fn changed(self, from: int, to: int, new_lines: Seq<Seq<char>>, line: nat) -> RunView {
        RunView {
            lines: splice(self.lines, from, to, new_lines),
            first_changed: touch(self.first_changed, line),
            noops: self.noops,
        }
    }
}

/// Replacing the lines `first.line..=last_line`: the content is corrected
/// against the lines as they were before the batch (echoes of the lines next
/// to the range, wrapped lines, lost indentation); where that leaves the lines
/// as they were, the edit changes nothing.
pub open spec fn run_replace(
    st: RunView,
    idx: nat,
    original: Seq<Seq<char>>,
    first: TagView,
    last_line: nat,
    content: Seq<Seq<char>>,
) -> RunView {
    let old_lines = original.subrange(first.line - 1, last_line as int);
    let new_lines = with_indents_of(
        old_lines,
        with_wrapped_restored(
            old_lines,
            without_range_echo(original, first.line, last_line, content),
        ),
    );
    if old_lines == new_lines {
        st.skipped(idx, tag_text(first), join(old_lines, seq!['\n']))
    } else {
        st.changed(first.line - 1, last_line as int, new_lines, first.line)
    }
}

/// Replacing two lines by the single new line of an edit of one of them.
pub open spec fn run_merge(
    st: RunView,
    idx: nat,
    original: Seq<Seq<char>>,
    tag: TagView,
    m: MergedExpansionView,
) -> RunView {
    let end = if m.start_line + 1 <= original.len() {
        m.start_line + 1
    } else {
        original.len()
    };
    let old_lines = original.subrange(m.start_line - 1, end as int);
    let new_lines = with_indents_of(seq![old_lines[0]], m.new_lines);
    if old_lines == new_lines {
        st.skipped(idx, tag_text(tag), join(old_lines, seq!['\n']))
    } else {
        st.changed(
            m.start_line - 1,
            m.start_line - 1 + m.delete_count,
            new_lines,
            m.start_line,
        )
    }
}

/// Inserting after a line, or at the end of the file. A first line of the
/// content that repeats the anchor is left out. A file that is one empty line
/// is replaced by an insertion at its end.
pub open spec fn run_append(
    st: RunView,
    idx: nat,
    original: Seq<Seq<char>>,
    after: Option<TagView>,
    content: Seq<Seq<char>>,
) -> RunView {
    match after {
        Some(tag) => {
            let inserted = without_echo_after(original[tag.line - 1], content);
            if inserted.len() == 0 {
                st.skipped(idx, tag_text(tag), original[tag.line - 1])
            } else {
                st.changed(tag.line as int, tag.line as int, inserted, tag.line + 1)
            }
        },
        None => if content.len() == 0 {
            st.skipped(idx, "EOF"@, Seq::empty())
        } else if st.lines.len() == 1 && st.lines[0].len() == 0 {
            st.changed(0, 1, content, 1)
        } else {
            st.changed(st.lines.len() as int, st.lines.len() as int, content, st.lines.len() + 1)
        },
    }
}

/// Inserting before a line, or at the start of the file. A last line of the
/// content that repeats the anchor is left out. A file that is one empty line
/// is replaced by an insertion at its start.
pub open spec fn run_prepend(
    st: RunView,
    idx: nat,
    original: Seq<Seq<char>>,
    before: Option<TagView>,
    content: Seq<Seq<char>>,
) -> RunView {
    match before {
        Some(tag) => {
            let inserted = without_echo_before(original[tag.line - 1], content);
            if inserted.len() == 0 {
                st.skipped(idx, tag_text(tag), original[tag.line - 1])
            } else {
                st.changed(tag.line - 1, tag.line - 1, inserted, tag.line)
            }
        },
        None => if content.len() == 0 {
            st.skipped(idx, "BOF"@, Seq::empty())
        } else if st.lines.len() == 1 && st.lines[0].len() == 0 {
            st.changed(0, 1, content, 1)
        } else {
            st.changed(0, 0, content, 1)
        },
    }
}

/// Inserting between two lines, just before the lower one.
pub open spec fn run_insert(
    st: RunView,
    idx: nat,
    original: Seq<Seq<char>>,
    after: TagView,
    before: TagView,
    content: Seq<Seq<char>>,
) -> RunView {
    let after_line = original[after.line - 1];
    let before_line = original[before.line - 1];
    let inserted = without_boundary_echo(after_line, before_line, content);
    if inserted.len() == 0 {
        st.skipped(
            idx,
            tag_text(after) + ".."@ + tag_text(before),
            after_line + seq!['\n'] + before_line,
        )
    } else {
        st.changed(before.line - 1, before.line - 1, inserted, before.line)
    }
}

/// Running one edit: `st` holds the lines as the edits run before it left
/// them, `original` the lines as they were before the batch, `touched` the
/// lines that the batch names, and `idx` the place of the edit among the edits
/// that are run.
pub open spec fn run_edit(
    st: RunView,
    idx: nat,
    e: EditView,
    original: Seq<Seq<char>>,
    touched: Seq<LineSpanView>,
) -> RunView {
    match e {
        EditView::SetLine { tag, content } => match merge_expansion(
            tag.line,
            content,
            st.lines,
            touched,
        ) {
            Some(m) => run_merge(st, idx, original, tag, m),
            None => run_replace(st, idx, original, tag, tag.line, content),
        },
        EditView::Replace { first, last, content } => run_replace(
            st,
            idx,
            original,
            first,
            last.line,
            content,
        ),
        EditView::Append { after, content } => run_append(st, idx, original, after, content),
        EditView::Prepend { before, content } => run_prepend(st, idx, original, before, content),
        EditView::Insert { after, before, content } => run_insert(
            st,
            idx,
            original,
            after,
            before,
            content,
        ),
    }
}

fn tag_text_of(tag: &LineTag) -> (r: Vec<char>)
    ensures
        r@ == tag_text(tag@),
{
    let mut out = decimal_chars(tag.line);
    out.push('#');
    append_chars(&mut out, &chars_of(tag.hash.as_str()));
    assert(out@ =~= tag_text(tag@));
    out
}

fn joined(lines: &Vec<Vec<char>>) -> (r: Vec<char>)
    ensures
        r@ == join(texts(lines@), seq!['\n']),
{
    let mut sep: Vec<char> = Vec::new();
    sep.push('\n');
    assert(sep@ =~= seq!['\n']);
    join_chars(lines, &sep)
}

fn touched_at(first_changed: Option<usize>, line: usize) -> (r: Option<usize>)
    ensures
        line_option_view(r) == touch(line_option_view(first_changed), line as nat),
{
    match first_changed {
        None => Some(line),
        Some(l) => if line < l {
            Some(line)
        } else {
            Some(l)
        },
    }
}

impl RunState {
    fn skip(self, idx: usize, loc: &Vec<char>, current: &Vec<char>) -> (r: RunState)
        ensures
            r@ == self@.skipped(idx as nat, loc@, current@),
    {
        let mut noops = self.noops;
        let entry = NoopEdit {
            edit_index: idx,
            loc: string_of(loc),
            current_content: string_of(current),
        };
        let ghost ev = entry@;
        noops.push(entry);
        assert(noop_views(noops@) =~= noop_views(self.noops@).push(ev));
        RunState { lines: self.lines, first_changed: self.first_changed, noops }
    }

    fn change(self, from: usize, to: usize, new_lines: &Vec<Vec<char>>, line: usize) -> (r:
        RunState)
        ensures
            r@ == self@.changed(from as int, to as int, texts(new_lines@), line as nat),
    {
        let lines = splice_lines(&self.lines, from, to, new_lines);
        RunState {
            lines,
            first_changed: touched_at(self.first_changed, line),
            noops: self.noops,
        }
    }
}

fn run_replace_exec(
    st: RunState,
    idx: usize,
    original: &Vec<Vec<char>>,
    first: &LineTag,
    last_line: usize,
    content: &Vec<Vec<char>>,
) -> (r: RunState)
    requires
        1 <= first.line <= last_line <= original.len(),
    ensures
        r@ == run_replace(
            st@,
            idx as nat,
            texts(original@),
            first@,
            last_line as nat,
            texts(content@),
        ),
{
    let old_lines = slice_lines(original, first.line - 1, last_line);
    let stripped = strip_range_boundary_echo(original, first.line, last_line, content);
    let restored = restore_old_wrapped_lines(&old_lines, &stripped);
    let new_lines = restore_indent_for_paired_replacement(&old_lines, &restored);
    if lines_eq(&old_lines, &new_lines) {
        st.skip(idx, &tag_text_of(first), &joined(&old_lines))
    } else {
        st.change(first.line - 1, last_line, &new_lines, first.line)
    }
}

fn run_merge_exec(
    st: RunState,
    idx: usize,
    original: &Vec<Vec<char>>,
    tag: &LineTag,
    start_line: usize,
    new_lines: &Vec<Vec<char>>,
) -> (r: RunState)
    requires
        1 <= start_line <= original.len(),
    ensures
        r@ == run_merge(
            st@,
            idx as nat,
            texts(original@),
            tag@,
            MergedExpansionView {
                start_line: start_line as nat,
                delete_count: 2,
                new_lines: texts(new_lines@),
            },
        ),
{
    let len = line_count(original);
    let end = if start_line + 1 <= len {
        start_line + 1
    } else {
        len
    };
    let old_lines = slice_lines(original, start_line - 1, end);
    let mut head: Vec<Vec<char>> = Vec::new();
    head.push(copy_chars(&old_lines[0]));
    assert(texts(old_lines@)[0] == old_lines@[0]@);
    assert(texts(head@) =~= seq![texts(old_lines@)[0]]);
    let next = restore_indent_for_paired_replacement(&head, new_lines);
    if lines_eq(&old_lines, &next) {
        st.skip(idx, &tag_text_of(tag), &joined(&old_lines))
    } else {
        st.change(start_line - 1, start_line + 1, &next, start_line)
    }
}

fn run_append_exec(
    st: RunState,
    idx: usize,
    original: &Vec<Vec<char>>,
    after: &Option<LineTag>,
    content: &Vec<Vec<char>>,
) -> (r: RunState)
    requires
        after matches Some(tag) ==> 1 <= tag.line <= original.len(),
    ensures
        r@ == run_append(
            st@,
            idx as nat,
            texts(original@),
            crate::hashline::edit::tag_option_view(*after),
            texts(content@),
        ),
{
    match after {
        Some(tag) => {
            let len = line_count(original);
            let anchor = &original[tag.line - 1];
            assert(texts(original@)[tag.line - 1] == anchor@);
            let inserted = strip_insert_anchor_echo_after(anchor, content);
            if inserted.len() == 0 {
                st.skip(idx, &tag_text_of(tag), anchor)
            } else {
                st.change(tag.line, tag.line, &inserted, tag.line + 1)
            }
        },
        None => {
            let n = line_count(&st.lines);
            if content.len() == 0 {
                st.skip(idx, &chars_of("EOF"), &Vec::new())
            } else if n == 1 && st.lines[0].len() == 0 {
                assert(texts(st.lines@)[0] == st.lines@[0]@);
                st.change(0, 1, content, 1)
            } else {
                if n == 1 {
                    assert(texts(st.lines@)[0] == st.lines@[0]@);
                }
                st.change(n, n, content, n + 1)
            }
        },
    }
}

fn run_prepend_exec(
    st: RunState,
    idx: usize,
    original: &Vec<Vec<char>>,
    before: &Option<LineTag>,
    content: &Vec<Vec<char>>,
) -> (r: RunState)
    requires
        before matches Some(tag) ==> 1 <= tag.line <= original.len(),
    ensures
        r@ == run_prepend(
            st@,
            idx as nat,
            texts(original@),
            crate::hashline::edit::tag_option_view(*before),
            texts(content@),
        ),
{
    match before {
        Some(tag) => {
            let anchor = &original[tag.line - 1];
            assert(texts(original@)[tag.line - 1] == anchor@);
            let inserted = strip_insert_anchor_echo_before(anchor, content);
            if inserted.len() == 0 {
                st.skip(idx, &tag_text_of(tag), anchor)
            } else {
                st.change(tag.line - 1, tag.line - 1, &inserted, tag.line)
            }
        },
        None => {
            if content.len() == 0 {
                st.skip(idx, &chars_of("BOF"), &Vec::new())
            } else if st.lines.len() == 1 && st.lines[0].len() == 0 {
                assert(texts(st.lines@)[0] == st.lines@[0]@);
                st.change(0, 1, content, 1)
            } else {
                if st.lines.len() == 1 {
                    assert(texts(st.lines@)[0] == st.lines@[0]@);
                }
                st.change(0, 0, content, 1)
            }
        },
    }
}

fn run_insert_exec(
    st: RunState,
    idx: usize,
    original: &Vec<Vec<char>>,
    after: &LineTag,
    before: &LineTag,
    content: &Vec<Vec<char>>,
) -> (r: RunState)
    requires
        1 <= after.line <= original.len(),
        1 <= before.line <= original.len(),
    ensures
        r@ == run_insert(st@, idx as nat, texts(original@), after@, before@, texts(content@)),
{
    let after_line = &original[after.line - 1];
    let before_line = &original[before.line - 1];
    assert(texts(original@)[after.line - 1] == after_line@);
    assert(texts(original@)[before.line - 1] == before_line@);
    let inserted = strip_insert_boundary_echo(after_line, before_line, content);
    if inserted.len() == 0 {
        let mut loc = tag_text_of(after);
        append_chars(&mut loc, &chars_of(".."));
        append_chars(&mut loc, &tag_text_of(before));
        let mut current = copy_chars(after_line);
        current.push('\n');
        append_chars(&mut current, before_line);
        assert(current@ =~= after_line@ + seq!['\n'] + before_line@);
        st.skip(idx, &loc, &current)
    } else {
        st.change(before.line - 1, before.line - 1, &inserted, before.line)
    }
}

fn run_edit_exec(
    st: RunState,
    idx: usize,
    edit: &HashlineEdit,
    original: &Vec<Vec<char>>,
    touched: &Vec<LineSpan>,
) -> (r: RunState)
    requires
        well_placed(edit@, original.len() as nat),
    ensures
        r@ == run_edit(st@, idx as nat, edit@, texts(original@), line_span_views(touched@)),
{
    match edit {
        HashlineEdit::SetLine { tag, content } => {
            let new_lines = lines_of_strings(content);
            match maybe_expand_single_line_merge(tag.line, &new_lines, &st.lines, touched) {
                Some(m) => {
                    assert(m@.delete_count == 2 && (m@.start_line == tag.line || m@.start_line
                        == tag.line - 1) && m@.start_line >= 1);
                    run_merge_exec(st, idx, original, tag, m.start_line, &m.new_lines)
                },
                None => run_replace_exec(st, idx, original, tag, tag.line, &new_lines),
            }
        },
        HashlineEdit::Replace { first, last, content } => {
            let new_lines = lines_of_strings(content);
            run_replace_exec(st, idx, original, first, last.line, &new_lines)
        },
        HashlineEdit::Append { after, content } => {
            let new_lines = lines_of_strings(content);
            run_append_exec(st, idx, original, after, &new_lines)
        },
        HashlineEdit::Prepend { before, content } => {
            let new_lines = lines_of_strings(content);
            run_prepend_exec(st, idx, original, before, &new_lines)
        },
        HashlineEdit::Insert { after, before, content } => {
            let new_lines = lines_of_strings(content);
            run_insert_exec(st, idx, original, after, before, &new_lines)
        },
    }
}

// ---------------------------------------------------------------------------
// Running the batch
// ---------------------------------------------------------------------------

/// The state after the first `k` edits of the order have been run.
pub open spec fn run_upto(
    edits: Seq<EditView>,
    kept: Seq<int>,
    order: Seq<int>,
    original: Seq<Seq<char>>,
    touched: Seq<LineSpanView>,
    k: nat,
) -> RunView
    decreases k,
{
    if k == 0 {
        RunView { lines: original, first_changed: None, noops: Seq::empty() }
    } else {
        let p = order[k - 1];
        run_edit(
            run_upto(edits, kept, order, original, touched, (k - 1) as nat),
            p as nat,
            edits[kept[p]],
            original,
            touched,
        )
    }
}

/// What applying a batch of edits to a text gives.
///
/// No edit leaves the text as it is. Otherwise the text is split into lines at
/// its line feeds, and every edit is checked against those lines: the first
/// edit that cannot be run ends the batch with its error, and so do the tags
/// that do not match, all together. Then the edits that repeat an earlier one
/// are dropped, the others are run from the bottom of the file to the top, and
/// the lines are joined again.
pub open spec fn apply_edits(content: Seq<char>, edits: Seq<EditView>) -> Result<
    ApplyView,
    HashlineErrorView,
> {
    if edits.len() == 0 {
        Ok(ApplyView { content, first_changed_line: None, noop_edits: Seq::empty() })
    } else {
        let lines = split(content, '\n');
        match check_edits(edits, lines) {
            Err(e) => Err(e),
            Ok(found) => if found.len() > 0 {
                Err(
                    HashlineErrorView::HashMismatch(
                        MismatchErrorView { mismatches: found, file_lines: lines },
                    ),
                )
            } else {
                let kept = kept(edits);
                let order = execution_order(sort_keys(edits, kept, lines.len()));
                let st = run_upto(
                    edits,
                    kept,
                    order,
                    lines,
                    touched_spans(edits),
                    order.len(),
                );
                Ok(
                    ApplyView {
                        content: join(st.lines, seq!['\n']),
                        first_changed_line: st.first_changed,
                        noop_edits: st.noops,
                    },
                )
            },
        }
    }
}

/// What the outcome of applying a batch stands for.
pub open spec fn apply_result_view(r: Result<ApplyHashlineResult, HashlineError>) -> Result<
    ApplyView,
    HashlineErrorView,
> {
    match r {
        Ok(a) => Ok(a@),
        Err(e) => Err(e@),
    }
}

/// Applies a batch of edits to `content`.
pub fn apply_hashline_edits(content: &str, edits: Vec<HashlineEdit>) -> (r: Result<
    ApplyHashlineResult,
    HashlineError,
>)
    ensures
        apply_result_view(r) == apply_edits(content@, edit_views(edits@)),
{
    let ghost ev = edit_views(edits@);
    if edits.len() == 0 {
        let noop_edits: Vec<NoopEdit> = Vec::new();
        assert(noop_views(noop_edits@) =~= Seq::<NoopView>::empty());
        return Ok(
            ApplyHashlineResult {
                content: string_of(&chars_of(content)),
                first_changed_line: None,
                noop_edits,
            },
        );
    }
    let text = chars_of(content);
    let original = split_chars(&text, '\n');
    let touched = collect_touched(&edits);
    let found = match check_edits_exec(&edits, &original) {
        Err(e) => {
            return Err(e);
        },
        Ok(found) => found,
    };
    assert(mismatch_views(found@).len() == found.len());
    if found.len() > 0 {
        return Err(
            HashlineError::HashMismatch(
                HashlineMismatchError { mismatches: found, file_lines: strings_of_lines(&original) },
            ),
        );
    }
    let kept = kept_edits(&edits);
    let keys = sort_keys_of(&edits, &kept, &original);
    let order = execution_order_of(&keys);
    assert(sort_key_views(keys@).len() == keys.len());
    assert(places(kept@).len() == kept.len());
    let noops: Vec<NoopEdit> = Vec::new();
    assert(noop_views(noops@) =~= Seq::<NoopView>::empty());
    let mut st = RunState { lines: copy_lines(&original), first_changed: None, noops };
    let mut k: usize = 0;
    while k < order.len()
        invariant
            k <= order.len(),
            ev == edit_views(edits@),
            order.len() == kept.len(),
            forall|i: int| 0 <= i < order.len() ==> #[trigger] order@[i] < kept.len(),
            forall|i: int| 0 <= i < kept.len() ==> #[trigger] kept@[i] < edits.len(),
            forall|i: int| 0 <= i < edits.len() ==> well_placed(#[trigger] ev[i], original.len() as nat),
            st@ == run_upto(
                ev,
                places(kept@),
                places(order@),
                texts(original@),
                line_span_views(touched@),
                k as nat,
            ),
        decreases order.len() - k,
    {
        let p = order[k];
        let e = kept[p];
        assert(places(order@)[k as int] == p);
        assert(places(kept@)[p as int] == e);
        assert(ev[e as int] == edits@[e as int]@);
        st = run_edit_exec(st, p, &edits[e], &original, &touched);
        k += 1;
    }
    assert(places(order@).len() == order.len());
    Ok(
        ApplyHashlineResult {
            content: string_of(&joined(&st.lines)),
            first_changed_line: st.first_changed,
            noop_edits: st.noops,
        },
    )
}

} // verus!

//! Which edits of a batch are run, and in what order.

use crate::hashline::edit::{edit_views, EditView, HashlineEdit};
use crate::text::{chars_eq, join, join_chars, line_count, lines_of_strings, string_texts};
use vstd::prelude::*;

verus! {

// ---------------------------------------------------------------------------
// Repeated edits
// ---------------------------------------------------------------------------

/// What two edits must share to count as the same edit.
pub struct EditKey {
    pub kind: u8,
    pub first: usize,
    pub second: usize,
    pub text: Vec<char>,
}

/// What an `EditKey` stands for.
pub struct EditKeyView {
    pub kind: nat,
    pub first: nat,
    pub second: nat,
    pub text: Seq<char>,
}

impl View for EditKey {
    type V = EditKeyView;

    open spec fn view(&self) -> EditKeyView {
        EditKeyView {
            kind: self.kind as nat,
            first: self.first as nat,
            second: self.second as nat,
            text: self.text@,
        }
    }
}

/// The key of an edit: its kind, where an insertion without an anchor is a
/// kind of its own; the numbers of the lines it names; and its content, joined
/// by line feeds. The hashes of its tags take no part.
pub open spec fn edit_key(e: EditView) -> EditKeyView {
    let text = join(e.content(), seq!['\n']);
    match e {
        EditView::SetLine { tag, .. } => EditKeyView { kind: 0, first: tag.line, second: 0, text },
        EditView::Replace { first, last, .. } => EditKeyView {
            kind: 1,
            first: first.line,
            second: last.line,
            text,
        },
        EditView::Append { after: Some(tag), .. } => EditKeyView {
            kind: 2,
            first: tag.line,
            second: 0,
            text,
        },
        EditView::Append { after: None, .. } => EditKeyView { kind: 3, first: 0, second: 0, text },
        EditView::Prepend { before: Some(tag), .. } => EditKeyView {
            kind: 4,
            first: tag.line,
            second: 0,
            text,
        },
        EditView::Prepend { before: None, .. } => EditKeyView {
            kind: 5,
            first: 0,
            second: 0,
            text,
        },
        EditView::Insert { after, before, .. } => EditKeyView {
            kind: 6,
            first: after.line,
            second: before.line,
            text,
        },
    }
}

/// Whether the edit at `i` repeats an edit that stands before it.
pub open spec fn is_repeat(edits: Seq<EditView>, i: int) -> bool {
    exists|j: int| 0 <= j < i && edit_key(#[trigger] edits[j]) == edit_key(edits[i])
}

/// The places, among the first `k` edits, of those that repeat no earlier edit.
pub open spec fn kept_upto(edits: Seq<EditView>, k: nat) -> Seq<int>
    decreases k,
{
    if k == 0 {
        Seq::empty()
    } else {
        let before = kept_upto(edits, (k - 1) as nat);
        if is_repeat(edits, k - 1) {
            before
        } else {
            before.push(k - 1)
        }
    }
}

/// The places of the edits that are run: each edit but the repeats.
pub open spec fn kept(edits: Seq<EditView>) -> Seq<int> {
    kept_upto(edits, edits.len())
}

/// The places kept are, in rising order, the places below `k` whose edit
/// repeats no earlier one.
pub proof fn lemma_kept_upto(edits: Seq<EditView>, k: nat)
    ensures
        forall|i: int|
            0 <= i < kept_upto(edits, k).len() ==> 0 <= #[trigger] kept_upto(edits, k)[i] < k
                && !is_repeat(edits, kept_upto(edits, k)[i]),
        forall|i: int, j: int|
            0 <= i < j < kept_upto(edits, k).len() ==> #[trigger] kept_upto(edits, k)[i]
                < #[trigger] kept_upto(edits, k)[j],
        forall|p: int|
            0 <= p < k && !is_repeat(edits, p) ==> #[trigger] kept_upto(edits, k).contains(p),
    decreases k,
{
    if k > 0 {
        let before = kept_upto(edits, (k - 1) as nat);
        let now = kept_upto(edits, k);
        lemma_kept_upto(edits, (k - 1) as nat);
        assert forall|p: int| 0 <= p < k && !is_repeat(edits, p) implies #[trigger] now.contains(
            p,
        ) by {
            if p < k - 1 {
                assert(before.contains(p));
                let i = choose|i: int| 0 <= i < before.len() && before[i] == p;
                assert(now[i] == p);
            } else {
                assert(now[now.len() - 1] == p);
            }
        }
    }
}

/// The places that a list of indices stands for.
pub open spec fn places(v: Seq<usize>) -> Seq<int> {
    v.map_values(|i: usize| i as int)
}

fn joined_content(content: &Vec<String>) -> (r: Vec<char>)
    ensures
        r@ == join(string_texts(content@), seq!['\n']),
{
    let lines = lines_of_strings(content);
    let mut sep: Vec<char> = Vec::new();
    sep.push('\n');
    assert(sep@ =~= seq!['\n']);
    join_chars(&lines, &sep)
}

fn key_of(edit: &HashlineEdit) -> (k: EditKey)
    ensures
        k@ == edit_key(edit@),
{
    match edit {
        HashlineEdit::SetLine { tag, content } => EditKey {
            kind: 0,
            first: tag.line,
            second: 0,
            text: joined_content(content),
        },
        HashlineEdit::Replace { first, last, content } => EditKey {
            kind: 1,
            first: first.line,
            second: last.line,
            text: joined_content(content),
        },
        HashlineEdit::Append { after, content } => match after {
            Some(tag) => EditKey {
                kind: 2,
                first: tag.line,
                second: 0,
                text: joined_content(content),
            },
            None => EditKey { kind: 3, first: 0, second: 0, text: joined_content(content) },
        },
        HashlineEdit::Prepend { before, content } => match before {
            Some(tag) => EditKey {
                kind: 4,
                first: tag.line,
                second: 0,
                text: joined_content(content),
            },
            None => EditKey { kind: 5, first: 0, second: 0, text: joined_content(content) },
        },
        HashlineEdit::Insert { after, before, content } => EditKey {
            kind: 6,
            first: after.line,
            second: before.line,
            text: joined_content(content),
        },
    }
}

fn same_key(a: &EditKey, b: &EditKey) -> (r: bool)
    ensures
        r == (a@ == b@),
{
    a.kind == b.kind && a.first == b.first && a.second == b.second && chars_eq(&a.text, &b.text)
}

/// The places of the edits that are run.
pub fn kept_edits(edits: &Vec<HashlineEdit>) -> (r: Vec<usize>)
    ensures
        places(r@) == kept(edit_views(edits@)),
        forall|i: int| 0 <= i < r.len() ==> #[trigger] r@[i] < edits.len(),
{
    let ghost ev = edit_views(edits@);
    let mut keys: Vec<EditKey> = Vec::new();
    let mut out: Vec<usize> = Vec::new();
    let mut i: usize = 0;
    assert(places(out@) =~= Seq::<int>::empty());
    while i < edits.len()
        invariant
            i <= edits.len(),
            ev == edit_views(edits@),
            keys.len() == i,
            forall|j: int| 0 <= j < i ==> (#[trigger] keys@[j])@ == edit_key(ev[j]),
            places(out@) == kept_upto(ev, i as nat),
            forall|j: int| 0 <= j < out.len() ==> #[trigger] out@[j] < edits.len(),
        decreases edits.len() - i,
    {
        let key = key_of(&edits[i]);
        assert(ev[i as int] == edits@[i as int]@);
        let mut repeat = false;
        let mut j: usize = 0;
        while j < i && !repeat
            invariant
                j <= i,
                i < edits.len(),
                keys.len() == i,
                key@ == edit_key(ev[i as int]),
                forall|k: int| 0 <= k < i ==> (#[trigger] keys@[k])@ == edit_key(ev[k]),
                !repeat ==> forall|k: int|
                    0 <= k < j ==> edit_key(#[trigger] ev[k]) != edit_key(ev[i as int]),
                repeat ==> is_repeat(ev, i as int),
            decreases i - j + if repeat { 0int } else { 1int },
        {
            if same_key(&keys[j], &key) {
                repeat = true;
                assert(edit_key(ev[j as int]) == edit_key(ev[i as int]));
            } else {
                j += 1;
            }
        }
        assert(repeat == is_repeat(ev, i as int));
        if !repeat {
            let ghost before = places(out@);
            out.push(i);
            assert(places(out@) =~= before.push(i as int));
        }
        keys.push(key);
        i += 1;
    }
    out
}

// ---------------------------------------------------------------------------
// The order of running
// ---------------------------------------------------------------------------

/// By what the edits are ordered.
pub struct SortKey {
    pub line: u128,
    pub precedence: u8,
}

/// What a `SortKey` stands for.
pub struct SortKeyView {
    pub line: nat,
    pub precedence: nat,
}

impl View for SortKey {
    type V = SortKeyView;

    open spec fn view(&self) -> SortKeyView {
        SortKeyView { line: self.line as nat, precedence: self.precedence as nat }
    }
}

/// The views of a list of sort keys.
pub open spec fn sort_key_views(v: Seq<SortKey>) -> Seq<SortKeyView> {
    v.map_values(|k: SortKey| k@)
}

/// The line by which an edit is ordered, in a file of `len` lines: the line it
/// replaces, or the last of them; the anchor it inserts after or before; the
/// lower anchor of an `Insert`; one past the last line for an insertion at the
/// end of the file, and 0 for one at its start.
pub open spec fn sort_line(e: EditView, len: nat) -> nat {
    match e {
        EditView::SetLine { tag, .. } => tag.line,
        EditView::Replace { last, .. } => last.line,
        EditView::Append { after: Some(tag), .. } => tag.line,
        EditView::Append { after: None, .. } => len + 1,
        EditView::Prepend { before: Some(tag), .. } => tag.line,
        EditView::Prepend { before: None, .. } => 0,
        EditView::Insert { before, .. } => before.line,
    }
}

/// The rank of an edit among the edits of one line: replacements first, then
/// `Append`, then `Prepend`, then `Insert`.
pub open spec fn precedence(e: EditView) -> nat {
    match e {
        EditView::SetLine { .. } => 0,
        EditView::Replace { .. } => 0,
        EditView::Append { .. } => 1,
        EditView::Prepend { .. } => 2,
        EditView::Insert { .. } => 3,
    }
}

/// The sort key of an edit.
pub open spec fn sort_key(e: EditView, len: nat) -> SortKeyView {
    SortKeyView { line: sort_line(e, len), precedence: precedence(e) }
}

/// The sort keys of the edits that are run, in a file of `len` lines.
pub open spec fn sort_keys(edits: Seq<EditView>, kept: Seq<int>, len: nat) -> Seq<SortKeyView> {
    Seq::new(kept.len(), |i: int| sort_key(edits[kept[i]], len))
}

/// Whether the edit at place `a` is run before the edit at place `b`: the one
/// lower in the file first; on one line, the one of lower rank first; and of
/// two such, the one that stands first in the batch.
pub open spec fn runs_before(keys: Seq<SortKeyView>, a: int, b: int) -> bool {
    keys[a].line > keys[b].line || (keys[a].line == keys[b].line && (keys[a].precedence
        < keys[b].precedence || (keys[a].precedence == keys[b].precedence && a < b)))
}

/// `order` with the place `p` put before the first place that `p` runs before.
pub open spec fn insert_ordered(keys: Seq<SortKeyView>, order: Seq<int>, p: int) -> Seq<int>
    decreases order.len(),
{
    if order.len() == 0 {
        seq![p]
    } else if runs_before(keys, p, order[0]) {
        seq![p] + order
    } else {
        seq![order[0]] + insert_ordered(keys, order.drop_first(), p)
    }
}

/// The first `k` places in the order of running.
pub open spec fn order_upto(keys: Seq<SortKeyView>, k: nat) -> Seq<int>
    decreases k,
{
    if k == 0 {
        Seq::empty()
    } else {
        insert_ordered(keys, order_upto(keys, (k - 1) as nat), k - 1)
    }
}

/// The places of the edits in the order in which they are run.
pub open spec fn execution_order(keys: Seq<SortKeyView>) -> Seq<int> {
    order_upto(keys, keys.len())
}

/// Putting `p` in at the first place that it runs before.
pub proof fn lemma_insert_ordered(keys: Seq<SortKeyView>, order: Seq<int>, p: int, at: int)
    requires
        0 <= at <= order.len(),
        forall|i: int| 0 <= i < at ==> !runs_before(keys, p, #[trigger] order[i]),
        at < order.len() ==> runs_before(keys, p, order[at]),
    ensures
        insert_ordered(keys, order, p) == order.insert(at, p),
    decreases order.len(),
{
    if order.len() == 0 {
        assert(order.insert(at, p) =~= seq![p]);
    } else if at == 0 {
        assert(order.insert(0, p) =~= seq![p] + order);
    } else {
        let rest = order.drop_first();
        assert(!runs_before(keys, p, order[0]));
        assert forall|i: int| 0 <= i < at - 1 implies !runs_before(keys, p, #[trigger] rest[i]) by {
            assert(rest[i] == order[i + 1]);
        }
        if at - 1 < rest.len() {
            assert(rest[at - 1] == order[at]);
        }
        lemma_insert_ordered(keys, rest, p, at - 1);
        assert(seq![order[0]] + rest.insert(at - 1, p) =~= order.insert(at, p));
    }
}

fn key_runs_before(keys: &Vec<SortKey>, a: usize, b: usize) -> (r: bool)
    requires
        a < keys.len(),
        b < keys.len(),
    ensures
        r == runs_before(sort_key_views(keys@), a as int, b as int),
{
    let x = &keys[a];
    let y = &keys[b];
    assert(sort_key_views(keys@)[a as int] == x@);
    assert(sort_key_views(keys@)[b as int] == y@);
    x.line > y.line || (x.line == y.line && (x.precedence < y.precedence || (x.precedence
        == y.precedence && a < b)))
}

/// The sort keys of the edits at the places `kept`, in a file of `lines`.
pub fn sort_keys_of(edits: &Vec<HashlineEdit>, kept: &Vec<usize>, lines: &Vec<Vec<char>>) -> (r:
    Vec<SortKey>)
    requires
        forall|i: int| 0 <= i < kept.len() ==> #[trigger] kept@[i] < edits.len(),
    ensures
        sort_key_views(r@) == sort_keys(edit_views(edits@), places(kept@), lines.len() as nat),
{
    let ghost ev = edit_views(edits@);
    let len = line_count(lines);
    let mut out: Vec<SortKey> = Vec::new();
    let mut i: usize = 0;
    while i < kept.len()
        invariant
            i <= kept.len(),
            len == lines.len(),
            ev == edit_views(edits@),
            forall|j: int| 0 <= j < kept.len() ==> #[trigger] kept@[j] < edits.len(),
            out.len() == i,
            forall|j: int|
                0 <= j < i ==> (#[trigger] out@[j])@ == sort_key(ev[kept@[j] as int], len as nat),
        decreases kept.len() - i,
    {
        let e = &edits[kept[i]];
        assert(ev[kept@[i as int] as int] == e@);
        let key = match e {
            HashlineEdit::SetLine { tag, .. } => SortKey { line: tag.line as u128, precedence: 0 },
            HashlineEdit::Replace { last, .. } => SortKey { line: last.line as u128, precedence: 0 },
            HashlineEdit::Append { after, .. } => match after {
                Some(tag) => SortKey { line: tag.line as u128, precedence: 1 },
                None => SortKey { line: len as u128 + 1, precedence: 1 },
            },
            HashlineEdit::Prepend { before, .. } => match before {
                Some(tag) => SortKey { line: tag.line as u128, precedence: 2 },
                None => SortKey { line: 0, precedence: 2 },
            },
            HashlineEdit::Insert { before, .. } => SortKey {
                line: before.line as u128,
                precedence: 3,
            },
        };
        out.push(key);
        i += 1;
    }
    assert(sort_key_views(out@) =~= sort_keys(ev, places(kept@), len as nat));
    out
}

/// The places `0..keys.len()` in the order of running.
pub fn execution_order_of(keys: &Vec<SortKey>) -> (r: Vec<usize>)
    ensures
        places(r@) == execution_order(sort_key_views(keys@)),
        r.len() == keys.len(),
        forall|i: int| 0 <= i < r.len() ==> #[trigger] r@[i] < keys.len(),
{
    let ghost kv = sort_key_views(keys@);
    let mut order: Vec<usize> = Vec::new();
    let mut p: usize = 0;
    assert(places(order@) =~= Seq::<int>::empty());
    while p < keys.len()
        invariant
            p <= keys.len(),
            kv == sort_key_views(keys@),
            order.len() == p,
            places(order@) == order_upto(kv, p as nat),
            forall|i: int| 0 <= i < order.len() ==> #[trigger] order@[i] < p,
        decreases keys.len() - p,
    {
        let mut at: usize = 0;
        while at < order.len() && !key_runs_before(keys, p, order[at])
            invariant
                at <= order.len(),
                p < keys.len(),
                kv == sort_key_views(keys@),
                forall|i: int| 0 <= i < order.len() ==> #[trigger] order@[i] < p,
                forall|i: int|
                    0 <= i < at ==> !runs_before(kv, p as int, #[trigger] places(order@)[i]),
            decreases order.len() - at,
        {
            assert(places(order@)[at as int] == order@[at as int]);
            at += 1;
        }
        proof {
            if at < order.len() {
                assert(places(order@)[at as int] == order@[at as int]);
            }
            lemma_insert_ordered(kv, places(order@), p as int, at as int);
        }
        let ghost before = places(order@);
        order.insert(at, p);
        assert(places(order@) =~= before.insert(at as int, p as int));
        p += 1;
    }
    order
}

} // verus!

//! The order of the edits in a batch makes no difference to the text that the
//! batch gives, as long as no two of its edits stand at one place.

use crate::hashline::apply::{
    apply_edits, check_edit, check_edits, named_spans, run_edit, run_upto, touched_spans,
    RunView,
};
use crate::hashline::edit::EditView;
use crate::hashline::merge::{covers, merge_expansion, LineSpanView};
use crate::hashline::mismatch::{HashlineErrorView, MismatchView};
use crate::hashline::order::{
    edit_key, execution_order, insert_ordered, is_repeat, kept, kept_upto, order_upto,
    runs_before, sort_key, sort_keys, SortKeyView,
};
use crate::text::split;
use vstd::prelude::*;

verus! {

/// Whether no two edits of a batch stand at one place: no two have the same
/// line to be ordered by and the same rank there.
pub open spec fn at_distinct_places(edits: Seq<EditView>, len: nat) -> bool {
    forall|i: int, j: int|
        0 <= i < edits.len() && 0 <= j < edits.len() && i != j ==> sort_key(
            #[trigger] edits[i],
            len,
        ) != sort_key(#[trigger] edits[j], len)
}

// ---------------------------------------------------------------------------
// The check
// ---------------------------------------------------------------------------

proof fn lemma_checked_each(edits: Seq<EditView>, lines: Seq<Seq<char>>, i: int)
    requires
        check_edits(edits, lines) is Ok,
        check_edits(edits, lines)->Ok_0.len() == 0,
        0 <= i < edits.len(),
    ensures
        check_edit(edits[i], lines) == Ok::<Seq<MismatchView>, HashlineErrorView>(Seq::empty()),
    decreases edits.len(),
{
    let before = check_edits(edits.drop_last(), lines);
    let last = check_edit(edits.last(), lines);
    assert(before is Ok && last is Ok);
    assert(check_edits(edits, lines)->Ok_0 == before->Ok_0 + last->Ok_0);
    assert(before->Ok_0.len() == 0 && last->Ok_0.len() == 0);
    if i == edits.len() - 1 {
        assert(last->Ok_0 =~= Seq::<MismatchView>::empty());
    } else {
        lemma_checked_each(edits.drop_last(), lines, i);
    }
}

proof fn lemma_each_checked(edits: Seq<EditView>, lines: Seq<Seq<char>>)
    requires
        forall|i: int|
            0 <= i < edits.len() ==> check_edit(#[trigger] edits[i], lines) == Ok::<
                Seq<MismatchView>,
                HashlineErrorView,
            >(Seq::empty()),
    ensures
        check_edits(edits, lines) == Ok::<Seq<MismatchView>, HashlineErrorView>(Seq::empty()),
    decreases edits.len(),
{
    if edits.len() > 0 {
        let prev = edits.drop_last();
        assert forall|i: int| 0 <= i < prev.len() implies check_edit(#[trigger] prev[i], lines)
            == Ok::<Seq<MismatchView>, HashlineErrorView>(Seq::empty()) by {
            assert(prev[i] == edits[i]);
        }
        lemma_each_checked(prev, lines);
        assert(check_edit(edits[edits.len() - 1], lines) == Ok::<
            Seq<MismatchView>,
            HashlineErrorView,
        >(Seq::empty()));
        assert(Seq::<MismatchView>::empty() + Seq::<MismatchView>::empty() =~= Seq::<
            MismatchView,
        >::empty());
    }
}

// ---------------------------------------------------------------------------
// No repeats
// ---------------------------------------------------------------------------

proof fn lemma_key_fixes_place(a: EditView, b: EditView, len: nat)
    requires
        edit_key(a) == edit_key(b),
    ensures
        sort_key(a, len) == sort_key(b, len),
{
}

proof fn lemma_all_kept(edits: Seq<EditView>, len: nat, k: nat)
    requires
        at_distinct_places(edits, len),
        k <= edits.len(),
    ensures
        kept_upto(edits, k) == Seq::new(k, |i: int| i),
    decreases k,
{
    if k > 0 {
        lemma_all_kept(edits, len, (k - 1) as nat);
        if is_repeat(edits, k - 1) {
            let j = choose|j: int| 0 <= j < k - 1 && edit_key(#[trigger] edits[j]) == edit_key(
                edits[k - 1],
            );
            lemma_key_fixes_place(edits[j], edits[k - 1], len);
        }
        assert(kept_upto(edits, k) =~= Seq::new(k, |i: int| i));
    } else {
        assert(kept_upto(edits, k) =~= Seq::new(k, |i: int| i));
    }
}

// ---------------------------------------------------------------------------
// The order of running is sorted, and holds every place once
// ---------------------------------------------------------------------------

/// Whether each place of `order` runs before the places behind it.
pub open spec fn is_sorted(keys: Seq<SortKeyView>, order: Seq<int>) -> bool {
    forall|i: int, j: int|
        0 <= i < j < order.len() ==> runs_before(keys, #[trigger] order[i], #[trigger] order[j])
}

proof fn lemma_insert_keeps_sorted(keys: Seq<SortKeyView>, order: Seq<int>, p: int)
    requires
        is_sorted(keys, order),
        forall|i: int| 0 <= i < order.len() ==> #[trigger] order[i] != p,
    ensures
        is_sorted(keys, insert_ordered(keys, order, p)),
        insert_ordered(keys, order, p).len() == order.len() + 1,
        forall|x: int| #[trigger]
            insert_ordered(keys, order, p).contains(x) ==> (order.contains(x) || x == p),
        forall|x: int| #[trigger] order.contains(x) ==> insert_ordered(keys, order, p).contains(x),
        insert_ordered(keys, order, p).contains(p),
    decreases order.len(),
{
    let r = insert_ordered(keys, order, p);
    if order.len() == 0 {
        assert(r =~= seq![p]);
        assert(r[0] == p);
    } else if runs_before(keys, p, order[0]) {
        assert(r =~= seq![p] + order);
        assert forall|i: int, j: int| 0 <= i < j < r.len() implies runs_before(
            keys,
            #[trigger] r[i],
            #[trigger] r[j],
        ) by {
            if i == 0 {
                if j > 1 {
                    assert(runs_before(keys, order[0], order[j - 1]));
                }
            } else {
                assert(runs_before(keys, order[i - 1], order[j - 1]));
            }
        }
        assert(r[0] == p);
        assert forall|x: int| #[trigger] order.contains(x) implies r.contains(x) by {
            let i = choose|i: int| 0 <= i < order.len() && order[i] == x;
            assert(r[i + 1] == x);
        }
        assert forall|x: int| #[trigger] r.contains(x) implies (order.contains(x) || x == p) by {
            let i = choose|i: int| 0 <= i < r.len() && r[i] == x;
            if i > 0 {
                assert(order[i - 1] == x);
            }
        }
    } else {
        let rest = order.drop_first();
        assert forall|i: int, j: int| 0 <= i < j < rest.len() implies runs_before(
            keys,
            #[trigger] rest[i],
            #[trigger] rest[j],
        ) by {
            assert(runs_before(keys, order[i + 1], order[j + 1]));
        }
        assert forall|i: int| 0 <= i < rest.len() implies #[trigger] rest[i] != p by {
            assert(rest[i] == order[i + 1]);
        }
        lemma_insert_keeps_sorted(keys, rest, p);
        let tail = insert_ordered(keys, rest, p);
        assert(r =~= seq![order[0]] + tail);
        assert(order[0] != p);
        assert(runs_before(keys, order[0], p));
        assert forall|i: int, j: int| 0 <= i < j < r.len() implies runs_before(
            keys,
            #[trigger] r[i],
            #[trigger] r[j],
        ) by {
            if i == 0 {
                let x = tail[j - 1];
                assert(tail.contains(x));
                if x != p {
                    assert(rest.contains(x));
                    let t = choose|t: int| 0 <= t < rest.len() && rest[t] == x;
                    assert(runs_before(keys, order[0], order[t + 1]));
                }
            } else {
                assert(runs_before(keys, tail[i - 1], tail[j - 1]));
            }
        }
        assert forall|x: int| #[trigger] r.contains(x) implies (order.contains(x) || x == p) by {
            let i = choose|i: int| 0 <= i < r.len() && r[i] == x;
            if i > 0 {
                assert(tail[i - 1] == x);
                assert(tail.contains(x));
                if x != p {
                    assert(rest.contains(x));
                    let t = choose|t: int| 0 <= t < rest.len() && rest[t] == x;
                    assert(order[t + 1] == x);
                }
            } else {
                assert(order[0] == x);
            }
        }
        assert forall|x: int| #[trigger] order.contains(x) implies r.contains(x) by {
            let i = choose|i: int| 0 <= i < order.len() && order[i] == x;
            if i == 0 {
                assert(r[0] == x);
            } else {
                assert(rest[i - 1] == x);
                assert(rest.contains(x));
                assert(tail.contains(x));
                let t = choose|t: int| 0 <= t < tail.len() && tail[t] == x;
                assert(r[t + 1] == x);
            }
        }
        assert(r.contains(p)) by {
            assert(tail.contains(p));
            let t = choose|t: int| 0 <= t < tail.len() && tail[t] == p;
            assert(r[t + 1] == p);
        }
    }
}

/// The order of running is sorted, and holds each of the first `k` places, and
/// nothing else.
pub proof fn lemma_order_sorted(keys: Seq<SortKeyView>, k: nat)
    ensures
        is_sorted(keys, order_upto(keys, k)),
        order_upto(keys, k).len() == k,
        forall|x: int| #[trigger] order_upto(keys, k).contains(x) ==> 0 <= x < k,
        forall|x: int| 0 <= x < k ==> #[trigger] order_upto(keys, k).contains(x),
    decreases k,
{
    let order = order_upto(keys, k);
    if k > 0 {
        let before = order_upto(keys, (k - 1) as nat);
        lemma_order_sorted(keys, (k - 1) as nat);
        assert forall|i: int| 0 <= i < before.len() implies #[trigger] before[i] != k - 1 by {
            assert(before.contains(before[i]));
        }
        lemma_insert_keeps_sorted(keys, before, k - 1);
        assert forall|x: int| 0 <= x < k implies #[trigger] order.contains(x) by {
            if x < k - 1 {
                assert(before.contains(x));
            }
        }
    } else {
        assert forall|x: int| #[trigger] order.contains(x) implies 0 <= x < k by {
            let i = choose|i: int| 0 <= i < order.len() && order[i] == x;
        }
    }
}

// ---------------------------------------------------------------------------
// A sorted sequence is fixed by what it holds
// ---------------------------------------------------------------------------

/// Whether the place of `a` is lower in the file than that of `b`, or the
/// same with a lower rank.
spec fn stands_before(a: SortKeyView, b: SortKeyView) -> bool {
    a.line > b.line || (a.line == b.line && a.precedence < b.precedence)
}

spec fn strictly_sorted(edits: Seq<EditView>, len: nat) -> bool {
    forall|i: int, j: int|
        0 <= i < j < edits.len() ==> stands_before(
            sort_key(#[trigger] edits[i], len),
            sort_key(#[trigger] edits[j], len),
        )
}

proof fn lemma_sorted_is_unique(x: Seq<EditView>, y: Seq<EditView>, len: nat)
    requires
        strictly_sorted(x, len),
        strictly_sorted(y, len),
        x.len() == y.len(),
        forall|i: int| 0 <= i < x.len() ==> y.contains(#[trigger] x[i]),
        forall|i: int| 0 <= i < y.len() ==> x.contains(#[trigger] y[i]),
    ensures
        x == y,
    decreases x.len(),
{
    if x.len() == 0 {
        assert(x =~= y);
    } else {
        // the heads are the same edit
        assert(y.contains(x[0]));
        let j = choose|j: int| 0 <= j < y.len() && y[j] == x[0];
        assert(x.contains(y[0]));
        let i = choose|i: int| 0 <= i < x.len() && x[i] == y[0];
        if j > 0 && i > 0 {
            assert(stands_before(sort_key(y[0], len), sort_key(y[j], len)));
            assert(stands_before(sort_key(x[0], len), sort_key(x[i], len)));
        }
        assert(x[0] == y[0]);
        let xt = x.drop_first();
        let yt = y.drop_first();
        assert forall|a: int, b: int| 0 <= a < b < xt.len() implies stands_before(
            sort_key(#[trigger] xt[a], len),
            sort_key(#[trigger] xt[b], len),
        ) by {
            assert(xt[a] == x[a + 1] && xt[b] == x[b + 1]);
        }
        assert forall|a: int, b: int| 0 <= a < b < yt.len() implies stands_before(
            sort_key(#[trigger] yt[a], len),
            sort_key(#[trigger] yt[b], len),
        ) by {
            assert(yt[a] == y[a + 1] && yt[b] == y[b + 1]);
        }
        assert forall|a: int| 0 <= a < xt.len() implies yt.contains(#[trigger] xt[a]) by {
            assert(xt[a] == x[a + 1]);
            assert(y.contains(x[a + 1]));
            let t = choose|t: int| 0 <= t < y.len() && y[t] == x[a + 1];
            if t == 0 {
                assert(stands_before(sort_key(x[0], len), sort_key(x[a + 1], len)));
            }
            assert(yt[t - 1] == xt[a]);
        }
        assert forall|a: int| 0 <= a < yt.len() implies xt.contains(#[trigger] yt[a]) by {
            assert(yt[a] == y[a + 1]);
            assert(x.contains(y[a + 1]));
            let t = choose|t: int| 0 <= t < x.len() && x[t] == y[a + 1];
            if t == 0 {
                assert(stands_before(sort_key(y[0], len), sort_key(y[a + 1], len)));
            }
            assert(xt[t - 1] == yt[a]);
        }
        lemma_sorted_is_unique(xt, yt, len);
        assert(x =~= seq![x[0]] + xt);
        assert(y =~= seq![y[0]] + yt);
    }
}

/// The edits of a batch in the order in which they are run.
spec fn in_running_order(edits: Seq<EditView>, len: nat) -> Seq<EditView> {
    let order = execution_order(sort_keys(edits, kept(edits), len));
    Seq::new(order.len(), |k: int| edits[kept(edits)[order[k]]])
}

proof fn lemma_running_order(edits: Seq<EditView>, len: nat)
    requires
        at_distinct_places(edits, len),
    ensures
        in_running_order(edits, len).len() == edits.len(),
        execution_order(sort_keys(edits, kept(edits), len)).len() == edits.len(),
        strictly_sorted(in_running_order(edits, len), len),
        forall|i: int| 0 <= i < edits.len() ==> in_running_order(edits, len).contains(
            #[trigger] edits[i],
        ),
        forall|k: int|
            0 <= k < edits.len() ==> edits.contains(#[trigger] in_running_order(edits, len)[k]),
{
    let n = edits.len();
    lemma_all_kept(edits, len, n);
    let kp = kept(edits);
    let keys = sort_keys(edits, kp, len);
    assert(keys.len() == n);
    lemma_order_sorted(keys, n);
    let order = execution_order(keys);
    let run = in_running_order(edits, len);
    assert forall|k: int| 0 <= k < n implies 0 <= #[trigger] order[k] < n by {
        assert(order.contains(order[k]));
    }
    assert forall|a: int, b: int| 0 <= a < b < run.len() implies stands_before(
        sort_key(#[trigger] run[a], len),
        sort_key(#[trigger] run[b], len),
    ) by {
        assert(runs_before(keys, order[a], order[b]));
        assert(order.contains(order[a]) && order.contains(order[b]));
        // no place runs before itself, so these are two places
        assert(order[a] != order[b]);
        assert(sort_key(edits[order[a]], len) != sort_key(edits[order[b]], len));
    }
    assert forall|i: int| 0 <= i < n implies run.contains(#[trigger] edits[i]) by {
        assert(order.contains(i));
        let k = choose|k: int| 0 <= k < order.len() && order[k] == i;
        assert(run[k] == edits[i]);
    }
    assert forall|k: int| 0 <= k < n implies edits.contains(#[trigger] run[k]) by {
        assert(order.contains(order[k]));
        assert(edits[order[k]] == run[k]);
    }
}

// ---------------------------------------------------------------------------
// The lines that the batch names
// ---------------------------------------------------------------------------

proof fn lemma_touched(edits: Seq<EditView>, n: nat)
    ensures
        covers(touched_spans(edits), n) <==> exists|i: int|
            0 <= i < edits.len() && covers(named_spans(#[trigger] edits[i]), n),
    decreases edits.len(),
{
    if edits.len() == 0 {
    } else {
        let prev = edits.drop_last();
        lemma_touched(prev, n);
        let a = touched_spans(prev);
        let b = named_spans(edits.last());
        let all = touched_spans(edits);
        assert(all == a + b);
        if covers(all, n) {
            let i = choose|i: int| 0 <= i < all.len() && (#[trigger] all[i]).first <= n
                <= all[i].last;
            if i < a.len() {
                assert(a[i] == all[i]);
                assert(covers(a, n));
                let t = choose|t: int| 0 <= t < prev.len() && covers(
                    named_spans(#[trigger] prev[t]),
                    n,
                );
                assert(prev[t] == edits[t]);
            } else {
                assert(b[i - a.len()] == all[i]);
                assert(covers(b, n));
                assert(covers(named_spans(edits[edits.len() - 1]), n));
            }
        }
        if exists|i: int| 0 <= i < edits.len() && covers(named_spans(#[trigger] edits[i]), n) {
            let i = choose|i: int| 0 <= i < edits.len() && covers(
                named_spans(#[trigger] edits[i]),
                n,
            );
            if i < prev.len() {
                assert(prev[i] == edits[i]);
                assert(covers(a, n));
                let t = choose|t: int| 0 <= t < a.len() && (#[trigger] a[t]).first <= n
                    <= a[t].last;
                assert(all[t] == a[t]);
            } else {
                let t = choose|t: int| 0 <= t < b.len() && (#[trigger] b[t]).first <= n
                    <= b[t].last;
                assert(all[a.len() + t] == b[t]);
            }
        }
    }
}

/// Whether two lists of spans hold the same lines.
spec fn same_cover(a: Seq<LineSpanView>, b: Seq<LineSpanView>) -> bool {
    forall|n: nat| covers(a, n) == covers(b, n)
}

proof fn lemma_run_edit_agrees(
    s1: RunView,
    s2: RunView,
    i1: nat,
    i2: nat,
    e: EditView,
    original: Seq<Seq<char>>,
    t1: Seq<LineSpanView>,
    t2: Seq<LineSpanView>,
)
    requires
        s1.lines == s2.lines,
        s1.first_changed == s2.first_changed,
        same_cover(t1, t2),
    ensures
        run_edit(s1, i1, e, original, t1).lines == run_edit(s2, i2, e, original, t2).lines,
        run_edit(s1, i1, e, original, t1).first_changed == run_edit(
            s2,
            i2,
            e,
            original,
            t2,
        ).first_changed,
{
    match e {
        EditView::SetLine { tag, content } => {
            assert(covers(t1, tag.line + 1) == covers(t2, tag.line + 1));
            if tag.line >= 1 {
                assert(covers(t1, (tag.line - 1) as nat) == covers(t2, (tag.line - 1) as nat));
            }
            assert(merge_expansion(tag.line, content, s1.lines, t1) == merge_expansion(
                tag.line,
                content,
                s2.lines,
                t2,
            ));
        },
        _ => {},
    }
}

proof fn lemma_runs_agree(
    a: Seq<EditView>,
    b: Seq<EditView>,
    len: nat,
    original: Seq<Seq<char>>,
    k: nat,
)
    requires
        in_running_order(a, len) == in_running_order(b, len),
        k <= in_running_order(a, len).len(),
        same_cover(touched_spans(a), touched_spans(b)),
    ensures
        ({
            let ra = run_upto(
                a,
                kept(a),
                execution_order(sort_keys(a, kept(a), len)),
                original,
                touched_spans(a),
                k,
            );
            let rb = run_upto(
                b,
                kept(b),
                execution_order(sort_keys(b, kept(b), len)),
                original,
                touched_spans(b),
                k,
            );
            ra.lines == rb.lines && ra.first_changed == rb.first_changed
        }),
    decreases k,
{
    if k > 0 {
        lemma_runs_agree(a, b, len, original, (k - 1) as nat);
        let oa = execution_order(sort_keys(a, kept(a), len));
        let ob = execution_order(sort_keys(b, kept(b), len));
        let ra = run_upto(a, kept(a), oa, original, touched_spans(a), (k - 1) as nat);
        let rb = run_upto(b, kept(b), ob, original, touched_spans(b), (k - 1) as nat);
        let ea = a[kept(a)[oa[k - 1]]];
        let eb = b[kept(b)[ob[k - 1]]];
        assert(in_running_order(a, len)[k - 1] == ea);
        assert(in_running_order(b, len)[k - 1] == eb);
        lemma_run_edit_agrees(
            ra,
            rb,
            oa[k - 1] as nat,
            ob[k - 1] as nat,
            ea,
            original,
            touched_spans(a),
            touched_spans(b),
        );
    }
}

// ---------------------------------------------------------------------------
// The law
// ---------------------------------------------------------------------------

/// Independence of order: let `b` hold the edits of `a` in another order, no
/// two of them at one place of the file. Then, where `a` applies, `b` applies
/// too, and gives the same text with the same first changed line.
///
/// Two edits at one place — two insertions after the same line, say — are run
/// in the order of the batch, so that the law cannot hold of them.
pub proof fn lemma_order_independence(content: Seq<char>, a: Seq<EditView>, b: Seq<EditView>)
    requires
        a.to_multiset() == b.to_multiset(),
        at_distinct_places(a, split(content, '\n').len()),
        apply_edits(content, a) is Ok,
    ensures
        apply_edits(content, b) is Ok,
        apply_edits(content, b)->Ok_0.content == apply_edits(content, a)->Ok_0.content,
        apply_edits(content, b)->Ok_0.first_changed_line == apply_edits(
            content,
            a,
        )->Ok_0.first_changed_line,
{
    broadcast use vstd::seq_lib::to_multiset_contains;

    let lines = split(content, '\n');
    let len = lines.len();
    a.to_multiset_ensures();
    b.to_multiset_ensures();
    assert(a.len() == b.len());
    if a.len() > 0 {
        // each batch holds the edits of the other
        assert forall|i: int| 0 <= i < a.len() implies b.contains(#[trigger] a[i]) by {
            assert(a.contains(a[i]));
            assert(a.to_multiset().count(a[i]) > 0);
            assert(b.to_multiset().count(a[i]) > 0);
        }
        assert forall|i: int| 0 <= i < b.len() implies a.contains(#[trigger] b[i]) by {
            assert(b.contains(b[i]));
            assert(b.to_multiset().count(b[i]) > 0);
            assert(a.to_multiset().count(b[i]) > 0);
        }
        // no edit stands twice in a, and so none in b
        assert(a.no_duplicates()) by {
            assert forall|i: int, j: int| 0 <= i < a.len() && 0 <= j < a.len() && i != j implies a[i]
                != a[j] by {
                assert(sort_key(a[i], len) != sort_key(a[j], len));
            }
        }
        a.lemma_multiset_has_no_duplicates();
        b.lemma_multiset_has_no_duplicates_conv();
        assert(at_distinct_places(b, len)) by {
            assert forall|i: int, j: int| 0 <= i < b.len() && 0 <= j < b.len() && i != j implies sort_key(
                #[trigger] b[i],
                len,
            ) != sort_key(#[trigger] b[j], len) by {
                assert(b[i] != b[j]);
                assert(a.contains(b[i]) && a.contains(b[j]));
                let x = choose|x: int| 0 <= x < a.len() && a[x] == b[i];
                let y = choose|y: int| 0 <= y < a.len() && a[y] == b[j];
                assert(x != y);
                assert(sort_key(a[x], len) != sort_key(a[y], len));
            }
        }
        // the check
        assert forall|i: int| 0 <= i < b.len() implies check_edit(#[trigger] b[i], lines) == Ok::<
            Seq<MismatchView>,
            HashlineErrorView,
        >(Seq::empty()) by {
            let x = choose|x: int| 0 <= x < a.len() && a[x] == b[i];
            lemma_checked_each(a, lines, x);
        }
        lemma_each_checked(b, lines);
        // the order of running
        lemma_running_order(a, len);
        lemma_running_order(b, len);
        let ra = in_running_order(a, len);
        let rb = in_running_order(b, len);
        assert forall|k: int| 0 <= k < ra.len() implies rb.contains(#[trigger] ra[k]) by {
            assert(a.contains(ra[k]));
            let x = choose|x: int| 0 <= x < a.len() && a[x] == ra[k];
            assert(b.contains(a[x]));
            let y = choose|y: int| 0 <= y < b.len() && b[y] == a[x];
            assert(rb.contains(b[y]));
        }
        assert forall|k: int| 0 <= k < rb.len() implies ra.contains(#[trigger] rb[k]) by {
            assert(b.contains(rb[k]));
            let x = choose|x: int| 0 <= x < b.len() && b[x] == rb[k];
            assert(a.contains(b[x]));
            let y = choose|y: int| 0 <= y < a.len() && a[y] == b[x];
            assert(ra.contains(a[y]));
        }
        lemma_sorted_is_unique(ra, rb, len);
        // the lines that are named
        assert(same_cover(touched_spans(a), touched_spans(b))) by {
            assert forall|n: nat| covers(touched_spans(a), n) == covers(touched_spans(b), n) by {
                lemma_touched(a, n);
                lemma_touched(b, n);
                if covers(touched_spans(a), n) {
                    let i = choose|i: int| 0 <= i < a.len() && covers(
                        named_spans(#[trigger] a[i]),
                        n,
                    );
                    let y = choose|y: int| 0 <= y < b.len() && b[y] == a[i];
                    assert(covers(named_spans(b[y]), n));
                }
                if covers(touched_spans(b), n) {
                    let i = choose|i: int| 0 <= i < b.len() && covers(
                        named_spans(#[trigger] b[i]),
                        n,
                    );
                    let y = choose|y: int| 0 <= y < a.len() && a[y] == b[i];
                    assert(covers(named_spans(a[y]), n));
                }
            }
        }
        lemma_runs_agree(a, b, len, lines, ra.len());
    }
}

} // verus!

//! A completed hunk is exact: its context and removals are the lines of the
//! file, and its counts are those of its lines.

use crate::patch_completer::hunk::{
    all_additions, best_of, first_tier_candidates, hunk_bounds, lemma_best_upto, rebuilt,
};
use crate::patch_completer::matching::MatchTier;
use crate::patch_completer::search::{
    candidate_at, candidates, is_addition, is_removal, walk, FateView,
};
use crate::patch_completer::strict::{lemma_listed_is_candidate, old_side};
use vstd::prelude::*;

verus! {

/// How many of the first `k` lines of a hunk stand in the file once the hunk
/// is applied: its lines that are no removals.
pub open spec fn new_side_len(hunk: Seq<Seq<char>>, k: nat) -> nat
    decreases k,
{
    if k == 0 {
        0
    } else {
        new_side_len(hunk, (k - 1) as nat) + if is_removal(hunk[k - 1]) {
            0nat
        } else {
            1nat
        }
    }
}

/// Whether a line of a completed hunk begins with one of the three marks.
pub open spec fn is_marked(line: Seq<char>) -> bool {
    line.len() >= 1 && (line[0] == ' ' || line[0] == '-' || line[0] == '+')
}

proof fn lemma_old_side_of_prefix(a: Seq<Seq<char>>, b: Seq<Seq<char>>, k: nat)
    requires
        k <= a.len(),
        k <= b.len(),
        forall|i: int| 0 <= i < k ==> #[trigger] a[i] == b[i],
    ensures
        old_side(a, k) == old_side(b, k),
        new_side_len(a, k) == new_side_len(b, k),
    decreases k,
{
    if k > 0 {
        lemma_old_side_of_prefix(a, b, (k - 1) as nat);
        assert(a[k - 1] == b[k - 1]);
    }
}

proof fn lemma_rebuilt_of_prefix(
    hunk: Seq<Seq<char>>,
    f: Seq<FateView>,
    g: Seq<FateView>,
    k: nat,
)
    requires
        k <= f.len(),
        k <= g.len(),
        forall|i: int| 0 <= i < k ==> #[trigger] f[i] == g[i],
    ensures
        rebuilt(hunk, f, k) == rebuilt(hunk, g, k),
    decreases k,
{
    if k > 0 {
        lemma_rebuilt_of_prefix(hunk, f, g, (k - 1) as nat);
        assert(f[k - 1] == g[k - 1]);
    }
}

/// What the lines rebuilt from a walk are: their old side is the lines of the
/// file that the walk has passed, their count afterwards is the count of their
/// lines that are no removals, and each begins with a mark.
proof fn lemma_walk_rebuilt(
    orig: Seq<Seq<char>>,
    hunk: Seq<Seq<char>>,
    at: nat,
    tier: MatchTier,
    k: nat,
)
    requires
        k <= hunk.len(),
        at <= orig.len(),
        walk(orig, hunk, at, tier, k) is Some,
    ensures
        ({
            let w = walk(orig, hunk, at, tier, k)->0;
            let r = rebuilt(hunk, w.fates, k);
            &&& w.fates.len() == k
            &&& at + w.offset <= orig.len()
            &&& old_side(r.lines, r.lines.len()) == orig.subrange(at as int, (at + w.offset) as int)
            &&& new_side_len(r.lines, r.lines.len()) == r.new_count
            &&& forall|i: int| 0 <= i < r.lines.len() ==> is_marked(#[trigger] r.lines[i])
        }),
    decreases k,
{
    let w = walk(orig, hunk, at, tier, k)->0;
    let r = rebuilt(hunk, w.fates, k);
    if k == 0 {
        assert(orig.subrange(at as int, at as int) =~= Seq::<Seq<char>>::empty());
    } else {
        let j = (k - 1) as nat;
        assert(walk(orig, hunk, at, tier, j) is Some);
        lemma_walk_rebuilt(orig, hunk, at, tier, j);
        let v = walk(orig, hunk, at, tier, j)->0;
        let q = rebuilt(hunk, v.fates, j);
        assert(w.fates.len() == k);
        assert forall|i: int| 0 <= i < j implies #[trigger] w.fates[i] == v.fates[i] by {}
        lemma_rebuilt_of_prefix(hunk, w.fates, v.fates, j);
        assert(rebuilt(hunk, w.fates, j) == q);
        let line = hunk[k - 1];
        match w.fates[k - 1] {
            FateView::Overhang => {
                assert(r == q);
            },
            _ => {
                let added = r.lines[r.lines.len() - 1];
                assert(r.lines == q.lines.push(added));
                assert(r.lines.len() == q.lines.len() + 1);
                assert forall|i: int| 0 <= i < q.lines.len() implies #[trigger] r.lines[i]
                    == q.lines[i] by {}
                lemma_old_side_of_prefix(r.lines, q.lines, q.lines.len());
                assert forall|i: int| 0 <= i < r.lines.len() implies is_marked(
                    #[trigger] r.lines[i],
                ) by {
                    if i < q.lines.len() {
                        assert(r.lines[i] == q.lines[i]);
                    }
                }
                match w.fates[k - 1] {
                    FateView::Matched { text, .. } => {
                        assert(text == orig[(at + v.offset) as int]);
                        assert(w.offset == v.offset + 1);
                        assert(added.len() == text.len() + 1);
                        assert(!is_addition(added));
                        assert(crate::patch_completer::search::body_of(added) =~= text);
                        assert(orig.subrange(at as int, (at + v.offset) as int).push(text)
                            =~= orig.subrange(at as int, (at + w.offset) as int));
                    },
                    _ => {
                        assert(is_addition(added));
                        assert(w.offset == v.offset);
                    },
                }
            },
        }
    }
}

/// A completed hunk is exact. Its lines begin with ` `, `-` or `+`; its old
/// side — its context and removals without their marks — is the lines of the
/// file that it covers, character for character; it covers as many lines as
/// its old side has, and leaves as many as it has lines that are no removals.
pub proof fn lemma_completed_hunk_is_exact(
    orig: Seq<Seq<char>>,
    hunk: Seq<Seq<char>>,
    search_from: nat,
)
    requires
        hunk_bounds(orig, hunk, search_from) is Ok,
    ensures
        ({
            let b = hunk_bounds(orig, hunk, search_from)->Ok_0;
            let lines = b.final_hunk_lines;
            &&& 1 <= b.old_start
            &&& b.old_start - 1 + b.old_count <= orig.len()
            &&& old_side(lines, lines.len()) == orig.subrange(
                b.old_start - 1,
                b.old_start - 1 + b.old_count,
            )
            &&& new_side_len(lines, lines.len()) == b.new_count
            &&& forall|i: int| 0 <= i < lines.len() ==> is_marked(#[trigger] lines[i])
        }),
{
    let b = hunk_bounds(orig, hunk, search_from)->Ok_0;
    if all_additions(hunk) {
        lemma_additions(hunk, hunk.len());
        assert(orig.subrange(orig.len() as int, orig.len() as int) =~= Seq::<Seq<char>>::empty());
    } else {
        let cands = first_tier_candidates(orig, hunk, search_from);
        lemma_best_upto(cands, search_from, cands.len());
        let best = cands[best_of(cands, search_from)];
        let n = (orig.len() - search_from + 1) as nat;
        let tier = best.tier;
        assert(search_from <= orig.len()) by {
            if search_from > orig.len() {
                assert(candidates(orig, hunk, search_from, MatchTier::Strict).len() == 0);
                assert(candidates(orig, hunk, search_from, MatchTier::Resilient).len() == 0);
                assert(candidates(orig, hunk, search_from, MatchTier::Fuzzy).len() == 0);
            }
        }
        lemma_listed_is_candidate(orig, hunk, search_from, MatchTier::Strict, n);
        lemma_listed_is_candidate(orig, hunk, search_from, MatchTier::Resilient, n);
        lemma_listed_is_candidate(orig, hunk, search_from, MatchTier::Fuzzy, n);
        assert(exists|t: MatchTier| candidate_at(orig, hunk, best.idx, t) == Some(best)) by {
            if cands == candidates(orig, hunk, search_from, MatchTier::Strict) {
                assert(candidate_at(orig, hunk, best.idx, MatchTier::Strict) == Some(best));
            } else if cands == candidates(orig, hunk, search_from, MatchTier::Resilient) {
                assert(candidate_at(orig, hunk, best.idx, MatchTier::Resilient) == Some(best));
            } else {
                assert(candidate_at(orig, hunk, best.idx, MatchTier::Fuzzy) == Some(best));
            }
        }
        let t = choose|t: MatchTier| candidate_at(orig, hunk, best.idx, t) == Some(best);
        lemma_walk_rebuilt(orig, hunk, best.idx, t, hunk.len());
    }
}

/// A hunk of additions has no old side, leaves all its lines, and each of its
/// lines begins with `+`.
proof fn lemma_additions(hunk: Seq<Seq<char>>, k: nat)
    requires
        all_additions(hunk),
        k <= hunk.len(),
    ensures
        old_side(hunk, k).len() == 0,
        new_side_len(hunk, k) == k,
        forall|i: int| 0 <= i < hunk.len() ==> is_marked(#[trigger] hunk[i]),
    decreases k,
{
    if k > 0 {
        lemma_additions(hunk, (k - 1) as nat);
        assert(is_addition(hunk[k - 1]));
    }
    assert forall|i: int| 0 <= i < hunk.len() implies is_marked(#[trigger] hunk[i]) by {
        assert(is_addition(hunk[i]));
    }
}

} // verus!

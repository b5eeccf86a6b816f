//! What holds of the tier that a completion reports.

use crate::patch_completer::complete::{completed, completer_after, is_hunk_header};
use crate::patch_completer::hunk::{
    all_additions, first_tier_candidates, hunk_bounds, lemma_best_upto,
};
use crate::patch_completer::matching::{loosest, MatchTier};
use crate::patch_completer::search::{candidates, candidates_upto};
use crate::text::{lines, replace_crlf};
use vstd::prelude::*;

verus! {

/// Every match found at a tier carries that tier.
pub proof fn lemma_candidates_tier(
    orig: Seq<Seq<char>>,
    hunk: Seq<Seq<char>>,
    search_from: nat,
    tier: MatchTier,
    n: nat,
)
    ensures
        forall|i: int|
            0 <= i < candidates_upto(orig, hunk, search_from, tier, n).len() ==> (
            #[trigger] candidates_upto(orig, hunk, search_from, tier, n)[i]).tier == tier,
    decreases n,
{
    if n > 0 {
        lemma_candidates_tier(orig, hunk, search_from, tier, (n - 1) as nat);
    }
}

/// The tier at which a hunk is matched, where it is matched.
pub open spec fn hunk_tier(orig: Seq<Seq<char>>, hunk: Seq<Seq<char>>, search_from: nat) -> Option<
    MatchTier,
> {
    match hunk_bounds(orig, hunk, search_from) {
        Ok(b) => b.tier,
        Err(_) => None,
    }
}

/// The tier of a hunk is the first tier at which it matches anywhere: a hunk
/// that matches at `Strict` is reported as `Strict`, one that matches at
/// `Resilient` but not at `Strict` as `Resilient`, and one that matches at
/// `Fuzzy` alone as `Fuzzy`. A hunk that matches at no tier is not found.
pub proof fn lemma_hunk_tier(orig: Seq<Seq<char>>, hunk: Seq<Seq<char>>, search_from: nat)
    requires
        !all_additions(hunk),
    ensures
        candidates(orig, hunk, search_from, MatchTier::Strict).len() > 0 ==> hunk_tier(
            orig,
            hunk,
            search_from,
        ) == Some(MatchTier::Strict),
        candidates(orig, hunk, search_from, MatchTier::Strict).len() == 0 && candidates(
            orig,
            hunk,
            search_from,
            MatchTier::Resilient,
        ).len() > 0 ==> hunk_tier(orig, hunk, search_from) == Some(MatchTier::Resilient),
        candidates(orig, hunk, search_from, MatchTier::Strict).len() == 0 && candidates(
            orig,
            hunk,
            search_from,
            MatchTier::Resilient,
        ).len() == 0 && candidates(orig, hunk, search_from, MatchTier::Fuzzy).len() > 0
            ==> hunk_tier(orig, hunk, search_from) == Some(MatchTier::Fuzzy),
        candidates(orig, hunk, search_from, MatchTier::Strict).len() == 0 && candidates(
            orig,
            hunk,
            search_from,
            MatchTier::Resilient,
        ).len() == 0 && candidates(orig, hunk, search_from, MatchTier::Fuzzy).len() == 0
            ==> hunk_bounds(orig, hunk, search_from) is Err,
{
    let cands = first_tier_candidates(orig, hunk, search_from);
    if cands.len() > 0 {
        lemma_best_upto(cands, search_from, cands.len());
        let n = (orig.len() - search_from + 1) as nat;
        if search_from <= orig.len() {
            lemma_candidates_tier(orig, hunk, search_from, MatchTier::Strict, n);
            lemma_candidates_tier(orig, hunk, search_from, MatchTier::Resilient, n);
            lemma_candidates_tier(orig, hunk, search_from, MatchTier::Fuzzy, n);
        }
    }
}

/// The place of an optional tier in the order of the tiers, no tier below all.
pub open spec fn tier_rank(t: Option<MatchTier>) -> nat {
    match t {
        None => 0,
        Some(t) => t.rank() + 1,
    }
}

/// The tier of the hunk that ends before line `k` of a patch, where one ends
/// there and has a tier.
pub open spec fn tier_of_hunk_ending_at(orig: Seq<Seq<char>>, patch: Seq<Seq<char>>, k: nat) -> Option<
    MatchTier,
> {
    match completer_after(orig, patch, k) {
        Ok(st) => match st.pending {
            Some(hunk) => match hunk_bounds(orig, hunk, st.search_from) {
                Ok(b) => b.tier,
                Err(_) => None,
            },
            None => None,
        },
        Err(_) => None,
    }
}

/// Whether a hunk ends before line `k` of a patch: line `k` is a header, or
/// the patch ends there.
pub open spec fn hunk_ends_at(patch: Seq<Seq<char>>, k: nat) -> bool {
    k == patch.len() || (k < patch.len() && is_hunk_header(patch[k as int]))
}

/// The loosest tier so far is at least the tier of every hunk that has ended,
/// and is the tier of one of them unless there is none.
pub proof fn lemma_tier_so_far(orig: Seq<Seq<char>>, patch: Seq<Seq<char>>, k: nat)
    requires
        k <= patch.len(),
        completer_after(orig, patch, k) is Ok,
    ensures
        forall|j: nat|
            j < k && hunk_ends_at(patch, j) ==> tier_rank(
                #[trigger] tier_of_hunk_ending_at(orig, patch, j),
            ) <= tier_rank(completer_after(orig, patch, k)->Ok_0.max_tier),
        completer_after(orig, patch, k)->Ok_0.max_tier is None || exists|j: nat|
            j < k && hunk_ends_at(patch, j) && #[trigger] tier_of_hunk_ending_at(orig, patch, j)
                == completer_after(orig, patch, k)->Ok_0.max_tier,
    decreases k,
{
    if k > 0 {
        let before = completer_after(orig, patch, (k - 1) as nat);
        assert(before is Ok);
        lemma_tier_so_far(orig, patch, (k - 1) as nat);
        let st = before->Ok_0;
        let now = completer_after(orig, patch, k)->Ok_0;
        let j0 = (k - 1) as nat;
        if is_hunk_header(patch[k - 1]) {
            assert(hunk_ends_at(patch, j0));
            assert(now.max_tier == loosest(st.max_tier, tier_of_hunk_ending_at(orig, patch, j0)));
            if now.max_tier is Some {
                if now.max_tier == tier_of_hunk_ending_at(orig, patch, j0) {
                    assert(j0 < k && hunk_ends_at(patch, j0) && tier_of_hunk_ending_at(
                        orig,
                        patch,
                        j0,
                    ) == now.max_tier);
                } else {
                    assert(now.max_tier == st.max_tier);
                    let j = choose|j: nat|
                        j < k - 1 && hunk_ends_at(patch, j) && #[trigger] tier_of_hunk_ending_at(
                            orig,
                            patch,
                            j,
                        ) == st.max_tier;
                    assert(j < k && hunk_ends_at(patch, j) && tier_of_hunk_ending_at(
                        orig,
                        patch,
                        j,
                    ) == now.max_tier);
                }
            }
        } else {
            assert(now.max_tier == st.max_tier);
            assert(!hunk_ends_at(patch, j0));
            if now.max_tier is Some {
                let j = choose|j: nat|
                    j < k - 1 && hunk_ends_at(patch, j) && #[trigger] tier_of_hunk_ending_at(
                        orig,
                        patch,
                        j,
                    ) == st.max_tier;
                assert(j < k && hunk_ends_at(patch, j) && tier_of_hunk_ending_at(orig, patch, j)
                    == now.max_tier);
            }
        }
    }
}

/// The tier that a completion reports is the supremum of the tiers of its
/// hunks: it is at least the tier of each hunk, and it is the tier of one of
/// them, unless no hunk has a tier.
pub proof fn lemma_reported_tier_is_supremum(original: Seq<char>, patch_text: Seq<char>)
    requires
        completed(original, patch_text) is Ok,
    ensures
        ({
            let orig = lines(replace_crlf(original));
            let patch = lines(replace_crlf(patch_text));
            let tier = completed(original, patch_text)->Ok_0.1;
            &&& forall|j: nat|
                j <= patch.len() && hunk_ends_at(patch, j) ==> tier_rank(
                    #[trigger] tier_of_hunk_ending_at(orig, patch, j),
                ) <= tier_rank(tier)
            &&& tier is None || exists|j: nat|
                j <= patch.len() && hunk_ends_at(patch, j) && #[trigger] tier_of_hunk_ending_at(
                    orig,
                    patch,
                    j,
                ) == tier
        }),
{
    let orig = lines(replace_crlf(original));
    let patch = lines(replace_crlf(patch_text));
    let n = patch.len();
    lemma_tier_so_far(orig, patch, n);
    let st = completer_after(orig, patch, n)->Ok_0;
    let tier = completed(original, patch_text)->Ok_0.1;
    assert(hunk_ends_at(patch, n));
    assert(tier == loosest(st.max_tier, tier_of_hunk_ending_at(orig, patch, n)));
    if tier is Some {
        if tier == tier_of_hunk_ending_at(orig, patch, n) {
            assert(n <= patch.len() && hunk_ends_at(patch, n) && tier_of_hunk_ending_at(
                orig,
                patch,
                n,
            ) == tier);
        } else {
            assert(tier == st.max_tier);
            let j = choose|j: nat|
                j < n && hunk_ends_at(patch, j) && #[trigger] tier_of_hunk_ending_at(orig, patch, j)
                    == st.max_tier;
            assert(j <= patch.len() && hunk_ends_at(patch, j) && tier_of_hunk_ending_at(
                orig,
                patch,
                j,
            ) == tier);
        }
    }
}

} // verus!

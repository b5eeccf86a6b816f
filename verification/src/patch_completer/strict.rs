//! A hunk whose old lines stand in the file byte for byte is matched at the
//! strict tier, and a patch of one such hunk reports that tier.

use crate::patch_completer::complete::{
    body_text, completed, completer_after, header_text, is_hunk_header, CompleterView,
};
use crate::patch_completer::hunk::{
    all_additions, best_of, first_tier_candidates, hunk_bounds, lemma_best_upto,
};
use crate::patch_completer::laws::lemma_candidates_tier;
use crate::patch_completer::matching::MatchTier;
use crate::patch_completer::search::{
    body_of, candidate_at, candidates, candidates_upto, in_reach, is_addition, walk,
};
use crate::text::{is_blank, is_whitespace, lines, replace_crlf};
use vstd::prelude::*;

verus! {

/// The old side of the first `k` lines of a hunk: its lines that are no
/// additions, each without the character that it begins with.
pub open spec fn old_side(hunk: Seq<Seq<char>>, k: nat) -> Seq<Seq<char>>
    decreases k,
{
    if k == 0 {
        Seq::empty()
    } else {
        let before = old_side(hunk, (k - 1) as nat);
        if is_addition(hunk[k - 1]) {
            before
        } else {
            before.push(body_of(hunk[k - 1]))
        }
    }
}

/// Whether the old side of a hunk stands in the file from line `at` on,
/// counted from 0: it has a line, none of its lines is blank, and each is the
/// line of the file in its place, character for character.
pub open spec fn stands_at(orig: Seq<Seq<char>>, hunk: Seq<Seq<char>>, at: nat) -> bool {
    let old = old_side(hunk, hunk.len());
    &&& old.len() >= 1
    &&& at + old.len() <= orig.len()
    &&& forall|i: int| 0 <= i < old.len() ==> orig[at + i] == #[trigger] old[i] && !is_blank(old[i])
}

/// The old side of more lines begins with the old side of fewer.
proof fn lemma_old_side_grows(hunk: Seq<Seq<char>>, j: nat, m: nat)
    requires
        j <= m,
    ensures
        old_side(hunk, j).len() <= old_side(hunk, m).len(),
        forall|i: int|
            0 <= i < old_side(hunk, j).len() ==> old_side(hunk, m)[i] == #[trigger] old_side(
                hunk,
                j,
            )[i],
    decreases m - j,
{
    if j < m {
        lemma_old_side_grows(hunk, j, (m - 1) as nat);
    }
}

/// A hunk of additions has no old side.
proof fn lemma_additions_have_no_old_side(hunk: Seq<Seq<char>>, j: nat)
    requires
        all_additions(hunk),
        j <= hunk.len(),
    ensures
        old_side(hunk, j).len() == 0,
    decreases j,
{
    if j > 0 {
        lemma_additions_have_no_old_side(hunk, (j - 1) as nat);
        assert(is_addition(hunk[j - 1]));
    }
}

/// Where the old side of a hunk stands in the file, the strict walk from there
/// matches each of its lines, exactly, and none is left over.
proof fn lemma_strict_walk(orig: Seq<Seq<char>>, hunk: Seq<Seq<char>>, at: nat, j: nat)
    requires
        stands_at(orig, hunk, at),
        j <= hunk.len(),
    ensures
        walk(orig, hunk, at, MatchTier::Strict, j) is Some,
        ({
            let w = walk(orig, hunk, at, MatchTier::Strict, j)->0;
            &&& w.offset == old_side(hunk, j).len()
            &&& w.significant == w.offset
            &&& w.exact == w.offset
            &&& w.overhang == 0
        }),
    decreases j,
{
    if j > 0 {
        lemma_strict_walk(orig, hunk, at, (j - 1) as nat);
        let line = hunk[j - 1];
        if !is_addition(line) {
            lemma_old_side_grows(hunk, j, hunk.len());
            let m = old_side(hunk, (j - 1) as nat).len() as int;
            let body = body_of(line);
            let old = old_side(hunk, hunk.len());
            assert(old_side(hunk, j)[m] == body);
            assert(old[m] == body);
            assert(orig[at + m] == body && !is_blank(body));
            assert(!is_blank(line)) by {
                let i = choose|i: int| 0 <= i < body.len() && !is_whitespace(#[trigger] body[i]);
                assert(line.len() > 1);
                assert(line[i + 1] == body[i]);
            }
        }
    }
}

/// A match that is looked at stands in the list of the matches.
proof fn lemma_candidate_listed(
    orig: Seq<Seq<char>>,
    hunk: Seq<Seq<char>>,
    search_from: nat,
    tier: MatchTier,
    n: nat,
    at: nat,
)
    requires
        search_from <= at < search_from + n,
        in_reach(at, search_from, tier),
        candidate_at(orig, hunk, at, tier) is Some,
    ensures
        candidates_upto(orig, hunk, search_from, tier, n).contains(
            candidate_at(orig, hunk, at, tier)->0,
        ),
    decreases n,
{
    let list = candidates_upto(orig, hunk, search_from, tier, n);
    let before = candidates_upto(orig, hunk, search_from, tier, (n - 1) as nat);
    let c = candidate_at(orig, hunk, at, tier)->0;
    if at == search_from + n - 1 {
        assert(list == before.push(c));
        assert(list[list.len() - 1] == c);
    } else {
        lemma_candidate_listed(orig, hunk, search_from, tier, (n - 1) as nat, at);
        let i = choose|i: int| 0 <= i < before.len() && before[i] == c;
        assert(list[i] == c);
    }
}

/// Each match of the list is the match at its place, and its place was
/// looked at.
pub proof fn lemma_listed_is_candidate(
    orig: Seq<Seq<char>>,
    hunk: Seq<Seq<char>>,
    search_from: nat,
    tier: MatchTier,
    n: nat,
)
    ensures
        forall|i: int|
            0 <= i < candidates_upto(orig, hunk, search_from, tier, n).len() ==> {
                let c = #[trigger] candidates_upto(orig, hunk, search_from, tier, n)[i];
                search_from <= c.idx < search_from + n && candidate_at(orig, hunk, c.idx, tier)
                    == Some(c)
            },
    decreases n,
{
    if n > 0 {
        lemma_listed_is_candidate(orig, hunk, search_from, tier, (n - 1) as nat);
    }
}

/// A strict hunk is reported strict: where the old side of a hunk stands in
/// the file, character for character, at or behind the line from which it is
/// looked for, the hunk is found, its tier is `Strict`, and the place that it
/// is put at is one where it matches strictly — also where a looser match
/// lies nearer.
pub proof fn lemma_strict_hunk_is_strict(
    orig: Seq<Seq<char>>,
    hunk: Seq<Seq<char>>,
    search_from: nat,
    at: nat,
)
    requires
        stands_at(orig, hunk, at),
        search_from <= at,
    ensures
        hunk_bounds(orig, hunk, search_from) is Ok,
        ({
            let b = hunk_bounds(orig, hunk, search_from)->Ok_0;
            &&& b.tier == Some(MatchTier::Strict)
            &&& search_from < b.old_start <= orig.len() + 1
            &&& candidate_at(orig, hunk, (b.old_start - 1) as nat, MatchTier::Strict) is Some
        }),
{
    if all_additions(hunk) {
        lemma_additions_have_no_old_side(hunk, hunk.len());
    }
    lemma_strict_walk(orig, hunk, at, hunk.len());
    assert(candidate_at(orig, hunk, at, MatchTier::Strict) is Some);
    let n = (orig.len() - search_from + 1) as nat;
    lemma_candidate_listed(orig, hunk, search_from, MatchTier::Strict, n, at);
    let strict = candidates(orig, hunk, search_from, MatchTier::Strict);
    assert(strict.len() > 0);
    assert(first_tier_candidates(orig, hunk, search_from) == strict);
    lemma_best_upto(strict, search_from, strict.len());
    lemma_listed_is_candidate(orig, hunk, search_from, MatchTier::Strict, n);
    lemma_candidates_tier(orig, hunk, search_from, MatchTier::Strict, n);
    let best = strict[best_of(strict, search_from)];
    assert(candidate_at(orig, hunk, best.idx, MatchTier::Strict) == Some(best));
}

/// The completer within a patch of one hunk: it has written nothing, and
/// holds the lines of the hunk read so far.
proof fn lemma_single_hunk(orig: Seq<Seq<char>>, patch: Seq<Seq<char>>, j: nat)
    requires
        is_hunk_header(patch[0]),
        forall|i: int| 1 <= i < patch.len() ==> !is_hunk_header(#[trigger] patch[i]),
        1 <= j <= patch.len(),
    ensures
        completer_after(orig, patch, j) == Ok::<CompleterView, crate::error::ErrorView>(
            CompleterView {
                out: Seq::empty(),
                total_delta: 0,
                search_from: 0,
                max_tier: None,
                pending: Some(patch.subrange(1, j as int)),
            },
        ),
    decreases j,
{
    if j == 1 {
        assert(completer_after(orig, patch, 0) == Ok::<CompleterView, crate::error::ErrorView>(
            CompleterView::start(),
        ));
        assert(patch.subrange(1, 1) =~= Seq::<Seq<char>>::empty());
    } else {
        lemma_single_hunk(orig, patch, (j - 1) as nat);
        assert(patch.subrange(1, j - 1).push(patch[j - 1]) =~= patch.subrange(1, j as int));
    }
}

/// A strict patch is reported strict: let a patch be a header and one hunk
/// behind it, and let the old side of the hunk stand in the file, character
/// for character. Then the completion succeeds, it reports the tier `Strict`,
/// and it is the exact header and body of that hunk at a place where the hunk
/// matches strictly.
pub proof fn lemma_strict_patch_is_strict(original: Seq<char>, patch_text: Seq<char>, at: nat)
    requires
        ({
            let patch = lines(replace_crlf(patch_text));
            &&& patch.len() >= 1
            &&& is_hunk_header(patch[0])
            &&& forall|i: int| 1 <= i < patch.len() ==> !is_hunk_header(#[trigger] patch[i])
            &&& stands_at(lines(replace_crlf(original)), patch.skip(1), at)
        }),
    ensures
        completed(original, patch_text) is Ok,
        completed(original, patch_text)->Ok_0.1 == Some(MatchTier::Strict),
        ({
            let orig = lines(replace_crlf(original));
            let hunk = lines(replace_crlf(patch_text)).skip(1);
            let b = hunk_bounds(orig, hunk, 0)->Ok_0;
            &&& hunk_bounds(orig, hunk, 0) is Ok
            &&& candidate_at(orig, hunk, (b.old_start - 1) as nat, MatchTier::Strict) is Some
            &&& completed(original, patch_text)->Ok_0.0 == header_text(b, b.old_start as int)
                + body_text(b.final_hunk_lines, b.final_hunk_lines.len())
        }),
{
    let orig = lines(replace_crlf(original));
    let patch = lines(replace_crlf(patch_text));
    let hunk = patch.skip(1);
    lemma_single_hunk(orig, patch, patch.len());
    assert(patch.subrange(1, patch.len() as int) =~= hunk);
    lemma_strict_hunk_is_strict(orig, hunk, 0, at);
    let b = hunk_bounds(orig, hunk, 0)->Ok_0;
    let st = completer_after(orig, patch, patch.len())->Ok_0;
    assert(st.flushed(orig) == Ok::<CompleterView, crate::error::ErrorView>(st.after_hunk(b)));
    assert(Seq::<char>::empty() + header_text(b, b.old_start as int + 0) + body_text(
        b.final_hunk_lines,
        b.final_hunk_lines.len(),
    ) =~= header_text(b, b.old_start as int) + body_text(
        b.final_hunk_lines,
        b.final_hunk_lines.len(),
    ));
}

} // verus!

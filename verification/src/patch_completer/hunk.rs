//! One hunk: the choice of its place in the file, and its exact form.

use crate::error::{Error, ErrorView};
use crate::patch_completer::matching::MatchTier;
use crate::patch_completer::search::{
    candidate_views, candidates, fate_views, is_addition, is_removal, search_candidates_for_tier,
    CandidateMatch, CandidateView, FateView, LineFate,
};
use crate::text::{
    append_chars, chars_of, copy_chars, copy_lines, decimal, line_count, slice_chars, string_of,
    string_texts, texts, wide_decimal_chars,
};
use vstd::prelude::*;

verus! {

/// Where a hunk stands in the file, and its exact lines.
#[derive(Debug)]
pub struct HunkBounds {
    /// The first line of the file that the hunk covers, counted from 1.
    pub old_start: usize,
    /// How many lines of the file the hunk covers.
    pub old_count: usize,
    /// How many lines stand in their place once the hunk is applied.
    pub new_count: usize,
    /// The lines of the hunk, context and removals as the file has them.
    pub final_hunk_lines: Vec<Vec<char>>,
    /// The tier at which the hunk was matched; none for a hunk of additions.
    pub tier: Option<MatchTier>,
}

/// What a `HunkBounds` stands for.
pub struct HunkBoundsView {
    pub old_start: nat,
    pub old_count: nat,
    pub new_count: nat,
    pub final_hunk_lines: Seq<Seq<char>>,
    pub tier: Option<MatchTier>,
}

impl View for HunkBounds {
    type V = HunkBoundsView;

    open spec fn view(&self) -> HunkBoundsView {
        HunkBoundsView {
            old_start: self.old_start as nat,
            old_count: self.old_count as nat,
            new_count: self.new_count as nat,
            final_hunk_lines: texts(self.final_hunk_lines@),
            tier: self.tier,
        }
    }
}

// ---------------------------------------------------------------------------
// The choice among the matches
// ---------------------------------------------------------------------------

/// How far a match stands from where the hunk is expected.
pub open spec fn distance(c: CandidateView, search_from: nat) -> nat {
    if c.idx >= search_from {
        (c.idx - search_from) as nat
    } else {
        (search_from - c.idx) as nat
    }
}

/// The score of a match: how many of its lines are exactly those of the
/// hunk, and then the negative of its distance. The higher score is better.
pub open spec fn score(c: CandidateView, search_from: nat) -> (nat, int) {
    (c.exact_ws_count, -(distance(c, search_from) as int))
}

/// Whether the score `a` is at least the score `b`: more exact lines, or as
/// many and not farther away.
pub open spec fn score_ge(a: (nat, int), b: (nat, int)) -> bool {
    a.0 > b.0 || (a.0 == b.0 && a.1 >= b.1)
}

/// Whether the score `a` is higher than the score `b`: more exact lines, or as
/// many and nearer.
pub open spec fn score_gt(a: (nat, int), b: (nat, int)) -> bool {
    a.0 > b.0 || (a.0 == b.0 && a.1 > b.1)
}

/// The place, among the first `k` matches, of the one with the highest score;
/// of two with the same score, the earlier.
pub open spec fn best_upto(cands: Seq<CandidateView>, search_from: nat, k: nat) -> int
    decreases k,
{
    if k <= 1 {
        0
    } else {
        let b = best_upto(cands, search_from, (k - 1) as nat);
        if score_gt(score(cands[k - 1], search_from), score(cands[b], search_from)) {
            k - 1
        } else {
            b
        }
    }
}

/// The place of the best match in a list that is not empty.
pub open spec fn best_of(cands: Seq<CandidateView>, search_from: nat) -> int {
    best_upto(cands, search_from, cands.len())
}

/// The best match is one of the list, none has a higher score, and none
/// before it has the same.
pub proof fn lemma_best_upto(cands: Seq<CandidateView>, search_from: nat, k: nat)
    requires
        1 <= k <= cands.len(),
    ensures
        0 <= best_upto(cands, search_from, k) < k,
        forall|i: int|
            0 <= i < k ==> score_ge(
                score(cands[best_upto(cands, search_from, k)], search_from),
                score(#[trigger] cands[i], search_from),
            ),
        forall|i: int|
            0 <= i < best_upto(cands, search_from, k) ==> score_gt(
                score(cands[best_upto(cands, search_from, k)], search_from),
                score(#[trigger] cands[i], search_from),
            ),
    decreases k,
{
    if k > 1 {
        lemma_best_upto(cands, search_from, (k - 1) as nat);
    }
}

/// The score of `candidate`, for a hunk expected at `search_from`.
pub fn score_candidate(candidate: &CandidateMatch, search_from: usize) -> (r: (usize, i128))
    ensures
        (r.0 as nat, r.1 as int) == score(candidate@, search_from as nat),
{
    let distance = if candidate.idx >= search_from {
        candidate.idx - search_from
    } else {
        search_from - candidate.idx
    };
    (candidate.exact_ws_count, -(distance as i128))
}

fn best_index(cands: &Vec<CandidateMatch>, search_from: usize) -> (r: usize)
    requires
        cands.len() >= 1,
    ensures
        r == best_of(candidate_views(cands@), search_from as nat),
        r < cands.len(),
{
    let ghost cv = candidate_views(cands@);
    let mut best: usize = 0;
    let mut k: usize = 1;
    while k < cands.len()
        invariant
            1 <= k <= cands.len(),
            best < k,
            cv == candidate_views(cands@),
            best == best_upto(cv, search_from as nat, k as nat),
        decreases cands.len() - k,
    {
        assert(cv[k as int] == cands@[k as int]@);
        assert(cv[best as int] == cands@[best as int]@);
        let a = score_candidate(&cands[k], search_from);
        let b = score_candidate(&cands[best], search_from);
        if a.0 > b.0 || (a.0 == b.0 && a.1 > b.1) {
            best = k;
        }
        k += 1;
    }
    best
}

// ---------------------------------------------------------------------------
// The exact lines
// ---------------------------------------------------------------------------

/// The lines of a hunk rebuilt, and how many lines stand there afterwards.
pub struct RebuiltView {
    pub lines: Seq<Seq<char>>,
    pub new_count: nat,
}

/// The first `k` lines of a hunk rebuilt from their fates: an addition stays;
/// a matched line has the text of the file behind ` ` or, for a removal, `-`;
/// a converted line is `+`; overhang is left out. Every line but a removal
/// counts as a line afterwards.
pub open spec fn rebuilt(hunk: Seq<Seq<char>>, fates: Seq<FateView>, k: nat) -> RebuiltView
    decreases k,
{
    if k == 0 {
        RebuiltView { lines: Seq::empty(), new_count: 0 }
    } else {
        let before = rebuilt(hunk, fates, (k - 1) as nat);
        match fates[k - 1] {
            FateView::Addition => RebuiltView {
                lines: before.lines.push(hunk[k - 1]),
                new_count: before.new_count + 1,
            },
            FateView::Matched { text, .. } => if is_removal(hunk[k - 1]) {
                RebuiltView { lines: before.lines.push(seq!['-'] + text), new_count: before.new_count }
            } else {
                RebuiltView {
                    lines: before.lines.push(seq![' '] + text),
                    new_count: before.new_count + 1,
                }
            },
            FateView::Converted => RebuiltView {
                lines: before.lines.push(seq!['+']),
                new_count: before.new_count + 1,
            },
            FateView::Overhang => before,
        }
    }
}

fn rebuild(hunk_lines: &Vec<Vec<char>>, fates: &Vec<LineFate>) -> (r: (Vec<Vec<char>>, usize))
    requires
        fates.len() == hunk_lines.len(),
    ensures
        texts(r.0@) == rebuilt(
            texts(hunk_lines@),
            fate_views(fates@),
            hunk_lines.len() as nat,
        ).lines,
        r.1 == rebuilt(texts(hunk_lines@), fate_views(fates@), hunk_lines.len() as nat).new_count,
        r.1 <= hunk_lines.len(),
{
    let ghost hunk = texts(hunk_lines@);
    let ghost fv = fate_views(fates@);
    let mut out: Vec<Vec<char>> = Vec::new();
    let mut new_count: usize = 0;
    let mut k: usize = 0;
    assert(texts(out@) =~= Seq::<Seq<char>>::empty());
    while k < hunk_lines.len()
        invariant
            k <= hunk_lines.len(),
            fates.len() == hunk_lines.len(),
            hunk == texts(hunk_lines@),
            fv == fate_views(fates@),
            new_count <= k,
            texts(out@) == rebuilt(hunk, fv, k as nat).lines,
            new_count == rebuilt(hunk, fv, k as nat).new_count,
        decreases hunk_lines.len() - k,
    {
        let line = &hunk_lines[k];
        assert(hunk[k as int] == line@);
        assert(fv[k as int] == fates@[k as int]@);
        let ghost before = texts(out@);
        match &fates[k] {
            LineFate::Addition => {
                out.push(copy_chars(line));
                assert(texts(out@) =~= before.push(line@));
                new_count += 1;
            },
            LineFate::Matched { text, .. } => {
                let removal = line.len() > 0 && line[0] == '-';
                let mut rebuilt_line: Vec<char> = Vec::new();
                if removal {
                    rebuilt_line.push('-');
                } else {
                    rebuilt_line.push(' ');
                    new_count += 1;
                }
                append_chars(&mut rebuilt_line, text);
                let ghost rl = rebuilt_line@;
                assert(rl =~= seq![if removal {
                    '-'
                } else {
                    ' '
                }] + text@);
                out.push(rebuilt_line);
                assert(texts(out@) =~= before.push(rl));
            },
            LineFate::Converted => {
                let mut plus: Vec<char> = Vec::new();
                plus.push('+');
                assert(plus@ =~= seq!['+']);
                out.push(plus);
                assert(texts(out@) =~= before.push(seq!['+']));
                new_count += 1;
            },
            LineFate::Overhang => {},
        }
        k += 1;
    }
    (out, new_count)
}

// ---------------------------------------------------------------------------
// The bounds of a hunk
// ---------------------------------------------------------------------------

/// Whether every line of a hunk is an addition.
pub open spec fn all_additions(hunk: Seq<Seq<char>>) -> bool {
    forall|i: int| 0 <= i < hunk.len() ==> is_addition(#[trigger] hunk[i])
}

/// Whether a line of a hunk begins with ` ` or `-`.
pub open spec fn is_marked_context(line: Seq<char>) -> bool {
    line.len() > 0 && (line[0] == ' ' || line[0] == '-')
}

/// The context of the first `k` lines of a hunk, for a report: its lines that
/// begin with ` ` or `-`, without that character.
pub open spec fn context_pattern(hunk: Seq<Seq<char>>, k: nat) -> Seq<Seq<char>>
    decreases k,
{
    if k == 0 {
        Seq::empty()
    } else {
        let before = context_pattern(hunk, (k - 1) as nat);
        if is_marked_context(hunk[k - 1]) {
            before.push(hunk[k - 1].skip(1))
        } else {
            before
        }
    }
}

/// Why no place was found.
pub open spec fn not_found_reason(search_from: nat) -> Seq<char> {
    "Could not find patch context in original file (starting search from line "@ + decimal(
        search_from + 1,
    ) + ")"@
}

/// The matches of the first tier that has any: `Strict`, then `Resilient`,
/// then `Fuzzy`.
pub open spec fn first_tier_candidates(
    orig: Seq<Seq<char>>,
    hunk: Seq<Seq<char>>,
    search_from: nat,
) -> Seq<CandidateView> {
    let strict = candidates(orig, hunk, search_from, MatchTier::Strict);
    if strict.len() > 0 {
        strict
    } else {
        let resilient = candidates(orig, hunk, search_from, MatchTier::Resilient);
        if resilient.len() > 0 {
            resilient
        } else {
            candidates(orig, hunk, search_from, MatchTier::Fuzzy)
        }
    }
}

/// The bounds of a hunk in a file, the search for it beginning at line
/// `search_from`, counted from 0.
///
/// A hunk of additions alone is put behind the last line of the file. Any
/// other is put at its best match of the first tier that has a match, and
/// an error says so where no tier has one.
pub open spec fn hunk_bounds(
    orig: Seq<Seq<char>>,
    hunk: Seq<Seq<char>>,
    search_from: nat,
) -> Result<HunkBoundsView, ErrorView> {
    if all_additions(hunk) {
        Ok(
            HunkBoundsView {
                old_start: orig.len() + 1,
                old_count: 0,
                new_count: hunk.len(),
                final_hunk_lines: hunk,
                tier: None,
            },
        )
    } else {
        let cands = first_tier_candidates(orig, hunk, search_from);
        if cands.len() == 0 {
            Err(
                ErrorView::PatchCompletion {
                    reason: not_found_reason(search_from),
                    context_pattern: context_pattern(hunk, hunk.len()),
                },
            )
        } else {
            let best = cands[best_of(cands, search_from)];
            let r = rebuilt(hunk, best.fates, hunk.len());
            Ok(
                HunkBoundsView {
                    old_start: best.idx + 1,
                    old_count: best.matched_count,
                    new_count: r.new_count,
                    final_hunk_lines: r.lines,
                    tier: Some(best.tier),
                },
            )
        }
    }
}

fn has_only_additions(hunk_lines: &Vec<Vec<char>>) -> (r: bool)
    ensures
        r == all_additions(texts(hunk_lines@)),
{
    let ghost hunk = texts(hunk_lines@);
    let mut i: usize = 0;
    while i < hunk_lines.len()
        invariant
            i <= hunk_lines.len(),
            hunk == texts(hunk_lines@),
            forall|j: int| 0 <= j < i ==> is_addition(#[trigger] hunk[j]),
        decreases hunk_lines.len() - i,
    {
        assert(hunk[i as int] == hunk_lines@[i as int]@);
        if !(hunk_lines[i].len() > 0 && hunk_lines[i][0] == '+') {
            return false;
        }
        i += 1;
    }
    true
}

fn context_pattern_of(hunk_lines: &Vec<Vec<char>>) -> (r: Vec<String>)
    ensures
        string_texts(r@) == context_pattern(texts(hunk_lines@), hunk_lines.len() as nat),
{
    let ghost hunk = texts(hunk_lines@);
    let mut out: Vec<String> = Vec::new();
    let mut k: usize = 0;
    assert(string_texts(out@) =~= Seq::<Seq<char>>::empty());
    while k < hunk_lines.len()
        invariant
            k <= hunk_lines.len(),
            hunk == texts(hunk_lines@),
            string_texts(out@) == context_pattern(hunk, k as nat),
        decreases hunk_lines.len() - k,
    {
        let line = &hunk_lines[k];
        assert(hunk[k as int] == line@);
        if line.len() > 0 && (line[0] == ' ' || line[0] == '-') {
            let ghost before = string_texts(out@);
            let body = slice_chars(line, 1, line.len());
            assert(body@ == line@.skip(1));
            out.push(string_of(&body));
            assert(string_texts(out@) =~= before.push(line@.skip(1)));
        }
        k += 1;
    }
    out
}

fn first_tier_search(
    orig_lines: &Vec<Vec<char>>,
    hunk_lines: &Vec<Vec<char>>,
    search_from: usize,
) -> (r: Vec<CandidateMatch>)
    ensures
        candidate_views(r@) == first_tier_candidates(
            texts(orig_lines@),
            texts(hunk_lines@),
            search_from as nat,
        ),
        forall|i: int|
            0 <= i < r.len() ==> search_from <= (#[trigger] r@[i]).idx && r@[i].idx
                + r@[i].matched_count <= orig_lines.len() && r@[i].fates.len()
                == hunk_lines.len() && r@[i].matched_count <= hunk_lines.len(),
{
    let strict = search_candidates_for_tier(orig_lines, hunk_lines, search_from, MatchTier::Strict);
    assert(candidate_views(strict@).len() == strict.len());
    if strict.len() > 0 {
        return strict;
    }
    let resilient = search_candidates_for_tier(
        orig_lines,
        hunk_lines,
        search_from,
        MatchTier::Resilient,
    );
    assert(candidate_views(resilient@).len() == resilient.len());
    if resilient.len() > 0 {
        return resilient;
    }
    search_candidates_for_tier(orig_lines, hunk_lines, search_from, MatchTier::Fuzzy)
}

/// What the outcome of the search for a hunk stands for.
pub open spec fn bounds_result_view(r: Result<HunkBounds, Error>) -> Result<
    HunkBoundsView,
    ErrorView,
> {
    match r {
        Ok(b) => Ok(b@),
        Err(e) => Err(e@),
    }
}

/// Finds the place of a hunk in the file and gives its exact form.
pub fn compute_hunk_bounds(
    orig_lines: &Vec<Vec<char>>,
    hunk_lines: &Vec<Vec<char>>,
    search_from: usize,
) -> (r: Result<HunkBounds, Error>)
    ensures
        bounds_result_view(r) == hunk_bounds(
            texts(orig_lines@),
            texts(hunk_lines@),
            search_from as nat,
        ),
        r matches Ok(b) ==> b.old_start >= 1 && b.old_start + b.old_count <= orig_lines.len() + 1
            && b.new_count <= hunk_lines.len() && b.old_count <= hunk_lines.len() && (search_from
            <= orig_lines.len() ==> search_from < b.old_start),
{
    let len = line_count(orig_lines);
    if has_only_additions(hunk_lines) {
        return Ok(
            HunkBounds {
                old_start: len + 1,
                old_count: 0,
                new_count: hunk_lines.len(),
                final_hunk_lines: copy_lines(hunk_lines),
                tier: None,
            },
        );
    }
    let cands = first_tier_search(orig_lines, hunk_lines, search_from);
    assert(candidate_views(cands@).len() == cands.len());
    if cands.len() == 0 {
        let mut reason = chars_of(
            "Could not find patch context in original file (starting search from line ",
        );
        append_chars(&mut reason, &wide_decimal_chars(search_from as u128 + 1));
        append_chars(&mut reason, &chars_of(")"));
        let reason = string_of(&reason);
        return Err(Error::PatchCompletion { reason, context_pattern: context_pattern_of(hunk_lines) });
    }
    let best = &cands[best_index(&cands, search_from)];
    assert(candidate_views(cands@)[best_of(candidate_views(cands@), search_from as nat)] == best@);
    let (final_hunk_lines, new_count) = rebuild(hunk_lines, &best.fates);
    Ok(
        HunkBounds {
            old_start: best.idx + 1,
            old_count: best.matched_count,
            new_count,
            final_hunk_lines,
            tier: Some(best.tier),
        },
    )
}

} // verus!

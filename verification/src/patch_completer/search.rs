//! Looking for the place of a hunk in a file: at each line of the file the
//! lines of the hunk are walked through, and each gets its fate.

use crate::patch_completer::matching::{line_matches, line_matches_at, MatchTier};
use crate::text::{chars_eq, copy_chars, is_blank, is_blank_chars, line_count, slice_chars, texts};
use vstd::prelude::*;

verus! {

/// The farthest that a match at a looser tier may stand from where the hunk
/// is expected, in lines.
pub const MAX_PROXIMITY_FOR_LENIENT: usize = 100;

/// What becomes of one line of a hunk at one place of the file.
#[derive(Debug)]
pub enum LineFate {
    /// A `+` line: it is kept as it is.
    Addition,
    /// A context or removal line that matched a line of the file, whose text is
    /// given; `exact` where the two were equal and not blank.
    Matched { text: Vec<char>, exact: bool },
    /// A blank context line where the file has no blank line: it becomes an
    /// addition of an empty line.
    Converted,
    /// A context line beyond the end of the file: it is dropped.
    Overhang,
}

/// What a `LineFate` stands for.
pub enum FateView {
    Addition,
    Matched { text: Seq<char>, exact: bool },
    Converted,
    Overhang,
}

impl View for LineFate {
    type V = FateView;

    open spec fn view(&self) -> FateView {
        match *self {
            LineFate::Addition => FateView::Addition,
            LineFate::Matched { text, exact } => FateView::Matched { text: text@, exact },
            LineFate::Converted => FateView::Converted,
            LineFate::Overhang => FateView::Overhang,
        }
    }
}

/// The views of a list of fates.
pub open spec fn fate_views(v: Seq<LineFate>) -> Seq<FateView> {
    v.map_values(|f: LineFate| f@)
}

/// Whether a line of a hunk adds a line.
pub open spec fn is_addition(line: Seq<char>) -> bool {
    line.len() > 0 && line[0] == '+'
}

/// Whether a line of a hunk removes a line.
pub open spec fn is_removal(line: Seq<char>) -> bool {
    line.len() > 0 && line[0] == '-'
}

/// A line of a hunk without the character that it begins with.
pub open spec fn body_of(line: Seq<char>) -> Seq<char> {
    if line.len() > 1 {
        line.skip(1)
    } else {
        Seq::empty()
    }
}

/// The walk through the lines of a hunk, so far.
pub struct WalkView {
    /// The fate of each line walked through.
    pub fates: Seq<FateView>,
    /// How many lines of the file have been matched.
    pub offset: nat,
    /// How many of them were equal to their line of the hunk, and not blank.
    pub exact: nat,
    /// How many of them were matched by a line of the hunk that is not blank.
    pub significant: nat,
    /// How many context lines stood beyond the end of the file.
    pub overhang: nat,
}

/// The walk after one more line of the hunk, against line `target` of the
/// file, or `None` where the line does not fit there:
/// - an addition is passed over;
/// - a blank line matches a blank line of the file, and is converted to an
///   addition where the file has another line there, or none;
/// - any other line must match the line of the file at the tier, and if the
///   file has ended it must be context, which is then overhang.
pub open spec fn walk_step(
    orig: Seq<Seq<char>>,
    line: Seq<char>,
    w: WalkView,
    target: int,
    tier: MatchTier,
) -> Option<WalkView> {
    if is_addition(line) {
        Some(WalkView { fates: w.fates.push(FateView::Addition), ..w })
    } else {
        let body = body_of(line);
        let significant = if is_blank(line) {
            0nat
        } else {
            1nat
        };
        if is_blank(body) {
            if target < orig.len() && is_blank(orig[target]) {
                Some(
                    WalkView {
                        fates: w.fates.push(FateView::Matched { text: orig[target], exact: false }),
                        offset: w.offset + 1,
                        significant: w.significant + significant,
                        ..w
                    },
                )
            } else {
                Some(WalkView { fates: w.fates.push(FateView::Converted), ..w })
            }
        } else if target < orig.len() {
            if line_matches_at(orig[target], body, tier) {
                let exact = orig[target] == body;
                Some(
                    WalkView {
                        fates: w.fates.push(FateView::Matched { text: orig[target], exact }),
                        offset: w.offset + 1,
                        exact: w.exact + if exact {
                            1nat
                        } else {
                            0nat
                        },
                        significant: w.significant + significant,
                        ..w
                    },
                )
            } else {
                None
            }
        } else if is_removal(line) {
            None
        } else {
            Some(
                WalkView {
                    fates: w.fates.push(FateView::Overhang),
                    overhang: w.overhang + 1,
                    ..w
                },
            )
        }
    }
}

/// The walk through the first `k` lines of a hunk, laid on the file at line
/// `at` (counted from 0), or `None` where one of them does not fit.
pub open spec fn walk(
    orig: Seq<Seq<char>>,
    hunk: Seq<Seq<char>>,
    at: nat,
    tier: MatchTier,
    k: nat,
) -> Option<WalkView>
    decreases k,
{
    if k == 0 {
        Some(WalkView { fates: Seq::empty(), offset: 0, exact: 0, significant: 0, overhang: 0 })
    } else {
        match walk(orig, hunk, at, tier, (k - 1) as nat) {
            None => None,
            Some(w) => walk_step(orig, hunk[k - 1], w, (at + w.offset) as int, tier),
        }
    }
}

/// Whether a finished walk counts as a match: a line that is not blank has
/// matched, and where context stood beyond the end of the file, at least two
/// such lines have, and more of them than stood beyond.
pub open spec fn is_accepted(w: WalkView) -> bool {
    w.significant >= 1 && (w.overhang == 0 || (w.significant >= 2 && w.overhang < w.significant))
}

/// A place of the file where a hunk fits.
#[derive(Debug)]
pub struct CandidateMatch {
    pub idx: usize,
    pub tier: MatchTier,
    pub fates: Vec<LineFate>,
    pub matched_count: usize,
    pub exact_ws_count: usize,
}

/// What a `CandidateMatch` stands for.
pub struct CandidateView {
    /// The line of the file, counted from 0, where the hunk begins.
    pub idx: nat,
    pub tier: MatchTier,
    /// The fate of each line of the hunk.
    pub fates: Seq<FateView>,
    /// How many lines of the file the hunk covers.
    pub matched_count: nat,
    /// How many of them are equal to their line of the hunk, and not blank.
    pub exact_ws_count: nat,
}

impl View for CandidateMatch {
    type V = CandidateView;

    open spec fn view(&self) -> CandidateView {
        CandidateView {
            idx: self.idx as nat,
            tier: self.tier,
            fates: fate_views(self.fates@),
            matched_count: self.matched_count as nat,
            exact_ws_count: self.exact_ws_count as nat,
        }
    }
}

/// The views of a list of candidates.
pub open spec fn candidate_views(v: Seq<CandidateMatch>) -> Seq<CandidateView> {
    v.map_values(|c: CandidateMatch| c@)
}

/// The match of a hunk at line `at` of the file, if it fits there.
pub open spec fn candidate_at(
    orig: Seq<Seq<char>>,
    hunk: Seq<Seq<char>>,
    at: nat,
    tier: MatchTier,
) -> Option<CandidateView> {
    match walk(orig, hunk, at, tier, hunk.len()) {
        Some(w) => if is_accepted(w) {
            Some(
                CandidateView {
                    idx: at,
                    tier,
                    fates: w.fates,
                    matched_count: w.offset,
                    exact_ws_count: w.exact,
                },
            )
        } else {
            None
        },
        None => None,
    }
}

/// Whether a place is looked at: at the looser tiers, only the places within
/// 100 lines of `search_from`.
pub open spec fn in_reach(at: nat, search_from: nat, tier: MatchTier) -> bool {
    tier == MatchTier::Strict || at - search_from <= MAX_PROXIMITY_FOR_LENIENT
}

/// The matches among the first `n` places from `search_from` on, in the order
/// of the file.
pub open spec fn candidates_upto(
    orig: Seq<Seq<char>>,
    hunk: Seq<Seq<char>>,
    search_from: nat,
    tier: MatchTier,
    n: nat,
) -> Seq<CandidateView>
    decreases n,
{
    if n == 0 {
        Seq::empty()
    } else {
        let before = candidates_upto(orig, hunk, search_from, tier, (n - 1) as nat);
        let at = (search_from + n - 1) as nat;
        if in_reach(at, search_from, tier) {
            match candidate_at(orig, hunk, at, tier) {
                Some(c) => before.push(c),
                None => before,
            }
        } else {
            before
        }
    }
}

/// The matches of a hunk at a tier: every place from `search_from` to the end
/// of the file, the place just behind the last line included, is tried.
pub open spec fn candidates(
    orig: Seq<Seq<char>>,
    hunk: Seq<Seq<char>>,
    search_from: nat,
    tier: MatchTier,
) -> Seq<CandidateView> {
    if search_from > orig.len() {
        Seq::empty()
    } else {
        candidates_upto(orig, hunk, search_from, tier, (orig.len() - search_from + 1) as nat)
    }
}

/// What the walk has counted, while it runs.
struct WalkCounts {
    offset: usize,
    exact: usize,
    significant: usize,
    overhang: usize,
}

fn walk_exec(
    orig_lines: &Vec<Vec<char>>,
    hunk_lines: &Vec<Vec<char>>,
    at: usize,
    tier: MatchTier,
) -> (r: Option<(Vec<LineFate>, WalkCounts)>)
    requires
        at <= orig_lines.len(),
    ensures
        match r {
            Some((fates, c)) => walk(
                texts(orig_lines@),
                texts(hunk_lines@),
                at as nat,
                tier,
                hunk_lines.len() as nat,
            ) == Some(
                WalkView {
                    fates: fate_views(fates@),
                    offset: c.offset as nat,
                    exact: c.exact as nat,
                    significant: c.significant as nat,
                    overhang: c.overhang as nat,
                },
            ) && at + c.offset <= orig_lines.len() && fates.len() == hunk_lines.len()
                && c.offset <= hunk_lines.len(),
            None => walk(
                texts(orig_lines@),
                texts(hunk_lines@),
                at as nat,
                tier,
                hunk_lines.len() as nat,
            ) is None,
        },
{
    let ghost orig = texts(orig_lines@);
    let ghost hunk = texts(hunk_lines@);
    let len = line_count(orig_lines);
    let mut fates: Vec<LineFate> = Vec::new();
    let mut c = WalkCounts { offset: 0, exact: 0, significant: 0, overhang: 0 };
    let mut k: usize = 0;
    assert(fate_views(fates@) =~= Seq::<FateView>::empty());
    while k < hunk_lines.len()
        invariant
            k <= hunk_lines.len(),
            len == orig_lines.len(),
            orig == texts(orig_lines@),
            hunk == texts(hunk_lines@),
            at + c.offset <= len,
            fates.len() == k,
            c.offset <= k,
            c.exact <= k,
            c.significant <= k,
            c.overhang <= k,
            walk(orig, hunk, at as nat, tier, k as nat) == Some(
                WalkView {
                    fates: fate_views(fates@),
                    offset: c.offset as nat,
                    exact: c.exact as nat,
                    significant: c.significant as nat,
                    overhang: c.overhang as nat,
                },
            ),
        decreases hunk_lines.len() - k,
    {
        let line = &hunk_lines[k];
        assert(hunk[k as int] == line@);
        let ghost before = fate_views(fates@);
        let target = at + c.offset;
        if target < len {
            assert(orig[target as int] == orig_lines@[target as int]@);
        }
        let mut fits = true;
        if line.len() > 0 && line[0] == '+' {
            fates.push(LineFate::Addition);
            assert(fate_views(fates@) =~= before.push(FateView::Addition));
        } else {
            let body = if line.len() > 1 {
                slice_chars(line, 1, line.len())
            } else {
                Vec::new()
            };
            assert(body@ =~= body_of(line@));
            let significant: usize = if is_blank_chars(line) {
                0
            } else {
                1
            };
            if is_blank_chars(&body) {
                if target < len && is_blank_chars(&orig_lines[target]) {
                    let text = copy_chars(&orig_lines[target]);
                    fates.push(LineFate::Matched { text, exact: false });
                    assert(fate_views(fates@) =~= before.push(
                        FateView::Matched { text: orig[target as int], exact: false },
                    ));
                    c.offset = c.offset + 1;
                    c.significant = c.significant + significant;
                } else {
                    fates.push(LineFate::Converted);
                    assert(fate_views(fates@) =~= before.push(FateView::Converted));
                }
            } else if target < len {
                if line_matches(&orig_lines[target], &body, tier) {
                    let exact = chars_eq(&orig_lines[target], &body);
                    let text = copy_chars(&orig_lines[target]);
                    fates.push(LineFate::Matched { text, exact });
                    assert(fate_views(fates@) =~= before.push(
                        FateView::Matched { text: orig[target as int], exact },
                    ));
                    c.offset = c.offset + 1;
                    if exact {
                        c.exact = c.exact + 1;
                    }
                    c.significant = c.significant + significant;
                } else {
                    fits = false;
                }
            } else if line.len() > 0 && line[0] == '-' {
                fits = false;
            } else {
                fates.push(LineFate::Overhang);
                assert(fate_views(fates@) =~= before.push(FateView::Overhang));
                c.overhang = c.overhang + 1;
            }
        }
        if !fits {
            proof {
                assert(walk(orig, hunk, at as nat, tier, (k + 1) as nat) is None);
                lemma_walk_fails(orig, hunk, at as nat, tier, (k + 1) as nat);
            }
            return None;
        }
        k += 1;
    }
    Some((fates, c))
}

/// A walk that has failed stays failed.
pub proof fn lemma_walk_fails(
    orig: Seq<Seq<char>>,
    hunk: Seq<Seq<char>>,
    at: nat,
    tier: MatchTier,
    k: nat,
)
    requires
        k <= hunk.len(),
        walk(orig, hunk, at, tier, k) is None,
    ensures
        walk(orig, hunk, at, tier, hunk.len()) is None,
    decreases hunk.len() - k,
{
    if k < hunk.len() {
        lemma_walk_fails(orig, hunk, at, tier, k + 1);
    }
}

/// The places from `search_from` on where the hunk matches at `tier`.
pub fn search_candidates_for_tier(
    orig_lines: &Vec<Vec<char>>,
    hunk_lines: &Vec<Vec<char>>,
    search_from: usize,
    tier: MatchTier,
) -> (r: Vec<CandidateMatch>)
    ensures
        candidate_views(r@) == candidates(
            texts(orig_lines@),
            texts(hunk_lines@),
            search_from as nat,
            tier,
        ),
        forall|i: int|
            0 <= i < r.len() ==> search_from <= (#[trigger] r@[i]).idx && r@[i].idx
                + r@[i].matched_count <= orig_lines.len() && r@[i].fates.len()
                == hunk_lines.len() && r@[i].matched_count <= hunk_lines.len(),
{
    let ghost orig = texts(orig_lines@);
    let ghost hunk = texts(hunk_lines@);
    let len = line_count(orig_lines);
    let mut out: Vec<CandidateMatch> = Vec::new();
    assert(candidate_views(out@) =~= Seq::<CandidateView>::empty());
    if search_from > len {
        return out;
    }
    let mut at: usize = search_from;
    while at <= len
        invariant
            search_from <= at <= len + 1,
            len == orig_lines.len(),
            len < usize::MAX,
            orig == texts(orig_lines@),
            hunk == texts(hunk_lines@),
            candidate_views(out@) == candidates_upto(
                orig,
                hunk,
                search_from as nat,
                tier,
                (at - search_from) as nat,
            ),
            forall|i: int|
                0 <= i < out.len() ==> search_from <= (#[trigger] out@[i]).idx && out@[i].idx
                    + out@[i].matched_count <= len && out@[i].fates.len() == hunk_lines.len()
                    && out@[i].matched_count <= hunk_lines.len(),
        decreases len + 1 - at,
    {
        let ghost before = candidate_views(out@);
        let ghost n = (at - search_from + 1) as nat;
        assert((search_from + n - 1) as nat == at as nat);
        let reach = match tier {
            MatchTier::Strict => true,
            _ => at - search_from <= MAX_PROXIMITY_FOR_LENIENT,
        };
        if reach {
            match walk_exec(orig_lines, hunk_lines, at, tier) {
                Some((fates, c)) => {
                    if c.significant >= 1 && (c.overhang == 0 || (c.significant >= 2 && c.overhang
                        < c.significant)) {
                        let cand = CandidateMatch {
                            idx: at,
                            tier,
                            fates,
                            matched_count: c.offset,
                            exact_ws_count: c.exact,
                        };
                        let ghost cv = cand@;
                        out.push(cand);
                        assert(candidate_views(out@) =~= before.push(cv));
                    }
                },
                None => {},
            }
        }
        at += 1;
    }
    out
}

} // verus!

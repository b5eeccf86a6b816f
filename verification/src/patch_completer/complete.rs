//! Completing a whole patch, hunk by hunk.

use crate::error::{Error, ErrorView};
use crate::patch_completer::hunk::{compute_hunk_bounds, hunk_bounds, HunkBounds, HunkBoundsView};
use crate::patch_completer::matching::{loosest, MatchTier};
use crate::text::{
    append_chars, chars_of, copy_chars, decimal, decimal_chars, line_count, lines, lines_chars,
    replace_crlf, replace_crlf_chars, string_of, texts, trim, trim_chars, wide_decimal_chars,
};
use vstd::prelude::*;

verus! {

/// Whether a line of a patch begins a hunk: trimmed, it begins with `@@`.
pub open spec fn is_hunk_header(line: Seq<char>) -> bool {
    let t = trim(line);
    t.len() >= 2 && t[0] == '@' && t[1] == '@'
}

/// The start of the old range in the header of a hunk: the first line that
/// the hunk covers, and 0 for a hunk that covers none.
pub open spec fn header_old_start(b: HunkBoundsView) -> nat {
    if b.old_count == 0 {
        0
    } else {
        b.old_start
    }
}

/// The header of a completed hunk, with its line feed.
pub open spec fn header_text(b: HunkBoundsView, new_start: int) -> Seq<char> {
    "@@ -"@ + decimal(header_old_start(b)) + ","@ + decimal(b.old_count) + " +"@ + decimal(
        new_start as nat,
    ) + ","@ + decimal(b.new_count) + " @@\n"@
}

/// The first `k` lines of a completed hunk, each with its line feed; an empty
/// line is written as a single space.
pub open spec fn body_text(hunk_lines: Seq<Seq<char>>, k: nat) -> Seq<char>
    decreases k,
{
    if k == 0 {
        Seq::empty()
    } else {
        let line = hunk_lines[k - 1];
        body_text(hunk_lines, (k - 1) as nat) + (if line.len() == 0 {
            seq![' ']
        } else {
            line
        }) + seq!['\n']
    }
}

/// The completer between two lines of the patch.
pub struct CompleterView {
    /// The completed patch so far.
    pub out: Seq<char>,
    /// By how many lines the hunks so far make the file longer.
    pub total_delta: int,
    /// The line of the file, counted from 0, just behind the last hunk.
    pub search_from: nat,
    /// The loosest tier that a hunk so far was matched at.
    pub max_tier: Option<MatchTier>,
    /// The lines of the hunk that is being read, if one is.
    pub pending: Option<Seq<Seq<char>>>,
}

impl CompleterView {
    /// The completer before the first line.
    pub open spec fn start() -> CompleterView {
        CompleterView {
            out: Seq::empty(),
            total_delta: 0,
            search_from: 0,
            max_tier: None,
            pending: None,
        }
    }

    /// The completer after a hunk with the bounds `b` has been written: its
    /// new start is its old start moved by what the hunks before it added, and
    /// the next hunk is looked for behind it.
    pub open spec fn after_hunk(self, b: HunkBoundsView) -> CompleterView {
        CompleterView {
            out: self.out + header_text(b, b.old_start + self.total_delta) + body_text(
                b.final_hunk_lines,
                b.final_hunk_lines.len(),
            ),
            total_delta: self.total_delta + b.new_count - b.old_count,
            search_from: (b.old_start + b.old_count - 1) as nat,
            max_tier: loosest(self.max_tier, b.tier),
            pending: None,
        }
    }

    /// The completer after the hunk that was being read, if any, has been
    /// found in the file and written.
    pub open spec fn flushed(self, orig: Seq<Seq<char>>) -> Result<CompleterView, ErrorView> {
        match self.pending {
            None => Ok(self),
            Some(hunk) => match hunk_bounds(orig, hunk, self.search_from) {
                Err(e) => Err(e),
                Ok(b) => Ok(self.after_hunk(b)),
            },
        }
    }

    /// The completer after one more line of the patch: a header ends the hunk
    /// before it and begins one; any other line belongs to the hunk that is
    /// being read, or, before the first hunk, is copied.
    pub open spec fn after_line(self, orig: Seq<Seq<char>>, line: Seq<char>) -> Result<
        CompleterView,
        ErrorView,
    > {
        if is_hunk_header(line) {
            match self.flushed(orig) {
                Err(e) => Err(e),
                Ok(st) => Ok(CompleterView { pending: Some(Seq::empty()), ..st }),
            }
        } else {
            match self.pending {
                Some(hunk) => Ok(CompleterView { pending: Some(hunk.push(line)), ..self }),
                None => Ok(CompleterView { out: self.out + line + seq!['\n'], ..self }),
            }
        }
    }
}

/// The completer after the first `k` lines of a patch.
pub open spec fn completer_after(orig: Seq<Seq<char>>, patch: Seq<Seq<char>>, k: nat) -> Result<
    CompleterView,
    ErrorView,
>
    decreases k,
{
    if k == 0 {
        Ok(CompleterView::start())
    } else {
        match completer_after(orig, patch, (k - 1) as nat) {
            Err(e) => Err(e),
            Ok(st) => st.after_line(orig, patch[k - 1]),
        }
    }
}

/// The completed patch for a file, and the loosest tier at which one of its
/// hunks was matched.
///
/// In both texts a carriage return before a line feed is left out. Each hunk
/// of the patch is found in the file behind the hunk before it, and written
/// with an exact header and the file's own text for its context and removals.
/// The first hunk that is not found ends the completion with its error.
pub open spec fn completed(original: Seq<char>, patch: Seq<char>) -> Result<
    (Seq<char>, Option<MatchTier>),
    ErrorView,
> {
    let orig = lines(replace_crlf(original));
    let patch_lines = lines(replace_crlf(patch));
    match completer_after(orig, patch_lines, patch_lines.len()) {
        Err(e) => Err(e),
        Ok(st) => match st.flushed(orig) {
            Err(e) => Err(e),
            Ok(end) => Ok((end.out, end.max_tier)),
        },
    }
}

/// A failure at one line of the patch is the failure of the whole.
pub proof fn lemma_completer_fails(orig: Seq<Seq<char>>, patch: Seq<Seq<char>>, k: nat)
    requires
        k <= patch.len(),
        completer_after(orig, patch, k) is Err,
    ensures
        completer_after(orig, patch, patch.len()) == completer_after(orig, patch, k),
    decreases patch.len() - k,
{
    if k < patch.len() {
        lemma_completer_fails(orig, patch, k + 1);
    }
}

/// The completer, as it runs.
pub struct Completer {
    pub out: Vec<char>,
    pub total_delta: i128,
    pub search_from: usize,
    pub max_tier: Option<MatchTier>,
    pub pending: Option<Vec<Vec<char>>>,
}

impl View for Completer {
    type V = CompleterView;

    open spec fn view(&self) -> CompleterView {
        CompleterView {
            out: self.out@,
            total_delta: self.total_delta as int,
            search_from: self.search_from as nat,
            max_tier: self.max_tier,
            pending: match self.pending {
                Some(h) => Some(texts(h@)),
                None => None,
            },
        }
    }
}

impl Completer {
    /// What keeps the numbers within bounds: the search has not left the file,
    /// the new start of the next hunk is a line number, and the lines of the
    /// patch read so far, `k` of them, bound what the hunks have added or
    /// taken away.
    pub open spec fn fits(&self, len: nat, k: nat) -> bool {
        &&& self.search_from <= len
        &&& self.search_from + self.total_delta >= 0
        &&& k <= usize::MAX
        &&& match self.pending {
            Some(h) => -(k - h.len()) <= self.total_delta <= k - h.len() && h.len() <= k,
            None => -(k as int) <= self.total_delta <= k,
        }
    }
}

fn is_header_line(line: &Vec<char>) -> (r: bool)
    ensures
        r == is_hunk_header(line@),
{
    let t = trim_chars(line);
    t.len() >= 2 && t[0] == '@' && t[1] == '@'
}

fn write_body(out: &mut Vec<char>, hunk_lines: &Vec<Vec<char>>)
    ensures
        final(out)@ == old(out)@ + body_text(texts(hunk_lines@), hunk_lines.len() as nat),
{
    let ghost hl = texts(hunk_lines@);
    let mut k: usize = 0;
    assert(out@ =~= old(out)@ + body_text(hl, 0));
    while k < hunk_lines.len()
        invariant
            k <= hunk_lines.len(),
            hl == texts(hunk_lines@),
            out@ == old(out)@ + body_text(hl, k as nat),
        decreases hunk_lines.len() - k,
    {
        let line = &hunk_lines[k];
        assert(hl[k as int] == line@);
        let ghost before = out@;
        if line.len() == 0 {
            out.push(' ');
        } else {
            append_chars(out, line);
        }
        out.push('\n');
        assert(out@ =~= old(out)@ + (body_text(hl, k as nat) + (if line@.len() == 0 {
            seq![' ']
        } else {
            line@
        }) + seq!['\n']));
        k += 1;
    }
}

fn write_header(out: &mut Vec<char>, b: &HunkBounds, new_start: u128)
    ensures
        final(out)@ == old(out)@ + header_text(b@, new_start as int),
{
    let old_start = if b.old_count == 0 {
        0
    } else {
        b.old_start
    };
    let mut h = chars_of("@@ -");
    append_chars(&mut h, &decimal_chars(old_start));
    append_chars(&mut h, &chars_of(","));
    append_chars(&mut h, &decimal_chars(b.old_count));
    append_chars(&mut h, &chars_of(" +"));
    append_chars(&mut h, &wide_decimal_chars(new_start));
    append_chars(&mut h, &chars_of(","));
    append_chars(&mut h, &decimal_chars(b.new_count));
    append_chars(&mut h, &chars_of(" @@\n"));
    append_chars(out, &h);
}

fn flush(st: Completer, orig_lines: &Vec<Vec<char>>, Ghost(k): Ghost<nat>) -> (r: Result<
    Completer,
    Error,
>)
    requires
        st.fits(orig_lines.len() as nat, k),
    ensures
        match r {
            Ok(s) => st@.flushed(texts(orig_lines@)) == Ok::<CompleterView, ErrorView>(s@)
                && s.fits(orig_lines.len() as nat, k) && s.pending is None,
            Err(e) => st@.flushed(texts(orig_lines@)) == Err::<CompleterView, ErrorView>(e@),
        },
{
    let Completer { out, total_delta, search_from, max_tier, pending } = st;
    match pending {
        None => Ok(Completer { out, total_delta, search_from, max_tier, pending: None }),
        Some(hunk) => {
            let len = line_count(orig_lines);
            let b = match compute_hunk_bounds(orig_lines, &hunk, search_from) {
                Err(e) => {
                    return Err(e);
                },
                Ok(b) => b,
            };
            let new_start: i128 = b.old_start as i128 + total_delta;
            let mut out = out;
            let ghost before = out@;
            write_header(&mut out, &b, new_start as u128);
            write_body(&mut out, &b.final_hunk_lines);
            assert(texts(b.final_hunk_lines@).len() == b.final_hunk_lines.len());
            assert(out@ =~= before + header_text(b@, b.old_start + total_delta) + body_text(
                texts(b.final_hunk_lines@),
                b.final_hunk_lines.len() as nat,
            ));
            let tier = match (max_tier, b.tier) {
                (Some(a), Some(t)) => Some(a.looser(t)),
                (None, Some(t)) => Some(t),
                (a, None) => a,
            };
            Ok(
                Completer {
                    out,
                    total_delta: total_delta + b.new_count as i128 - b.old_count as i128,
                    search_from: b.old_start + b.old_count - 1,
                    max_tier: tier,
                    pending: None,
                },
            )
        },
    }
}

fn read_line(st: Completer, orig_lines: &Vec<Vec<char>>, line: &Vec<char>, Ghost(k): Ghost<nat>) -> (r:
    Result<Completer, Error>)
    requires
        st.fits(orig_lines.len() as nat, k),
        k < usize::MAX,
    ensures
        match r {
            Ok(s) => st@.after_line(texts(orig_lines@), line@) == Ok::<CompleterView, ErrorView>(
                s@,
            ) && s.fits(orig_lines.len() as nat, k + 1),
            Err(e) => st@.after_line(texts(orig_lines@), line@) == Err::<CompleterView, ErrorView>(
                e@,
            ),
        },
{
    if is_header_line(line) {
        let flushed = match flush(st, orig_lines, Ghost(k)) {
            Err(e) => {
                return Err(e);
            },
            Ok(s) => s,
        };
        let Completer { out, total_delta, search_from, max_tier, pending } = flushed;
        let empty: Vec<Vec<char>> = Vec::new();
        assert(texts(empty@) =~= Seq::<Seq<char>>::empty());
        Ok(Completer { out, total_delta, search_from, max_tier, pending: Some(empty) })
    } else {
        let Completer { out, total_delta, search_from, max_tier, pending } = st;
        match pending {
            Some(hunk) => {
                let mut hunk = hunk;
                let ghost before = texts(hunk@);
                hunk.push(copy_chars(line));
                assert(texts(hunk@) =~= before.push(line@));
                Ok(Completer { out, total_delta, search_from, max_tier, pending: Some(hunk) })
            },
            None => {
                let mut out = out;
                let ghost before = out@;
                append_chars(&mut out, line);
                out.push('\n');
                assert(out@ =~= before + line@ + seq!['\n']);
                Ok(Completer { out, total_delta, search_from, max_tier, pending: None })
            },
        }
    }
}

/// What the outcome of a completion stands for.
pub open spec fn complete_result_view(r: Result<(String, Option<MatchTier>), Error>) -> Result<
    (Seq<char>, Option<MatchTier>),
    ErrorView,
> {
    match r {
        Ok((text, tier)) => Ok((text@, tier)),
        Err(e) => Err(e@),
    }
}

/// Completes a loose patch against the text of the file that it is for.
pub fn complete(original_content: &str, patch_raw: &str) -> (r: Result<
    (String, Option<MatchTier>),
    Error,
>)
    ensures
        complete_result_view(r) == completed(original_content@, patch_raw@),
{
    let orig_lines = lines_chars(&replace_crlf_chars(&chars_of(original_content)));
    let patch_lines = lines_chars(&replace_crlf_chars(&chars_of(patch_raw)));
    let ghost orig = texts(orig_lines@);
    let ghost patch = texts(patch_lines@);
    let n = line_count(&patch_lines);
    let mut st = Completer {
        out: Vec::new(),
        total_delta: 0,
        search_from: 0,
        max_tier: None,
        pending: None,
    };
    let mut k: usize = 0;
    while k < n
        invariant
            k <= n,
            n == patch_lines.len(),
            n < usize::MAX,
            orig == texts(orig_lines@),
            patch == texts(patch_lines@),
            orig == lines(replace_crlf(original_content@)),
            patch == lines(replace_crlf(patch_raw@)),
            patch.len() == n,
            st.fits(orig_lines.len() as nat, k as nat),
            completer_after(orig, patch, k as nat) == Ok::<CompleterView, ErrorView>(st@),
        decreases n - k,
    {
        assert(patch[k as int] == patch_lines@[k as int]@);
        st = match read_line(st, &orig_lines, &patch_lines[k], Ghost(k as nat)) {
            Err(e) => {
                proof {
                    assert(completer_after(orig, patch, (k + 1) as nat) == Err::<
                        CompleterView,
                        ErrorView,
                    >(e@));
                    lemma_completer_fails(orig, patch, (k + 1) as nat);
                }
                return Err(e);
            },
            Ok(s) => s,
        };
        k += 1;
    }
    let end = match flush(st, &orig_lines, Ghost(k as nat)) {
        Err(e) => {
            return Err(e);
        },
        Ok(s) => s,
    };
    Ok((string_of(&end.out), end.max_tier))
}

} // verus!

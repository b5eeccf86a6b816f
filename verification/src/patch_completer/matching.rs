//! When a line of a file counts as the line that a patch speaks of, at each of
//! the three tiers of strictness.

use crate::text::{
    chars_eq, ends_with, ends_with_chars, lowercase, lowercase_chars, normalize_ws,
    normalize_ws_chars, trim, trim_chars, trim_end_punctuation, trim_end_punctuation_chars,
    trim_start, trim_start_char, trim_start_char_chars, trim_start_chars, without_char,
    without_char_chars,
};
use vstd::prelude::*;

verus! {

/// How loosely the context of a hunk was matched. The tiers are ordered:
/// `Strict`, then `Resilient`, then `Fuzzy`.
#[derive(Debug, Clone, Copy, PartialEq, Eq, Structural, PartialOrd, Ord)]
pub enum MatchTier {
    /// Character for character.
    Strict,
    /// Up to whitespace, heading marks and a missing start of the line.
    Resilient,
    /// As `Resilient`, and up to case, backticks and trailing punctuation.
    Fuzzy,
}

impl MatchTier {
    /// The place of the tier in their order.
    pub open spec fn rank(self) -> nat {
        match self {
            MatchTier::Strict => 0,
            MatchTier::Resilient => 1,
            MatchTier::Fuzzy => 2,
        }
    }

    /// The looser of two tiers.
    pub open spec fn or_looser(self, other: MatchTier) -> MatchTier {
        if self.rank() >= other.rank() {
            self
        } else {
            other
        }
    }

    /// The looser of two tiers.
    pub fn looser(self, other: MatchTier) -> (r: MatchTier)
        ensures
            r == self.or_looser(other),
    {
        match (self, other) {
            (MatchTier::Fuzzy, _) => MatchTier::Fuzzy,
            (_, MatchTier::Fuzzy) => MatchTier::Fuzzy,
            (MatchTier::Resilient, _) => MatchTier::Resilient,
            (_, MatchTier::Resilient) => MatchTier::Resilient,
            _ => MatchTier::Strict,
        }
    }
}

/// The looser of a tier seen so far, if any, and a new one, if any.
pub open spec fn loosest(seen: Option<MatchTier>, next: Option<MatchTier>) -> Option<MatchTier> {
    match (seen, next) {
        (Some(a), Some(b)) => Some(a.or_looser(b)),
        (None, Some(b)) => Some(b),
        (a, None) => a,
    }
}

/// The least number of characters that a text must have to be looked for at
/// the end of another.
pub const SUFFIX_MATCH_MIN_LEN: usize = 10;

/// Whether a trimmed line is a Markdown heading.
pub open spec fn is_heading(s: Seq<char>) -> bool {
    s.len() > 0 && s[0] == '#'
}

/// A Markdown heading without its marks and the whitespace behind them.
pub open spec fn heading_text(s: Seq<char>) -> Seq<char> {
    trim_start(trim_start_char(s, '#'))
}

/// Whether one of the two texts is the end of the other; the shorter must have
/// at least ten characters.
pub open spec fn is_end_of_either(o: Seq<char>, p: Seq<char>) -> bool {
    (p.len() >= SUFFIX_MATCH_MIN_LEN && ends_with(o, p)) || (o.len() >= SUFFIX_MATCH_MIN_LEN
        && ends_with(p, o))
}

/// Whether one of the two texts, with its whitespace normalised, is the end of
/// the other; the shorter must have at least ten characters. Case is left out
/// of account where `case_insensitive` is set.
pub open spec fn is_suffix_match(orig: Seq<char>, patch: Seq<char>, case_insensitive: bool) -> bool {
    if case_insensitive {
        is_end_of_either(lowercase(normalize_ws(orig)), lowercase(normalize_ws(patch)))
    } else {
        is_end_of_either(normalize_ws(orig), normalize_ws(patch))
    }
}

/// Whether two trimmed lines, neither empty, match up to whitespace: they are
/// equal, or equal once runs of whitespace count as one space, or both are
/// headings with such texts, or one is the end of the other.
pub open spec fn matches_resilient(o: Seq<char>, p: Seq<char>) -> bool {
    o == p || normalize_ws(o) == normalize_ws(p) || (is_heading(o) && is_heading(p)
        && normalize_ws(heading_text(o)) == normalize_ws(heading_text(p))) || is_suffix_match(
        o,
        p,
        false,
    )
}

/// The lowercase forms of a trimmed line that the fuzzy tier compares.
pub struct LoweredLine {
    /// The line in lowercase.
    pub line: Vec<char>,
    /// The line with its whitespace normalised, in lowercase.
    pub normalized: Vec<char>,
    /// For a heading, its text with its whitespace normalised, in lowercase.
    pub heading: Option<Vec<char>>,
}

/// What a `LoweredLine` stands for.
pub struct LoweredView {
    pub line: Seq<char>,
    pub normalized: Seq<char>,
    pub heading: Option<Seq<char>>,
}

impl View for LoweredLine {
    type V = LoweredView;

    open spec fn view(&self) -> LoweredView {
        LoweredView {
            line: self.line@,
            normalized: self.normalized@,
            heading: match self.heading {
                Some(h) => Some(h@),
                None => None,
            },
        }
    }
}

/// The lowercase forms of the trimmed line `o`.
pub open spec fn lowered(o: Seq<char>) -> LoweredView {
    LoweredView {
        line: lowercase(o),
        normalized: lowercase(normalize_ws(o)),
        heading: if is_heading(o) {
            Some(lowercase(normalize_ws(heading_text(o))))
        } else {
            None
        },
    }
}

/// Whether two lines match at the fuzzy tier, given their lowercase forms:
/// the lines are equal, or equal once runs of whitespace count as one space;
/// or both are headings with the same text; or one normalised line is the end
/// of the other; or the lines are equal once their backticks are left out,
/// whitespace normalised or not; or once the punctuation that they end with is
/// left out.
pub open spec fn matches_lowered(a: LoweredView, b: LoweredView) -> bool {
    a.line == b.line || normalize_ws(a.line) == normalize_ws(b.line) || (a.heading is Some
        && b.heading is Some && a.heading == b.heading) || is_end_of_either(
        a.normalized,
        b.normalized,
    ) || without_char(a.line, '`') == without_char(b.line, '`') || normalize_ws(
        without_char(a.line, '`'),
    ) == normalize_ws(without_char(b.line, '`')) || trim_end_punctuation(a.line)
        == trim_end_punctuation(b.line)
}

/// Whether two trimmed lines, neither empty, match as at the resilient tier
/// but without regard to case, or once their backticks are left out, or once
/// the punctuation that they end with is.
pub open spec fn matches_fuzzy(o: Seq<char>, p: Seq<char>) -> bool {
    matches_lowered(lowered(o), lowered(p))
}

/// Whether a line of the file counts as the line of the patch at a tier. At
/// the looser tiers both lines are trimmed first, and a line that is then
/// empty matches an empty one only.
pub open spec fn line_matches_at(orig: Seq<char>, patch: Seq<char>, tier: MatchTier) -> bool {
    match tier {
        MatchTier::Strict => orig == patch,
        MatchTier::Resilient => {
            let o = trim(orig);
            let p = trim(patch);
            if o.len() == 0 || p.len() == 0 {
                o == p
            } else {
                matches_resilient(o, p)
            }
        },
        MatchTier::Fuzzy => {
            let o = trim(orig);
            let p = trim(patch);
            if o.len() == 0 || p.len() == 0 {
                o == p
            } else {
                matches_fuzzy(o, p)
            }
        },
    }
}

/// Whether a trimmed line is a Markdown heading.
pub fn is_markdown_heading(s: &Vec<char>) -> (r: bool)
    ensures
        r == is_heading(s@),
{
    s.len() > 0 && s[0] == '#'
}

/// A Markdown heading without its marks and the whitespace behind them.
pub fn strip_markdown_heading(s: &Vec<char>) -> (r: Vec<char>)
    ensures
        r@ == heading_text(s@),
{
    let a = trim_start_char_chars(s, '#');
    trim_start_chars(&a)
}

/// `s` with each run of whitespace replaced by one space, and none at either end.
pub fn normalize_ws_of(s: &Vec<char>) -> (r: Vec<char>)
    ensures
        r@ == normalize_ws(s@),
{
    normalize_ws_chars(s)
}

/// Whether one of the two texts is the end of the other, the shorter of at
/// least ten characters.
pub fn ends_with_either(o: &Vec<char>, p: &Vec<char>) -> (r: bool)
    ensures
        r == is_end_of_either(o@, p@),
{
    if p.len() >= SUFFIX_MATCH_MIN_LEN && ends_with_chars(o, p) {
        return true;
    }
    if o.len() >= SUFFIX_MATCH_MIN_LEN && ends_with_chars(p, o) {
        return true;
    }
    false
}

/// Whether one of the two lines, whitespace normalised, is the end of the other.
pub fn suffix_match(orig_trimmed: &Vec<char>, patch_trimmed: &Vec<char>, case_insensitive: bool) -> (r:
    bool)
    ensures
        r == is_suffix_match(orig_trimmed@, patch_trimmed@, case_insensitive),
{
    let on = normalize_ws_chars(orig_trimmed);
    let pn = normalize_ws_chars(patch_trimmed);
    if case_insensitive {
        ends_with_either(&lowercase_chars(&on), &lowercase_chars(&pn))
    } else {
        ends_with_either(&on, &pn)
    }
}

fn resilient_match(o: &Vec<char>, p: &Vec<char>) -> (r: bool)
    ensures
        r == matches_resilient(o@, p@),
{
    if chars_eq(o, p) {
        return true;
    }
    if chars_eq(&normalize_ws_chars(o), &normalize_ws_chars(p)) {
        return true;
    }
    if is_markdown_heading(o) && is_markdown_heading(p) {
        let oh = normalize_ws_chars(&strip_markdown_heading(o));
        let ph = normalize_ws_chars(&strip_markdown_heading(p));
        if chars_eq(&oh, &ph) {
            return true;
        }
    }
    suffix_match(o, p, false)
}

/// The lowercase forms of the trimmed line `o`.
pub fn lower_line(o: &Vec<char>) -> (r: LoweredLine)
    ensures
        r@ == lowered(o@),
{
    let heading = if is_markdown_heading(o) {
        Some(lowercase_chars(&normalize_ws_chars(&strip_markdown_heading(o))))
    } else {
        None
    };
    LoweredLine {
        line: lowercase_chars(o),
        normalized: lowercase_chars(&normalize_ws_chars(o)),
        heading,
    }
}

/// Whether two lines match at the fuzzy tier, given their lowercase forms.
pub fn fuzzy_match_lowered(a: &LoweredLine, b: &LoweredLine) -> (r: bool)
    ensures
        r == matches_lowered(a@, b@),
{
    if chars_eq(&a.line, &b.line) {
        return true;
    }
    if chars_eq(&normalize_ws_chars(&a.line), &normalize_ws_chars(&b.line)) {
        return true;
    }
    match (&a.heading, &b.heading) {
        (Some(ah), Some(bh)) => {
            if chars_eq(ah, bh) {
                return true;
            }
        },
        _ => {},
    }
    if ends_with_either(&a.normalized, &b.normalized) {
        return true;
    }
    let ab = without_char_chars(&a.line, '`');
    let bb = without_char_chars(&b.line, '`');
    if chars_eq(&ab, &bb) {
        return true;
    }
    if chars_eq(&normalize_ws_chars(&ab), &normalize_ws_chars(&bb)) {
        return true;
    }
    chars_eq(&trim_end_punctuation_chars(&a.line), &trim_end_punctuation_chars(&b.line))
}

fn fuzzy_match(o: &Vec<char>, p: &Vec<char>) -> (r: bool)
    ensures
        r == matches_fuzzy(o@, p@),
{
    fuzzy_match_lowered(&lower_line(o), &lower_line(p))
}

/// Whether `orig_line` counts as the line `p_line` of a patch at `tier`.
pub fn line_matches(orig_line: &Vec<char>, p_line: &Vec<char>, tier: MatchTier) -> (r: bool)
    ensures
        r == line_matches_at(orig_line@, p_line@, tier),
{
    match tier {
        MatchTier::Strict => chars_eq(orig_line, p_line),
        MatchTier::Resilient => {
            let o = trim_chars(orig_line);
            let p = trim_chars(p_line);
            if o.len() == 0 || p.len() == 0 {
                return chars_eq(&o, &p);
            }
            resilient_match(&o, &p)
        },
        MatchTier::Fuzzy => {
            let o = trim_chars(orig_line);
            let p = trim_chars(p_line);
            if o.len() == 0 || p.len() == 0 {
                return chars_eq(&o, &p);
            }
            fuzzy_match(&o, &p)
        },
    }
}

} // verus!

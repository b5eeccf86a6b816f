//! The line hash and the `LINE#ID` tag: its text form and its parser.

use crate::text::{
    append_chars, chars_of, copy_chars, decimal, decimal_chars, decimal_value, digit_value,
    wide_decimal_chars,
    is_digit, is_whitespace, is_whitespace_char, join, join_chars, leading, lemma_leading_is,
    slice_chars, split, split_chars, string_of, strip_cr, strip_whitespace,
    strip_whitespace_chars, texts, whitespace,
};
use vstd::prelude::*;
use vstd::string::*;
use vstd::utf8::encode_utf8;

verus! {

// ---------------------------------------------------------------------------
// The hash
// ---------------------------------------------------------------------------

/// The 32-bit XXH32 digest of `data` under `seed`.
pub uninterp spec fn xxhash32(seed: u32, data: Seq<u8>) -> u32;

/// `twox_hash::XxHash32::oneshot`: the digest is a function of the seed and the
/// bytes alone; it is named, not described.
#[verifier::external_body]
fn xxh32(seed: u32, data: &[u8]) -> (h: u32)
    ensures
        h == xxhash32(seed, data@),
{
    twox_hash::XxHash32::oneshot(seed, data)
}

/// The sixteen symbols that stand for the values of a half byte.
pub open spec fn nibble_alphabet() -> Seq<char> {
    seq!['Z', 'P', 'M', 'Q', 'V', 'R', 'W', 'S', 'N', 'K', 'T', 'X', 'J', 'B', 'Y', 'H']
}

/// Whether `c` is one of the sixteen symbols.
pub open spec fn is_nibble(c: char) -> bool {
    c == 'Z' || c == 'P' || c == 'M' || c == 'Q' || c == 'V' || c == 'R' || c == 'W' || c == 'S'
        || c == 'N' || c == 'K' || c == 'T' || c == 'X' || c == 'J' || c == 'B' || c == 'Y' || c
        == 'H'
}

/// The two symbols that stand for a byte: its high half, then its low half.
pub open spec fn hash_code(b: nat) -> Seq<char> {
    seq![nibble_alphabet()[(b / 16) as int], nibble_alphabet()[(b % 16) as int]]
}

/// The hash of a line: one trailing carriage return and all whitespace are left
/// out, the remaining text is digested as UTF-8 with seed 0, and the low byte
/// of the digest is written with the sixteen symbols.
pub open spec fn line_hash(line: Seq<char>) -> Seq<char> {
    hash_code((xxhash32(0, encode_utf8(strip_whitespace(strip_cr(line)))) % 256) as nat)
}

/// The symbols of a hash are among the sixteen.
pub proof fn lemma_hash_code(b: nat)
    requires
        b < 256,
    ensures
        hash_code(b).len() == 2,
        is_nibble(hash_code(b)[0]),
        is_nibble(hash_code(b)[1]),
{
}

fn nibble_char(i: u8) -> (c: char)
    requires
        i < 16,
    ensures
        c == nibble_alphabet()[i as int],
{
    if i == 0 {
        'Z'
    } else if i == 1 {
        'P'
    } else if i == 2 {
        'M'
    } else if i == 3 {
        'Q'
    } else if i == 4 {
        'V'
    } else if i == 5 {
        'R'
    } else if i == 6 {
        'W'
    } else if i == 7 {
        'S'
    } else if i == 8 {
        'N'
    } else if i == 9 {
        'K'
    } else if i == 10 {
        'T'
    } else if i == 11 {
        'X'
    } else if i == 12 {
        'J'
    } else if i == 13 {
        'B'
    } else if i == 14 {
        'Y'
    } else {
        'H'
    }
}

/// Whether `c` is one of the sixteen symbols.
pub fn is_nibble_char(c: char) -> (r: bool)
    ensures
        r == is_nibble(c),
{
    c == 'Z' || c == 'P' || c == 'M' || c == 'Q' || c == 'V' || c == 'R' || c == 'W' || c == 'S'
        || c == 'N' || c == 'K' || c == 'T' || c == 'X' || c == 'J' || c == 'B' || c == 'Y' || c
        == 'H'
}

/// The hash of `line`, as characters.
pub fn line_hash_chars(line: &Vec<char>) -> (r: Vec<char>)
    ensures
        r@ == line_hash(line@),
{
    let body = if line.len() > 0 && line[line.len() - 1] == '\r' {
        slice_chars(line, 0, line.len() - 1)
    } else {
        copy_chars(line)
    };
    assert(body@ == strip_cr(line@));
    let stripped = strip_whitespace_chars(&body);
    let s = string_of(&stripped);
    digest_code(xxh32(0, s.as_str().as_bytes()))
}

/// The two symbols that stand for the low byte of a digest.
pub fn digest_code(digest: u32) -> (r: Vec<char>)
    ensures
        r@ == hash_code((digest % 256) as nat),
{
    let low: u8 = (digest % 256) as u8;
    let mut out: Vec<char> = Vec::new();
    out.push(nibble_char(low / 16));
    out.push(nibble_char(low % 16));
    assert(out@ =~= hash_code(low as nat));
    out
}

/// The hash of `line`. The line number takes no part in it.
pub fn compute_line_hash(_idx: usize, line: &str) -> (r: String)
    ensures
        r@ == line_hash(line@),
{
    let v = chars_of(line);
    let h = line_hash_chars(&v);
    string_of(&h)
}

// ---------------------------------------------------------------------------
// The tag
// ---------------------------------------------------------------------------

/// A line number, counted from 1, and the hash that the line had when it was read.
#[derive(Debug, Clone, PartialEq, Eq)]
pub struct LineTag {
    pub line: usize,
    pub hash: String,
}

/// What a `LineTag` stands for.
pub struct TagView {
    pub line: nat,
    pub hash: Seq<char>,
}

impl View for LineTag {
    type V = TagView;

    open spec fn view(&self) -> TagView {
        TagView { line: self.line as nat, hash: self.hash@ }
    }
}

impl LineTag {
    /// A copy of the tag.
    pub fn copy(&self) -> (r: LineTag)
        ensures
            r@ == self@,
    {
        LineTag { line: self.line, hash: self.hash.clone() }
    }
}

/// The text `LINE#ID` of the tag of line `n` with text `line`.
pub open spec fn line_tag_text(n: nat, line: Seq<char>) -> Seq<char> {
    decimal(n) + seq!['#'] + line_hash(line)
}

/// The text `LINE#ID:` of a tag, followed by the line itself.
pub open spec fn tagged_line(n: nat, line: Seq<char>) -> Seq<char> {
    line_tag_text(n, line) + seq![':'] + line
}

/// The text `LINE#ID` of the tag of line `n` with text `line`.
pub fn tag_text_chars(n: u128, line: &Vec<char>) -> (r: Vec<char>)
    ensures
        r@ == line_tag_text(n as nat, line@),
{
    let mut out = wide_decimal_chars(n);
    out.push('#');
    let h = line_hash_chars(line);
    append_chars(&mut out, &h);
    assert(out@ =~= line_tag_text(n as nat, line@));
    out
}

/// The line `line` behind its tag, as line `n`.
pub fn tagged_line_chars(n: u128, line: &Vec<char>) -> (r: Vec<char>)
    ensures
        r@ == tagged_line(n as nat, line@),
{
    let mut out = tag_text_chars(n, line);
    out.push(':');
    append_chars(&mut out, line);
    assert(out@ =~= tagged_line(n as nat, line@));
    out
}

/// The tag `LINE#ID` of line number `line` with text `content`.
pub fn format_line_tag(line: usize, content: &str) -> (r: String)
    ensures
        r@ == line_tag_text(line as nat, content@),
{
    let v = chars_of(content);
    let t = tag_text_chars(line as u128, &v);
    string_of(&t)
}

/// Each of `lines` behind its tag, the first line numbered `start`.
pub open spec fn tagged_lines(lines: Seq<Seq<char>>, start: nat) -> Seq<Seq<char>> {
    Seq::new(lines.len(), |i: int| tagged_line((start + i) as nat, lines[i]))
}

/// The tagged view of `content`: each of its lines behind its tag, the first
/// line numbered `start_line`, joined by line feeds.
pub open spec fn hash_lines_text(content: Seq<char>, start_line: nat) -> Seq<char> {
    join(tagged_lines(split(content, '\n'), start_line), seq!['\n'])
}

/// Each of `lines` behind its tag, the first line numbered `start`.
pub fn tagged_lines_chars(lines: &Vec<Vec<char>>, start: usize) -> (r: Vec<Vec<char>>)
    ensures
        texts(r@) == tagged_lines(texts(lines@), start as nat),
{
    let mut out: Vec<Vec<char>> = Vec::new();
    let mut i: usize = 0;
    while i < lines.len()
        invariant
            i <= lines.len(),
            out.len() == i,
            forall|j: int|
                0 <= j < i ==> (#[trigger] out@[j])@ == tagged_line(
                    (start + j) as nat,
                    lines@[j]@,
                ),
        decreases lines.len() - i,
    {
        out.push(tagged_line_chars(start as u128 + i as u128, &lines[i]));
        i += 1;
    }
    assert(texts(out@) =~= tagged_lines(texts(lines@), start as nat));
    out
}

/// The tagged view of `content`, its first line numbered `start_line`.
pub fn format_hash_lines(content: &str, start_line: usize) -> (r: String)
    ensures
        r@ == hash_lines_text(content@, start_line as nat),
{
    let v = chars_of(content);
    let lines = split_chars(&v, '\n');
    assert(texts(lines@).len() == lines.len());
    let tagged = tagged_lines_chars(&lines, start_line);
    let mut sep: Vec<char> = Vec::new();
    sep.push('\n');
    assert(sep@ =~= seq!['\n']);
    let joined = join_chars(&tagged, &sep);
    string_of(&joined)
}

// ---------------------------------------------------------------------------
// The parser
// ---------------------------------------------------------------------------

/// Whether `c` is one of the marks `>`, `+` and `-` that may stand before a tag.
pub open spec fn is_marker(c: char) -> bool {
    c == '>' || c == '+' || c == '-'
}

/// The predicate that holds of the marks.
pub open spec fn marker() -> spec_fn(char) -> bool {
    |x: char| is_marker(x)
}

/// The predicate that holds of the digits.
pub open spec fn digit() -> spec_fn(char) -> bool {
    |x: char| is_digit(x)
}

/// The index at which the run of `p` that starts at `from` ends.
pub open spec fn run_end(s: Seq<char>, from: int, p: spec_fn(char) -> bool) -> int {
    from + leading(s.skip(from), p)
}

/// A run of `p` from `from` to `to` that cannot be extended ends at `to`.
pub proof fn lemma_run_end_is(s: Seq<char>, from: int, p: spec_fn(char) -> bool, to: int)
    requires
        0 <= from <= to <= s.len(),
        forall|j: int| from <= j < to ==> p(#[trigger] s[j]),
        to < s.len() ==> !p(s[to]),
    ensures
        run_end(s, from, p) == to,
{
    let t = s.skip(from);
    assert forall|j: int| 0 <= j < to - from implies p(#[trigger] t[j]) by {
        assert(t[j] == s[from + j]);
    }
    if to - from < t.len() {
        assert(t[to - from] == s[to]);
    }
    lemma_leading_is(t, p, to - from);
}

/// Where the parts of a tag stand in a text.
pub struct TagShape {
    pub digits_from: int,
    pub digits_to: int,
    pub hash_from: int,
}

/// The shape of the tag at the start of `s`: optional whitespace, any number of
/// marks, optional whitespace, one or more digits, optional whitespace, `#`,
/// optional whitespace, and two of the sixteen symbols. What follows them is
/// not looked at.
pub open spec fn tag_shape(s: Seq<char>) -> Option<TagShape> {
    let i1 = run_end(s, 0, whitespace());
    let i2 = run_end(s, i1, marker());
    let i3 = run_end(s, i2, whitespace());
    let i4 = run_end(s, i3, digit());
    let i5 = run_end(s, i4, whitespace());
    if i4 > i3 && i5 < s.len() && s[i5] == '#' {
        let i6 = run_end(s, i5 + 1, whitespace());
        if i6 + 2 <= s.len() && is_nibble(s[i6]) && is_nibble(s[i6 + 1]) {
            Some(TagShape { digits_from: i3, digits_to: i4, hash_from: i6 })
        } else {
            None
        }
    } else {
        None
    }
}

/// The message for a text that has not the shape of a tag.
pub open spec fn invalid_reference_message(s: Seq<char>) -> Seq<char> {
    "Invalid line reference \""@ + s + "\". Expected format \"LINE#ID\" (e.g. \"5#aa\")."@
}

/// The message for a line number that does not fit the machine's word.
pub open spec fn invalid_number_message() -> Seq<char> {
    "Invalid line number"@
}

/// The message for the line number 0.
pub open spec fn line_below_one_message(n: nat, s: Seq<char>) -> Seq<char> {
    "Line number must be >= 1, got "@ + decimal(n) + " in \""@ + s + "\"."@
}

/// The tag that `s` begins with, or the message that says why there is none.
pub open spec fn parse_tag_spec(s: Seq<char>) -> Result<TagView, Seq<char>> {
    match tag_shape(s) {
        None => Err(invalid_reference_message(s)),
        Some(shape) => {
            let n = decimal_value(s.subrange(shape.digits_from, shape.digits_to));
            if n > usize::MAX {
                Err(invalid_number_message())
            } else if n < 1 {
                Err(line_below_one_message(n, s))
            } else {
                Ok(TagView { line: n, hash: s.subrange(shape.hash_from, shape.hash_from + 2) })
            }
        }
    }
}

/// What a parsed tag, or the message in its place, stands for.
pub open spec fn tag_result_view(r: Result<LineTag, String>) -> Result<TagView, Seq<char>> {
    match r {
        Ok(t) => Ok(t@),
        Err(m) => Err(m@),
    }
}

fn scan_whitespace(v: &Vec<char>, from: usize) -> (r: usize)
    requires
        from <= v.len(),
    ensures
        r == run_end(v@, from as int, whitespace()),
        from <= r <= v.len(),
{
    let mut i: usize = from;
    while i < v.len() && is_whitespace_char(v[i])
        invariant
            from <= i <= v.len(),
            forall|j: int| from <= j < i ==> is_whitespace(#[trigger] v@[j]),
        decreases v.len() - i,
    {
        i += 1;
    }
    proof {
        lemma_run_end_is(v@, from as int, whitespace(), i as int);
    }
    i
}

fn scan_markers(v: &Vec<char>, from: usize) -> (r: usize)
    requires
        from <= v.len(),
    ensures
        r == run_end(v@, from as int, marker()),
        from <= r <= v.len(),
{
    let mut i: usize = from;
    while i < v.len() && (v[i] == '>' || v[i] == '+' || v[i] == '-')
        invariant
            from <= i <= v.len(),
            forall|j: int| from <= j < i ==> is_marker(#[trigger] v@[j]),
        decreases v.len() - i,
    {
        i += 1;
    }
    proof {
        lemma_run_end_is(v@, from as int, marker(), i as int);
    }
    i
}

fn scan_digits(v: &Vec<char>, from: usize) -> (r: usize)
    requires
        from <= v.len(),
    ensures
        r == run_end(v@, from as int, digit()),
        from <= r <= v.len(),
        forall|j: int| from <= j < r ==> is_digit(#[trigger] v@[j]),
{
    let mut i: usize = from;
    while i < v.len() && ('0' <= v[i] && v[i] <= '9')
        invariant
            from <= i <= v.len(),
            forall|j: int| from <= j < i ==> is_digit(#[trigger] v@[j]),
        decreases v.len() - i,
    {
        i += 1;
    }
    proof {
        lemma_run_end_is(v@, from as int, digit(), i as int);
    }
    i
}

/// The number that the digits `from..to` of `v` stand for, or `None` where it
/// does not fit the machine's word.
fn read_decimal(v: &Vec<char>, from: usize, to: usize) -> (r: Option<usize>)
    requires
        from <= to <= v.len(),
        forall|j: int| from <= j < to ==> is_digit(#[trigger] v@[j]),
    ensures
        match r {
            Some(n) => n == decimal_value(v@.subrange(from as int, to as int)),
            None => decimal_value(v@.subrange(from as int, to as int)) > usize::MAX,
        },
{
    let mut n: usize = 0;
    let mut overflow = false;
    let mut k: usize = from;
    assert(v@.subrange(from as int, from as int) =~= Seq::<char>::empty());
    while k < to
        invariant
            from <= k <= to <= v.len(),
            forall|j: int| from <= j < to ==> is_digit(#[trigger] v@[j]),
            !overflow ==> n == decimal_value(v@.subrange(from as int, k as int)),
            overflow ==> decimal_value(v@.subrange(from as int, k as int)) > usize::MAX,
        decreases to - k,
    {
        let c = v[k];
        assert(is_digit(v@[k as int]));
        let d: usize = (c as u32 - 48) as usize;
        proof {
            let next = v@.subrange(from as int, k + 1);
            assert(next.drop_last() =~= v@.subrange(from as int, k as int));
            assert(next.last() == c);
            assert(digit_value(c) == d);
        }
        if !overflow {
            if n > (usize::MAX - d) / 10 {
                overflow = true;
            } else {
                n = n * 10 + d;
            }
        }
        k += 1;
    }
    if overflow {
        None
    } else {
        Some(n)
    }
}

/// The tag that `v` begins with, or the message that says why there is none.
pub fn parse_tag_chars(v: &Vec<char>) -> (r: Result<LineTag, String>)
    ensures
        tag_result_view(r) == parse_tag_spec(v@),
{
    let i1 = scan_whitespace(v, 0);
    let i2 = scan_markers(v, i1);
    let i3 = scan_whitespace(v, i2);
    let i4 = scan_digits(v, i3);
    let i5 = scan_whitespace(v, i4);
    if !(i4 > i3 && i5 < v.len() && v[i5] == '#') {
        return Err(invalid_reference_text(v));
    }
    let i6 = scan_whitespace(v, i5 + 1);
    if !(v.len() >= 2 && i6 <= v.len() - 2 && is_nibble_char(v[i6]) && is_nibble_char(v[i6 + 1])) {
        return Err(invalid_reference_text(v));
    }
    match read_decimal(v, i3, i4) {
        None => Err(string_of(&chars_of("Invalid line number"))),
        Some(n) => {
            if n < 1 {
                let mut m = chars_of("Line number must be >= 1, got ");
                let d = decimal_chars(n);
                append_chars(&mut m, &d);
                let mid = chars_of(" in \"");
                append_chars(&mut m, &mid);
                append_chars(&mut m, v);
                let end = chars_of("\".");
                append_chars(&mut m, &end);
                Err(string_of(&m))
            } else {
                let h = slice_chars(v, i6, i6 + 2);
                Ok(LineTag { line: n, hash: string_of(&h) })
            }
        },
    }
}

fn invalid_reference_text(v: &Vec<char>) -> (r: String)
    ensures
        r@ == invalid_reference_message(v@),
{
    let mut m = chars_of("Invalid line reference \"");
    append_chars(&mut m, v);
    let end = chars_of("\". Expected format \"LINE#ID\" (e.g. \"5#aa\").");
    append_chars(&mut m, &end);
    string_of(&m)
}

/// Reads the tag that `ref_str` begins with: optional whitespace, any number of
/// the marks `>`, `+`, `-`, a line number of at least 1, `#`, and a two-symbol
/// hash, with optional whitespace between them.
pub fn parse_tag(ref_str: &str) -> (r: Result<LineTag, String>)
    ensures
        tag_result_view(r) == parse_tag_spec(ref_str@),
{
    let v = chars_of(ref_str);
    parse_tag_chars(&v)
}

} // verus!

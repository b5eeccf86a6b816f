//! Wrapped lines: where the new lines of an edit hold one old line broken into
//! several, the old line is put back in their place.

use crate::hashline::fix::{splice, splice_lines};
use crate::text::{
    append_chars, chars_eq, copy_chars, copy_lines, join, strip_whitespace,
    strip_whitespace_chars, texts, utf8_len, utf8_len_of,
};
use vstd::prelude::*;

verus! {

/// A run of new lines that stands for one old line.
pub struct WrapSpan {
    pub start: usize,
    pub len: usize,
    pub replacement: Vec<char>,
    pub canon: Vec<char>,
}

/// What a `WrapSpan` stands for.
pub struct WrapSpanView {
    pub start: nat,
    pub len: nat,
    pub replacement: Seq<char>,
    pub canon: Seq<char>,
}

impl View for WrapSpan {
    type V = WrapSpanView;

    open spec fn view(&self) -> WrapSpanView {
        WrapSpanView {
            start: self.start as nat,
            len: self.len as nat,
            replacement: self.replacement@,
            canon: self.canon@,
        }
    }
}

/// The views of a list of spans.
pub open spec fn span_views(v: Seq<WrapSpan>) -> Seq<WrapSpanView> {
    v.map_values(|s: WrapSpan| s@)
}

/// How many of `old_lines` are `c` once their whitespace is left out.
pub open spec fn canon_count(old_lines: Seq<Seq<char>>, c: Seq<char>) -> nat
    decreases old_lines.len(),
{
    if old_lines.len() == 0 {
        0
    } else {
        canon_count(old_lines.drop_last(), c) + if strip_whitespace(old_lines.last()) == c {
            1nat
        } else {
            0nat
        }
    }
}

/// The first of `old_lines` that is `c` once its whitespace is left out.
pub open spec fn first_with_canon(old_lines: Seq<Seq<char>>, c: Seq<char>) -> Option<Seq<char>>
    decreases old_lines.len(),
{
    if old_lines.len() == 0 {
        None
    } else {
        match first_with_canon(old_lines.drop_last(), c) {
            Some(l) => Some(l),
            None => if strip_whitespace(old_lines.last()) == c {
                Some(old_lines.last())
            } else {
                None
            },
        }
    }
}

/// The lines `start..start + len` of `new_lines`, put together and without
/// whitespace.
pub open spec fn span_canon(new_lines: Seq<Seq<char>>, start: int, len: int) -> Seq<char> {
    strip_whitespace(join(new_lines.subrange(start, start + len), Seq::empty()))
}

/// The spans are looked for start by start and, at each start, from 2 lines
/// to 10: the cell `g` is the span that starts at `g / 9` and has `2 + g % 9`
/// lines.
pub open spec fn cell_start(g: nat) -> nat {
    g / 9
}

/// The number of lines of the span of cell `g`.
pub open spec fn cell_len(g: nat) -> nat {
    2 + g % 9
}

/// The span of cell `g`, where it is one: it lies within the new lines, it is,
/// without whitespace, exactly one of the old lines, and that text has at
/// least six bytes in UTF-8.
pub open spec fn span_at(old_lines: Seq<Seq<char>>, new_lines: Seq<Seq<char>>, g: nat) -> Option<
    WrapSpanView,
> {
    let start = cell_start(g);
    let len = cell_len(g);
    if start + len <= new_lines.len() {
        let c = span_canon(new_lines, start as int, len as int);
        if canon_count(old_lines, c) == 1 && utf8_len(c) >= 6 && first_with_canon(old_lines, c)
            is Some {
            Some(
                WrapSpanView {
                    start,
                    len,
                    replacement: first_with_canon(old_lines, c)->0,
                    canon: c,
                },
            )
        } else {
            None
        }
    } else {
        None
    }
}

/// The spans among the first `g` cells, in the order of the cells.
pub open spec fn spans_upto(old_lines: Seq<Seq<char>>, new_lines: Seq<Seq<char>>, g: nat) -> Seq<
    WrapSpanView,
>
    decreases g,
{
    if g == 0 {
        Seq::empty()
    } else {
        let before = spans_upto(old_lines, new_lines, (g - 1) as nat);
        match span_at(old_lines, new_lines, (g - 1) as nat) {
            Some(s) => before.push(s),
            None => before,
        }
    }
}

/// All the spans of `new_lines`.
pub open spec fn wrap_spans(old_lines: Seq<Seq<char>>, new_lines: Seq<Seq<char>>) -> Seq<
    WrapSpanView,
> {
    spans_upto(old_lines, new_lines, 9 * new_lines.len())
}

/// How many of `spans` stand for the text `c`.
pub open spec fn uses(spans: Seq<WrapSpanView>, c: Seq<char>) -> nat
    decreases spans.len(),
{
    if spans.len() == 0 {
        0
    } else {
        uses(spans.drop_last(), c) + if spans.last().canon == c {
            1nat
        } else {
            0nat
        }
    }
}

/// `out` after the first `k` spans have been looked at for the start `s`: each
/// span that starts at `s`, and whose text no other span stands for, has had
/// its lines replaced by the old line.
pub open spec fn collapse_at(spans: Seq<WrapSpanView>, out: Seq<Seq<char>>, s: nat, k: nat) -> Seq<
    Seq<char>,
>
    decreases k,
{
    if k == 0 || k > spans.len() {
        out
    } else {
        let before = collapse_at(spans, out, s, (k - 1) as nat);
        let span = spans[k - 1];
        if span.start == s && uses(spans, span.canon) == 1 {
            splice(before, span.start as int, (span.start + span.len) as int, seq![span.replacement])
        } else {
            before
        }
    }
}

/// `new_lines` after the `t` last starts have been collapsed, the last start
/// first.
pub open spec fn collapse_from(spans: Seq<WrapSpanView>, new_lines: Seq<Seq<char>>, t: nat) -> Seq<
    Seq<char>,
>
    decreases t,
{
    if t == 0 || t > new_lines.len() {
        new_lines
    } else {
        collapse_at(
            spans,
            collapse_from(spans, new_lines, (t - 1) as nat),
            (new_lines.len() - t) as nat,
            spans.len(),
        )
    }
}

/// The new lines with each wrapped old line put back: a run of 2 to 10 new
/// lines that, put together and without whitespace, is exactly one old line of
/// at least six bytes is replaced by that old line, unless another run
/// stands for the same text. The runs are replaced from the last start to the
/// first.
pub open spec fn with_wrapped_restored(old_lines: Seq<Seq<char>>, new_lines: Seq<Seq<char>>) -> Seq<
    Seq<char>,
> {
    if old_lines.len() == 0 || new_lines.len() < 2 {
        new_lines
    } else {
        collapse_from(wrap_spans(old_lines, new_lines), new_lines, new_lines.len())
    }
}

fn count_and_first(old_lines: &Vec<Vec<char>>, c: &Vec<char>) -> (r: (usize, Option<Vec<char>>))
    ensures
        r.0 == canon_count(texts(old_lines@), c@),
        match r.1 {
            Some(l) => first_with_canon(texts(old_lines@), c@) == Some(l@),
            None => first_with_canon(texts(old_lines@), c@) is None,
        },
{
    let ghost old = texts(old_lines@);
    let mut count: usize = 0;
    let mut first: Option<Vec<char>> = None;
    let mut i: usize = 0;
    while i < old_lines.len()
        invariant
            i <= old_lines.len(),
            old == texts(old_lines@),
            count <= i,
            count == canon_count(old.take(i as int), c@),
            match first {
                Some(l) => first_with_canon(old.take(i as int), c@) == Some(l@),
                None => first_with_canon(old.take(i as int), c@) is None,
            },
        decreases old_lines.len() - i,
    {
        proof {
            let next = old.take(i + 1);
            assert(next.drop_last() =~= old.take(i as int));
            assert(next.last() == old_lines@[i as int]@);
        }
        let canon = strip_whitespace_chars(&old_lines[i]);
        if chars_eq(&canon, c) {
            count += 1;
            if first.is_none() {
                first = Some(copy_chars(&old_lines[i]));
            }
        }
        i += 1;
    }
    assert(old.take(old_lines.len() as int) == old);
    (count, first)
}

fn span_canon_chars(new_lines: &Vec<Vec<char>>, start: usize, len: usize) -> (r: Vec<char>)
    requires
        start + len <= new_lines.len(),
    ensures
        r@ == span_canon(texts(new_lines@), start as int, len as int),
{
    let ghost part = texts(new_lines@).subrange(start as int, start + len);
    let mut combined: Vec<char> = Vec::new();
    let mut i: usize = 0;
    while i < len
        invariant
            i <= len,
            start + len <= new_lines.len(),
            part == texts(new_lines@).subrange(start as int, start + len),
            combined@ == join(part.take(i as int), Seq::empty()),
        decreases len - i,
    {
        proof {
            let next = part.take(i + 1);
            assert(next.drop_last() =~= part.take(i as int));
            assert(next.last() == new_lines@[start + i]@);
            if i == 0 {
                assert(next.len() == 1);
                assert(next[0] == new_lines@[start + i]@);
                assert(combined@ + new_lines@[start + i]@ =~= new_lines@[start + i]@);
            } else {
                assert(combined@ + new_lines@[start + i]@ =~= combined@ + Seq::<char>::empty()
                    + new_lines@[start + i]@);
            }
        }
        append_chars(&mut combined, &new_lines[start + i]);
        i += 1;
    }
    assert(part.take(len as int) == part);
    strip_whitespace_chars(&combined)
}

fn collect_spans(old_lines: &Vec<Vec<char>>, new_lines: &Vec<Vec<char>>) -> (r: Vec<WrapSpan>)
    ensures
        span_views(r@) == wrap_spans(texts(old_lines@), texts(new_lines@)),
        forall|i: int| 0 <= i < r.len() ==> (#[trigger] r@[i]).start + r@[i].len <= new_lines.len(),
{
    let ghost old = texts(old_lines@);
    let ghost new = texts(new_lines@);
    let n = new_lines.len();
    let mut out: Vec<WrapSpan> = Vec::new();
    let mut start: usize = 0;
    while start < n
        invariant
            start <= n,
            n == new_lines.len(),
            old == texts(old_lines@),
            new == texts(new_lines@),
            span_views(out@) == spans_upto(old, new, (9 * start) as nat),
            forall|i: int| 0 <= i < out.len() ==> (#[trigger] out@[i]).start + out@[i].len <= n,
        decreases n - start,
    {
        let mut len: usize = 2;
        while len <= 10
            invariant
                start < n,
                2 <= len <= 11,
                n == new_lines.len(),
                old == texts(old_lines@),
                new == texts(new_lines@),
                span_views(out@) == spans_upto(old, new, (9 * start + (len - 2)) as nat),
                forall|i: int| 0 <= i < out.len() ==> (#[trigger] out@[i]).start + out@[i].len <= n,
            decreases 11 - len,
        {
            let ghost g = (9 * start + (len - 2)) as nat;
            assert(cell_start(g) == start && cell_len(g) == len);
            let ghost before = span_views(out@);
            if len <= n - start {
                let canon = span_canon_chars(new_lines, start, len);
                let (count, first) = count_and_first(old_lines, &canon);
                if count == 1 && utf8_len_of(&canon) >= 6 {
                    if let Some(replacement) = first {
                        let span = WrapSpan { start, len, replacement, canon };
                        let ghost sv = span@;
                        out.push(span);
                        assert(span_views(out@) =~= before.push(sv));
                    }
                }
            }
            assert(span_views(out@) == spans_upto(old, new, g + 1));
            len += 1;
        }
        start += 1;
    }
    out
}

fn uses_of(spans: &Vec<WrapSpan>, c: &Vec<char>) -> (r: usize)
    ensures
        r == uses(span_views(spans@), c@),
{
    let ghost sv = span_views(spans@);
    let mut count: usize = 0;
    let mut i: usize = 0;
    while i < spans.len()
        invariant
            i <= spans.len(),
            sv == span_views(spans@),
            count <= i,
            count == uses(sv.take(i as int), c@),
        decreases spans.len() - i,
    {
        proof {
            let next = sv.take(i + 1);
            assert(next.drop_last() =~= sv.take(i as int));
            assert(next.last() == spans@[i as int]@);
        }
        if chars_eq(&spans[i].canon, c) {
            count += 1;
        }
        i += 1;
    }
    assert(sv.take(spans.len() as int) == sv);
    count
}

/// Puts wrapped old lines back into the new lines of an edit.
pub fn restore_old_wrapped_lines(old_lines: &Vec<Vec<char>>, new_lines: &Vec<Vec<char>>) -> (r:
    Vec<Vec<char>>)
    ensures
        texts(r@) == with_wrapped_restored(texts(old_lines@), texts(new_lines@)),
{
    if old_lines.len() == 0 || new_lines.len() < 2 {
        return copy_lines(new_lines);
    }
    let spans = collect_spans(old_lines, new_lines);
    let ghost sv = span_views(spans@);
    let ghost new = texts(new_lines@);
    let n = new_lines.len();
    let mut out = copy_lines(new_lines);
    let mut t: usize = 0;
    while t < n
        invariant
            t <= n,
            n == new_lines.len(),
            new == texts(new_lines@),
            sv == span_views(spans@),
            forall|i: int|
                0 <= i < spans.len() ==> (#[trigger] spans@[i]).start + spans@[i].len <= n,
            texts(out@) == collapse_from(sv, new, t as nat),
        decreases n - t,
    {
        let s = n - 1 - t;
        let ghost base = texts(out@);
        let mut k: usize = 0;
        while k < spans.len()
            invariant
                k <= spans.len(),
                s < n,
                sv == span_views(spans@),
                forall|i: int|
                    0 <= i < spans.len() ==> (#[trigger] spans@[i]).start + spans@[i].len <= n,
                texts(out@) == collapse_at(sv, base, s as nat, k as nat),
            decreases spans.len() - k,
        {
            let span = &spans[k];
            assert(sv[k as int] == span@);
            if span.start == s && uses_of(&spans, &span.canon) == 1 {
                let mut one: Vec<Vec<char>> = Vec::new();
                one.push(copy_chars(&span.replacement));
                assert(texts(one@) =~= seq![span.replacement@]);
                out = splice_lines(&out, span.start, span.start + span.len, &one);
            }
            k += 1;
        }
        t += 1;
    }
    out
}

} // verus!

//! What holds of the line hash and of the tags, whatever the lines.

use crate::hashline::apply::{run_edit, RunView};
use crate::hashline::edit::EditView;
use crate::hashline::merge::LineSpanView;
use crate::hashline::mismatch::{check_tag, MismatchView};
use crate::hashline::tag::{
    digit, is_marker, is_nibble, lemma_hash_code, lemma_run_end_is, line_hash, line_tag_text,
    marker, parse_tag_spec, tag_shape, tagged_line, tagged_lines, xxhash32, TagShape, TagView,
};
use crate::text::{
    decimal, is_blank, is_digit, is_whitespace, lemma_decimal, strip_cr, strip_whitespace,
    whitespace,
};
use vstd::prelude::*;
use vstd::utf8::encode_utf8;

verus! {

/// Leaving out one trailing carriage return makes no difference once all
/// whitespace is left out.
pub proof fn lemma_strip_cr_is_whitespace(s: Seq<char>)
    ensures
        strip_whitespace(strip_cr(s)) == strip_whitespace(s),
{
    if s.len() > 0 && s.last() == '\r' {
        reveal(Seq::filter);
        assert(is_whitespace('\r'));
    }
}

/// A text of whitespace alone is empty once its whitespace is left out.
pub proof fn lemma_strip_blank(w: Seq<char>)
    requires
        is_blank(w),
    ensures
        strip_whitespace(w) == Seq::<char>::empty(),
    decreases w.len(),
{
    reveal(Seq::filter);
    if w.len() > 0 {
        assert(is_whitespace(w.last()));
        assert(is_blank(w.drop_last())) by {
            assert forall|i: int| 0 <= i < w.drop_last().len() implies is_whitespace(
                #[trigger] w.drop_last()[i],
            ) by {
                assert(w.drop_last()[i] == w[i]);
            }
        }
        lemma_strip_blank(w.drop_last());
    }
}

/// The hash is a function of the line: equal lines have equal hashes.
pub proof fn lemma_hash_deterministic(a: Seq<char>, b: Seq<char>)
    requires
        a == b,
    ensures
        line_hash(a) == line_hash(b),
{
}

/// The hash looks at nothing but what is left of a line once its whitespace
/// is left out: two lines that differ in whitespace alone have one hash.
pub proof fn lemma_hash_ignores_whitespace(a: Seq<char>, b: Seq<char>)
    requires
        strip_whitespace(a) == strip_whitespace(b),
    ensures
        line_hash(a) == line_hash(b),
{
    lemma_strip_cr_is_whitespace(a);
    lemma_strip_cr_is_whitespace(b);
}

/// The hash of a line does not change when whitespace is added at its end.
pub proof fn lemma_hash_ignores_trailing_whitespace(s: Seq<char>, w: Seq<char>)
    requires
        is_blank(w),
    ensures
        line_hash(s + w) == line_hash(s),
{
    lemma_strip_blank(w);
    Seq::filter_distributes_over_add(s, w, |c: char| !is_whitespace(c));
    assert(strip_whitespace(s) + Seq::<char>::empty() =~= strip_whitespace(s));
    lemma_hash_ignores_whitespace(s + w, s);
}

/// A hash is two of the sixteen symbols.
pub proof fn lemma_line_hash_shape(line: Seq<char>)
    ensures
        line_hash(line).len() == 2,
        is_nibble(line_hash(line)[0]),
        is_nibble(line_hash(line)[1]),
{
    let b = (xxhash32(0, encode_utf8(strip_whitespace(strip_cr(line)))) % 256) as nat;
    lemma_hash_code(b);
}

/// The tag that is written for a line reads back as the number and the hash of
/// that line, whatever follows the tag.
pub proof fn lemma_tag_reads_back(n: nat, line: Seq<char>, rest: Seq<char>)
    requires
        1 <= n <= usize::MAX,
    ensures
        parse_tag_spec(line_tag_text(n, line) + rest) == Ok::<TagView, Seq<char>>(
            TagView { line: n, hash: line_hash(line) },
        ),
{
    let digits = decimal(n);
    let hash = line_hash(line);
    let s = line_tag_text(n, line) + rest;
    let d = digits.len() as int;
    lemma_decimal(n);
    lemma_line_hash_shape(line);
    assert(s.len() == d + 3 + rest.len());
    assert forall|j: int| 0 <= j < d implies s[j] == digits[j] by {}
    assert(s[d] == '#');
    assert(s[d + 1] == hash[0]);
    assert(s[d + 2] == hash[1]);
    assert(is_digit(s[0])) by {
        assert(is_digit(digits[0]));
    }
    assert(!is_whitespace(s[0]) && !is_marker(s[0]));
    lemma_run_end_is(s, 0, whitespace(), 0);
    lemma_run_end_is(s, 0, marker(), 0);
    assert forall|j: int| 0 <= j < d implies digit()(#[trigger] s[j]) by {
        assert(is_digit(digits[j]));
    }
    lemma_run_end_is(s, 0, digit(), d);
    assert(!is_whitespace('#'));
    lemma_run_end_is(s, d, whitespace(), d);
    assert(!is_whitespace(s[d + 1]));
    lemma_run_end_is(s, d + 1, whitespace(), d + 1);
    assert(tag_shape(s) == Some(TagShape { digits_from: 0, digits_to: d, hash_from: d + 1 }));
    assert(s.subrange(0, d) =~= digits);
    assert(s.subrange(d + 1, d + 3) =~= hash);
}

/// Round trip: each line of the tagged view of a file, numbered from 1,
/// begins with a tag that reads back and matches the file.
pub proof fn lemma_tag_round_trip(lines: Seq<Seq<char>>, i: int)
    requires
        0 <= i < lines.len(),
        lines.len() <= usize::MAX,
    ensures
        parse_tag_spec(tagged_lines(lines, 1)[i]) == Ok::<TagView, Seq<char>>(
            TagView { line: (i + 1) as nat, hash: line_hash(lines[i]) },
        ),
        check_tag(TagView { line: (i + 1) as nat, hash: line_hash(lines[i]) }, lines) == Ok::<
            Option<MismatchView>,
            crate::hashline::mismatch::HashlineErrorView,
        >(None),
{
    let n = (i + 1) as nat;
    let rest = seq![':'] + lines[i];
    lemma_tag_reads_back(n, lines[i], rest);
    assert(tagged_lines(lines, 1)[i] == tagged_line(n, lines[i]));
    assert(tagged_line(n, lines[i]) =~= line_tag_text(n, lines[i]) + rest);
}

/// An edit either changes the lines or is noted as changing nothing, never
/// both: where it is noted, the lines and the first changed line stay as they
/// were; where it is not, the notes stay as they were.
pub proof fn lemma_noop_changes_nothing(
    st: RunView,
    idx: nat,
    e: EditView,
    original: Seq<Seq<char>>,
    touched: Seq<LineSpanView>,
)
    ensures
        ({
            let after = run_edit(st, idx, e, original, touched);
            ||| (after.noops == st.noops)
            ||| (after.noops.len() == st.noops.len() + 1 && after.noops.last().edit_index == idx
                && after.noops.drop_last() == st.noops && after.lines == st.lines
                && after.first_changed == st.first_changed)
        }),
{
    let after = run_edit(st, idx, e, original, touched);
    if after.noops != st.noops {
        assert(after.noops.drop_last() =~= st.noops);
    }
}

} // verus!

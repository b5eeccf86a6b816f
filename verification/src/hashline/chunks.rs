//! What holds of the chunks of a tagged view: put together, they are the
//! whole view.

use crate::hashline::stream::{chunker_after, hash_line_chunks, ChunkerView};
use crate::hashline::tag::{tagged_line, tagged_lines};
use crate::text::{join, utf8_len};
use vstd::prelude::*;

verus! {

/// The chunks of a chunker, the chunk that is being filled among them.
pub open spec fn all_chunks(st: ChunkerView) -> Seq<Seq<char>> {
    if st.lines.len() > 0 {
        st.closed().chunks
    } else {
        st.chunks
    }
}

/// Joining parts and one more: the parts joined, the separator, and the last.
proof fn lemma_join_push(parts: Seq<Seq<char>>, last: Seq<char>, sep: Seq<char>)
    ensures
        join(parts.push(last), sep) == if parts.len() == 0 {
            last
        } else {
            join(parts, sep) + sep + last
        },
{
    assert(parts.push(last).drop_last() =~= parts);
}

/// After `k` lines the chunks, put together, are the first `k` tagged lines;
/// there are no more chunks than lines; and the chunk that is being filled is
/// neither full nor as long as a chunk may be.
pub proof fn lemma_chunker(
    lines: Seq<Seq<char>>,
    start: nat,
    max_lines: nat,
    max_bytes: nat,
    k: nat,
)
    requires
        k <= lines.len(),
    ensures
        ({
            let st = chunker_after(lines, start, max_lines, max_bytes, k);
            let sep = seq!['\n'];
            &&& join(all_chunks(st), sep) == join(tagged_lines(lines, start).take(k as int), sep)
            &&& all_chunks(st).len() <= k
            &&& k >= 1 ==> all_chunks(st).len() >= 1
            &&& st.lines.len() > 0 ==> st.lines.len() < max_lines && st.bytes < max_bytes
        }),
    decreases k,
{
    let sep = seq!['\n'];
    let tagged = tagged_lines(lines, start);
    if k == 0 {
        assert(tagged.take(0) =~= Seq::<Seq<char>>::empty());
    } else {
        let j = (k - 1) as nat;
        lemma_chunker(lines, start, max_lines, max_bytes, j);
        let prev = chunker_after(lines, start, max_lines, max_bytes, j);
        let st = chunker_after(lines, start, max_lines, max_bytes, k);
        let line = tagged_line((start + k - 1) as nat, lines[k - 1]);
        assert(tagged[k - 1] == line);
        assert(tagged.take(k as int) =~= tagged.take(j as int).push(line));
        lemma_join_push(tagged.take(j as int), line, sep);
        // the chunk being filled is closed first, or not: the chunks stay
        let sep_len: nat = if prev.lines.len() == 0 {
            0
        } else {
            1
        };
        let a = if prev.lines.len() > 0 && (prev.lines.len() >= max_lines || prev.bytes + sep_len
            + utf8_len(line) > max_bytes) {
            prev.closed()
        } else {
            prev
        };
        assert(all_chunks(a) == all_chunks(prev));
        let filled = a.chunks.push(join(a.lines.push(line), sep));
        assert(all_chunks(st) == filled);
        lemma_join_push(a.lines, line, sep);
        lemma_join_push(a.chunks, join(a.lines.push(line), sep), sep);
        if a.lines.len() > 0 {
            lemma_join_push(a.chunks, join(a.lines, sep), sep);
            let x = join(a.lines, sep);
            if a.chunks.len() > 0 {
                assert(join(a.chunks, sep) + sep + (x + sep + line) =~= (join(a.chunks, sep) + sep
                    + x) + sep + line);
            }
        }
    }
}

/// The chunks hold the view: the chunks of a tagged view, joined by line
/// feeds, are the tagged lines joined by line feeds. There is at least one
/// chunk, and there are no more chunks than lines.
pub proof fn lemma_chunks_hold_the_view(
    lines: Seq<Seq<char>>,
    start: nat,
    max_lines: nat,
    max_bytes: nat,
)
    ensures
        ({
            let chunks = hash_line_chunks(lines, start, max_lines, max_bytes);
            let sep = seq!['\n'];
            &&& chunks.len() >= 1
            &&& lines.len() >= 1 ==> chunks.len() <= lines.len() && join(chunks, sep) == join(
                tagged_lines(lines, start),
                sep,
            )
            &&& lines.len() == 0 ==> chunks == seq![tagged_line(start, Seq::empty())]
        }),
{
    if lines.len() > 0 {
        lemma_chunker(lines, start, max_lines, max_bytes, lines.len());
        let tagged = tagged_lines(lines, start);
        assert(tagged.take(lines.len() as int) =~= tagged);
    }
}

/// The bytes of the lines of a chunk, joined by line feeds.
pub open spec fn group_bytes(group: Seq<Seq<char>>) -> nat
    decreases group.len(),
{
    if group.len() == 0 {
        0
    } else {
        group_bytes(group.drop_last()) + (if group.len() > 1 {
            1nat
        } else {
            0nat
        }) + utf8_len(group.last())
    }
}

/// Whether `group` may be the lines of one chunk: it has a line; it has no
/// more lines than a chunk may hold, or one; and it is no longer than a chunk
/// may be, or is a single line.
pub open spec fn is_group(group: Seq<Seq<char>>, max_lines: nat, max_bytes: nat) -> bool {
    &&& group.len() >= 1
    &&& group.len() <= max_lines || group.len() == 1
    &&& group_bytes(group) <= max_bytes || group.len() == 1
}

/// Whether `chunk` is a chunk within the limits: the lines of some group,
/// joined by line feeds.
pub open spec fn is_bounded_chunk(chunk: Seq<char>, max_lines: nat, max_bytes: nat) -> bool {
    exists|group: Seq<Seq<char>>|
        #[trigger] is_group(group, max_lines, max_bytes) && chunk == join(group, seq!['\n'])
}

/// After `k` lines every closed chunk is within the limits, and the chunk
/// that is being filled is below them.
pub proof fn lemma_chunker_bounds(
    lines: Seq<Seq<char>>,
    start: nat,
    max_lines: nat,
    max_bytes: nat,
    k: nat,
)
    requires
        k <= lines.len(),
    ensures
        ({
            let st = chunker_after(lines, start, max_lines, max_bytes, k);
            &&& st.bytes == group_bytes(st.lines)
            &&& st.lines.len() > 0 ==> st.lines.len() < max_lines && st.bytes < max_bytes
            &&& forall|i: int|
                0 <= i < st.chunks.len() ==> is_bounded_chunk(
                    #[trigger] st.chunks[i],
                    max_lines,
                    max_bytes,
                )
        }),
    decreases k,
{
    if k > 0 {
        let j = (k - 1) as nat;
        lemma_chunker_bounds(lines, start, max_lines, max_bytes, j);
        let prev = chunker_after(lines, start, max_lines, max_bytes, j);
        let st = chunker_after(lines, start, max_lines, max_bytes, k);
        let line = tagged_line((start + k - 1) as nat, lines[k - 1]);
        let sep_len: nat = if prev.lines.len() == 0 {
            0
        } else {
            1
        };
        let closes_first = prev.lines.len() > 0 && (prev.lines.len() >= max_lines || prev.bytes
            + sep_len + utf8_len(line) > max_bytes);
        let a = if closes_first {
            prev.closed()
        } else {
            prev
        };
        if closes_first {
            assert(is_group(prev.lines, max_lines, max_bytes));
            assert(is_bounded_chunk(a.chunks[a.chunks.len() - 1], max_lines, max_bytes));
        }
        assert forall|i: int| 0 <= i < a.chunks.len() implies is_bounded_chunk(
            #[trigger] a.chunks[i],
            max_lines,
            max_bytes,
        ) by {
            if i < prev.chunks.len() {
                assert(a.chunks[i] == prev.chunks[i]);
            }
        }
        let filled = a.lines.push(line);
        assert(filled.drop_last() =~= a.lines);
        let bytes = a.bytes + (if a.lines.len() == 0 {
            0nat
        } else {
            1nat
        }) + utf8_len(line);
        assert(a.bytes == group_bytes(a.lines)) by {
            if closes_first {
                assert(a.lines.len() == 0);
            }
        }
        assert(filled.drop_last() == a.lines);
        assert(filled.last() == line);
        assert(filled.len() == a.lines.len() + 1);
        assert(group_bytes(filled) == bytes);
        if filled.len() >= max_lines || bytes >= max_bytes {
            assert(is_group(filled, max_lines, max_bytes));
            assert(st.chunks == a.chunks.push(join(filled, seq!['\n'])));
            assert forall|i: int| 0 <= i < st.chunks.len() implies is_bounded_chunk(
                #[trigger] st.chunks[i],
                max_lines,
                max_bytes,
            ) by {
                if i < a.chunks.len() {
                    assert(st.chunks[i] == a.chunks[i]);
                }
            }
        }
    }
}

/// The chunks keep the limits: each chunk of a tagged view is the lines of a
/// group, joined by line feeds; the group has at most as many lines as a
/// chunk may hold and at most as many bytes as it may have, unless it is a
/// single line.
pub proof fn lemma_chunks_keep_the_limits(
    lines: Seq<Seq<char>>,
    start: nat,
    max_lines: nat,
    max_bytes: nat,
)
    ensures
        forall|i: int|
            0 <= i < hash_line_chunks(lines, start, max_lines, max_bytes).len()
                ==> is_bounded_chunk(
                #[trigger] hash_line_chunks(lines, start, max_lines, max_bytes)[i],
                max_lines,
                max_bytes,
            ),
{
    let chunks = hash_line_chunks(lines, start, max_lines, max_bytes);
    if lines.len() == 0 {
        let only = seq![tagged_line(start, Seq::empty())];
        assert(is_group(only, max_lines, max_bytes));
        assert(join(only, seq!['\n']) == tagged_line(start, Seq::empty()));
        assert(is_bounded_chunk(chunks[0], max_lines, max_bytes));
    } else {
        lemma_chunker_bounds(lines, start, max_lines, max_bytes, lines.len());
        let st = chunker_after(lines, start, max_lines, max_bytes, lines.len());
        if st.lines.len() > 0 {
            assert(is_group(st.lines, max_lines, max_bytes));
            assert(is_bounded_chunk(chunks[chunks.len() - 1], max_lines, max_bytes));
        }
        assert forall|i: int| 0 <= i < chunks.len() implies is_bounded_chunk(
            #[trigger] chunks[i],
            max_lines,
            max_bytes,
        ) by {
            if i < st.chunks.len() {
                assert(chunks[i] == st.chunks[i]);
            }
        }
    }
}

} // verus!

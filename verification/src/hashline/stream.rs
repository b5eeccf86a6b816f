//! The tagged view of a file in chunks of bounded size.

use crate::hashline::tag::{tagged_line, tagged_line_chars};
use crate::text::{
    chars_of, join, join_chars, lines_of_strings, split, split_chars, string_of, string_texts,
    texts, utf8_len,
};
use vstd::prelude::*;
use vstd::string::*;
use vstd::utf8::{decode_utf8, valid_utf8};

verus! {

/// How the tagged view of a file is cut into chunks.
pub struct HashlineStreamOptions {
    /// The number of the first line; 1 where this is `None`.
    pub start_line: Option<usize>,
    /// The most lines that a chunk holds; 200 where this is `None`.
    pub max_chunk_lines: Option<usize>,
    /// The most bytes that a chunk of several lines holds; 64 KiB where this
    /// is `None`.
    pub max_chunk_bytes: Option<usize>,
}

impl Default for HashlineStreamOptions {
    fn default() -> (r: Self)
        ensures
            r.start_line == Some(1usize),
            r.max_chunk_lines == Some(200usize),
            r.max_chunk_bytes == Some(65536usize),
    {
        HashlineStreamOptions {
            start_line: Some(1),
            max_chunk_lines: Some(200),
            max_chunk_bytes: Some(65536),
        }
    }
}

impl HashlineStreamOptions {
    /// The number of the first line.
    pub open spec fn first_line(self) -> nat {
        match self.start_line {
            Some(n) => n as nat,
            None => 1,
        }
    }

    /// The most lines that a chunk holds.
    pub open spec fn line_limit(self) -> nat {
        match self.max_chunk_lines {
            Some(n) => n as nat,
            None => 200,
        }
    }

    /// The most bytes that a chunk of several lines holds.
    pub open spec fn byte_limit(self) -> nat {
        match self.max_chunk_bytes {
            Some(n) => n as nat,
            None => 65536,
        }
    }
}

/// The chunks so far, and the lines of the chunk that is being filled.
pub struct ChunkerView {
    pub chunks: Seq<Seq<char>>,
    pub lines: Seq<Seq<char>>,
    /// The bytes of the lines of the chunk being filled, joined by line feeds.
    pub bytes: nat,
}

impl ChunkerView {
    /// The chunker with the chunk that is being filled closed.
    pub open spec fn closed(self) -> ChunkerView {
        ChunkerView {
            chunks: self.chunks.push(join(self.lines, seq!['\n'])),
            lines: Seq::empty(),
            bytes: 0,
        }
    }

    /// The chunker after one more tagged line: the chunk being filled is closed
    /// first where it is full or the line would make it too long, and after
    /// the line where it is then full or long enough.
    pub open spec fn with_line(self, line: Seq<char>, max_lines: nat, max_bytes: nat) -> ChunkerView {
        let sep: nat = if self.lines.len() == 0 {
            0
        } else {
            1
        };
        let st = if self.lines.len() > 0 && (self.lines.len() >= max_lines || self.bytes + sep
            + utf8_len(line) > max_bytes) {
            self.closed()
        } else {
            self
        };
        let sep2: nat = if st.lines.len() == 0 {
            0
        } else {
            1
        };
        let st2 = ChunkerView {
            chunks: st.chunks,
            lines: st.lines.push(line),
            bytes: st.bytes + sep2 + utf8_len(line),
        };
        if st2.lines.len() >= max_lines || st2.bytes >= max_bytes {
            st2.closed()
        } else {
            st2
        }
    }
}

/// The chunker after the first `k` lines, the first line numbered `start`.
pub open spec fn chunker_after(
    lines: Seq<Seq<char>>,
    start: nat,
    max_lines: nat,
    max_bytes: nat,
    k: nat,
) -> ChunkerView
    decreases k,
{
    if k == 0 {
        ChunkerView { chunks: Seq::empty(), lines: Seq::empty(), bytes: 0 }
    } else {
        chunker_after(lines, start, max_lines, max_bytes, (k - 1) as nat).with_line(
            tagged_line((start + k - 1) as nat, lines[k - 1]),
            max_lines,
            max_bytes,
        )
    }
}

/// The tagged view of `lines` in chunks: each line stands behind its tag, the
/// lines of a chunk are joined by line feeds, and a chunk is closed as soon as
/// it holds the most lines or bytes allowed. No lines at all give one chunk,
/// the tag of an empty first line.
pub open spec fn hash_line_chunks(
    lines: Seq<Seq<char>>,
    start: nat,
    max_lines: nat,
    max_bytes: nat,
) -> Seq<Seq<char>> {
    if lines.len() == 0 {
        seq![tagged_line(start, Seq::empty())]
    } else {
        let st = chunker_after(lines, start, max_lines, max_bytes, lines.len());
        if st.lines.len() > 0 {
            st.closed().chunks
        } else {
            st.chunks
        }
    }
}

fn joined(lines: &Vec<Vec<char>>) -> (r: String)
    ensures
        r@ == join(texts(lines@), seq!['\n']),
{
    let mut sep: Vec<char> = Vec::new();
    sep.push('\n');
    assert(sep@ =~= seq!['\n']);
    string_of(&join_chars(lines, &sep))
}

fn chunk_lines(lines: &Vec<Vec<char>>, start: usize, max_lines: usize, max_bytes: usize) -> (r: Vec<
    String,
>)
    ensures
        string_texts(r@) == hash_line_chunks(
            texts(lines@),
            start as nat,
            max_lines as nat,
            max_bytes as nat,
        ),
{
    let ghost ls = texts(lines@);
    let mut chunks: Vec<String> = Vec::new();
    if lines.len() == 0 {
        let empty: Vec<char> = Vec::new();
        chunks.push(string_of(&tagged_line_chars(start as u128, &empty)));
        assert(string_texts(chunks@) =~= seq![tagged_line(start as nat, Seq::empty())]);
        return chunks;
    }
    let mut pending: Vec<Vec<char>> = Vec::new();
    let mut bytes: usize = 0;
    let mut k: usize = 0;
    assert(string_texts(chunks@) =~= Seq::<Seq<char>>::empty());
    assert(texts(pending@) =~= Seq::<Seq<char>>::empty());
    while k < lines.len()
        invariant
            k <= lines.len(),
            ls == texts(lines@),
            chunker_after(ls, start as nat, max_lines as nat, max_bytes as nat, k as nat) == (
            ChunkerView {
                chunks: string_texts(chunks@),
                lines: texts(pending@),
                bytes: bytes as nat,
            }),
        decreases lines.len() - k,
    {
        assert(ls[k as int] == lines@[k as int]@);
        let formatted = tagged_line_chars(start as u128 + k as u128, &lines[k]);
        let text = string_of(&formatted);
        let line_bytes: usize = text.as_str().len();
        assert(line_bytes == utf8_len(formatted@));
        let sep: u128 = if pending.len() == 0 {
            0
        } else {
            1
        };
        assert(texts(pending@).len() == pending.len());
        if pending.len() > 0 && (pending.len() >= max_lines || bytes as u128 + sep
            + line_bytes as u128 > max_bytes as u128) {
            let ghost before = string_texts(chunks@);
            chunks.push(joined(&pending));
            assert(string_texts(chunks@) =~= before.push(join(texts(pending@), seq!['\n'])));
            pending = Vec::new();
            assert(texts(pending@) =~= Seq::<Seq<char>>::empty());
            bytes = 0;
        }
        let sep2: usize = if pending.len() == 0 {
            0
        } else {
            1
        };
        assert(texts(pending@).len() == pending.len());
        bytes = bytes + sep2 + line_bytes;
        let ghost before_lines = texts(pending@);
        pending.push(formatted);
        assert(texts(pending@) =~= before_lines.push(formatted@));
        if pending.len() >= max_lines || bytes >= max_bytes {
            let ghost before = string_texts(chunks@);
            chunks.push(joined(&pending));
            assert(string_texts(chunks@) =~= before.push(join(texts(pending@), seq!['\n'])));
            pending = Vec::new();
            assert(texts(pending@) =~= Seq::<Seq<char>>::empty());
            bytes = 0;
        }
        k += 1;
    }
    assert(texts(pending@).len() == pending.len());
    if pending.len() > 0 {
        let ghost before = string_texts(chunks@);
        chunks.push(joined(&pending));
        assert(string_texts(chunks@) =~= before.push(join(texts(pending@), seq!['\n'])));
    }
    chunks
}

/// The tagged view of `lines`, in chunks.
pub fn stream_hash_lines_from_lines(lines: Vec<String>, options: HashlineStreamOptions) -> (r: Vec<
    String,
>)
    ensures
        string_texts(r@) == hash_line_chunks(
            string_texts(lines@),
            options.first_line(),
            options.line_limit(),
            options.byte_limit(),
        ),
{
    let start = match options.start_line {
        Some(n) => n,
        None => 1,
    };
    let max_lines = match options.max_chunk_lines {
        Some(n) => n,
        None => 200,
    };
    let max_bytes = match options.max_chunk_bytes {
        Some(n) => n,
        None => 65536,
    };
    let ls = lines_of_strings(&lines);
    chunk_lines(&ls, start, max_lines, max_bytes)
}

/// The text that `String::from_utf8_lossy` reads from bytes.
pub uninterp spec fn utf8_lossy(bytes: Seq<u8>) -> Seq<char>;

/// `String::from_utf8_lossy`: the text is a function of the bytes alone, and
/// valid UTF-8 is read as it is; what stands for invalid bytes is not
/// described.
#[verifier::external_body]
fn from_utf8_lossy(bytes: &[u8]) -> (r: String)
    ensures
        r@ == utf8_lossy(bytes@),
        valid_utf8(bytes@) ==> r@ == decode_utf8(bytes@),
{
    String::from_utf8_lossy(bytes).into_owned()
}

/// The tagged view, in chunks, of the lines of a text given as bytes. The
/// text is split at its line feeds.
pub fn stream_hash_lines_from_utf8(source: &[u8], options: HashlineStreamOptions) -> (r: Vec<String>)
    ensures
        string_texts(r@) == hash_line_chunks(
            split(utf8_lossy(source@), '\n'),
            options.first_line(),
            options.line_limit(),
            options.byte_limit(),
        ),
        valid_utf8(source@) ==> utf8_lossy(source@) == decode_utf8(source@),
{
    let content = from_utf8_lossy(source);
    let text = chars_of(content.as_str());
    let ls = split_chars(&text, '\n');
    let start = match options.start_line {
        Some(n) => n,
        None => 1,
    };
    let max_lines = match options.max_chunk_lines {
        Some(n) => n,
        None => 200,
    };
    let max_bytes = match options.max_chunk_bytes {
        Some(n) => n,
        None => 65536,
    };
    chunk_lines(&ls, start, max_lines, max_bytes)
}

} // verus!

//! What can be wrong with a hashline patch, and the check of one tag against
//! the lines of a file.

use crate::hashline::tag::{
    line_hash, line_hash_chars, tagged_line, tagged_line_chars, LineTag, TagView,
};
use crate::text::{
    append_chars, chars_eq, chars_of, decimal, decimal_chars, string_of, string_texts,
};
use vstd::prelude::*;

verus! {

/// A tag whose hash is not the hash of the line it names.
#[derive(Debug, Clone, PartialEq, Eq)]
pub struct HashMismatch {
    pub line: usize,
    pub expected: String,
    pub actual: String,
}

/// What a `HashMismatch` stands for.
pub struct MismatchView {
    pub line: nat,
    pub expected: Seq<char>,
    pub actual: Seq<char>,
}

impl View for HashMismatch {
    type V = MismatchView;

    open spec fn view(&self) -> MismatchView {
        MismatchView { line: self.line as nat, expected: self.expected@, actual: self.actual@ }
    }
}

/// The views of a list of mismatches.
pub open spec fn mismatch_views(v: Seq<HashMismatch>) -> Seq<MismatchView> {
    v.map_values(|m: HashMismatch| m@)
}

/// The tags of a patch that did not match, with the lines of the file as they
/// were when the patch was checked.
#[derive(Debug)]
pub struct HashlineMismatchError {
    pub mismatches: Vec<HashMismatch>,
    pub file_lines: Vec<String>,
}

/// What a `HashlineMismatchError` stands for.
pub struct MismatchErrorView {
    pub mismatches: Seq<MismatchView>,
    pub file_lines: Seq<Seq<char>>,
}

impl View for HashlineMismatchError {
    type V = MismatchErrorView;

    open spec fn view(&self) -> MismatchErrorView {
        MismatchErrorView {
            mismatches: mismatch_views(self.mismatches@),
            file_lines: string_texts(self.file_lines@),
        }
    }
}

/// Why a hashline patch was not applied.
#[derive(Debug)]
pub enum HashlineError {
    /// A tag names a line that the file has not.
    OutOfRange { line: usize, len: usize },
    /// An `Append` has no content.
    EmptyInsertAfter,
    /// A `Prepend` has no content.
    EmptyInsertBefore,
    /// An `Insert` has no content.
    EmptyInsertBetween,
    /// The second anchor of an `Insert` does not stand below the first.
    InsertOrder { after: usize, before: usize },
    /// The first line of a `Replace` stands below its last.
    InvertedRange { first: usize, last: usize },
    /// One or more tags do not match the file.
    HashMismatch(HashlineMismatchError),
}

/// What a `HashlineError` stands for.
pub enum HashlineErrorView {
    OutOfRange { line: nat, len: nat },
    EmptyInsertAfter,
    EmptyInsertBefore,
    EmptyInsertBetween,
    InsertOrder { after: nat, before: nat },
    InvertedRange { first: nat, last: nat },
    HashMismatch(MismatchErrorView),
}

impl View for HashlineError {
    type V = HashlineErrorView;

    open spec fn view(&self) -> HashlineErrorView {
        match *self {
            HashlineError::OutOfRange { line, len } => HashlineErrorView::OutOfRange {
                line: line as nat,
                len: len as nat,
            },
            HashlineError::EmptyInsertAfter => HashlineErrorView::EmptyInsertAfter,
            HashlineError::EmptyInsertBefore => HashlineErrorView::EmptyInsertBefore,
            HashlineError::EmptyInsertBetween => HashlineErrorView::EmptyInsertBetween,
            HashlineError::InsertOrder { after, before } => HashlineErrorView::InsertOrder {
                after: after as nat,
                before: before as nat,
            },
            HashlineError::InvertedRange { first, last } => HashlineErrorView::InvertedRange {
                first: first as nat,
                last: last as nat,
            },
            HashlineError::HashMismatch(e) => HashlineErrorView::HashMismatch(e@),
        }
    }
}

// ---------------------------------------------------------------------------
// The report of a mismatch
// ---------------------------------------------------------------------------

/// Whether line `n` stands within two lines of line `m`, in a file of `len` lines.
pub open spec fn near(m: nat, n: nat, len: nat) -> bool {
    let lo = if m > 2 {
        m - 2
    } else {
        1
    };
    let hi = if m + 2 > len {
        len
    } else {
        m + 2
    };
    lo <= n <= hi
}

impl MismatchErrorView {
    /// Whether the report shows line `n`: it stands within two lines of a mismatch.
    pub open spec fn shows(self, n: nat) -> bool {
        exists|i: int|
            0 <= i < self.mismatches.len() && near(
                (#[trigger] self.mismatches[i]).line,
                n,
                self.file_lines.len(),
            )
    }

    /// Whether a mismatch names line `n`.
    pub open spec fn marks(self, n: nat) -> bool {
        exists|i: int| 0 <= i < self.mismatches.len() && (#[trigger] self.mismatches[i]).line == n
    }

    /// Whether the report shows a line above line `n`.
    pub open spec fn shows_above(self, n: nat) -> bool {
        exists|m: nat| 1 <= m < n && #[trigger] self.shows(m)
    }

    /// The row of line `n`: `>>> ` before a line that a mismatch names and four
    /// spaces before any other, then the line behind its current tag.
    pub open spec fn row(self, n: nat) -> Seq<char> {
        (if self.marks(n) {
            ">>> "@
        } else {
            "    "@
        }) + tagged_line(n, self.file_lines[n - 1]) + "\n"@
    }

    /// The rows of the shown lines among the first `n`, a row of dots wherever
    /// lines are left out between two of them.
    pub open spec fn rows(self, n: nat) -> Seq<char>
        decreases n,
    {
        if n == 0 {
            Seq::empty()
        } else {
            let above = self.rows((n - 1) as nat);
            if self.shows(n) {
                let gap = if self.shows_above(n) && !self.shows((n - 1) as nat) {
                    "    ...\n"@
                } else {
                    Seq::empty()
                };
                above + gap + self.row(n)
            } else {
                above
            }
        }
    }

    /// The report: how many lines changed, then the rows.
    pub open spec fn message(self) -> Seq<char> {
        decimal(self.mismatches.len()) + " line"@ + (if self.mismatches.len() > 1 {
            "s have"@
        } else {
            " has"@
        })
            + " changed since last read. Use the updated LINE#ID references shown below (>>> marks changed lines).\n\n"@
            + self.rows(self.file_lines.len())
    }
}

impl HashlineMismatchError {
    fn shows_line(&self, n: usize) -> (r: bool)
        ensures
            r == self@.shows(n as nat),
    {
        let len = self.file_lines.len();
        let mut i: usize = 0;
        while i < self.mismatches.len()
            invariant
                i <= self.mismatches.len(),
                len == self.file_lines.len(),
                forall|j: int|
                    0 <= j < i ==> !near(
                        (#[trigger] self@.mismatches[j]).line,
                        n as nat,
                        len as nat,
                    ),
            decreases self.mismatches.len() - i,
        {
            let m = self.mismatches[i].line;
            assert(self@.mismatches[i as int].line == m);
            let lo = if m > 2 {
                m - 2
            } else {
                1
            };
            let hi = if m >= len || len - m < 2 {
                len
            } else {
                m + 2
            };
            if lo <= n && n <= hi {
                return true;
            }
            i += 1;
        }
        false
    }

    fn marks_line(&self, n: usize) -> (r: bool)
        ensures
            r == self@.marks(n as nat),
    {
        let mut i: usize = 0;
        while i < self.mismatches.len()
            invariant
                i <= self.mismatches.len(),
                forall|j: int| 0 <= j < i ==> (#[trigger] self@.mismatches[j]).line != n,
            decreases self.mismatches.len() - i,
        {
            assert(self@.mismatches[i as int].line == self.mismatches[i as int].line);
            if self.mismatches[i].line == n {
                return true;
            }
            i += 1;
        }
        false
    }

    /// The report for the reader: the lines near each mismatch behind their
    /// current tags, the mismatched ones marked.
    pub fn message(&self) -> (r: String)
        ensures
            r@ == self@.message(),
    {
        let mut out = decimal_chars(self.mismatches.len());
        append_chars(&mut out, &chars_of(" line"));
        if self.mismatches.len() > 1 {
            append_chars(&mut out, &chars_of("s have"));
        } else {
            append_chars(&mut out, &chars_of(" has"));
        }
        append_chars(
            &mut out,
            &chars_of(
                " changed since last read. Use the updated LINE#ID references shown below (>>> marks changed lines).\n\n",
            ),
        );
        let ghost head = out@;
        let len = self.file_lines.len();
        let mut shown_above = false;
        let mut shown_last = false;
        let mut n: usize = 0;
        assert(head + self@.rows(0) =~= head);
        assert(!self@.shows(0)) by {
            assert forall|m: nat| !near(m, 0, len as nat) by {}
        }
        while n < len
            invariant
                n <= len,
                len == self.file_lines.len(),
                out@ == head + self@.rows(n as nat),
                shown_last == self@.shows(n as nat),
                shown_above == self@.shows_above((n + 1) as nat),
            decreases len - n,
        {
            let line_no = n + 1;
            let shown = self.shows_line(line_no);
            let ghost before = out@;
            if shown {
                if shown_above && !shown_last {
                    append_chars(&mut out, &chars_of("    ...\n"));
                }
                if self.marks_line(line_no) {
                    append_chars(&mut out, &chars_of(">>> "));
                } else {
                    append_chars(&mut out, &chars_of("    "));
                }
                let text = chars_of(self.file_lines[n].as_str());
                assert(self@.file_lines[line_no - 1] == text@);
                append_chars(&mut out, &tagged_line_chars(line_no as u128, &text));
                append_chars(&mut out, &chars_of("\n"));
            }
            proof {
                let e = self@;
                let k = line_no as nat;
                assert((k - 1) as nat == n as nat);
                if shown {
                    let gap = if e.shows_above(k) && !e.shows(n as nat) {
                        "    ...\n"@
                    } else {
                        Seq::<char>::empty()
                    };
                    assert(out@ =~= head + (e.rows(n as nat) + gap + e.row(k)));
                }
                // lines above k + 1 are those above k, and k itself
                assert(e.shows_above((k + 1) as nat) == (e.shows_above(k) || e.shows(k))) by {
                    if e.shows_above(k) {
                        let m = choose|m: nat| 1 <= m < k && #[trigger] e.shows(m);
                        assert(1 <= m < k + 1 && e.shows(m));
                    }
                    if e.shows(k) {
                        assert(1 <= k < k + 1 && e.shows(k));
                    }
                    if e.shows_above((k + 1) as nat) {
                        let m = choose|m: nat| 1 <= m < k + 1 && #[trigger] e.shows(m);
                        if m < k {
                            assert(1 <= m < k && e.shows(m));
                        }
                    }
                }
            }
            shown_above = shown_above || shown;
            shown_last = shown;
            n += 1;
        }
        string_of(&out)
    }
}

impl HashlineErrorView {
    /// The message of the error.
    pub open spec fn message(self) -> Seq<char> {
        match self {
            HashlineErrorView::OutOfRange { line, len } => "Line "@ + decimal(line)
                + " does not exist (file has "@ + decimal(len) + " lines)"@,
            HashlineErrorView::EmptyInsertAfter => "Insert-after edit requires non-empty dst"@,
            HashlineErrorView::EmptyInsertBefore => "Insert-before edit requires non-empty dst"@,
            HashlineErrorView::EmptyInsertBetween => "Insert-between edit requires non-empty dst"@,
            HashlineErrorView::InsertOrder { after, before } => "insert requires after ("@
                + decimal(after) + ") < before ("@ + decimal(before) + ")"@,
            HashlineErrorView::InvertedRange { first, last } => "Range start line "@ + decimal(
                first,
            ) + " must be <= end line "@ + decimal(last),
            HashlineErrorView::HashMismatch(e) => e.message(),
        }
    }
}

impl HashlineError {
    /// The message of the error, for the reader.
    pub fn message(&self) -> (r: String)
        ensures
            r@ == self@.message(),
    {
        match self {
            HashlineError::OutOfRange { line, len } => {
                let mut out = chars_of("Line ");
                append_chars(&mut out, &decimal_chars(*line));
                append_chars(&mut out, &chars_of(" does not exist (file has "));
                append_chars(&mut out, &decimal_chars(*len));
                append_chars(&mut out, &chars_of(" lines)"));
                string_of(&out)
            },
            HashlineError::EmptyInsertAfter => string_of(
                &chars_of("Insert-after edit requires non-empty dst"),
            ),
            HashlineError::EmptyInsertBefore => string_of(
                &chars_of("Insert-before edit requires non-empty dst"),
            ),
            HashlineError::EmptyInsertBetween => string_of(
                &chars_of("Insert-between edit requires non-empty dst"),
            ),
            HashlineError::InsertOrder { after, before } => {
                let mut out = chars_of("insert requires after (");
                append_chars(&mut out, &decimal_chars(*after));
                append_chars(&mut out, &chars_of(") < before ("));
                append_chars(&mut out, &decimal_chars(*before));
                append_chars(&mut out, &chars_of(")"));
                string_of(&out)
            },
            HashlineError::InvertedRange { first, last } => {
                let mut out = chars_of("Range start line ");
                append_chars(&mut out, &decimal_chars(*first));
                append_chars(&mut out, &chars_of(" must be <= end line "));
                append_chars(&mut out, &decimal_chars(*last));
                string_of(&out)
            },
            HashlineError::HashMismatch(e) => e.message(),
        }
    }
}

// ---------------------------------------------------------------------------
// The check of one tag
// ---------------------------------------------------------------------------

/// The check of one tag against the lines of a file: an error where the file
/// has no such line, a mismatch where the line's hash is not the tag's, and
/// nothing where the tag matches.
pub open spec fn check_tag(tag: TagView, lines: Seq<Seq<char>>) -> Result<
    Option<MismatchView>,
    HashlineErrorView,
> {
    if tag.line < 1 || tag.line > lines.len() {
        Err(HashlineErrorView::OutOfRange { line: tag.line, len: lines.len() })
    } else {
        let actual = line_hash(lines[tag.line - 1]);
        if actual == tag.hash {
            Ok(None)
        } else {
            Ok(Some(MismatchView { line: tag.line, expected: tag.hash, actual }))
        }
    }
}

/// The outcome of validating one tag alone.
pub open spec fn validate_line_ref_spec(tag: TagView, lines: Seq<Seq<char>>) -> Result<
    (),
    HashlineErrorView,
> {
    match check_tag(tag, lines) {
        Err(e) => Err(e),
        Ok(None) => Ok(()),
        Ok(Some(m)) => Err(
            HashlineErrorView::HashMismatch(
                MismatchErrorView { mismatches: seq![m], file_lines: lines },
            ),
        ),
    }
}

/// What the outcome of a check stands for.
pub open spec fn check_view(r: Result<Option<HashMismatch>, HashlineError>) -> Result<
    Option<MismatchView>,
    HashlineErrorView,
> {
    match r {
        Ok(Some(m)) => Ok(Some(m@)),
        Ok(None) => Ok(None),
        Err(e) => Err(e@),
    }
}

/// Checks `tag` against `lines`.
pub fn check_tag_chars(tag: &LineTag, lines: &Vec<Vec<char>>) -> (r: Result<
    Option<HashMismatch>,
    HashlineError,
>)
    ensures
        check_view(r) == check_tag(tag@, crate::text::texts(lines@)),
{
    if tag.line < 1 || tag.line > lines.len() {
        return Err(HashlineError::OutOfRange { line: tag.line, len: lines.len() });
    }
    let actual = line_hash_chars(&lines[tag.line - 1]);
    assert(crate::text::texts(lines@)[tag.line - 1] == lines@[tag.line - 1]@);
    let expected = chars_of(tag.hash.as_str());
    if chars_eq(&actual, &expected) {
        Ok(None)
    } else {
        Ok(
            Some(
                HashMismatch {
                    line: tag.line,
                    expected: tag.hash.clone(),
                    actual: string_of(&actual),
                },
            ),
        )
    }
}

/// Validates one tag against the lines of a file: the line must exist, and its
/// hash must be the tag's.
pub fn validate_line_ref(tag: &LineTag, file_lines: &Vec<String>) -> (r: Result<(), HashlineError>)
    ensures
        match r {
            Ok(()) => validate_line_ref_spec(tag@, string_texts(file_lines@)) is Ok,
            Err(e) => validate_line_ref_spec(tag@, string_texts(file_lines@)) == Err::<
                (),
                HashlineErrorView,
            >(e@),
        },
{
    let lines = crate::text::lines_of_strings(file_lines);
    match check_tag_chars(tag, &lines) {
        Err(e) => Err(e),
        Ok(None) => Ok(()),
        Ok(Some(m)) => {
            let mut mismatches: Vec<HashMismatch> = Vec::new();
            let ghost mv = m@;
            mismatches.push(m);
            assert(mismatch_views(mismatches@) =~= seq![mv]);
            let snapshot = crate::text::strings_of_lines(&lines);
            Err(
                HashlineError::HashMismatch(
                    HashlineMismatchError { mismatches, file_lines: snapshot },
                ),
            )
        },
    }
}

} // verus!

//! Line-tagged edits: a line is named by its number and a two-character hash
//! of its text, and an edit is applied only where its tags still match.

pub mod apply;
pub mod chunks;
pub mod edit;
pub mod fix;
pub mod laws;
pub mod merge;
pub mod mismatch;
pub mod order;
pub mod reorder;
pub mod stream;
pub mod tag;
pub mod wrap;

pub use apply::{apply_hashline_edits, ApplyHashlineResult, NoopEdit};
pub use edit::{parse_edit, HashlineEdit};
pub use mismatch::{
    validate_line_ref, HashMismatch, HashlineError, HashlineMismatchError,
};
pub use stream::{
    stream_hash_lines_from_lines, stream_hash_lines_from_utf8, HashlineStreamOptions,
};
pub use tag::{
    compute_line_hash, format_hash_lines, format_line_tag, parse_tag, LineTag,
};

//! Applying the file changes that a text asks for.
//!
//! A text may hold a block of directives: files to write, to patch, to move
//! and to delete. [`extract_file_changes`] reads the block. A patch may be
//! loose, its hunks without line numbers and with context that is only nearly
//! that of the file: [`patch_completer`] finds each hunk in the file and writes
//! it as an exact unified-diff hunk, and [`apply_patch`] applies the result. A
//! file may also be edited line by line, each line named by its number and a
//! short hash of its text: [`hashline`] checks the hashes and runs the edits.
//! [`applier`] decides, for each directive, what is to be written, and
//! [`fs_guard`] keeps every path within its base directory.
//!
//! Nothing here touches the file system: what is read is handed in, and what
//! is to be written is handed back.

pub mod applier;
pub mod apply_changes_info;
pub mod error;
pub mod extract;
pub mod file_changes;
pub mod file_directives;
pub mod files_context;
pub mod fs_guard;
pub mod hashline;
pub mod patch_completer;
pub mod text;

pub use applier::apply_patch;
pub use apply_changes_info::{ApplyChangesInfo, DirectiveInfo, DirectiveKind};
pub use error::{Error, PathAndCause};
pub use extract::extract_file_changes;
pub use file_changes::FileChanges;
pub use file_directives::{CodeFence, Content, FileDirective};
pub use files_context::format_files_context;
pub use fs_guard::{check_for_read, check_for_write};
pub use hashline::{apply_hashline_edits, HashlineEdit, LineTag};
pub use patch_completer::{complete, MatchTier};

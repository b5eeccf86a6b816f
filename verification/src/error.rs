//! The errors of this crate. Each carries what it speaks of, and gives its
//! message as a string.

use crate::hashline::mismatch::{HashlineError, HashlineErrorView};
use crate::text::{
    append_chars, chars_of, join, join_chars, lines_of_strings, string_of, string_texts,
};
use vstd::prelude::*;

verus! {

/// A path, and why an operation on it failed.
#[derive(Debug, Clone)]
pub struct PathAndCause {
    pub path: String,
    pub cause: String,
}

/// What a `PathAndCause` stands for.
pub struct PathAndCauseView {
    pub path: Seq<char>,
    pub cause: Seq<char>,
}

impl View for PathAndCause {
    type V = PathAndCauseView;

    open spec fn view(&self) -> PathAndCauseView {
        PathAndCauseView { path: self.path@, cause: self.cause@ }
    }
}

impl PathAndCauseView {
    /// `path, cause: cause`.
    pub open spec fn message(self) -> Seq<char> {
        self.path + ", cause: "@ + self.cause
    }
}

/// Why an operation of this crate failed.
#[derive(Debug)]
pub enum Error {
    /// A message and nothing else.
    Custom(String),
    /// A directive lacks an attribute that its tag requires.
    ParseMissingAttribute { tag: String, attr: String },
    /// A directive has a tag that is none of the known ones.
    ParseUnknownDirectiveTag { tag: String },
    /// The path that an operation was to work on does not exist.
    ApplyPathNotFound { op: String, path: String },
    /// A directive would leave its file as it is.
    ApplyNoChanges { path: String },
    /// A path leads out of the directory that it must stay in.
    SecurityViolation { target: String, base_dir: String },
    /// The completed patch could not be read as a unified diff.
    DiffyParsePatch { path: String, cause: String },
    /// The completed patch could not be applied.
    DiffyApplyPatch { path: String, cause: String },
    /// The context of a hunk was not found in the file.
    PatchCompletion { reason: String, context_pattern: Vec<String> },
    /// A hashline patch was not applied.
    Hashline(HashlineError),
    IoReadFile(PathAndCause),
    IoCreateFile(PathAndCause),
    IoWriteFile(PathAndCause),
    IoRenamePath { from_path: String, to_path: String, cause: String },
    IoDeleteFile(PathAndCause),
    IoDeleteDirAll(PathAndCause),
    /// A failure of the file-system layer.
    SimpleFs { cause: String },
}

/// What an `Error` stands for.
pub enum ErrorView {
    Custom(Seq<char>),
    ParseMissingAttribute { tag: Seq<char>, attr: Seq<char> },
    ParseUnknownDirectiveTag { tag: Seq<char> },
    ApplyPathNotFound { op: Seq<char>, path: Seq<char> },
    ApplyNoChanges { path: Seq<char> },
    SecurityViolation { target: Seq<char>, base_dir: Seq<char> },
    DiffyParsePatch { path: Seq<char>, cause: Seq<char> },
    DiffyApplyPatch { path: Seq<char>, cause: Seq<char> },
    PatchCompletion { reason: Seq<char>, context_pattern: Seq<Seq<char>> },
    Hashline(HashlineErrorView),
    IoReadFile(PathAndCauseView),
    IoCreateFile(PathAndCauseView),
    IoWriteFile(PathAndCauseView),
    IoRenamePath { from_path: Seq<char>, to_path: Seq<char>, cause: Seq<char> },
    IoDeleteFile(PathAndCauseView),
    IoDeleteDirAll(PathAndCauseView),
    SimpleFs { cause: Seq<char> },
}

impl View for Error {
    type V = ErrorView;

    open spec fn view(&self) -> ErrorView {
        match *self {
            Error::Custom(m) => ErrorView::Custom(m@),
            Error::ParseMissingAttribute { tag, attr } => ErrorView::ParseMissingAttribute {
                tag: tag@,
                attr: attr@,
            },
            Error::ParseUnknownDirectiveTag { tag } => ErrorView::ParseUnknownDirectiveTag {
                tag: tag@,
            },
            Error::ApplyPathNotFound { op, path } => ErrorView::ApplyPathNotFound {
                op: op@,
                path: path@,
            },
            Error::ApplyNoChanges { path } => ErrorView::ApplyNoChanges { path: path@ },
            Error::SecurityViolation { target, base_dir } => ErrorView::SecurityViolation {
                target: target@,
                base_dir: base_dir@,
            },
            Error::DiffyParsePatch { path, cause } => ErrorView::DiffyParsePatch {
                path: path@,
                cause: cause@,
            },
            Error::DiffyApplyPatch { path, cause } => ErrorView::DiffyApplyPatch {
                path: path@,
                cause: cause@,
            },
            Error::PatchCompletion { reason, context_pattern } => ErrorView::PatchCompletion {
                reason: reason@,
                context_pattern: string_texts(context_pattern@),
            },
            Error::Hashline(e) => ErrorView::Hashline(e@),
            Error::IoReadFile(p) => ErrorView::IoReadFile(p@),
            Error::IoCreateFile(p) => ErrorView::IoCreateFile(p@),
            Error::IoWriteFile(p) => ErrorView::IoWriteFile(p@),
            Error::IoRenamePath { from_path, to_path, cause } => ErrorView::IoRenamePath {
                from_path: from_path@,
                to_path: to_path@,
                cause: cause@,
            },
            Error::IoDeleteFile(p) => ErrorView::IoDeleteFile(p@),
            Error::IoDeleteDirAll(p) => ErrorView::IoDeleteDirAll(p@),
            Error::SimpleFs { cause } => ErrorView::SimpleFs { cause: cause@ },
        }
    }
}

impl ErrorView {
    /// The message of the error.
    pub open spec fn message(self) -> Seq<char> {
        match self {
            ErrorView::Custom(m) => m,
            ErrorView::ParseMissingAttribute { tag, attr } => "Missing attribute '"@ + attr
                + "' for tag '"@ + tag + "'"@,
            ErrorView::ParseUnknownDirectiveTag { tag } => "Unknown directive tag '"@ + tag + "'"@,
            ErrorView::ApplyPathNotFound { op, path } => "Path not found for "@ + op + ": "@ + path,
            ErrorView::ApplyNoChanges { path } => "No changes applied to: "@ + path,
            ErrorView::SecurityViolation { target, base_dir } => "Security violation, target '"@
                + target + "' is outside base dir '"@ + base_dir + "'"@,
            ErrorView::DiffyParsePatch { path, cause } => "diffy parse patch error: "@ + cause,
            ErrorView::DiffyApplyPatch { path, cause } => "diffy apply patch error: "@ + cause,
            ErrorView::PatchCompletion { reason, context_pattern } => "patch completion error: "@
                + reason + "\nContext lines:\n"@ + join(context_pattern, seq!['\n']),
            ErrorView::Hashline(e) => e.message(),
            ErrorView::IoReadFile(p) => "Read file failed: "@ + p.message(),
            ErrorView::IoCreateFile(p) => "Create file failed: "@ + p.message(),
            ErrorView::IoWriteFile(p) => "Write file failed: "@ + p.message(),
            ErrorView::IoRenamePath { from_path, to_path, cause } => "Rename path failed: "@
                + from_path + " -> "@ + to_path + ", cause: "@ + cause,
            ErrorView::IoDeleteFile(p) => "Delete file failed: "@ + p.message(),
            ErrorView::IoDeleteDirAll(p) => "Delete dir failed: "@ + p.message(),
            ErrorView::SimpleFs { cause } => "simple_fs error: "@ + cause,
        }
    }
}

/// The pieces of a message put together.
fn concat3(a: &str, b: &str, c: &str) -> (r: String)
    ensures
        r@ == a@ + b@ + c@,
{
    let mut out = chars_of(a);
    append_chars(&mut out, &chars_of(b));
    append_chars(&mut out, &chars_of(c));
    string_of(&out)
}

fn concat2(a: &str, b: &str) -> (r: String)
    ensures
        r@ == a@ + b@,
{
    let mut out = chars_of(a);
    append_chars(&mut out, &chars_of(b));
    string_of(&out)
}

fn copy_str(s: &str) -> (r: String)
    ensures
        r@ == s@,
{
    string_of(&chars_of(s))
}

impl PathAndCause {
    /// A path and the cause of a failure on it.
    pub fn new(path: &str, cause: &str) -> (r: PathAndCause)
        ensures
            r@ == (PathAndCauseView { path: path@, cause: cause@ }),
    {
        PathAndCause { path: copy_str(path), cause: copy_str(cause) }
    }

    /// `path, cause: cause`.
    pub fn message(&self) -> (r: String)
        ensures
            r@ == self@.message(),
    {
        concat3(self.path.as_str(), ", cause: ", self.cause.as_str())
    }
}

impl Error {
    /// An error that is a message and nothing else.
    pub fn custom(message: &str) -> (r: Error)
        ensures
            r@ == ErrorView::Custom(message@),
    {
        Error::Custom(copy_str(message))
    }

    /// The error of a tag `tag` without its attribute `attr`.
    pub fn parse_missing_attribute(tag: &str, attr: &str) -> (r: Error)
        ensures
            r@ == (ErrorView::ParseMissingAttribute { tag: tag@, attr: attr@ }),
    {
        Error::ParseMissingAttribute { tag: copy_str(tag), attr: copy_str(attr) }
    }

    /// The error of a tag that is no directive.
    pub fn parse_unknown_directive_tag(tag: &str) -> (r: Error)
        ensures
            r@ == (ErrorView::ParseUnknownDirectiveTag { tag: tag@ }),
    {
        Error::ParseUnknownDirectiveTag { tag: copy_str(tag) }
    }

    /// The error of the operation `op` on a path that does not exist.
    pub fn apply_path_not_found(op: &str, path: &str) -> (r: Error)
        ensures
            r@ == (ErrorView::ApplyPathNotFound { op: op@, path: path@ }),
    {
        Error::ApplyPathNotFound { op: copy_str(op), path: copy_str(path) }
    }

    /// The error of a directive that would leave `path` as it is.
    pub fn apply_no_changes(path: &str) -> (r: Error)
        ensures
            r@ == (ErrorView::ApplyNoChanges { path: path@ }),
    {
        Error::ApplyNoChanges { path: copy_str(path) }
    }

    /// The error of a path `target` that leaves `base_dir`.
    pub fn security_violation(target: &str, base_dir: &str) -> (r: Error)
        ensures
            r@ == (ErrorView::SecurityViolation { target: target@, base_dir: base_dir@ }),
    {
        Error::SecurityViolation { target: copy_str(target), base_dir: copy_str(base_dir) }
    }

    /// The error of reading `path`.
    pub fn io_read_file(path: &str, cause: &str) -> (r: Error)
        ensures
            r@ == ErrorView::IoReadFile(PathAndCauseView { path: path@, cause: cause@ }),
    {
        Error::IoReadFile(PathAndCause::new(path, cause))
    }

    /// The error of creating `path`.
    pub fn io_create_file(path: &str, cause: &str) -> (r: Error)
        ensures
            r@ == ErrorView::IoCreateFile(PathAndCauseView { path: path@, cause: cause@ }),
    {
        Error::IoCreateFile(PathAndCause::new(path, cause))
    }

    /// The error of writing `path`.
    pub fn io_write_file(path: &str, cause: &str) -> (r: Error)
        ensures
            r@ == ErrorView::IoWriteFile(PathAndCauseView { path: path@, cause: cause@ }),
    {
        Error::IoWriteFile(PathAndCause::new(path, cause))
    }

    /// The error of moving `from_path` to `to_path`.
    pub fn io_rename_path(from_path: &str, to_path: &str, cause: &str) -> (r: Error)
        ensures
            r@ == (ErrorView::IoRenamePath {
                from_path: from_path@,
                to_path: to_path@,
                cause: cause@,
            }),
    {
        Error::IoRenamePath {
            from_path: copy_str(from_path),
            to_path: copy_str(to_path),
            cause: copy_str(cause),
        }
    }

    /// The error of deleting the file `path`.
    pub fn io_delete_file(path: &str, cause: &str) -> (r: Error)
        ensures
            r@ == ErrorView::IoDeleteFile(PathAndCauseView { path: path@, cause: cause@ }),
    {
        Error::IoDeleteFile(PathAndCause::new(path, cause))
    }

    /// The error of deleting the directory `path`.
    pub fn io_delete_dir_all(path: &str, cause: &str) -> (r: Error)
        ensures
            r@ == ErrorView::IoDeleteDirAll(PathAndCauseView { path: path@, cause: cause@ }),
    {
        Error::IoDeleteDirAll(PathAndCause::new(path, cause))
    }

    /// A failure of the file-system layer.
    pub fn simple_fs(cause: &str) -> (r: Error)
        ensures
            r@ == (ErrorView::SimpleFs { cause: cause@ }),
    {
        Error::SimpleFs { cause: copy_str(cause) }
    }

    /// The error of a completed patch for `path` that could not be read.
    pub fn diffy_parse_patch(path: &str, cause: &str) -> (r: Error)
        ensures
            r@ == (ErrorView::DiffyParsePatch { path: path@, cause: cause@ }),
    {
        Error::DiffyParsePatch { path: copy_str(path), cause: copy_str(cause) }
    }

    /// The error of a completed patch for `path` that could not be applied.
    pub fn diffy_apply_patch(path: &str, cause: &str) -> (r: Error)
        ensures
            r@ == (ErrorView::DiffyApplyPatch { path: path@, cause: cause@ }),
    {
        Error::DiffyApplyPatch { path: copy_str(path), cause: copy_str(cause) }
    }

    /// The error of a hunk whose context was not found.
    pub fn patch_completion(reason: &str, context_pattern: Vec<String>) -> (r: Error)
        ensures
            r@ == (ErrorView::PatchCompletion {
                reason: reason@,
                context_pattern: string_texts(context_pattern@),
            }),
    {
        Error::PatchCompletion { reason: copy_str(reason), context_pattern }
    }

    /// The message of the error, for the reader.
    pub fn message(&self) -> (r: String)
        ensures
            r@ == self@.message(),
    {
        match self {
            Error::Custom(m) => copy_str(m.as_str()),
            Error::ParseMissingAttribute { tag, attr } => {
                let mut out = chars_of("Missing attribute '");
                append_chars(&mut out, &chars_of(attr.as_str()));
                append_chars(&mut out, &chars_of("' for tag '"));
                append_chars(&mut out, &chars_of(tag.as_str()));
                append_chars(&mut out, &chars_of("'"));
                string_of(&out)
            },
            Error::ParseUnknownDirectiveTag { tag } => concat3(
                "Unknown directive tag '",
                tag.as_str(),
                "'",
            ),
            Error::ApplyPathNotFound { op, path } => {
                let mut out = chars_of("Path not found for ");
                append_chars(&mut out, &chars_of(op.as_str()));
                append_chars(&mut out, &chars_of(": "));
                append_chars(&mut out, &chars_of(path.as_str()));
                string_of(&out)
            },
            Error::ApplyNoChanges { path } => concat2("No changes applied to: ", path.as_str()),
            Error::SecurityViolation { target, base_dir } => {
                let mut out = chars_of("Security violation, target '");
                append_chars(&mut out, &chars_of(target.as_str()));
                append_chars(&mut out, &chars_of("' is outside base dir '"));
                append_chars(&mut out, &chars_of(base_dir.as_str()));
                append_chars(&mut out, &chars_of("'"));
                string_of(&out)
            },
            Error::DiffyParsePatch { cause, .. } => concat2(
                "diffy parse patch error: ",
                cause.as_str(),
            ),
            Error::DiffyApplyPatch { cause, .. } => concat2(
                "diffy apply patch error: ",
                cause.as_str(),
            ),
            Error::PatchCompletion { reason, context_pattern } => {
                let mut out = chars_of("patch completion error: ");
                append_chars(&mut out, &chars_of(reason.as_str()));
                append_chars(&mut out, &chars_of("\nContext lines:\n"));
                let lines = lines_of_strings(context_pattern);
                let mut sep: Vec<char> = Vec::new();
                sep.push('\n');
                assert(sep@ =~= seq!['\n']);
                append_chars(&mut out, &join_chars(&lines, &sep));
                string_of(&out)
            },
            Error::Hashline(e) => e.message(),
            Error::IoReadFile(p) => concat2("Read file failed: ", p.message().as_str()),
            Error::IoCreateFile(p) => concat2("Create file failed: ", p.message().as_str()),
            Error::IoWriteFile(p) => concat2("Write file failed: ", p.message().as_str()),
            Error::IoRenamePath { from_path, to_path, cause } => {
                let mut out = chars_of("Rename path failed: ");
                append_chars(&mut out, &chars_of(from_path.as_str()));
                append_chars(&mut out, &chars_of(" -> "));
                append_chars(&mut out, &chars_of(to_path.as_str()));
                append_chars(&mut out, &chars_of(", cause: "));
                append_chars(&mut out, &chars_of(cause.as_str()));
                string_of(&out)
            },
            Error::IoDeleteFile(p) => concat2("Delete file failed: ", p.message().as_str()),
            Error::IoDeleteDirAll(p) => concat2("Delete dir failed: ", p.message().as_str()),
            Error::SimpleFs { cause } => concat2("simple_fs error: ", cause.as_str()),
        }
    }
}

/// What a result with an `Error` stands for, its good value left as it is.
pub open spec fn error_view<T>(r: Result<T, Error>) -> Result<T, ErrorView> {
    match r {
        Ok(v) => Ok(v),
        Err(e) => Err(e@),
    }
}

} // verus!

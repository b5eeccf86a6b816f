//! The check that a path stays within a base directory. The check is made on
//! the text of the paths; links in the file system are not followed.

use crate::error::{Error, ErrorView};
use crate::text::{starts_with, starts_with_chars, chars_of};
use vstd::prelude::*;

verus! {

/// The path `path` with its `.` and `..` segments resolved, as far as the text
/// of the path allows, on the platform that the crate is built for.
pub uninterp spec fn collapsed_path(path: Seq<char>) -> Seq<char>;

/// The path that joining `leaf` to the directory `base` gives.
pub uninterp spec fn joined_path(base: Seq<char>, leaf: Seq<char>) -> Seq<char>;

/// Whether `path` is absolute on the platform that the crate is built for.
pub uninterp spec fn path_is_absolute(path: Seq<char>) -> bool;

/// `simple_fs::SPath::into_collapsed` on the path made of `path`: the result
/// depends on the text of the path alone, no file is looked at; it is named,
/// not described.
#[verifier::external_body]
fn collapse_path(path: &str) -> (r: String)
    ensures
        r@ == collapsed_path(path@),
{
    simple_fs::SPath::new(path).into_collapsed().as_str().to_string()
}

/// `simple_fs::SPath::join` on the path made of `base`: the result depends on
/// the two texts alone; it is named, not described.
#[verifier::external_body]
fn join_path(base: &str, leaf: &str) -> (r: String)
    ensures
        r@ == joined_path(base@, leaf@),
{
    simple_fs::SPath::new(base).join(leaf).as_str().to_string()
}

/// `simple_fs::SPath::is_absolute` on the path made of `path`: the result
/// depends on the text of the path alone.
#[verifier::external_body]
fn is_absolute_path(path: &str) -> (r: bool)
    ensures
        r == path_is_absolute(path@),
{
    simple_fs::SPath::new(path).is_absolute()
}

/// Whether the collapsed path `target` lies in the collapsed directory
/// `base`: its text begins with the text of `base`.
pub open spec fn lies_in(target: Seq<char>, base: Seq<char>) -> bool {
    starts_with(target, base)
}

/// Whether `target`, once collapsed, stays within `base_dir`, once collapsed.
pub open spec fn stays_in_base(target: Seq<char>, base_dir: Seq<char>) -> bool {
    lies_in(collapsed_path(target), collapsed_path(base_dir))
}

/// The check of a collapsed path against a collapsed base directory.
pub open spec fn checked_collapsed(target: Seq<char>, base: Seq<char>) -> Result<(), ErrorView> {
    if lies_in(target, base) {
        Ok(())
    } else {
        Err(ErrorView::SecurityViolation { target, base_dir: base })
    }
}

/// Checks a collapsed path against a collapsed base directory.
pub fn check_collapsed(target: &str, base_dir: &str) -> (r: Result<(), Error>)
    ensures
        crate::error::error_view(r) == checked_collapsed(target@, base_dir@),
{
    if starts_with_chars(&chars_of(target), &chars_of(base_dir)) {
        Ok(())
    } else {
        Err(Error::security_violation(target, base_dir))
    }
}

fn check_in_base(target: &str, base_dir: &str) -> (r: Result<(), Error>)
    ensures
        crate::error::error_view(r) == checked_collapsed(
            collapsed_path(target@),
            collapsed_path(base_dir@),
        ),
{
    let base = collapse_path(base_dir);
    let target = collapse_path(target);
    check_collapsed(target.as_str(), base.as_str())
}

/// Checks that `target` may be written: collapsed, it stays within
/// `base_dir`. Otherwise the error names the two collapsed paths.
pub fn check_for_write(target: &str, base_dir: &str) -> (r: Result<(), Error>)
    ensures
        r is Ok <==> stays_in_base(target@, base_dir@),
        crate::error::error_view(r) == checked_collapsed(
            collapsed_path(target@),
            collapsed_path(base_dir@),
        ),
{
    check_in_base(target, base_dir)
}

/// Checks that `target` may be read: collapsed, it stays within `base_dir`.
/// Otherwise the error names the two collapsed paths.
pub fn check_for_read(target: &str, base_dir: &str) -> (r: Result<(), Error>)
    ensures
        r is Ok <==> stays_in_base(target@, base_dir@),
        crate::error::error_view(r) == checked_collapsed(
            collapsed_path(target@),
            collapsed_path(base_dir@),
        ),
{
    check_in_base(target, base_dir)
}

/// The path of `file_path` under `base_dir`, where that path stays within
/// `base_dir`.
pub open spec fn guarded_path(base_dir: Seq<char>, file_path: Seq<char>) -> Result<
    Seq<char>,
    ErrorView,
> {
    let full = joined_path(base_dir, file_path);
    match checked_collapsed(collapsed_path(full), collapsed_path(base_dir)) {
        Ok(()) => Ok(full),
        Err(e) => Err(e),
    }
}

/// What a path, or the error in its place, stands for.
pub open spec fn path_result_view(r: Result<String, Error>) -> Result<Seq<char>, ErrorView> {
    match r {
        Ok(p) => Ok(p@),
        Err(e) => Err(e@),
    }
}

/// The path of `file_path` under `base_dir`, checked: the result is a path
/// that stays within `base_dir`, or a security violation.
pub fn guarded_target(base_dir: &str, file_path: &str) -> (r: Result<String, Error>)
    ensures
        path_result_view(r) == guarded_path(base_dir@, file_path@),
        r matches Ok(p) ==> stays_in_base(p@, base_dir@),
        r matches Err(e) ==> e@ is SecurityViolation,
{
    let full = join_path(base_dir, file_path);
    match check_in_base(full.as_str(), base_dir) {
        Ok(()) => Ok(full),
        Err(e) => Err(e),
    }
}

/// The base directory of a run, where it lies in the working directory:
/// `base_dir` collapsed, under the collapsed working directory where it is
/// relative.
pub open spec fn resolved_base(cwd: Seq<char>, base_dir: Seq<char>) -> Result<Seq<char>, ErrorView> {
    let cwd_collapsed = collapsed_path(cwd);
    let base = if path_is_absolute(base_dir) {
        collapsed_path(base_dir)
    } else {
        collapsed_path(joined_path(cwd_collapsed, base_dir))
    };
    match checked_collapsed(base, cwd_collapsed) {
        Ok(()) => Ok(base),
        Err(e) => Err(e),
    }
}

/// The base directory of a run, checked against the working directory `cwd`:
/// a base directory outside the working directory is a security violation.
pub fn resolve_base_dir(cwd: &str, base_dir: &str) -> (r: Result<String, Error>)
    ensures
        path_result_view(r) == resolved_base(cwd@, base_dir@),
{
    let cwd_collapsed = collapse_path(cwd);
    let base = if is_absolute_path(base_dir) {
        collapse_path(base_dir)
    } else {
        let joined = join_path(cwd_collapsed.as_str(), base_dir);
        collapse_path(joined.as_str())
    };
    match check_collapsed(base.as_str(), cwd_collapsed.as_str()) {
        Ok(()) => Ok(base),
        Err(e) => Err(e),
    }
}

/// Safety of one path: whatever the base directory and the path of a file, the
/// path of the file under the base directory, collapsed, begins with the
/// collapsed base directory, or the outcome is a security violation.
pub proof fn lemma_guarded_path_is_safe(base_dir: Seq<char>, file_path: Seq<char>)
    ensures
        match guarded_path(base_dir, file_path) {
            Ok(p) => p == joined_path(base_dir, file_path) && starts_with(
                collapsed_path(p),
                collapsed_path(base_dir),
            ),
            Err(e) => e is SecurityViolation && !starts_with(
                collapsed_path(joined_path(base_dir, file_path)),
                collapsed_path(base_dir),
            ),
        },
{
}

} // verus!

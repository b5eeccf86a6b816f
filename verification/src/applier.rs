//! Applying directives: what is decided for each directive, given what the
//! file system holds. Reading and writing are left to the caller.

use crate::apply_changes_info::{DirectiveInfo, InfoView};
use crate::error::{Error, ErrorView};
use crate::file_directives::{string_option_view, DirectiveView, FileDirective};
use crate::fs_guard::{guarded_path, guarded_target};
use crate::hashline::apply::{apply_edits, apply_hashline_edits};
use crate::hashline::edit::{edit_views, EditView, HashlineEdit};
use crate::patch_completer::complete::{complete, completed};
use crate::patch_completer::matching::MatchTier;
use crate::text::{chars_eq, chars_of, string_of};
use vstd::prelude::*;

verus! {

// ---------------------------------------------------------------------------
// The unified-diff applier
// ---------------------------------------------------------------------------

/// The message with which the diff parser refuses a patch, if it refuses it.
pub uninterp spec fn diffy_parse_error(patch: Seq<char>) -> Option<Seq<char>>;

/// What applying a patch that the diff parser accepts to a text gives: the
/// patched text, or the message that says which hunk did not apply.
pub uninterp spec fn diffy_applied(base: Seq<char>, patch: Seq<char>) -> Result<
    Seq<char>,
    Seq<char>,
>;

/// `diffy::Patch::from_str`: whether the patch is read is a function of its
/// text alone, and so is the message of the error; they are named, not
/// described.
#[verifier::external_body]
fn parse_error(patch: &str) -> (r: Option<String>)
    ensures
        string_option_view(r) == diffy_parse_error(patch@),
{
    match diffy::Patch::from_str(patch) {
        Ok(_) => None,
        Err(e) => Some(e.to_string()),
    }
}

/// What a patched text, or the message in its place, stands for.
pub open spec fn text_result_view(r: Result<String, String>) -> Result<Seq<char>, Seq<char>> {
    match r {
        Ok(s) => Ok(s@),
        Err(m) => Err(m@),
    }
}

/// `diffy::apply` on the patch that `diffy::Patch::from_str` reads from
/// `patch`: the outcome is a function of the two texts alone; it is named, not
/// described.
#[verifier::external_body]
fn apply_parsed(base: &str, patch: &str) -> (r: Result<String, String>)
    requires
        diffy_parse_error(patch@) is None,
    ensures
        text_result_view(r) == diffy_applied(base@, patch@),
{
    match diffy::Patch::from_str(patch) {
        Ok(parsed) => diffy::apply(base, &parsed).map_err(|e| e.to_string()),
        Err(e) => Err(e.to_string()),
    }
}

/// The outcome of a patch once the applier has run: its text with the tier of
/// the completion, or the error of the applier for the file `file_path`.
pub open spec fn applied_outcome(
    file_path: Seq<char>,
    tier: Option<MatchTier>,
    applied: Result<Seq<char>, Seq<char>>,
) -> Result<(Seq<char>, Option<MatchTier>), ErrorView> {
    match applied {
        Ok(text) => Ok((text, tier)),
        Err(cause) => Err(ErrorView::DiffyApplyPatch { path: file_path, cause }),
    }
}

/// What a patched text with its tier, or the error in its place, stands for.
pub open spec fn patch_result_view(r: Result<(String, Option<MatchTier>), Error>) -> Result<
    (Seq<char>, Option<MatchTier>),
    ErrorView,
> {
    match r {
        Ok((text, tier)) => Ok((text@, tier)),
        Err(e) => Err(e@),
    }
}

/// The outcome of a patch for `file_path`, given what the applier returned.
pub fn patch_outcome(file_path: &str, tier: Option<MatchTier>, applied: Result<String, String>) -> (r:
    Result<(String, Option<MatchTier>), Error>)
    ensures
        patch_result_view(r) == applied_outcome(file_path@, tier, text_result_view(applied)),
{
    match applied {
        Ok(text) => Ok((text, tier)),
        Err(cause) => Err(Error::diffy_apply_patch(file_path, cause.as_str())),
    }
}

/// `s` with a line feed at its end, added where a text that is not empty has
/// none.
pub open spec fn with_final_newline(s: Seq<char>) -> Seq<char> {
    if s.len() > 0 && s.last() != '\n' {
        s.push('\n')
    } else {
        s
    }
}

/// What a completed patch gives once it is read and applied to `base`.
pub open spec fn diffed(
    file_path: Seq<char>,
    base: Seq<char>,
    patch: Seq<char>,
    tier: Option<MatchTier>,
) -> Result<(Seq<char>, Option<MatchTier>), ErrorView> {
    match diffy_parse_error(patch) {
        Some(cause) => Err(ErrorView::DiffyParsePatch { path: file_path, cause }),
        None => applied_outcome(file_path, tier, diffy_applied(base, patch)),
    }
}

/// What applying the loose patch `patch_raw` to `original` gives: the text
/// gets a final line feed where it lacks one, the patch is completed against
/// it, and the completed patch is read and applied by the diff applier.
pub open spec fn patched(file_path: Seq<char>, original: Seq<char>, patch_raw: Seq<char>) -> Result<
    (Seq<char>, Option<MatchTier>),
    ErrorView,
> {
    let base = with_final_newline(original);
    match completed(base, patch_raw) {
        Err(e) => Err(e),
        Ok((patch, tier)) => diffed(file_path, base, patch, tier),
    }
}

/// Applies the loose patch `patch_raw` to `original`, the content of the file
/// `file_path`, and gives the new content with the loosest tier at which a
/// hunk was matched.
pub fn apply_patch(file_path: &str, original: &str, patch_raw: &str) -> (r: Result<
    (String, Option<MatchTier>),
    Error,
>)
    ensures
        patch_result_view(r) == patched(file_path@, original@, patch_raw@),
{
    let mut fixed = chars_of(original);
    if fixed.len() > 0 && fixed[fixed.len() - 1] != '\n' {
        fixed.push('\n');
    }
    let base = string_of(&fixed);
    let (patch, tier) = match complete(base.as_str(), patch_raw) {
        Err(e) => {
            return Err(e);
        },
        Ok(done) => done,
    };
    match parse_error(patch.as_str()) {
        Some(cause) => Err(Error::diffy_parse_patch(file_path, cause.as_str())),
        None => patch_outcome(file_path, tier, apply_parsed(base.as_str(), patch.as_str())),
    }
}

// ---------------------------------------------------------------------------
// What to do for a directive
// ---------------------------------------------------------------------------

/// What a directive asks of the file system, each path under the base
/// directory and checked to stay within it.
#[derive(Debug)]
pub enum Plan {
    /// Write `content` to `full_path`, unless the file holds it already.
    WriteNew { full_path: String, file_path: String, content: String },
    /// Apply `patch` to the file at `full_path`.
    Patch { full_path: String, file_path: String, patch: String },
    /// Apply `edits` to the file at `full_path`.
    HashlinePatch { full_path: String, file_path: String, edits: Vec<HashlineEdit> },
    /// Move `full_from` to `full_to`.
    Rename { full_from: String, full_to: String, from_path: String },
    /// Move `full_path` to the trash.
    Delete { full_path: String, file_path: String },
}

/// What a `Plan` stands for.
pub enum PlanView {
    WriteNew { full_path: Seq<char>, file_path: Seq<char>, content: Seq<char> },
    Patch { full_path: Seq<char>, file_path: Seq<char>, patch: Seq<char> },
    HashlinePatch { full_path: Seq<char>, file_path: Seq<char>, edits: Seq<EditView> },
    Rename { full_from: Seq<char>, full_to: Seq<char>, from_path: Seq<char> },
    Delete { full_path: Seq<char>, file_path: Seq<char> },
}

impl View for Plan {
    type V = PlanView;

    open spec fn view(&self) -> PlanView {
        match *self {
            Plan::WriteNew { full_path, file_path, content } => PlanView::WriteNew {
                full_path: full_path@,
                file_path: file_path@,
                content: content@,
            },
            Plan::Patch { full_path, file_path, patch } => PlanView::Patch {
                full_path: full_path@,
                file_path: file_path@,
                patch: patch@,
            },
            Plan::HashlinePatch { full_path, file_path, edits } => PlanView::HashlinePatch {
                full_path: full_path@,
                file_path: file_path@,
                edits: edit_views(edits@),
            },
            Plan::Rename { full_from, full_to, from_path } => PlanView::Rename {
                full_from: full_from@,
                full_to: full_to@,
                from_path: from_path@,
            },
            Plan::Delete { full_path, file_path } => PlanView::Delete {
                full_path: full_path@,
                file_path: file_path@,
            },
        }
    }
}

/// The plan of a directive under the base directory `base_dir`: every path
/// that the directive names is put under the base directory and must stay
/// within it, or the plan is a security violation. A directive that could not
/// be read has no plan but its message.
pub open spec fn planned(base_dir: Seq<char>, d: DirectiveView) -> Result<PlanView, ErrorView> {
    match d {
        DirectiveView::New { file_path, content } => match guarded_path(base_dir, file_path) {
            Err(e) => Err(e),
            Ok(full_path) => Ok(
                PlanView::WriteNew { full_path, file_path, content: content.content },
            ),
        },
        DirectiveView::Patch { file_path, content } => match guarded_path(base_dir, file_path) {
            Err(e) => Err(e),
            Ok(full_path) => Ok(PlanView::Patch { full_path, file_path, patch: content.content }),
        },
        DirectiveView::HashlinePatch { file_path, edits } => match guarded_path(
            base_dir,
            file_path,
        ) {
            Err(e) => Err(e),
            Ok(full_path) => Ok(PlanView::HashlinePatch { full_path, file_path, edits }),
        },
        DirectiveView::Rename { from_path, to_path } => match guarded_path(base_dir, from_path) {
            Err(e) => Err(e),
            Ok(full_from) => match guarded_path(base_dir, to_path) {
                Err(e) => Err(e),
                Ok(full_to) => Ok(PlanView::Rename { full_from, full_to, from_path }),
            },
        },
        DirectiveView::Delete { file_path } => match guarded_path(base_dir, file_path) {
            Err(e) => Err(e),
            Ok(full_path) => Ok(PlanView::Delete { full_path, file_path }),
        },
        DirectiveView::Fail { error_msg, .. } => Err(ErrorView::Custom(error_msg)),
    }
}

/// What a plan, or the error in its place, stands for.
pub open spec fn plan_result_view(r: Result<Plan, Error>) -> Result<PlanView, ErrorView> {
    match r {
        Ok(p) => Ok(p@),
        Err(e) => Err(e@),
    }
}

/// The plan of `directive` under `base_dir`.
pub fn plan_directive(base_dir: &str, directive: FileDirective) -> (r: Result<Plan, Error>)
    ensures
        plan_result_view(r) == planned(base_dir@, directive@),
{
    match directive {
        FileDirective::New { file_path, content } => match guarded_target(
            base_dir,
            file_path.as_str(),
        ) {
            Err(e) => Err(e),
            Ok(full_path) => Ok(Plan::WriteNew { full_path, file_path, content: content.content }),
        },
        FileDirective::Patch { file_path, content } => match guarded_target(
            base_dir,
            file_path.as_str(),
        ) {
            Err(e) => Err(e),
            Ok(full_path) => Ok(Plan::Patch { full_path, file_path, patch: content.content }),
        },
        FileDirective::HashlinePatch { file_path, edits } => match guarded_target(
            base_dir,
            file_path.as_str(),
        ) {
            Err(e) => Err(e),
            Ok(full_path) => Ok(Plan::HashlinePatch { full_path, file_path, edits }),
        },
        FileDirective::Rename { from_path, to_path } => match guarded_target(
            base_dir,
            from_path.as_str(),
        ) {
            Err(e) => Err(e),
            Ok(full_from) => match guarded_target(base_dir, to_path.as_str()) {
                Err(e) => Err(e),
                Ok(full_to) => Ok(Plan::Rename { full_from, full_to, from_path }),
            },
        },
        FileDirective::Delete { file_path } => match guarded_target(base_dir, file_path.as_str()) {
            Err(e) => Err(e),
            Ok(full_path) => Ok(Plan::Delete { full_path, file_path }),
        },
        FileDirective::Fail { error_msg, .. } => Err(Error::Custom(error_msg)),
    }
}

/// The paths of the file system that a plan touches.
pub open spec fn plan_paths(p: PlanView) -> Seq<Seq<char>> {
    match p {
        PlanView::WriteNew { full_path, .. } => seq![full_path],
        PlanView::Patch { full_path, .. } => seq![full_path],
        PlanView::HashlinePatch { full_path, .. } => seq![full_path],
        PlanView::Rename { full_from, full_to, .. } => seq![full_from, full_to],
        PlanView::Delete { full_path, .. } => seq![full_path],
    }
}

/// Safety of a plan: whatever the base directory and the directive, every path
/// that the plan touches stays within the base directory, and a directive
/// with a path that leaves it has no plan but a security violation.
pub proof fn lemma_plan_is_safe(base_dir: Seq<char>, d: DirectiveView)
    ensures
        match planned(base_dir, d) {
            Ok(plan) => forall|i: int|
                0 <= i < plan_paths(plan).len() ==> crate::fs_guard::stays_in_base(
                    #[trigger] plan_paths(plan)[i],
                    base_dir,
                ),
            Err(e) => e is SecurityViolation || d is Fail,
        },
{
}

// ---------------------------------------------------------------------------
// What to write, given what the file holds
// ---------------------------------------------------------------------------

/// How a new file is written.
#[derive(Debug, Clone, Copy, PartialEq, Eq, Structural)]
pub enum NewWrite {
    /// The file does not exist yet.
    Create,
    /// The file exists, with another content.
    Overwrite,
}

/// What is decided for a `New` directive: a file that holds the content
/// already is left alone, with an error that says so.
pub open spec fn new_decision(
    file_path: Seq<char>,
    existing: Option<Seq<char>>,
    content: Seq<char>,
) -> Result<NewWrite, ErrorView> {
    match existing {
        Some(old) => if old == content {
            Err(ErrorView::ApplyNoChanges { path: file_path })
        } else {
            Ok(NewWrite::Overwrite)
        },
        None => Ok(NewWrite::Create),
    }
}

/// What a text given or not stands for.
pub open spec fn str_option_view(s: Option<&str>) -> Option<Seq<char>> {
    match s {
        Some(s) => Some(s@),
        None => None,
    }
}

fn same_text(a: &str, b: &str) -> (r: bool)
    ensures
        r == (a@ == b@),
{
    chars_eq(&chars_of(a), &chars_of(b))
}

/// Decides how `content` is written to the file `file_path`, which holds
/// `existing` where it exists.
pub fn decide_new(file_path: &str, existing: Option<&str>, content: &str) -> (r: Result<
    NewWrite,
    Error,
>)
    ensures
        crate::error::error_view(r) == new_decision(
            file_path@,
            str_option_view(existing),
            content@,
        ),
{
    match existing {
        Some(old) => if same_text(old, content) {
            Err(Error::apply_no_changes(file_path))
        } else {
            Ok(NewWrite::Overwrite)
        },
        None => Ok(NewWrite::Create),
    }
}

/// The text of a file that may not exist: empty where it does not.
pub open spec fn text_or_empty(existing: Option<Seq<char>>) -> Seq<char> {
    match existing {
        Some(s) => s,
        None => Seq::empty(),
    }
}

/// The new content of a file, unless it is the content that the file has.
pub open spec fn unless_unchanged(
    file_path: Seq<char>,
    existing: Option<Seq<char>>,
    new_content: Seq<char>,
) -> Result<Seq<char>, ErrorView> {
    if existing is Some && new_content == text_or_empty(existing) {
        Err(ErrorView::ApplyNoChanges { path: file_path })
    } else {
        Ok(new_content)
    }
}

/// What is decided for a patch, with the tier at which it was matched: the
/// tier is known as soon as the patch applies, also where it changes nothing.
pub struct PatchDecision {
    pub match_tier: Option<MatchTier>,
    pub result: Result<String, Error>,
}

/// What a `PatchDecision` stands for.
pub struct PatchDecisionView {
    pub match_tier: Option<MatchTier>,
    pub result: Result<Seq<char>, ErrorView>,
}

impl View for PatchDecision {
    type V = PatchDecisionView;

    open spec fn view(&self) -> PatchDecisionView {
        PatchDecisionView {
            match_tier: self.match_tier,
            result: crate::fs_guard::path_result_view(self.result),
        }
    }
}

/// What is decided for a `Patch` directive: the patch is applied to the
/// content of the file, or to an empty text where there is no file; a result
/// that leaves an existing file as it is, is an error.
pub open spec fn patch_decision(
    file_path: Seq<char>,
    existing: Option<Seq<char>>,
    patch: Seq<char>,
) -> PatchDecisionView {
    match patched(file_path, text_or_empty(existing), patch) {
        Err(e) => PatchDecisionView { match_tier: None, result: Err(e) },
        Ok((text, tier)) => PatchDecisionView {
            match_tier: tier,
            result: unless_unchanged(file_path, existing, text),
        },
    }
}

fn check_changed(file_path: &str, existing: Option<&str>, new_content: String) -> (r: Result<
    String,
    Error,
>)
    ensures
        crate::fs_guard::path_result_view(r) == unless_unchanged(
            file_path@,
            str_option_view(existing),
            new_content@,
        ),
{
    match existing {
        Some(old) => if same_text(new_content.as_str(), old) {
            Err(Error::apply_no_changes(file_path))
        } else {
            Ok(new_content)
        },
        None => Ok(new_content),
    }
}

/// Decides what is written for the patch `patch` of the file `file_path`,
/// which holds `existing` where it exists.
pub fn decide_patch(file_path: &str, existing: Option<&str>, patch: &str) -> (r: PatchDecision)
    ensures
        r@ == patch_decision(file_path@, str_option_view(existing), patch@),
{
    let original = match existing {
        Some(s) => s,
        None => "",
    };
    proof {
        reveal_strlit("");
        assert(""@ =~= Seq::<char>::empty());
    }
    match apply_patch(file_path, original, patch) {
        Err(e) => PatchDecision { match_tier: None, result: Err(e) },
        Ok((text, tier)) => PatchDecision {
            match_tier: tier,
            result: check_changed(file_path, existing, text),
        },
    }
}

/// What is decided for a `HashlinePatch` directive: the edits are applied to
/// the content of the file, or to an empty text where there is no file; a
/// result that leaves an existing file as it is, is an error.
pub open spec fn hashline_decision(
    file_path: Seq<char>,
    existing: Option<Seq<char>>,
    edits: Seq<EditView>,
) -> Result<Seq<char>, ErrorView> {
    match apply_edits(text_or_empty(existing), edits) {
        Err(e) => Err(ErrorView::Hashline(e)),
        Ok(done) => unless_unchanged(file_path, existing, done.content),
    }
}

/// Decides what is written for the edits `edits` of the file `file_path`,
/// which holds `existing` where it exists.
pub fn decide_hashline(file_path: &str, existing: Option<&str>, edits: Vec<HashlineEdit>) -> (r:
    Result<String, Error>)
    ensures
        crate::fs_guard::path_result_view(r) == hashline_decision(
            file_path@,
            str_option_view(existing),
            edit_views(edits@),
        ),
{
    let original = match existing {
        Some(s) => s,
        None => "",
    };
    proof {
        reveal_strlit("");
        assert(""@ =~= Seq::<char>::empty());
    }
    match apply_hashline_edits(original, edits) {
        Err(e) => Err(Error::Hashline(e)),
        Ok(done) => check_changed(file_path, existing, done.content),
    }
}

/// What is decided for a `Rename` directive: a source that does not exist
/// cannot be moved.
pub open spec fn rename_decision(from_path: Seq<char>, source_exists: bool) -> Result<
    (),
    ErrorView,
> {
    if source_exists {
        Ok(())
    } else {
        Err(ErrorView::ApplyPathNotFound { op: "rename source"@, path: from_path })
    }
}

/// Decides whether the file `from_path` can be moved.
pub fn decide_rename(from_path: &str, source_exists: bool) -> (r: Result<(), Error>)
    ensures
        crate::error::error_view(r) == rename_decision(from_path@, source_exists),
{
    if source_exists {
        Ok(())
    } else {
        Err(Error::apply_path_not_found("rename source", from_path))
    }
}

/// How a path is deleted.
#[derive(Debug, Clone, Copy, PartialEq, Eq, Structural)]
pub enum DeleteKind {
    TrashFile,
    TrashDir,
}

/// What is decided for a `Delete` directive: a path that does not exist
/// cannot be deleted; a directory goes to the trash as a whole.
pub open spec fn delete_decision(file_path: Seq<char>, exists: bool, is_dir: bool) -> Result<
    DeleteKind,
    ErrorView,
> {
    if !exists {
        Err(ErrorView::ApplyPathNotFound { op: "delete"@, path: file_path })
    } else if is_dir {
        Ok(DeleteKind::TrashDir)
    } else {
        Ok(DeleteKind::TrashFile)
    }
}

/// Decides how the path `file_path` is deleted.
pub fn decide_delete(file_path: &str, exists: bool, is_dir: bool) -> (r: Result<DeleteKind, Error>)
    ensures
        crate::error::error_view(r) == delete_decision(file_path@, exists, is_dir),
{
    if !exists {
        Err(Error::apply_path_not_found("delete", file_path))
    } else if is_dir {
        Ok(DeleteKind::TrashDir)
    } else {
        Ok(DeleteKind::TrashFile)
    }
}

/// No change, no write: where a directive would give an existing file the
/// content that it has, nothing is decided to be written; the decision is the
/// error that says so, and the file stays as it is.
pub proof fn lemma_no_change_is_no_write(
    file_path: Seq<char>,
    existing: Seq<char>,
    patch: Seq<char>,
    edits: Seq<EditView>,
)
    ensures
        new_decision(file_path, Some(existing), existing) == Err::<NewWrite, ErrorView>(
            ErrorView::ApplyNoChanges { path: file_path },
        ),
        patched(file_path, existing, patch) is Ok && patched(file_path, existing, patch)->Ok_0.0
            == existing ==> patch_decision(file_path, Some(existing), patch).result == Err::<
            Seq<char>,
            ErrorView,
        >(ErrorView::ApplyNoChanges { path: file_path }),
        apply_edits(existing, edits) is Ok && apply_edits(existing, edits)->Ok_0.content
            == existing ==> hashline_decision(file_path, Some(existing), edits) == Err::<
            Seq<char>,
            ErrorView,
        >(ErrorView::ApplyNoChanges { path: file_path }),
{
}

// ---------------------------------------------------------------------------
// The entry of a directive, once it has been run
// ---------------------------------------------------------------------------

/// The entry of a directive once it has been run: a success, or the message
/// of its error; and the tier of its patch, where it was one.
pub open spec fn concluded(
    info: InfoView,
    outcome: Result<(), ErrorView>,
    match_tier: Option<MatchTier>,
) -> InfoView {
    match outcome {
        Ok(()) => InfoView {
            kind: info.kind,
            success: true,
            error_msg: info.error_msg,
            match_tier,
        },
        Err(e) => InfoView {
            kind: info.kind,
            success: info.success,
            error_msg: Some(e.message()),
            match_tier,
        },
    }
}

/// Notes in `info` how its directive ended.
pub fn conclude(info: DirectiveInfo, outcome: Result<(), Error>, match_tier: Option<MatchTier>) -> (r:
    DirectiveInfo)
    ensures
        r@ == concluded(info@, crate::error::error_view(outcome), match_tier),
{
    let DirectiveInfo { kind, success, error_msg, match_tier: _ } = info;
    match outcome {
        Ok(()) => DirectiveInfo { kind, success: true, error_msg, match_tier },
        Err(e) => DirectiveInfo { kind, success, error_msg: Some(e.message()), match_tier },
    }
}

} // verus!

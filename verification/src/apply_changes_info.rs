//! What became of each directive of a change block.

use crate::file_directives::{string_option_view, DirectiveView, FileDirective};
use crate::patch_completer::matching::MatchTier;
use vstd::prelude::*;

verus! {

/// What a directive was to do, and on which paths.
#[derive(Debug, Clone)]
#[allow(inconsistent_fields)]
pub enum DirectiveKind {
    New { file_path: String },
    Patch { file_path: String },
    HashlinePatch { file_path: String },
    /// `file_path` is the path that the file was to be moved to.
    Rename { from_path: String, file_path: String },
    Delete { file_path: String },
    Fail { kind_str: String, file_path: Option<String> },
}

/// What a `DirectiveKind` stands for.
#[allow(inconsistent_fields)]
pub enum KindView {
    New { file_path: Seq<char> },
    Patch { file_path: Seq<char> },
    HashlinePatch { file_path: Seq<char> },
    Rename { from_path: Seq<char>, file_path: Seq<char> },
    Delete { file_path: Seq<char> },
    Fail { kind_str: Seq<char>, file_path: Option<Seq<char>> },
}

impl View for DirectiveKind {
    type V = KindView;

    open spec fn view(&self) -> KindView {
        match *self {
            DirectiveKind::New { file_path } => KindView::New { file_path: file_path@ },
            DirectiveKind::Patch { file_path } => KindView::Patch { file_path: file_path@ },
            DirectiveKind::HashlinePatch { file_path } => KindView::HashlinePatch {
                file_path: file_path@,
            },
            DirectiveKind::Rename { from_path, file_path } => KindView::Rename {
                from_path: from_path@,
                file_path: file_path@,
            },
            DirectiveKind::Delete { file_path } => KindView::Delete { file_path: file_path@ },
            DirectiveKind::Fail { kind_str, file_path } => KindView::Fail {
                kind_str: kind_str@,
                file_path: string_option_view(file_path),
            },
        }
    }
}

impl KindView {
    /// The path that the directive was for; `unknown` for a directive that
    /// could not be read and named none.
    pub open spec fn file_path(self) -> Seq<char> {
        match self {
            KindView::New { file_path } => file_path,
            KindView::Patch { file_path } => file_path,
            KindView::HashlinePatch { file_path } => file_path,
            KindView::Rename { file_path, .. } => file_path,
            KindView::Delete { file_path } => file_path,
            KindView::Fail { file_path: Some(p), .. } => p,
            KindView::Fail { file_path: None, .. } => "unknown"@,
        }
    }

    /// The name of the kind.
    pub open spec fn name(self) -> Seq<char> {
        match self {
            KindView::New { .. } => "New"@,
            KindView::Patch { .. } => "Patch"@,
            KindView::HashlinePatch { .. } => "HashlinePatch"@,
            KindView::Rename { .. } => "Rename"@,
            KindView::Delete { .. } => "Delete"@,
            KindView::Fail { .. } => "Fail"@,
        }
    }
}

/// What became of one directive.
#[derive(Debug, Clone)]
pub struct DirectiveInfo {
    pub kind: DirectiveKind,
    pub success: bool,
    pub error_msg: Option<String>,
    /// For a patch, the loosest tier at which one of its hunks was matched.
    pub match_tier: Option<MatchTier>,
}

/// What a `DirectiveInfo` stands for.
pub struct InfoView {
    pub kind: KindView,
    pub success: bool,
    pub error_msg: Option<Seq<char>>,
    pub match_tier: Option<MatchTier>,
}

impl View for DirectiveInfo {
    type V = InfoView;

    open spec fn view(&self) -> InfoView {
        InfoView {
            kind: self.kind@,
            success: self.success,
            error_msg: string_option_view(self.error_msg),
            match_tier: self.match_tier,
        }
    }
}

/// The views of a list of infos.
pub open spec fn info_views(v: Seq<DirectiveInfo>) -> Seq<InfoView> {
    v.map_values(|i: DirectiveInfo| i@)
}

/// What became of the directives of a change block, one entry for each, in
/// their order.
#[derive(Debug, Clone)]
pub struct ApplyChangesInfo {
    pub infos: Vec<DirectiveInfo>,
}

impl View for ApplyChangesInfo {
    type V = Seq<InfoView>;

    open spec fn view(&self) -> Seq<InfoView> {
        info_views(self.infos@)
    }
}

/// The entry of a directive before it is run: not yet a success, and with the
/// message of a directive that could not be read.
pub open spec fn pending_info(d: DirectiveView) -> InfoView {
    match d {
        DirectiveView::New { file_path, .. } => InfoView {
            kind: KindView::New { file_path },
            success: false,
            error_msg: None,
            match_tier: None,
        },
        DirectiveView::Patch { file_path, .. } => InfoView {
            kind: KindView::Patch { file_path },
            success: false,
            error_msg: None,
            match_tier: None,
        },
        DirectiveView::HashlinePatch { file_path, .. } => InfoView {
            kind: KindView::HashlinePatch { file_path },
            success: false,
            error_msg: None,
            match_tier: None,
        },
        DirectiveView::Rename { from_path, to_path } => InfoView {
            kind: KindView::Rename { from_path, file_path: to_path },
            success: false,
            error_msg: None,
            match_tier: None,
        },
        DirectiveView::Delete { file_path } => InfoView {
            kind: KindView::Delete { file_path },
            success: false,
            error_msg: None,
            match_tier: None,
        },
        DirectiveView::Fail { kind, file_path, error_msg } => InfoView {
            kind: KindView::Fail { kind_str: kind, file_path },
            success: false,
            error_msg: Some(error_msg),
            match_tier: None,
        },
    }
}

impl DirectiveInfo {
    /// The path that the directive was for.
    pub fn file_path(&self) -> (r: &str)
        ensures
            r@ == self@.kind.file_path(),
    {
        match &self.kind {
            DirectiveKind::New { file_path } => file_path.as_str(),
            DirectiveKind::Patch { file_path } => file_path.as_str(),
            DirectiveKind::HashlinePatch { file_path } => file_path.as_str(),
            DirectiveKind::Rename { file_path, .. } => file_path.as_str(),
            DirectiveKind::Delete { file_path } => file_path.as_str(),
            DirectiveKind::Fail { file_path, .. } => match file_path {
                Some(p) => p.as_str(),
                None => "unknown",
            },
        }
    }

    /// Whether the directive was carried out.
    pub fn success(&self) -> (r: bool)
        ensures
            r == self@.success,
    {
        self.success
    }

    /// The message of the error, where the directive failed.
    pub fn error_msg(&self) -> (r: Option<&str>)
        ensures
            match r {
                Some(m) => self@.error_msg == Some(m@),
                None => self@.error_msg is None,
            },
    {
        match &self.error_msg {
            Some(m) => Some(m.as_str()),
            None => None,
        }
    }

    /// The name of the kind of the directive.
    pub fn kind(&self) -> (r: &'static str)
        ensures
            r@ == self@.kind.name(),
    {
        match &self.kind {
            DirectiveKind::New { .. } => "New",
            DirectiveKind::Patch { .. } => "Patch",
            DirectiveKind::HashlinePatch { .. } => "HashlinePatch",
            DirectiveKind::Rename { .. } => "Rename",
            DirectiveKind::Delete { .. } => "Delete",
            DirectiveKind::Fail { .. } => "Fail",
        }
    }

    /// The entry of `directive` before it is run.
    pub fn from(directive: &FileDirective) -> (r: DirectiveInfo)
        ensures
            r@ == pending_info(directive@),
    {
        match directive {
            FileDirective::New { file_path, .. } => DirectiveInfo {
                kind: DirectiveKind::New { file_path: file_path.clone() },
                success: false,
                error_msg: None,
                match_tier: None,
            },
            FileDirective::Patch { file_path, .. } => DirectiveInfo {
                kind: DirectiveKind::Patch { file_path: file_path.clone() },
                success: false,
                error_msg: None,
                match_tier: None,
            },
            FileDirective::HashlinePatch { file_path, .. } => DirectiveInfo {
                kind: DirectiveKind::HashlinePatch { file_path: file_path.clone() },
                success: false,
                error_msg: None,
                match_tier: None,
            },
            FileDirective::Rename { from_path, to_path } => DirectiveInfo {
                kind: DirectiveKind::Rename {
                    from_path: from_path.clone(),
                    file_path: to_path.clone(),
                },
                success: false,
                error_msg: None,
                match_tier: None,
            },
            FileDirective::Delete { file_path } => DirectiveInfo {
                kind: DirectiveKind::Delete { file_path: file_path.clone() },
                success: false,
                error_msg: None,
                match_tier: None,
            },
            FileDirective::Fail { kind, file_path, error_msg } => DirectiveInfo {
                kind: DirectiveKind::Fail {
                    kind_str: kind.clone(),
                    file_path: match file_path {
                        Some(p) => Some(p.clone()),
                        None => None,
                    },
                },
                success: false,
                error_msg: Some(error_msg.clone()),
                match_tier: None,
            },
        }
    }
}

} // verus!

//! The directives of one change block, in the order in which they are run.

use crate::file_directives::{directive_views, DirectiveView, FileDirective};
use vstd::prelude::*;
use vstd::std_specs::iter::IteratorSpec;

verus! {

/// The directives of one change block. Nothing is asked of them: the same
/// file may be named twice, and the order is the order of running.
#[derive(Debug, Clone)]
pub struct FileChanges {
    directives: Vec<FileDirective>,
}

impl View for FileChanges {
    type V = Seq<DirectiveView>;

    closed spec fn view(&self) -> Seq<DirectiveView> {
        directive_views(self.directives@)
    }
}

impl FileChanges {
    /// The directives themselves.
    pub closed spec fn items(&self) -> Seq<FileDirective> {
        self.directives@
    }

    /// The change block of `directives`.
    pub fn new(directives: Vec<FileDirective>) -> (r: FileChanges)
        ensures
            r.items() == directives@,
    {
        FileChanges { directives }
    }

    /// Whether there is no directive.
    pub fn is_empty(&self) -> (r: bool)
        ensures
            r == (self.items().len() == 0),
    {
        self.directives.len() == 0
    }

    /// The number of directives.
    pub fn len(&self) -> (r: usize)
        ensures
            r == self.items().len(),
    {
        self.directives.len()
    }

    /// The directive at place `i`.
    pub fn get(&self, i: usize) -> (r: &FileDirective)
        requires
            i < self.items().len(),
        ensures
            *r == self.items()[i as int],
    {
        &self.directives[i]
    }

    /// An iterator over the directives, in their order.
    pub fn iter(&self) -> (r: core::slice::Iter<'_, FileDirective>)
        ensures
            r.remaining().unref() == self.items(),
    {
        broadcast use vstd::std_specs::slice::axiom_spec_slice_iter;

        let r = self.directives.as_slice().iter();
        assert(r.remaining().unref() =~= self.directives@);
        r
    }

    /// The directives, given up.
    pub fn into_directives(self) -> (r: Vec<FileDirective>)
        ensures
            r@ == self.items(),
    {
        self.directives
    }
}

} // verus!

//! Paths as the library handles them: a first part and the parts joined to it.
//! The library never looks inside a part; whoever touches the file system
//! joins the parts in order.

use crate::text::clone_strings;
use vstd::prelude::*;

verus! {

/// A path, given as the parts to join from first to last.
#[derive(Debug, PartialEq, Eq)]
pub struct JoinedPath {
    pub parts: Vec<String>,
}

impl View for JoinedPath {
    type V = Seq<Seq<char>>;

    open spec fn view(&self) -> Seq<Seq<char>> {
        self.parts.deep_view()
    }
}

impl DeepView for JoinedPath {
    type V = Seq<Seq<char>>;

    open spec fn deep_view(&self) -> Seq<Seq<char>> {
        self@
    }
}

impl Clone for JoinedPath {
    fn clone(&self) -> (copy: JoinedPath)
        ensures
            copy@ == self@,
    {
        JoinedPath { parts: clone_strings(&self.parts) }
    }
}

impl JoinedPath {
    /// The path that consists of `first` alone.
    pub fn new(first: String) -> (path: JoinedPath)
        ensures
            path@ == seq![first@],
    {
        let mut parts: Vec<String> = Vec::new();
        parts.push(first);
        let path = JoinedPath { parts };
        assert(path@ =~= seq![first@]);
        path
    }

    /// This path with `part` joined to its end.
    pub fn join(&self, part: &str) -> (path: JoinedPath)
        ensures
            path@ == self@.push(part@),
    {
        let mut parts = clone_strings(&self.parts);
        parts.push(part.to_owned());
        let path = JoinedPath { parts };
        assert(path@ =~= self@.push(part@));
        path
    }

    /// Joins `part` to the end of this path.
    pub fn push(&mut self, part: String)
        ensures
            final(self)@ == old(self)@.push(part@),
    {
        self.parts.push(part);
        assert(self@ =~= old(self)@.push(part@));
    }
}

} // verus!

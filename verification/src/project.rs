//! The record of a project.

use crate::path::JoinedPath;
use crate::template::{clone_list, clone_text};
use vstd::prelude::*;

verus! {

/// What is known of a project. The record is made from what the user gave,
/// gets its directory when the project is built, and its row number when it
/// is stored.
#[derive(Debug, PartialEq, Eq)]
pub struct Project {
    /// The number of the stored record; absent until the record is stored.
    pub rowid: Option<i64>,
    pub name: Option<String>,
    pub desc: Option<String>,
    /// Where the project lives; set when it is built.
    pub directory: Option<JoinedPath>,
    pub tags: Option<Vec<String>>,
    pub language: Option<String>,
    pub category: Option<String>,
}

/// A project record as specifications see it.
pub struct ProjectView {
    pub rowid: Option<i64>,
    pub name: Option<Seq<char>>,
    pub desc: Option<Seq<char>>,
    pub directory: Option<Seq<Seq<char>>>,
    pub tags: Option<Seq<Seq<char>>>,
    pub language: Option<Seq<char>>,
    pub category: Option<Seq<char>>,
}

impl View for Project {
    type V = ProjectView;

    open spec fn view(&self) -> ProjectView {
        ProjectView {
            rowid: self.rowid,
            name: self.name.deep_view(),
            desc: self.desc.deep_view(),
            directory: self.directory.deep_view(),
            tags: self.tags.deep_view(),
            language: self.language.deep_view(),
            category: self.category.deep_view(),
        }
    }
}

impl Clone for Project {
    fn clone(&self) -> (copy: Project)
        ensures
            copy@ == self@,
    {
        Project {
            rowid: self.rowid,
            name: clone_text(&self.name),
            desc: clone_text(&self.desc),
            directory: match &self.directory {
                Some(path) => Some(path.clone()),
                None => None,
            },
            tags: clone_list(&self.tags),
            language: clone_text(&self.language),
            category: clone_text(&self.category),
        }
    }
}

impl Default for Project {
    fn default() -> (project: Project)
        ensures
            project@ == (ProjectView {
                rowid: None,
                name: None,
                desc: None,
                directory: None,
                tags: None,
                language: None,
                category: None,
            }),
    {
        Project {
            rowid: None,
            name: None,
            desc: None,
            directory: None,
            tags: None,
            language: None,
            category: None,
        }
    }
}

impl Project {
    /// A record that is neither built nor stored: it has no directory and no
    /// row number, and its tags are those given, even if there are none.
    pub fn new(
        name: Option<String>,
        desc: Option<String>,
        tags: Vec<String>,
        language: Option<String>,
        category: Option<String>,
    ) -> (project: Project)
        ensures
            project@ == (ProjectView {
                rowid: None,
                name: name.deep_view(),
                desc: desc.deep_view(),
                directory: None,
                tags: Some(tags.deep_view()),
                language: language.deep_view(),
                category: category.deep_view(),
            }),
    {
        Project { rowid: None, name, desc, directory: None, tags: Some(tags), language, category }
    }
}

} // verus!

//! The data the server keeps: repository trees and git keys.
use vstd::prelude::*;

verus! {

/// A node of a repository tree: a file or a directory.
pub enum FileNode {
    File(File),
    Directory(Directory),
}

/// A file with its name and text content.
pub struct File {
    pub name: String,
    pub content: String,
}

/// A directory with its name and the nodes below it.
pub struct Directory {
    pub name: String,
    pub children: Vec<FileNode>,
}

/// A stored git token and the project it belongs to.
#[derive(Debug)]
pub struct GitKey {
    pub token: String,
    pub project: Option<String>,
}

/// The view of an optional string.
pub open spec fn opt_view(o: Option<String>) -> Option<Seq<char>> {
    match o {
        Some(s) => Some(s@),
        None => None,
    }
}

impl View for GitKey {
    /// The token and the project.
    type V = (Seq<char>, Option<Seq<char>>);

    open spec fn view(&self) -> (Seq<char>, Option<Seq<char>>) {
        (self.token@, opt_view(self.project))
    }
}

/// The views of a list of keys.
pub open spec fn keys_view(keys: Seq<GitKey>) -> Seq<(Seq<char>, Option<Seq<char>>)> {
    keys.map_values(|k: GitKey| k@)
}

} // verus!

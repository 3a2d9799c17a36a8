//! Where the server keeps its data on disk.
use vstd::prelude::*;
use vstd::string::*;

use crate::config::{GIT_KEYS_DIR, REPOS_DIR};

verus! {

/// The path of the file that holds the git keys.
pub fn git_keys_file() -> (r: String)
    ensures
        r@ == GIT_KEYS_DIR@ + "/git_keys.json"@,
{
    let mut path = String::from_str(GIT_KEYS_DIR);
    path.append("/git_keys.json");
    path
}

/// The path of the repository `name`.
pub fn repo_dir(name: &str) -> (r: String)
    ensures
        r@ == REPOS_DIR@ + "/"@ + name@,
{
    let mut path = String::from_str(REPOS_DIR);
    path.append("/");
    path.append(name);
    path
}

/// The path of the file `file_name` in the repository `repo`.
pub fn repo_file_path(repo: &str, file_name: &str) -> (r: String)
    ensures
        r@ == REPOS_DIR@ + "/"@ + repo@ + "/"@ + file_name@,
{
    let mut path = repo_dir(repo);
    path.append("/");
    path.append(file_name);
    path
}

} // verus!

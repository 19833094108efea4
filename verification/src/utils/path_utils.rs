//! The search path: the directories it names and the files to look for in them.

use vstd::prelude::*;
use vstd::string::StringExecFns;
use crate::utils::separated::{split, split_on};

verus! {

/// The character that separates the directories of a search path.
pub open spec fn path_separator() -> char {
    ':'
}

/// The file called `name` in directory `dir`.
pub open spec fn candidate_of(dir: Seq<char>, name: Seq<char>) -> Seq<char> {
    dir.push('/') + name
}

/// The directories that a search path names, in the order in which they are
/// searched.
pub fn search_directories(search_path: &str) -> (dirs: Vec<String>)
    ensures
        dirs.deep_view() == split_on(search_path@, path_separator()),
{
    split(search_path, ':')
}

/// The path of the file called `name` in directory `dir`.
pub fn candidate_path(dir: &str, name: &str) -> (path: String)
    ensures
        path@ == candidate_of(dir@, name@),
{
    let mut path = String::from_str(dir);
    path.push('/');
    path.append(name);
    path
}

} // verus!

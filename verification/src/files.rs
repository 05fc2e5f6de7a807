//! What is decided about the files of a run before any of them is read.

use crate::text::equal;
use vstd::prelude::*;

verus! {

/// Why a path cannot be a source of documents.
#[derive(Debug, Clone, PartialEq, Eq)]
pub enum PathError {
    /// Nothing stands at the path.
    DoesNotExist(String),
    /// What stands at the path is no folder.
    NotAFolder(String),
}

/// Why a path cannot be a source of documents, as a value of the
/// specification.
pub enum PathFault {
    DoesNotExist(Seq<char>),
    NotAFolder(Seq<char>),
}

impl View for PathError {
    type V = PathFault;

    open spec fn view(&self) -> PathFault {
        match self {
            PathError::DoesNotExist(path) => PathFault::DoesNotExist(path@),
            PathError::NotAFolder(path) => PathFault::NotAFolder(path@),
        }
    }
}

/// What is held against a path, given whether something stands there and
/// whether that is a folder.
pub open spec fn path_fault(path: Seq<char>, exists: bool, is_dir: bool) -> Option<PathFault> {
    if !exists {
        Some(PathFault::DoesNotExist(path))
    } else if !is_dir {
        Some(PathFault::NotAFolder(path))
    } else {
        None
    }
}

/// Check if the path exists and is a folder else return an Error
pub fn validating_path(path: &str, exists: bool, is_dir: bool) -> (r: Result<(), PathError>)
    ensures
        match r {
            Ok(_) => path_fault(path@, exists, is_dir) is None,
            Err(e) => path_fault(path@, exists, is_dir) == Some(e@),
        },
{
    if !exists {
        Err(PathError::DoesNotExist(path.to_owned()))
    } else if !is_dir {
        Err(PathError::NotAFolder(path.to_owned()))
    } else {
        Ok(())
    }
}

/// The name of a file makes it the one that holds the shared schemas.
pub open spec fn is_shared(stem: Seq<char>) -> bool {
    stem == "shared-schemas"@ || stem == "shared"@
}

/// Where the first shared file stands among `stems`, or -1.
pub open spec fn shared_index(stems: Seq<Seq<char>>, from: int) -> int
    decreases stems.len() - from,
{
    if from < 0 || from >= stems.len() {
        -1
    } else if is_shared(stems[from]) {
        from
    } else {
        shared_index(stems, from + 1)
    }
}

/// The names held in `v`.
pub open spec fn names(v: Seq<String>) -> Seq<Seq<char>> {
    Seq::new(v.len(), |i: int| v[i]@)
}

/// Finds the file with the shared schemas among the files of a
/// specification, by the names of the files without their extensions: the
/// first that is called `shared-schemas` or `shared`.
pub fn find_shared(stems: &[String]) -> (r: Option<usize>)
    ensures
        match r {
            Some(at) => at as int == shared_index(names(stems@), 0),
            None => shared_index(names(stems@), 0) == -1,
        },
{
    let mut i: usize = 0;
    while i < stems.len()
        invariant
            i <= stems.len(),
            shared_index(names(stems@), 0) == shared_index(names(stems@), i as int),
        decreases stems.len() - i,
    {
        assert(names(stems@)[i as int] == stems@[i as int]@);
        if equal(stems[i].as_str(), "shared-schemas") || equal(stems[i].as_str(), "shared") {
            return Some(i);
        }
        i += 1;
    }
    None
}

} // verus!

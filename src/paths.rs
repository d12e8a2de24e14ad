//! What to do with each path given on the command line.
use vstd::prelude::*;
use vstd::string::StringExecFns;
use crate::text::chars_of;

verus! {

/// How one path given on the command line turns into files to scan.
#[derive(Clone, Copy, Debug, PartialEq, Eq, Structural)]
pub enum PathAction {
    /// A directory with recursive search: every regular file below it.
    Walk,
    /// A directory without recursive search: no file, and a notice.
    SkipDirectory,
    /// A wildcard pattern: every path that it matches.
    Expand,
    /// Any other path: itself, as it stands.
    Literal,
}

/// The path holds a wildcard character.
pub open spec fn has_wildcard(path: Seq<char>) -> bool {
    path.contains('*')
}

/// What to do with `path`, given whether it names a directory.
pub open spec fn action_of(path: Seq<char>, is_dir: bool, recursive: bool) -> PathAction {
    if is_dir {
        if recursive {
            PathAction::Walk
        } else {
            PathAction::SkipDirectory
        }
    } else if has_wildcard(path) {
        PathAction::Expand
    } else {
        PathAction::Literal
    }
}

/// Whether `path` holds a `*`.
pub fn contains_wildcard(path: &str) -> (r: bool)
    ensures
        r == has_wildcard(path@),
{
    let cs = chars_of(path);
    let mut i: usize = 0;
    while i < cs.len()
        invariant
            cs@ == path@,
            i <= cs@.len(),
            forall|j: int| 0 <= j < i ==> cs@[j] != '*',
        decreases cs@.len() - i,
    {
        if cs[i] == '*' {
            assert(path@[i as int] == '*');
            return true;
        }
        i = i + 1;
    }
    false
}

/// What to do with `path`: `is_dir` says whether it names a directory.
pub fn path_action(path: &str, is_dir: bool, recursive: bool) -> (r: PathAction)
    ensures
        r == action_of(path@, is_dir, recursive),
{
    if is_dir {
        if recursive {
            PathAction::Walk
        } else {
            PathAction::SkipDirectory
        }
    } else if contains_wildcard(path) {
        PathAction::Expand
    } else {
        PathAction::Literal
    }
}

/// The notice for a directory given without recursive search.
pub fn directory_notice(path: &str) -> (r: String)
    ensures
        r@ == path@ + " is a directory. Use -r option to search recursively."@,
{
    String::from_str(path).concat(" is a directory. Use -r option to search recursively.")
}

} // verus!

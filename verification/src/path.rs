//! Paths as text, with `/` between a directory and what it holds.

use vstd::prelude::*;
use vstd::string::*;

verus! {

/// The path of the entry `name` in the directory `dir`.
///
/// A `/` is put between the two, unless `dir` ends in one already or is empty
/// (the entry is then named relative to the working directory).
pub open spec fn child(dir: Seq<char>, name: Seq<char>) -> Seq<char> {
    if dir.len() == 0 || dir.last() == '/' {
        dir + name
    } else {
        dir.push('/') + name
    }
}

/// The path of the entry `name` in the directory `dir`.
pub fn join_path(dir: &str, name: &str) -> (path: String)
    ensures
        path@ == child(dir@, name@),
{
    let len = dir.unicode_len();
    if len == 0 || dir.get_char(len - 1) == '/' {
        dir.to_owned().concat(name)
    } else {
        proof {
            reveal_strlit("/");
            assert(dir@ + "/"@ =~= dir@.push('/'));
        }
        dir.to_owned().concat("/").concat(name)
    }
}

} // verus!

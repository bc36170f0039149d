use vstd::prelude::*;

use crate::text::{trim, trim_str};
use vstd::string::StringExecFns;

verus! {

/// The repository root that `git rev-parse --show-toplevel` reports: its
/// output trimmed when it succeeded, else the error that this is not a
/// repository.
pub open spec fn root_of(success: bool, stdout: Seq<char>) -> Result<Seq<char>, Seq<char>> {
    if success {
        Ok(trim(stdout))
    } else {
        Err("not inside a git repository"@)
    }
}

/// See `root_of`; `stdout` is the command's output as text.
pub fn root_from_output(success: bool, stdout: &str) -> (r: Result<String, String>)
    ensures
        match r {
            Ok(p) => root_of(success, stdout@) == Ok::<Seq<char>, Seq<char>>(p@),
            Err(e) => root_of(success, stdout@) == Err::<Seq<char>, Seq<char>>(e@),
        },
{
    if !success {
        return Err(String::from_str("not inside a git repository"));
    }
    Ok(trim_str(stdout))
}

} // verus!

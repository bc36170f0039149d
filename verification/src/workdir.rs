use vstd::prelude::*;

use crate::text::cat;

verus! {

/// What `Path::strip_prefix` leaves of `path` under `base` (component by
/// component), as text; `None` when `base` is not a prefix of `path`.
pub uninterp spec fn path_relative(path: Seq<char>, base: Seq<char>) -> Option<Seq<char>>;

/// Calls `Path::strip_prefix` and renders what is left with
/// `to_string_lossy`. Claims only that the answer is a function of the two
/// paths; which paths are prefixes of which is left to the name.
#[verifier::external_body]
fn strip_path_prefix(path: &str, base: &str) -> (r: Option<String>)
    ensures
        r.deep_view() == path_relative(path@, base@),
{
    std::path::Path::new(path).strip_prefix(base).ok().map(|p| p.to_string_lossy().into_owned())
}

/// The working directory inside the container: the alias's own workdir when
/// it has one, else the host's current directory mirrored under
/// `/workspace` (or `/workspace` itself when it is outside the repository).
pub open spec fn workdir_of(alias_workdir: Option<Seq<char>>, git_root: Seq<char>, cwd: Seq<char>) -> Seq<char> {
    match alias_workdir {
        Some(w) => w,
        None => match path_relative(cwd, git_root) {
            Some(rel) => if rel.len() == 0 {
                "/workspace"@
            } else {
                "/workspace/"@ + rel
            },
            None => "/workspace"@,
        },
    }
}

/// See `workdir_of`. `alias_workdir` is the alias's workdir after shell
/// evaluation.
pub fn resolve(alias_workdir: Option<&str>, git_root: &str, cwd: &str) -> (r: String)
    ensures
        r@ == workdir_of(alias_workdir.deep_view(), git_root@, cwd@),
{
    match alias_workdir {
        Some(w) => w.to_string(),
        None => {
            let rel = strip_path_prefix(cwd, git_root);
            match rel {
                Some(x) => {
                    if x.as_str().is_empty() {
                        "/workspace".to_string()
                    } else {
                        cat("/workspace/", x.as_str())
                    }
                },
                None => "/workspace".to_string(),
            }
        },
    }
}

} // verus!

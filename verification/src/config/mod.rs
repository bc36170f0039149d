pub mod parse;
pub mod resolve;
pub mod tree;
pub mod types;

use vstd::prelude::*;

use crate::patterns::{compile_pattern, pattern_is_match, regex_compiles, regex_error_text, regex_is_match};
use crate::text::cat3;
use resolve::{
    all_profile_names, build_state, chosen_profile, layered_state, list_profiles, opt_file,
    select_profile_name, ConfigState, StateView,
};
use types::{ConfigFile, ConfigView};

verus! {

/// Everything loaded for a run: the merged state, all profile names, and the
/// files themselves.
pub struct LoadedConfig {
    pub state: ConfigState,
    pub all_profiles: Vec<String>,
    pub global: ConfigFile,
    pub repo: ConfigFile,
    pub project: Option<ConfigFile>,
}

/// The `pattern` of a file's `[project]` section, if set.
pub open spec fn project_pattern(f: ConfigView) -> Option<Seq<char>> {
    match f.project {
        Some(p) => p.pattern,
        None => None,
    }
}

/// Whether the project file at `path` applies to the repository at
/// `git_root`: only a file with a `pattern` can, when the pattern matches the
/// root's path; a pattern that does not compile is an error that names the
/// file.
pub open spec fn project_match_of(f: ConfigView, path: Seq<char>, git_root: Seq<char>) -> Result<bool, Seq<char>> {
    match project_pattern(f) {
        None => Ok(false),
        Some(pat) => if regex_compiles(pat) {
            Ok(regex_is_match(pat, git_root))
        } else {
            Err(path + ": invalid pattern: "@ + regex_error_text(pat))
        },
    }
}

/// See `project_match_of`.
pub fn project_matches(file: &ConfigFile, path: &str, git_root: &str) -> (r: Result<bool, String>)
    ensures
        match r {
            Ok(b) => project_match_of(file@, path@, git_root@) == Ok::<bool, Seq<char>>(b),
            Err(e) => project_match_of(file@, path@, git_root@) == Err::<bool, Seq<char>>(e@),
        },
{
    let pat = match &file.project {
        Some(p) => match &p.pattern {
            Some(x) => x,
            None => return Ok(false),
        },
        None => return Ok(false),
    };
    match compile_pattern(pat.as_str()) {
        Ok(re) => Ok(pattern_is_match(&re, git_root)),
        Err(e) => Err(cat3(path, ": invalid pattern: ", e.as_str())),
    }
}

// ── Choosing the project file ───────────────────────────────────────────────

/// An entry of the project directory as plain values: the file's path, and
/// the file or the error that reading it gave.
pub open spec fn entry_view(e: (String, Result<ConfigFile, String>)) -> (Seq<char>, Result<ConfigView, Seq<char>>) {
    (
        e.0@,
        match e.1 {
            Ok(f) => Ok(f@),
            Err(m) => Err(m@),
        },
    )
}

/// The project file that applies to the repository at `root`, from entry
/// `i` on: entries that could not be read are passed over; the first file
/// whose pattern matches is the one (its index); a pattern that does not
/// compile before that is the error; no match at all gives `None`.
pub open spec fn project_choice(e: Seq<(Seq<char>, Result<ConfigView, Seq<char>>)>, root: Seq<char>, i: int) -> Result<
    Option<int>,
    Seq<char>,
>
    decreases e.len() - i,
{
    if i < 0 || i >= e.len() {
        Ok(None)
    } else {
        match e[i].1 {
            Err(_) => project_choice(e, root, i + 1),
            Ok(f) => match project_match_of(f, e[i].0, root) {
                Err(m) => Err(m),
                Ok(true) => Ok(Some(i)),
                Ok(false) => project_choice(e, root, i + 1),
            },
        }
    }
}

/// Picks the project file among `entries` (in the order of their paths);
/// see `project_choice`.
pub fn select_project(entries: &[(String, Result<ConfigFile, String>)], git_root: &str) -> (r: Result<Option<usize>, String>)
    ensures
        ({
            let c = project_choice(entries@.map_values(|e: (String, Result<ConfigFile, String>)| entry_view(e)), git_root@, 0);
            match r {
                Ok(Some(i)) => c == Ok::<Option<int>, Seq<char>>(Some(i as int)),
                Ok(None) => c == Ok::<Option<int>, Seq<char>>(None),
                Err(m) => c == Err::<Option<int>, Seq<char>>(m@),
            }
        }),
{
    let ghost ev = entries@.map_values(|e: (String, Result<ConfigFile, String>)| entry_view(e));
    let mut i: usize = 0;
    while i < entries.len()
        invariant
            ev == entries@.map_values(|e: (String, Result<ConfigFile, String>)| entry_view(e)),
            i <= entries.len(),
            project_choice(ev, git_root@, i as int) == project_choice(ev, git_root@, 0),
        decreases entries.len() - i,
    {
        assert(ev[i as int] == entry_view(entries@[i as int]));
        match &entries[i].1 {
            Ok(f) => match project_matches(f, entries[i].0.as_str(), git_root) {
                Ok(true) => return Ok(Some(i)),
                Ok(false) => {},
                Err(m) => return Err(m),
            },
            Err(_) => {},
        }
        i += 1;
    }
    Ok(None)
}

// ── Putting the layers together ─────────────────────────────────────────────

/// What `Path::parent` gives for a path, as text: the path without its last
/// component, `None` for a root or an empty path.
pub uninterp spec fn path_parent(p: Seq<char>) -> Option<Seq<char>>;

/// Calls `Path::parent` and renders the answer with `to_string_lossy`.
/// Claims only that the answer is a function of the path; what the parent
/// of which path is, is left to the name.
#[verifier::external_body]
fn parent_dir(p: &str) -> (r: Option<String>)
    ensures
        r.deep_view() == path_parent(p@),
{
    std::path::Path::new(p).parent().map(|d| d.to_string_lossy().into_owned())
}

/// The parent of an optional path.
pub open spec fn opt_parent(p: Option<Seq<char>>) -> Option<Seq<char>> {
    match p {
        Some(x) => path_parent(x),
        None => None,
    }
}

fn opt_parent_dir(p: Option<&str>) -> (r: Option<String>)
    ensures
        r.deep_view() == opt_parent(p.deep_view()),
{
    match p {
        Some(x) => parent_dir(x),
        None => None,
    }
}

fn opt_str_of(o: &Option<String>) -> (r: Option<&str>)
    ensures
        r.deep_view() == o.deep_view(),
{
    match o {
        Some(s) => Some(s.as_str()),
        None => None,
    }
}

/// The merged state of a run: the profile chosen from the command line and
/// the files, the layers merged (each relative dockerfile under the
/// directory of the file that names it), and the files in use recorded:
/// the global and repo files when they exist, the project file when there
/// is one.
pub open spec fn loaded_state(
    global: ConfigView,
    global_path: Option<Seq<char>>,
    global_exists: bool,
    repo: ConfigView,
    repo_path: Seq<char>,
    repo_exists: bool,
    project: Option<ConfigView>,
    project_path: Option<Seq<char>>,
    cli_profile: Option<Seq<char>>,
) -> StateView {
    let name = chosen_profile(global, repo, project, cli_profile);
    let s = layered_state(
        global,
        opt_parent(global_path),
        repo,
        path_parent(repo_path),
        project,
        opt_parent(project_path),
        name,
    );
    StateView {
        global_file: if global_exists {
            global_path
        } else {
            None
        },
        repo_file: if repo_exists {
            Some(repo_path)
        } else {
            None
        },
        project_file: project_path,
        ..s
    }
}

/// Puts the loaded files together: the global file read from
/// `global_path` (which exists when `global_exists`), the repo file from
/// `repo_path`, the project file with its path if one applies, and the
/// profile named on the command line; see `loaded_state`. All profile names
/// are listed, and the files are kept.
pub fn assemble(
    global: ConfigFile,
    global_path: Option<&str>,
    global_exists: bool,
    repo: ConfigFile,
    repo_path: &str,
    repo_exists: bool,
    project: Option<(ConfigFile, String)>,
    cli_profile: Option<&str>,
) -> (r: LoadedConfig)
    ensures
        ({
            let pv: Option<ConfigView> = match project {
                Some(p) => Some(p.0@),
                None => None,
            };
            let pp: Option<Seq<char>> = match project {
                Some(p) => Some(p.1@),
                None => None,
            };
            &&& r.state@ == loaded_state(
                global@,
                global_path.deep_view(),
                global_exists,
                repo@,
                repo_path@,
                repo_exists,
                pv,
                pp,
                cli_profile.deep_view(),
            )
            &&& r.all_profiles.deep_view() == all_profile_names(global@, repo@, pv)
            &&& r.global@ == global@
            &&& r.repo@ == repo@
            &&& match r.project {
                Some(f) => pv == Some(f@),
                None => pv is None,
            }
        }),
{
    let (project_file, project_path): (Option<ConfigFile>, Option<String>) = match project {
        Some((f, p)) => (Some(f), Some(p)),
        None => (None, None),
    };
    let profile = select_profile_name(&global, &repo, project_file.as_ref(), cli_profile);
    let all = list_profiles(&global, &repo, project_file.as_ref());
    let global_dir = opt_parent_dir(global_path);
    let repo_dir = parent_dir(repo_path);
    let project_dir = opt_parent_dir(opt_str_of(&project_path));
    let mut state = build_state(
        &global,
        opt_str_of(&global_dir),
        &repo,
        opt_str_of(&repo_dir),
        project_file.as_ref(),
        opt_str_of(&project_dir),
        profile.as_str(),
    );
    state.global_file = if global_exists {
        match global_path {
            Some(g) => Some(g.to_string()),
            None => None,
        }
    } else {
        None
    };
    state.repo_file = if repo_exists {
        Some(repo_path.to_string())
    } else {
        None
    };
    state.project_file = project_path;
    LoadedConfig { state, all_profiles: all, global, repo, project: project_file }
}

} // verus!

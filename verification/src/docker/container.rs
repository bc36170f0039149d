use vstd::prelude::*;

use crate::display::output::LifecycleBox;
use crate::env_spec::{env_evaluates_to, eval_value, eval_value_with_env, evaluates_to};
use crate::text::{cat3, signed_decimal, signed_decimal_string, str_eq, trim, trim_str};
use crate::trust::{lines_of, split_lines};
use vstd::string::StringExecFns;

verus! {

/// What a container is created from.
pub struct ContainerSpec<'a> {
    pub name: &'a str,
    pub image: &'a str,
    pub platform: Option<&'a str>,
    pub ports: &'a [String],
    pub volumes: &'a [String],
    pub extra_env: &'a [(String, String)],
    pub profile_name: &'a str,
    pub git_root: &'a str,
    pub global_file: Option<&'a str>,
    pub project_file: Option<&'a str>,
}

/// The profile file mounted into the container: the profile's name, then the
/// repository's root.
pub open spec fn profile_content_of(profile_name: Seq<char>, git_root: Seq<char>) -> Seq<char> {
    profile_name + "\n"@ + git_root
}

/// See `profile_content_of`.
pub fn profile_content(spec: &ContainerSpec) -> (r: String)
    ensures
        r@ == profile_content_of(spec.profile_name@, spec.git_root@),
{
    cat3(spec.profile_name, "\n", spec.git_root)
}

/// The lifecycle box shown before a container step.
pub open spec fn box_of<'a>(bx: LifecycleBox<'a>, action: Seq<char>, container: Seq<char>, image: Option<Seq<char>>, platform: Option<Seq<char>>) -> bool {
    &&& bx.action@ == action
    &&& bx.container@ == container
    &&& bx.image.deep_view() == image
    &&& bx.setup_cmd is None
    &&& bx.platform.deep_view() == platform
}

/// The box shown when a container is removed.
pub fn remove_box<'a>(name: &'a str, platform: Option<&'a str>) -> (r: LifecycleBox<'a>)
    ensures
        box_of(r, "Remove"@, name@, None, platform.deep_view()),
{
    LifecycleBox { action: "Remove", container: name, image: None, setup_cmd: None, platform }
}

/// The box shown when a container is created.
pub fn create_box<'a>(spec: &ContainerSpec<'a>) -> (r: LifecycleBox<'a>)
    ensures
        box_of(r, "Create"@, spec.name@, Some(spec.image@), spec.platform.deep_view()),
{
    LifecycleBox { action: "Create", container: spec.name, image: Some(spec.image), setup_cmd: None, platform: spec.platform }
}

/// The box shown when a stopped container is started.
pub fn start_box<'a>(name: &'a str) -> (r: LifecycleBox<'a>)
    ensures
        box_of(r, "Start"@, name@, None, None),
{
    LifecycleBox { action: "Start", container: name, image: None, setup_cmd: None, platform: None }
}

/// The box shown when a new container's setup command runs.
pub fn setup_box<'a>(container: &'a str, setup_cmd: &'a str) -> (r: LifecycleBox<'a>)
    ensures
        r.action@ == "Setup"@,
        r.container@ == container@,
        r.image is None,
        r.setup_cmd.deep_view() == Some(setup_cmd@),
        r.platform is None,
{
    LifecycleBox { action: "Setup", container, image: None, setup_cmd: Some(setup_cmd), platform: None }
}

/// The first decision of `ensure`: an existing container is removed first
/// when a restart is asked for.
pub fn remove_before_create(restart: bool, exists: bool) -> (r: bool)
    ensures
        r == (restart && exists),
{
    restart && exists
}

/// The last decision of `ensure`: a container that (still) exists is reused
/// and only started when it is not running; otherwise a new one is created.
/// The answer is whether the container is new.
pub fn create_needed(exists_now: bool) -> (r: bool)
    ensures
        r == !exists_now,
{
    !exists_now
}

/// The items of the `-v` mount of `host` at `target`.
pub open spec fn mount(host: Seq<char>, target: Seq<char>) -> Seq<Seq<char>> {
    seq!["-v"@, host + ":"@ + target]
}

/// Whether `args` are the `docker run` arguments that create the container:
/// detached, named, with the repository at `/workspace`, the profile file,
/// each port (evaluated) and volume (expanded with the profile's env), the
/// global and project config files, this program when its path is known, the
/// platform, and `sleep infinity` as the entry point.
pub open spec fn run_args_fit<F: Fn(&str) -> Option<String>, G: Fn(&str, &[(String, String)]) -> Option<String>>(
    spec: ContainerSpec,
    profile_file: Seq<char>,
    exe: Option<Seq<char>>,
    run_sh: F,
    run_sh_env: G,
    args: Seq<Seq<char>>,
) -> bool {
    exists|ports: Seq<Seq<char>>, vols: Seq<Seq<char>>|
        ports.len() == spec.ports@.len() && vols.len() == spec.volumes@.len() && (forall|i: int|
            0 <= i < ports.len() ==> evaluates_to(run_sh, #[trigger] spec.ports@[i]@, ports[i]))
            && (forall|i: int|
            0 <= i < vols.len() ==> env_evaluates_to(
                run_sh_env,
                #[trigger] spec.volumes@[i]@,
                spec.extra_env,
                vols[i],
            )) && args == run_args_of(spec, profile_file, exe, ports, vols)
}

/// The `-p` or `-v` items for a list of values.
pub open spec fn flag_each(flag: Seq<char>, vals: Seq<Seq<char>>) -> Seq<Seq<char>>
    decreases vals.len(),
{
    if vals.len() == 0 {
        Seq::empty()
    } else {
        flag_each(flag, vals.drop_last()) + seq![flag, vals.last()]
    }
}

/// The `docker run` arguments with the ports and volumes already evaluated.
pub open spec fn run_args_of(
    spec: ContainerSpec,
    profile_file: Seq<char>,
    exe: Option<Seq<char>>,
    ports: Seq<Seq<char>>,
    vols: Seq<Seq<char>>,
) -> Seq<Seq<char>> {
    seq!["run"@, "-d"@, "--name"@, spec.name@] + mount(spec.git_root@, "/workspace"@) + mount(
        profile_file,
        "/run/shrike/profile:ro"@,
    ) + flag_each("-p"@, ports) + flag_each("-v"@, vols) + match spec.global_file {
        Some(g) => mount(g@, "/run/shrike/global.toml:ro"@),
        None => Seq::empty(),
    } + match spec.project_file {
        Some(p) => mount(p@, "/run/shrike/project.toml:ro"@),
        None => Seq::empty(),
    } + match exe {
        Some(e) => mount(e, "/usr/local/bin/shrike:ro"@),
        None => Seq::empty(),
    } + match spec.platform {
        Some(p) => seq!["--platform"@, p@],
        None => Seq::empty(),
    } + seq!["--entrypoint"@, "sleep"@, spec.image@, "infinity"@]
}

fn push_mount(args: &mut Vec<String>, host: &str, target: &str)
    ensures
        final(args).deep_view() == old(args).deep_view() + mount(host@, target@),
{
    let ghost before = args.deep_view();
    args.push(String::from_str("-v"));
    args.push(cat3(host, ":", target));
    assert(args.deep_view() =~= before + mount(host@, target@));
}

/// The `docker run` arguments that create the container; see `run_args_fit`.
pub fn run_args<F: Fn(&str) -> Option<String>, G: Fn(&str, &[(String, String)]) -> Option<String>>(
    spec: &ContainerSpec,
    profile_file: &str,
    exe: Option<&str>,
    run_sh: &F,
    run_sh_env: &G,
) -> (r: Vec<String>)
    requires
        forall|s: &str| call_requires(run_sh, (s,)),
        forall|s: &str, e: &[(String, String)]| call_requires(run_sh_env, (s, e)),
    ensures
        run_args_fit(*spec, profile_file@, exe.deep_view(), run_sh, run_sh_env, r.deep_view()),
{
    let mut args: Vec<String> = Vec::new();
    args.push(String::from_str("run"));
    args.push(String::from_str("-d"));
    args.push(String::from_str("--name"));
    args.push(String::from_str(spec.name));
    let ghost s0 = args.deep_view();
    push_mount(&mut args, spec.git_root, "/workspace");
    push_mount(&mut args, profile_file, "/run/shrike/profile:ro");
    let ghost a0 = args.deep_view();
    assert(s0 =~= seq!["run"@, "-d"@, "--name"@, spec.name@]);
    let ghost mut ports: Seq<Seq<char>> = Seq::empty();
    for i in 0..spec.ports.len()
        invariant
            ports.len() == i,
            forall|j: int| 0 <= j < i ==> evaluates_to(run_sh, #[trigger] spec.ports@[j]@, ports[j]),
            args.deep_view() == a0 + flag_each("-p"@, ports),
            forall|s: &str| call_requires(run_sh, (s,)),
    {
        let v = eval_value(spec.ports[i].as_str(), run_sh);
        let ghost before = args.deep_view();
        args.push(String::from_str("-p"));
        args.push(v);
        proof {
            let np = ports.push(v@);
            assert(np.drop_last() =~= ports);
            ports = np;
            assert(args.deep_view() =~= before + seq!["-p"@, v@]);
        }
    }
    let ghost a1 = args.deep_view();
    let ghost mut vols: Seq<Seq<char>> = Seq::empty();
    for i in 0..spec.volumes.len()
        invariant
            vols.len() == i,
            forall|j: int| 0 <= j < i ==> env_evaluates_to(run_sh_env, #[trigger] spec.volumes@[j]@, spec.extra_env, vols[j]),
            args.deep_view() == a1 + flag_each("-v"@, vols),
            forall|s: &str, e: &[(String, String)]| call_requires(run_sh_env, (s, e)),
    {
        let v = eval_value_with_env(spec.volumes[i].as_str(), spec.extra_env, run_sh_env);
        let ghost before = args.deep_view();
        args.push(String::from_str("-v"));
        args.push(v);
        proof {
            let nv = vols.push(v@);
            assert(nv.drop_last() =~= vols);
            vols = nv;
            assert(args.deep_view() =~= before + seq!["-v"@, v@]);
        }
    }
    let ghost a2 = args.deep_view();
    if let Some(g) = spec.global_file {
        push_mount(&mut args, g, "/run/shrike/global.toml:ro");
    }
    let ghost a3 = args.deep_view();
    if let Some(p) = spec.project_file {
        push_mount(&mut args, p, "/run/shrike/project.toml:ro");
    }
    let ghost a4 = args.deep_view();
    if let Some(e) = exe {
        push_mount(&mut args, e, "/usr/local/bin/shrike:ro");
    }
    let ghost a5 = args.deep_view();
    if let Some(p) = spec.platform {
        args.push(String::from_str("--platform"));
        args.push(String::from_str(p));
    }
    let ghost a6 = args.deep_view();
    args.push(String::from_str("--entrypoint"));
    args.push(String::from_str("sleep"));
    args.push(String::from_str(spec.image));
    args.push(String::from_str("infinity"));
    proof {
        let g: Seq<Seq<char>> = match spec.global_file { Some(x) => mount(x@, "/run/shrike/global.toml:ro"@), None => Seq::empty() };
        let pj: Seq<Seq<char>> = match spec.project_file { Some(x) => mount(x@, "/run/shrike/project.toml:ro"@), None => Seq::empty() };
        let ex: Seq<Seq<char>> = match exe { Some(x) => mount(x@, "/usr/local/bin/shrike:ro"@), None => Seq::empty() };
        let pl: Seq<Seq<char>> = match spec.platform { Some(x) => seq!["--platform"@, x@], None => Seq::empty() };
        assert(a1 == a0 + flag_each("-p"@, ports));
        assert(a2 == a1 + flag_each("-v"@, vols));
        assert(a3 =~= a2 + g);
        assert(a4 =~= a2 + g + pj);
        assert(a5 =~= a2 + g + pj + ex);
        assert(a6 =~= a2 + g + pj + ex + pl);
        assert(args.deep_view() =~= run_args_of(*spec, profile_file@, exe.deep_view(), ports, vols));
    }
    args
}

// ── Reading docker's answers ────────────────────────────────────────────────

/// The names in the output of `docker ps --format {{.Names}}`: each line
/// trimmed, empty ones left out.
pub open spec fn names_in(lines: Seq<Seq<char>>) -> Seq<Seq<char>>
    decreases lines.len(),
{
    if lines.len() == 0 {
        Seq::empty()
    } else if trim(lines.last()).len() > 0 {
        names_in(lines.drop_last()).push(trim(lines.last()))
    } else {
        names_in(lines.drop_last())
    }
}

/// The containers that stopping all of them removes, from what `docker ps`
/// printed; see `names_in`.
pub fn names_to_stop(ps_output: &str) -> (r: Vec<String>)
    ensures
        r.deep_view() == names_in(lines_of(ps_output@)),
{
    let lines = split_lines(ps_output);
    let ghost lv = lines.deep_view();
    let mut out: Vec<String> = Vec::new();
    for i in 0..lines.len()
        invariant
            lv == lines.deep_view(),
            out.deep_view() == names_in(lv.take(i as int)),
    {
        proof {
            assert(lv.take(i + 1).drop_last() =~= lv.take(i as int));
        }
        let name = trim_str(lines[i].as_str());
        if !name.as_str().is_empty() {
            out.push(name);
        }
        assert(out.deep_view() =~= names_in(lv.take(i + 1)));
    }
    assert(lv.take(lines.len() as int) =~= lv);
    out
}

/// Whether `docker container inspect --format {{.State.Running}}` printed
/// that the container runs.
pub open spec fn says_running(out: Seq<char>) -> bool {
    trim(out) == "true"@
}

/// See `says_running`.
pub fn is_running_output(out: &str) -> (r: bool)
    ensures
        r == says_running(out@),
{
    let t = trim_str(out);
    str_eq(t.as_str(), "true")
}

/// The error when `docker start` fails.
pub fn start_failed_message(name: &str) -> (r: String)
    ensures
        r@ == "docker start "@ + name@ + " failed"@,
{
    cat3("docker start ", name, " failed")
}

/// The error when the setup command fails: its exit code, 1 when it has
/// none (it was killed by a signal).
pub fn setup_failed_message(code: Option<i32>) -> (r: String)
    ensures
        r@ == "setup command failed (exit "@ + signed_decimal(match code {
            Some(c) => c as int,
            None => 1,
        }) + ")"@,
{
    let c: i32 = match code {
        Some(c) => c,
        None => 1,
    };
    cat3("setup command failed (exit ", signed_decimal_string(c as i64).as_str(), ")")
}

} // verus!

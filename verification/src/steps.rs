use vstd::prelude::*;

use crate::config::resolve::{ConfigState, StateView};
use crate::config::types::{AliasConfig, AliasView};
use crate::display::output::{env_display, env_display_text, join_slice, opt_str, opt_text, texts};
use crate::docker::exec::{ExecStep, StepCmd};
use crate::env_spec::{
    build_env_flags, env_evaluates_to, env_map_from_flags, env_pairs, eval_value,
    eval_value_with_env, evaluates_to, flags_for, flags_resolve, host_gives, key_part, pairs_view,
    resolves, split_kv, value_part,
};
use crate::maps::lookup;
use crate::cli::Args;
use crate::text::{cat3, chars_of, copy_strings, decimal, decimal_string, find_char, first_index, glue, join, lemma_first_index, string_of, string_of_range, strs_view};
use crate::trust::{lines_of, strip_cr};
use crate::workdir::{resolve, workdir_of};
use vstd::string::StringExecFns;

verus! {

// ── Which kind of command ───────────────────────────────────────────────────

/// What the first word of a command names: a pipeline alias (with its
/// steps), a command alias, or nothing known, a literal command.
pub enum CommandKind {
    Pipeline(Vec<String>),
    Alias,
    Literal,
}

/// The kind of command `name` is for `state`: only aliases that are not
/// hidden count.
pub open spec fn kind_of(s: StateView, name: Seq<char>) -> Option<Option<Seq<Seq<char>>>> {
    match lookup(s.aliases, name) {
        Some(a) => if a.hidden == Some(true) {
            None
        } else {
            Some(a.pipeline)
        },
        None => None,
    }
}

/// See `kind_of`: `Pipeline` for a visible alias with steps, `Alias` for a
/// visible alias without, `Literal` otherwise.
pub fn command_kind(state: &ConfigState, name: &str) -> (r: CommandKind)
    ensures
        match kind_of(state@, name@) {
            Some(Some(p)) => r matches CommandKind::Pipeline(v) && v.deep_view() == p,
            Some(None) => r is Alias,
            None => r is Literal,
        },
{
    match state.resolve_alias(name) {
        Some(alias) => match &alias.pipeline {
            Some(steps) => CommandKind::Pipeline(copy_strings(steps.as_slice())),
            None => CommandKind::Alias,
        },
        None => CommandKind::Literal,
    }
}

// ── Building a step ─────────────────────────────────────────────────────────

/// The command an alias runs: its `cmd` (empty when unset), then the extra
/// arguments after a space, joined with spaces.
pub open spec fn full_command(cmd: Option<Seq<char>>, extra: Seq<Seq<char>>) -> Seq<char> {
    if extra.len() == 0 {
        opt_str(cmd)
    } else {
        opt_str(cmd) + " "@ + join(extra, " "@)
    }
}

/// Whether `v` is what an optional value evaluates to.
pub open spec fn opt_evaluates_to<F: Fn(&str) -> Option<String>>(
    run_sh: F,
    raw: Option<Seq<char>>,
    v: Option<Seq<char>>,
) -> bool {
    match raw {
        Some(x) => v is Some && evaluates_to(run_sh, x, v.unwrap()),
        None => v is None,
    }
}

/// The first of two options that is set.
pub open spec fn either<T>(a: Option<T>, b: Option<T>) -> Option<T> {
    if a is Some {
        a
    } else {
        b
    }
}

/// The env specs of an alias (none when unset).
pub open spec fn alias_env_specs(a: AliasView) -> Seq<Seq<char>> {
    match a.env {
        Some(e) => e,
        None => Seq::empty(),
    }
}

/// Whether `w` is the working directory of a step: the alias's workdir
/// expanded with the step's env (`env_flags` read back), or, without one,
/// the host's current directory mirrored under `/workspace`.
pub open spec fn workdir_fits<H: Fn(&str, &[(String, String)]) -> Option<String>>(
    run_sh_env: H,
    alias_workdir: Option<Seq<char>>,
    env_flags: Seq<Seq<char>>,
    git_root: Seq<char>,
    cwd: Seq<char>,
    w: Seq<char>,
) -> bool {
    match alias_workdir {
        Some(raw) => exists|m: &[(String, String)], v: Seq<char>|
            pairs_view(m@) == env_pairs(env_flags) && env_evaluates_to(run_sh_env, raw, m, v) && w
                == workdir_of(Some(v), git_root, cwd),
        None => w == workdir_of(None, git_root, cwd),
    }
}

/// Whether `step` is the step that runs alias `a` of state `s` (all but the
/// name it is shown under): the profile's env flags, the alias's, then those
/// of the command line; the workdir (see `workdir_fits`); the alias's user,
/// else the profile's, evaluated; the alias's command with the extra
/// arguments; interactive when the alias or the command line says so; and
/// the profile, image, container, ports and volumes.
pub open spec fn alias_step_fits<
    F: Fn(&str) -> Option<String>,
    G: Fn(&str) -> Option<String>,
    H: Fn(&str, &[(String, String)]) -> Option<String>,
>(
    run_sh: F,
    host_var: G,
    run_sh_env: H,
    a: AliasView,
    s: StateView,
    container: Seq<char>,
    image: Seq<char>,
    git_root: Seq<char>,
    cwd: Seq<char>,
    extra: Seq<Seq<char>>,
    cli_env: Seq<Seq<char>>,
    force_interactive: bool,
    step: ExecStep,
) -> bool {
    let flags = step.env_flags.deep_view();
    &&& exists|base: Seq<Seq<char>>, own: Seq<Seq<char>>|
        flags_resolve(run_sh, host_var, false, s.env, base) && flags_resolve(
            run_sh,
            host_var,
            false,
            alias_env_specs(a),
            own,
        ) && flags == base + own + cli_env
    &&& workdir_fits(run_sh_env, a.workdir, flags, git_root, cwd, step.workdir@)
    &&& opt_evaluates_to(run_sh, either(a.user, s.user), step.user.deep_view())
    &&& step.env_display@ == env_display_text(flags)
    &&& step.cmd matches StepCmd::Alias(c) && c@ == full_command(a.cmd, extra)
    &&& step.interactive == (a.interactive == Some(true) || force_interactive)
    &&& step.profile@ == s.profile_name
    &&& step.image@ == image
    &&& step.container@ == container
    &&& step.ports.deep_view() == s.ports
    &&& step.volumes.deep_view() == s.volumes
}

/// Appends copies of `items`.
fn append_strings(dst: &mut Vec<String>, items: &[String])
    ensures
        final(dst).deep_view() == old(dst).deep_view() + texts(items@),
{
    let ghost before = dst.deep_view();
    for i in 0..items.len()
        invariant
            dst.deep_view() == before + texts(items@).take(i as int),
    {
        let ghost prev = dst.deep_view();
        let item = items[i].clone();
        dst.push(item);
        assert(dst.deep_view() =~= prev.push(texts(items@)[i as int]));
        assert(texts(items@).take(i + 1) =~= texts(items@).take(i as int).push(texts(items@)[i as int]));
    }
    assert(texts(items@).take(items.len() as int) =~= texts(items@));
}

proof fn lemma_no_flags<F: Fn(&str) -> Option<String>, G: Fn(&str) -> Option<String>>(run_sh: F, host_var: G)
    ensures
        flags_resolve(run_sh, host_var, false, Seq::empty(), Seq::empty()),
{
    let vals: Seq<Option<Seq<char>>> = Seq::empty();
    assert(flags_for(Seq::empty(), vals) =~= Seq::<Seq<char>>::empty());
    assert(vals.len() == 0 && (forall|i: int| 0 <= i < vals.len() ==> resolves(run_sh, host_var, false, #[trigger] Seq::<Seq<char>>::empty()[i], vals[i])) && Seq::<Seq<char>>::empty() == flags_for(Seq::empty(), vals));
}

fn opt_string_str(o: &Option<String>) -> (r: Option<&str>)
    ensures
        r.deep_view() == o.deep_view(),
{
    match o {
        Some(s) => Some(s.as_str()),
        None => None,
    }
}

fn eval_opt<F: Fn(&str) -> Option<String>>(raw: Option<&str>, run_sh: &F) -> (r: Option<String>)
    requires
        forall|s: &str| call_requires(run_sh, (s,)),
    ensures
        opt_evaluates_to(run_sh, raw.deep_view(), r.deep_view()),
{
    match raw {
        Some(u) => Some(eval_value(u, run_sh)),
        None => None,
    }
}

fn command_text(cmd: &Option<String>, extra_args: &[String]) -> (r: String)
    ensures
        r@ == full_command(cmd.deep_view(), texts(extra_args@)),
{
    let c = opt_text(opt_string_str(cmd));
    if extra_args.len() == 0 {
        c.to_string()
    } else {
        let rest = join_slice(extra_args, " ");
        cat3(c, " ", rest.as_str())
    }
}

/// The step that runs alias `alias` (called as `name`, with `extra_args`
/// after its command); see `alias_step_fits`. `run_sh` runs `sh -c` and
/// gives its output, `host_var` reads a host variable, and `run_sh_env` runs
/// `sh -c` with extra environment.
pub fn build_alias_step<
    F: Fn(&str) -> Option<String>,
    G: Fn(&str) -> Option<String>,
    H: Fn(&str, &[(String, String)]) -> Option<String>,
>(
    name: &str,
    alias: &AliasConfig,
    state: &ConfigState,
    container: &str,
    image: &str,
    git_root: &str,
    cwd: &str,
    extra_args: &[String],
    cli_env: &[String],
    force_interactive: bool,
    run_sh: &F,
    host_var: &G,
    run_sh_env: &H,
) -> (r: ExecStep)
    requires
        forall|s: &str| call_requires(run_sh, (s,)),
        forall|s: &str| call_requires(host_var, (s,)),
        forall|s: &str, e: &[(String, String)]| call_requires(run_sh_env, (s, e)),
    ensures
        alias_step_fits(
            run_sh,
            host_var,
            run_sh_env,
            alias@,
            state@,
            container@,
            image@,
            git_root@,
            cwd@,
            texts(extra_args@),
            texts(cli_env@),
            force_interactive,
            r,
        ),
        r.display_cmd@ == name@,
{
    let mut env_flags = build_env_flags(state.env.as_slice(), run_sh, host_var);
    let ghost base = env_flags.deep_view();
    proof {
        assert(texts(state.env@) =~= state@.env);
        assert(crate::env_spec::strings_view(state.env@) =~= state@.env);
        assert(crate::env_spec::strings_view(env_flags@) =~= base);
    }
    let own = match &alias.env {
        Some(ae) => {
            let f = build_env_flags(ae.as_slice(), run_sh, host_var);
            proof {
                assert(crate::env_spec::strings_view(ae@) =~= alias_env_specs(alias@));
                assert(crate::env_spec::strings_view(f@) =~= f.deep_view());
            }
            f
        },
        None => {
            proof { lemma_no_flags(run_sh, host_var); }
            let f: Vec<String> = Vec::new();
            assert(f.deep_view() =~= Seq::<Seq<char>>::empty());
            f
        },
    };
    let ghost ownv = own.deep_view();
    append_strings(&mut env_flags, own.as_slice());
    proof {
        assert(texts(own@) =~= ownv);
    }
    append_strings(&mut env_flags, cli_env);
    let ghost flags = env_flags.deep_view();
    assert(flags == base + ownv + texts(cli_env@));
    let env_map = env_map_from_flags(env_flags.as_slice());
    proof {
        assert(env_flags@.map_values(|s: String| s@) =~= flags);
    }
    let env_slice = env_map.as_slice();
    let evaluated = match &alias.workdir {
        Some(w) => Some(eval_value_with_env(w.as_str(), env_slice, run_sh_env)),
        None => None,
    };
    let workdir = resolve(opt_string_str(&evaluated), git_root, cwd);
    let user_raw = if alias.user.is_some() {
        opt_string_str(&alias.user)
    } else {
        opt_string_str(&state.user)
    };
    let user = eval_opt(user_raw, run_sh);
    let env_disp = env_display(env_flags.as_slice());
    let full_cmd = command_text(&alias.cmd, extra_args);
    let step = ExecStep {
        cmd: StepCmd::Alias(full_cmd),
        workdir,
        display_cmd: name.to_string(),
        env_flags,
        env_display: env_disp,
        user,
        interactive: alias.interactive == Some(true) || force_interactive,
        profile: state.profile_name.clone(),
        image: image.to_string(),
        container: container.to_string(),
        ports: copy_strings(state.ports.as_slice()),
        volumes: copy_strings(state.volumes.as_slice()),
    };
    proof {
        assert(state.ports@.map_values(|s: String| s@) =~= state@.ports);
        assert(state.volumes@.map_values(|s: String| s@) =~= state@.volumes);
        assert(step.env_flags.deep_view() == flags);
        match alias@.workdir {
            Some(raw) => {
                let m = env_slice;
                assert(pairs_view(m@) == env_pairs(flags));
                assert(env_evaluates_to(run_sh_env, raw, m, evaluated.unwrap()@));
                assert(step.workdir@ == workdir_of(Some(evaluated.unwrap()@), git_root@, cwd@));
            },
            None => {},
        }
    }
    step
}

/// Whether `step` is the step that runs the literal command `cmd`: the
/// profile's env flags then the command line's; the host's current directory
/// mirrored under `/workspace`; the profile's user, evaluated; the command
/// shown joined with spaces; interactive only when the command line says so.
pub open spec fn literal_step_fits<F: Fn(&str) -> Option<String>, G: Fn(&str) -> Option<String>>(
    run_sh: F,
    host_var: G,
    cmd: Seq<Seq<char>>,
    s: StateView,
    container: Seq<char>,
    image: Seq<char>,
    git_root: Seq<char>,
    cwd: Seq<char>,
    cli_env: Seq<Seq<char>>,
    force_interactive: bool,
    step: ExecStep,
) -> bool {
    let flags = step.env_flags.deep_view();
    &&& exists|base: Seq<Seq<char>>| flags_resolve(run_sh, host_var, false, s.env, base) && flags == base + cli_env
    &&& step.workdir@ == workdir_of(None, git_root, cwd)
    &&& opt_evaluates_to(run_sh, s.user, step.user.deep_view())
    &&& step.env_display@ == env_display_text(flags)
    &&& step.cmd matches StepCmd::Literal(v) && v.deep_view() == cmd
    &&& step.display_cmd@ == join(cmd, " "@)
    &&& step.interactive == force_interactive
    &&& step.profile@ == s.profile_name
    &&& step.image@ == image
    &&& step.container@ == container
    &&& step.ports.deep_view() == s.ports
    &&& step.volumes.deep_view() == s.volumes
}

/// The step that runs `cmd` as it stands; see `literal_step_fits`.
pub fn build_literal_step<F: Fn(&str) -> Option<String>, G: Fn(&str) -> Option<String>>(
    cmd: &[String],
    state: &ConfigState,
    container: &str,
    image: &str,
    git_root: &str,
    cwd: &str,
    cli_env: &[String],
    force_interactive: bool,
    run_sh: &F,
    host_var: &G,
) -> (r: ExecStep)
    requires
        forall|s: &str| call_requires(run_sh, (s,)),
        forall|s: &str| call_requires(host_var, (s,)),
    ensures
        literal_step_fits(
            run_sh,
            host_var,
            texts(cmd@),
            state@,
            container@,
            image@,
            git_root@,
            cwd@,
            texts(cli_env@),
            force_interactive,
            r,
        ),
{
    let workdir = resolve(None, git_root, cwd);
    let user = eval_opt(opt_string_str(&state.user), run_sh);
    let mut env_flags = build_env_flags(state.env.as_slice(), run_sh, host_var);
    let ghost base = env_flags.deep_view();
    proof {
        assert(crate::env_spec::strings_view(state.env@) =~= state@.env);
        assert(crate::env_spec::strings_view(env_flags@) =~= base);
    }
    append_strings(&mut env_flags, cli_env);
    let env_disp = env_display(env_flags.as_slice());
    proof {
        assert(env_flags@.map_values(|s: String| s@) =~= env_flags.deep_view());
    }
    let step = ExecStep {
        cmd: StepCmd::Literal(copy_strings(cmd)),
        workdir,
        display_cmd: join_slice(cmd, " "),
        env_flags,
        env_display: env_disp,
        user,
        interactive: force_interactive,
        profile: state.profile_name.clone(),
        image: image.to_string(),
        container: container.to_string(),
        ports: copy_strings(state.ports.as_slice()),
        volumes: copy_strings(state.volumes.as_slice()),
    };
    proof {
        assert(state.ports@.map_values(|s: String| s@) =~= state@.ports);
        assert(state.volumes@.map_values(|s: String| s@) =~= state@.volumes);
        assert(cmd@.map_values(|s: String| s@) =~= texts(cmd@));
    }
    step
}

// ── Pipelines ───────────────────────────────────────────────────────────────

/// What a pipeline does next: run a step, finish with an exit code, or stop
/// because a step names no alias.
pub enum PipelineAction {
    Run(ExecStep),
    Done(i32),
    Missing(String),
}

/// How a pipeline step is shown: `name [i/total]`.
pub open spec fn step_label(name: Seq<char>, i: nat, total: nat) -> Seq<char> {
    name + " ["@ + decimal(i) + "/"@ + decimal(total) + "]"@
}

/// The message for a pipeline step that names no alias.
pub open spec fn missing_step_text(name: Seq<char>) -> Seq<char> {
    "pipeline step `"@ + name + "` not found"@
}

/// Whether `r` is the next action of a pipeline; see `pipeline_next`.
pub open spec fn pipeline_action_fits<
    F: Fn(&str) -> Option<String>,
    G: Fn(&str) -> Option<String>,
    H: Fn(&str, &[(String, String)]) -> Option<String>,
>(
    run_sh: F,
    host_var: G,
    run_sh_env: H,
    steps: Seq<Seq<char>>,
    next: nat,
    last_exit: Option<i32>,
    s: StateView,
    container: Seq<char>,
    image: Seq<char>,
    git_root: Seq<char>,
    cwd: Seq<char>,
    cli_env: Seq<Seq<char>>,
    force_interactive: bool,
    r: PipelineAction,
) -> bool {
    if last_exit is Some && last_exit.unwrap() != 0 {
        r == PipelineAction::Done(last_exit.unwrap())
    } else if next >= steps.len() {
        r == PipelineAction::Done(0)
    } else {
        let name = steps[next as int];
        match lookup(s.aliases, name) {
            Some(a) => {
                &&& r matches PipelineAction::Run(step)
                &&& alias_step_fits(
                    run_sh,
                    host_var,
                    run_sh_env,
                    a,
                    s,
                    container,
                    image,
                    git_root,
                    cwd,
                    Seq::empty(),
                    cli_env,
                    force_interactive,
                    r->Run_0,
                )
                &&& r->Run_0.display_cmd@ == step_label(name, next + 1, steps.len())
            },
            None => r matches PipelineAction::Missing(m) && m@ == missing_step_text(name),
        }
    }
}

/// The next action of a pipeline whose steps `0..next` have run, the last
/// of them with exit code `last_exit`: a failed step ends the pipeline with
/// its code; after the last step the pipeline ends with 0; otherwise step
/// `next` runs its alias (hidden ones too) with no extra arguments, shown as
/// `name [next+1/total]`, or the pipeline stops when no alias has that name.
pub fn pipeline_next<
    F: Fn(&str) -> Option<String>,
    G: Fn(&str) -> Option<String>,
    H: Fn(&str, &[(String, String)]) -> Option<String>,
>(
    steps: &[String],
    next: usize,
    last_exit: Option<i32>,
    state: &ConfigState,
    container: &str,
    image: &str,
    git_root: &str,
    cwd: &str,
    cli_env: &[String],
    force_interactive: bool,
    run_sh: &F,
    host_var: &G,
    run_sh_env: &H,
) -> (r: PipelineAction)
    requires
        forall|s: &str| call_requires(run_sh, (s,)),
        forall|s: &str| call_requires(host_var, (s,)),
        forall|s: &str, e: &[(String, String)]| call_requires(run_sh_env, (s, e)),
    ensures
        pipeline_action_fits(
            run_sh,
            host_var,
            run_sh_env,
            texts(steps@),
            next as nat,
            last_exit,
            state@,
            container@,
            image@,
            git_root@,
            cwd@,
            texts(cli_env@),
            force_interactive,
            r,
        ),
{
    if let Some(c) = last_exit {
        if c != 0 {
            return PipelineAction::Done(c);
        }
    }
    if next >= steps.len() {
        return PipelineAction::Done(0);
    }
    let name = steps[next].as_str();
    match state.get_alias_internal(name) {
        Some(alias) => {
            let no_args: Vec<String> = Vec::new();
            let mut step = build_alias_step(
                name,
                alias,
                state,
                container,
                image,
                git_root,
                cwd,
                no_args.as_slice(),
                cli_env,
                force_interactive,
                run_sh,
                host_var,
                run_sh_env,
            );
            assert(texts(no_args@) =~= Seq::<Seq<char>>::empty());
            let i = decimal_string((next + 1) as u128);
            let total = decimal_string(steps.len() as u128);
            let is = i.as_str();
            let ts = total.as_str();
            let label = glue(&[name, " [", is, "/", ts, "]"]);
            proof {
                assert(strs_view(seq![name, " [", is, "/", ts, "]"]) =~= seq![name@, " ["@, i@, "/"@, total@, "]"@]);
                assert(crate::text::concat(seq![name@, " ["@, i@, "/"@, total@, "]"@]) =~= step_label(name@, (next + 1) as nat, steps@.len())) by {
                    reveal_with_fuel(crate::text::concat, 7);
                }
            }
            step.display_cmd = label;
            PipelineAction::Run(step)
        },
        None => {
            let m = cat3("pipeline step `", name, "` not found");
            PipelineAction::Missing(m)
        },
    }
}

// ── What to do ──────────────────────────────────────────────────────────────

/// What a run on the host does, by its options.
pub enum HostAction {
    StopAll,
    Generate,
    ListProfiles,
    ListAliases,
    Stop,
    Run,
}

/// The action for `args` on the host: `--stop-all` first, then `--new`,
/// `--list-profiles`, `--list`, `--stop`, else preparing the container and
/// running the command, if any.
pub fn host_action(args: &Args) -> (r: HostAction)
    ensures
        r == (if args.stop_all {
            HostAction::StopAll
        } else if args.new is Some {
            HostAction::Generate
        } else if args.list_profiles {
            HostAction::ListProfiles
        } else if args.list {
            HostAction::ListAliases
        } else if args.stop {
            HostAction::Stop
        } else {
            HostAction::Run
        }),
{
    if args.stop_all {
        HostAction::StopAll
    } else if args.new.is_some() {
        HostAction::Generate
    } else if args.list_profiles {
        HostAction::ListProfiles
    } else if args.list {
        HostAction::ListAliases
    } else if args.stop {
        HostAction::Stop
    } else {
        HostAction::Run
    }
}

/// What a run inside the container does, by its options.
pub enum DirectAction {
    Ignore,
    ListAliases,
    ListProfiles,
    Nothing,
    Run,
}

/// The warnings and the action for `args` inside the container: the
/// image and container options are ignored there, with a warning each;
/// `--stop` and `--stop-all` do nothing; then `--list`, `--list-profiles`,
/// nothing without a command, else the command runs.
pub fn direct_action(args: &Args) -> (r: (Vec<String>, DirectAction))
    ensures
        r.0.deep_view() == (if args.rebuild || args.restart {
            seq!["--rebuild/--restart have no effect inside a container"@]
        } else {
            Seq::empty()
        }) + (if args.stop || args.stop_all {
            seq!["container management flags have no effect in direct mode"@]
        } else {
            Seq::empty()
        }),
        r.1 == (if args.stop || args.stop_all {
            DirectAction::Ignore
        } else if args.list {
            DirectAction::ListAliases
        } else if args.list_profiles {
            DirectAction::ListProfiles
        } else if args.command@.len() == 0 {
            DirectAction::Nothing
        } else {
            DirectAction::Run
        }),
{
    let mut warnings: Vec<String> = Vec::new();
    if args.rebuild || args.restart {
        warnings.push(String::from_str("--rebuild/--restart have no effect inside a container"));
    }
    let ghost w1 = warnings.deep_view();
    if args.stop || args.stop_all {
        warnings.push(String::from_str("container management flags have no effect in direct mode"));
    }
    proof {
        if args.rebuild || args.restart {
            assert(w1 =~= seq!["--rebuild/--restart have no effect inside a container"@]);
        } else {
            assert(w1 =~= Seq::<Seq<char>>::empty());
        }
    }
    let action = if args.stop || args.stop_all {
        DirectAction::Ignore
    } else if args.list {
        DirectAction::ListAliases
    } else if args.list_profiles {
        DirectAction::ListProfiles
    } else if args.command.len() == 0 {
        DirectAction::Nothing
    } else {
        DirectAction::Run
    };
    assert(warnings.deep_view() =~= (if args.rebuild || args.restart {
        seq!["--rebuild/--restart have no effect inside a container"@]
    } else {
        Seq::<Seq<char>>::empty()
    }) + (if args.stop || args.stop_all {
        seq!["container management flags have no effect in direct mode"@]
    } else {
        Seq::<Seq<char>>::empty()
    }));
    (warnings, action)
}

// ── Running inside the container ────────────────────────────────────────────

/// The profile a run inside the container uses: the one the command line
/// names, else the first line of the profile file the container was created
/// with, unless that line is empty.
pub open spec fn direct_profile_of(cli_profile: Option<Seq<char>>, data: Seq<char>) -> Option<Seq<char>> {
    match cli_profile {
        Some(p) => Some(p),
        None => {
            let ls = lines_of(data);
            if ls.len() > 0 && ls[0].len() > 0 {
                Some(ls[0])
            } else {
                None
            }
        },
    }
}

/// See `direct_profile_of`; `profile_data` is the content of the profile file
/// (empty when it cannot be read).
pub fn direct_profile(cli_profile: Option<&str>, profile_data: &str) -> (r: Option<String>)
    ensures
        r.deep_view() == direct_profile_of(cli_profile.deep_view(), profile_data@),
{
    if let Some(p) = cli_profile {
        return Some(p.to_string());
    }
    let cs = chars_of(profile_data);
    if cs.len() == 0 {
        proof {
            assert(profile_data@.len() == 0);
        }
        return None;
    }
    let line = match find_char(&cs, '\n') {
        Some(i) => {
            proof {
                lemma_first_index(cs@, '\n');
            }
            let mut end = i;
            if end > 0 && cs[end - 1] == '\r' {
                end = end - 1;
            }
            let l = string_of_range(&cs, 0, end);
            proof {
                let t = profile_data@.take(i as int);
                assert(lines_of(profile_data@)[0] == strip_cr(t));
                if i > 0 && cs@[i - 1] == '\r' {
                    assert(l@ =~= t.drop_last());
                } else {
                    assert(l@ =~= t);
                }
            }
            l
        },
        None => {
            let l = string_of(&cs);
            assert(lines_of(profile_data@)[0] == profile_data@);
            l
        },
    };
    if line.as_str().is_empty() {
        None
    } else {
        Some(line)
    }
}

/// A command run directly inside the container, with what its summary shows.
pub struct DirectStep {
    pub cmd: StepCmd,
    pub workdir: String,
    pub display_cmd: String,
    pub env_display: String,
    pub env_specs: Vec<String>,
    pub interactive: bool,
}

/// Whether `step` runs alias `a` of state `s` directly: the env specs are the
/// profile's then the alias's; the env flags (shown, and used to expand the
/// workdir) are theirs then the command line's; the command is the alias's
/// with the extra arguments, under `sh -c`, and shown as it is.
pub open spec fn direct_alias_fits<
    F: Fn(&str) -> Option<String>,
    G: Fn(&str) -> Option<String>,
    H: Fn(&str, &[(String, String)]) -> Option<String>,
>(
    run_sh: F,
    host_var: G,
    run_sh_env: H,
    a: AliasView,
    s: StateView,
    git_root: Seq<char>,
    cwd: Seq<char>,
    extra: Seq<Seq<char>>,
    cli_env: Seq<Seq<char>>,
    interactive: bool,
    step: DirectStep,
) -> bool {
    let specs = s.env + alias_env_specs(a);
    &&& step.env_specs.deep_view() == specs
    &&& exists|base: Seq<Seq<char>>|
        flags_resolve(run_sh, host_var, false, specs, base) && workdir_fits(
            run_sh_env,
            a.workdir,
            base + cli_env,
            git_root,
            cwd,
            step.workdir@,
        ) && step.env_display@ == env_display_text(base + cli_env)
    &&& step.cmd matches StepCmd::Alias(c) && c@ == full_command(a.cmd, extra)
    &&& step.display_cmd@ == full_command(a.cmd, extra)
    &&& step.interactive == interactive
}

/// The direct run of alias `alias`; see `direct_alias_fits`.
pub fn build_direct_alias_step<
    F: Fn(&str) -> Option<String>,
    G: Fn(&str) -> Option<String>,
    H: Fn(&str, &[(String, String)]) -> Option<String>,
>(
    alias: &AliasConfig,
    state: &ConfigState,
    git_root: &str,
    cwd: &str,
    extra_args: &[String],
    cli_env: &[String],
    interactive: bool,
    run_sh: &F,
    host_var: &G,
    run_sh_env: &H,
) -> (r: DirectStep)
    requires
        forall|s: &str| call_requires(run_sh, (s,)),
        forall|s: &str| call_requires(host_var, (s,)),
        forall|s: &str, e: &[(String, String)]| call_requires(run_sh_env, (s, e)),
    ensures
        direct_alias_fits(
            run_sh,
            host_var,
            run_sh_env,
            alias@,
            state@,
            git_root@,
            cwd@,
            texts(extra_args@),
            texts(cli_env@),
            interactive,
            r,
        ),
{
    let mut env_specs = copy_strings(state.env.as_slice());
    if let Some(ae) = &alias.env {
        append_strings(&mut env_specs, ae.as_slice());
        assert(texts(ae@) =~= alias_env_specs(alias@));
    } else {
        assert(env_specs.deep_view() =~= state@.env + alias_env_specs(alias@));
    }
    proof {
        assert(state.env@.map_values(|s: String| s@) =~= state@.env);
    }
    let ghost specs = env_specs.deep_view();
    let mut env_flags = build_env_flags(env_specs.as_slice(), run_sh, host_var);
    let ghost base = env_flags.deep_view();
    proof {
        assert(crate::env_spec::strings_view(env_specs@) =~= specs);
        assert(crate::env_spec::strings_view(env_flags@) =~= base);
    }
    append_strings(&mut env_flags, cli_env);
    let ghost flags = env_flags.deep_view();
    let env_map = env_map_from_flags(env_flags.as_slice());
    proof {
        assert(env_flags@.map_values(|s: String| s@) =~= flags);
    }
    let env_slice = env_map.as_slice();
    let evaluated = match &alias.workdir {
        Some(w) => Some(eval_value_with_env(w.as_str(), env_slice, run_sh_env)),
        None => None,
    };
    let workdir = resolve(opt_string_str(&evaluated), git_root, cwd);
    let env_disp = env_display(env_flags.as_slice());
    let full = command_text(&alias.cmd, extra_args);
    let shown = full.clone();
    let step = DirectStep {
        cmd: StepCmd::Alias(full),
        workdir,
        display_cmd: shown,
        env_display: env_disp,
        env_specs,
        interactive,
    };
    proof {
        assert(workdir_fits(run_sh_env, alias@.workdir, flags, git_root@, cwd@, step.workdir@)) by {
            match alias@.workdir {
                Some(raw) => {
                    assert(pairs_view(env_slice@) == env_pairs(flags));
                    assert(env_evaluates_to(run_sh_env, raw, env_slice, evaluated.unwrap()@));
                },
                None => {},
            }
        }
    }
    step
}

/// Whether `step` runs the literal command `cmd` directly: the profile's env
/// specs; its flags then the command line's, shown; the host's current
/// directory mirrored under `/workspace`; the command shown joined with spaces.
pub open spec fn direct_literal_fits<F: Fn(&str) -> Option<String>, G: Fn(&str) -> Option<String>>(
    run_sh: F,
    host_var: G,
    cmd: Seq<Seq<char>>,
    s: StateView,
    git_root: Seq<char>,
    cwd: Seq<char>,
    cli_env: Seq<Seq<char>>,
    interactive: bool,
    step: DirectStep,
) -> bool {
    &&& step.env_specs.deep_view() == s.env
    &&& exists|base: Seq<Seq<char>>|
        flags_resolve(run_sh, host_var, false, s.env, base) && step.env_display@ == env_display_text(base + cli_env)
    &&& step.workdir@ == workdir_of(None, git_root, cwd)
    &&& step.cmd matches StepCmd::Literal(v) && v.deep_view() == cmd
    &&& step.display_cmd@ == join(cmd, " "@)
    &&& step.interactive == interactive
}

/// The direct run of the literal command `cmd`; see `direct_literal_fits`.
pub fn build_direct_literal_step<F: Fn(&str) -> Option<String>, G: Fn(&str) -> Option<String>>(
    cmd: &[String],
    state: &ConfigState,
    git_root: &str,
    cwd: &str,
    cli_env: &[String],
    interactive: bool,
    run_sh: &F,
    host_var: &G,
) -> (r: DirectStep)
    requires
        forall|s: &str| call_requires(run_sh, (s,)),
        forall|s: &str| call_requires(host_var, (s,)),
    ensures
        direct_literal_fits(run_sh, host_var, texts(cmd@), state@, git_root@, cwd@, texts(cli_env@), interactive, r),
{
    let workdir = resolve(None, git_root, cwd);
    let mut env_flags = build_env_flags(state.env.as_slice(), run_sh, host_var);
    let ghost base = env_flags.deep_view();
    proof {
        assert(crate::env_spec::strings_view(state.env@) =~= state@.env);
        assert(crate::env_spec::strings_view(env_flags@) =~= base);
    }
    append_strings(&mut env_flags, cli_env);
    let env_disp = env_display(env_flags.as_slice());
    proof {
        assert(env_flags@.map_values(|s: String| s@) =~= env_flags.deep_view());
    }
    let step = DirectStep {
        cmd: StepCmd::Literal(copy_strings(cmd)),
        workdir,
        display_cmd: join_slice(cmd, " "),
        env_display: env_disp,
        env_specs: copy_strings(state.env.as_slice()),
        interactive,
    };
    proof {
        assert(state.env@.map_values(|s: String| s@) =~= state@.env);
        assert(cmd@.map_values(|s: String| s@) =~= texts(cmd@));
    }
    step
}

/// What setting env spec `spec` in this process sets: for `KEY=VAL` the key
/// and the evaluated value; for a bare name the host's own value, when it has
/// one; `None` for nothing.
pub open spec fn spec_sets<F: Fn(&str) -> Option<String>, G: Fn(&str) -> Option<String>>(
    run_sh: F,
    host_var: G,
    spec: Seq<char>,
    out: Option<(Seq<char>, Seq<char>)>,
) -> bool {
    if first_index(spec, '=') >= 0 {
        out is Some && out.unwrap().0 == key_part(spec) && evaluates_to(run_sh, value_part(spec), out.unwrap().1)
    } else {
        exists|h: Option<Seq<char>>|
            host_gives(host_var, spec, h) && out == match h {
                Some(x) => Some((spec, x)),
                None => None,
            }
    }
}

/// The pairs that are set, in order.
pub open spec fn set_pairs(outs: Seq<Option<(Seq<char>, Seq<char>)>>) -> Seq<(Seq<char>, Seq<char>)>
    decreases outs.len(),
{
    if outs.len() == 0 {
        Seq::empty()
    } else {
        match outs.last() {
            Some(p) => set_pairs(outs.drop_last()).push(p),
            None => set_pairs(outs.drop_last()),
        }
    }
}

/// The variables that a direct run sets in its own environment before it
/// starts the command, in order: those of the env specs (see `spec_sets`),
/// then the `KEY=VAL` that follows each `-e` of the command line's flags
/// (read back as `env_map_from_flags` reads them).
pub fn direct_env_assignments<F: Fn(&str) -> Option<String>, G: Fn(&str) -> Option<String>>(
    specs: &[String],
    cli_env: &[String],
    run_sh: &F,
    host_var: &G,
) -> (r: Vec<(String, String)>)
    requires
        forall|s: &str| call_requires(run_sh, (s,)),
        forall|s: &str| call_requires(host_var, (s,)),
    ensures
        exists|outs: Seq<Option<(Seq<char>, Seq<char>)>>|
            outs.len() == specs@.len() && (forall|i: int|
                0 <= i < outs.len() ==> spec_sets(run_sh, host_var, #[trigger] specs@[i]@, outs[i]))
                && pairs_view(r@) == set_pairs(outs) + env_pairs(texts(cli_env@)),
{
    let mut out: Vec<(String, String)> = Vec::new();
    let ghost mut outs: Seq<Option<(Seq<char>, Seq<char>)>> = Seq::empty();
    for i in 0..specs.len()
        invariant
            outs.len() == i,
            forall|j: int| 0 <= j < i ==> spec_sets(run_sh, host_var, #[trigger] specs@[j]@, outs[j]),
            pairs_view(out@) == set_pairs(outs),
            forall|s: &str| call_requires(run_sh, (s,)),
            forall|s: &str| call_requires(host_var, (s,)),
    {
        let ghost before = out@;
        let ghost o: Option<(Seq<char>, Seq<char>)>;
        let spec = specs[i].as_str();
        match split_kv(spec) {
            Some((k, raw)) => {
                let v = eval_value(raw.as_str(), run_sh);
                proof {
                    o = Some((k@, v@));
                }
                out.push((k, v));
            },
            None => {
                let h = host_var(spec);
                proof {
                    assert(call_ensures(host_var, (spec,), h));
                    assert(host_gives(host_var, spec@, h.deep_view()));
                    o = match h.deep_view() {
                        Some(x) => Some((spec@, x)),
                        None => None,
                    };
                }
                match h {
                    Some(x) => out.push((spec.to_string(), x)),
                    None => {},
                }
            },
        }
        proof {
            let prev = outs;
            outs = outs.push(o);
            assert(outs.drop_last() =~= prev);
            assert(spec_sets(run_sh, host_var, specs@[i as int]@, o));
            assert(pairs_view(out@) =~= set_pairs(outs));
            assert forall|j: int| 0 <= j < i + 1 implies spec_sets(run_sh, host_var, #[trigger] specs@[j]@, outs[j]) by {
                if j < i {
                    assert(outs[j] == prev[j]);
                }
            }
        }
    }
    let cli = env_map_from_flags(cli_env);
    let ghost head = pairs_view(out@);
    for k in 0..cli.len()
        invariant
            pairs_view(out@) == head + pairs_view(cli@).take(k as int),
    {
        let ghost prev = pairs_view(out@);
        let (key, val) = (cli[k].0.clone(), cli[k].1.clone());
        out.push((key, val));
        assert(pairs_view(out@) =~= prev.push(pairs_view(cli@)[k as int]));
        assert(pairs_view(cli@).take(k + 1) =~= pairs_view(cli@).take(k as int).push(pairs_view(cli@)[k as int]));
    }
    assert(pairs_view(cli@).take(cli.len() as int) =~= pairs_view(cli@));
    assert(cli_env@.map_values(|s: String| s@) =~= texts(cli_env@));
    out
}

/// What a pipeline run inside the container does next.
pub enum DirectPipelineAction {
    Run(DirectStep),
    Done(i32),
    Missing(String),
}

/// Whether `r` is the next action of a pipeline run inside the container:
/// as for `pipeline_action_fits`, but step `next` runs its alias directly
/// (see `direct_alias_fits`), interactive when the alias or the command line
/// says so.
pub open spec fn direct_pipeline_fits<
    F: Fn(&str) -> Option<String>,
    G: Fn(&str) -> Option<String>,
    H: Fn(&str, &[(String, String)]) -> Option<String>,
>(
    run_sh: F,
    host_var: G,
    run_sh_env: H,
    steps: Seq<Seq<char>>,
    next: nat,
    last_exit: Option<i32>,
    s: StateView,
    git_root: Seq<char>,
    cwd: Seq<char>,
    cli_env: Seq<Seq<char>>,
    force_interactive: bool,
    r: DirectPipelineAction,
) -> bool {
    if last_exit is Some && last_exit.unwrap() != 0 {
        r == DirectPipelineAction::Done(last_exit.unwrap())
    } else if next >= steps.len() {
        r == DirectPipelineAction::Done(0)
    } else {
        let name = steps[next as int];
        match lookup(s.aliases, name) {
            Some(a) => {
                &&& r matches DirectPipelineAction::Run(step)
                &&& direct_alias_fits(
                    run_sh,
                    host_var,
                    run_sh_env,
                    a,
                    s,
                    git_root,
                    cwd,
                    Seq::empty(),
                    cli_env,
                    a.interactive == Some(true) || force_interactive,
                    r->Run_0,
                )
            },
            None => r matches DirectPipelineAction::Missing(m) && m@ == missing_step_text(name),
        }
    }
}

/// The next action of a pipeline run inside the container; see
/// `direct_pipeline_fits`.
pub fn direct_pipeline_next<
    F: Fn(&str) -> Option<String>,
    G: Fn(&str) -> Option<String>,
    H: Fn(&str, &[(String, String)]) -> Option<String>,
>(
    steps: &[String],
    next: usize,
    last_exit: Option<i32>,
    state: &ConfigState,
    git_root: &str,
    cwd: &str,
    cli_env: &[String],
    force_interactive: bool,
    run_sh: &F,
    host_var: &G,
    run_sh_env: &H,
) -> (r: DirectPipelineAction)
    requires
        forall|s: &str| call_requires(run_sh, (s,)),
        forall|s: &str| call_requires(host_var, (s,)),
        forall|s: &str, e: &[(String, String)]| call_requires(run_sh_env, (s, e)),
    ensures
        direct_pipeline_fits(
            run_sh,
            host_var,
            run_sh_env,
            texts(steps@),
            next as nat,
            last_exit,
            state@,
            git_root@,
            cwd@,
            texts(cli_env@),
            force_interactive,
            r,
        ),
{
    if let Some(c) = last_exit {
        if c != 0 {
            return DirectPipelineAction::Done(c);
        }
    }
    if next >= steps.len() {
        return DirectPipelineAction::Done(0);
    }
    let name = steps[next].as_str();
    match state.get_alias_internal(name) {
        Some(alias) => {
            let interactive = alias.interactive == Some(true) || force_interactive;
            let no_args: Vec<String> = Vec::new();
            let step = build_direct_alias_step(
                alias,
                state,
                git_root,
                cwd,
                no_args.as_slice(),
                cli_env,
                interactive,
                run_sh,
                host_var,
                run_sh_env,
            );
            assert(texts(no_args@) =~= Seq::<Seq<char>>::empty());
            DirectPipelineAction::Run(step)
        },
        None => DirectPipelineAction::Missing(cat3("pipeline step `", name, "` not found")),
    }
}

} // verus!

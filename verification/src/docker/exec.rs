use vstd::prelude::*;

use crate::display::ansi::terminal_dims;
use crate::display::output::SummaryInfo;
use crate::text::{cat, repeat, repeat_char};
use vstd::string::StringExecFns;

verus! {

/// What a step runs: an alias's shell command, or a literal argument list.
#[derive(Debug)]
pub enum StepCmd {
    Alias(String),
    Literal(Vec<String>),
}

/// One command to run in the container, with what the summary shows of it.
#[derive(Debug)]
pub struct ExecStep {
    pub cmd: StepCmd,
    pub workdir: String,
    pub display_cmd: String,
    pub env_flags: Vec<String>,
    pub env_display: String,
    pub user: Option<String>,
    pub interactive: bool,
    pub profile: String,
    pub image: String,
    pub container: String,
    pub ports: Vec<String>,
    pub volumes: Vec<String>,
}

/// How a step ended.
#[derive(Debug)]
pub struct ExecResult {
    pub exit_code: i32,
}

/// The arguments of `docker exec` for a step: a terminal is always
/// allocated, then the user if set, the working directory, the env flags,
/// the container, and the command (an alias runs under `sh -c`).
pub open spec fn exec_args_of(container: Seq<char>, step: ExecStep) -> Seq<Seq<char>> {
    seq!["exec"@, "-it"@] + match step.user {
        Some(u) => seq!["--user"@, u@],
        None => Seq::empty(),
    } + seq!["-w"@, step.workdir@] + step.env_flags.deep_view() + seq![container] + match step.cmd {
        StepCmd::Alias(c) => seq!["sh"@, "-c"@, c@],
        StepCmd::Literal(v) => v.deep_view(),
    }
}

fn push_all(args: &mut Vec<String>, items: &Vec<String>)
    ensures
        final(args).deep_view() == old(args).deep_view() + items.deep_view(),
{
    let ghost before = args.deep_view();
    for i in 0..items.len()
        invariant
            args.deep_view() == before + items.deep_view().take(i as int),
    {
        let ghost prev = args.deep_view();
        let item = items[i].clone();
        assert(item@ == items.deep_view()[i as int]);
        args.push(item);
        assert(args.deep_view() =~= prev.push(items.deep_view()[i as int]));
        assert(items.deep_view().take(i + 1) =~= items.deep_view().take(i as int).push(items.deep_view()[i as int]));
        assert(args.deep_view() =~= before + items.deep_view().take(i + 1));
    }
    assert(items.deep_view().take(items.len() as int) =~= items.deep_view());
}

/// See `exec_args_of`.
pub fn build_exec_args(container: &str, step: &ExecStep) -> (r: Vec<String>)
    ensures
        r.deep_view() == exec_args_of(container@, *step),
{
    let mut args: Vec<String> = Vec::new();
    args.push(String::from_str("exec"));
    args.push(String::from_str("-it"));
    let ghost a1 = args.deep_view();
    if let Some(user) = &step.user {
        args.push(String::from_str("--user"));
        args.push(user.clone());
    }
    let ghost a2 = args.deep_view();
    args.push(String::from_str("-w"));
    args.push(step.workdir.clone());
    let ghost a3 = args.deep_view();
    push_all(&mut args, &step.env_flags);
    args.push(String::from_str(container));
    let ghost a4 = args.deep_view();
    match &step.cmd {
        StepCmd::Alias(cmd) => {
            args.push(String::from_str("sh"));
            args.push(String::from_str("-c"));
            args.push(cmd.clone());
        },
        StepCmd::Literal(cmd) => {
            push_all(&mut args, cmd);
        },
    }
    proof {
        let u: Seq<Seq<char>> = match &step.user {
            Some(x) => seq!["--user"@, x@],
            None => Seq::empty(),
        };
        assert(a2 =~= seq!["exec"@, "-it"@] + u);
        assert(a3 =~= seq!["exec"@, "-it"@] + u + seq!["-w"@, step.workdir@]);
        assert(a4 =~= seq!["exec"@, "-it"@] + u + seq!["-w"@, step.workdir@] + step.env_flags.deep_view() + seq![container@]);
        assert(args.deep_view() =~= exec_args_of(container@, *step));
    }
    args
}

/// The summary shown before a step runs in the container.
pub fn step_summary(step: &ExecStep) -> (r: SummaryInfo)
    ensures
        r.profile@ == step.profile@,
        r.image.deep_view() == Some(step.image@),
        r.container.deep_view() == Some(step.container@),
        r.ports@ == step.ports@,
        r.volumes@ == step.volumes@,
        r.workdir@ == step.workdir@,
        r.cmd_display@ == step.display_cmd@,
        r.env_display@ == step.env_display@,
        r.user.deep_view() == step.user.deep_view(),
        r.interactive == step.interactive,
{
    SummaryInfo {
        profile: step.profile.as_str(),
        image: Some(step.image.as_str()),
        container: Some(step.container.as_str()),
        ports: step.ports.as_slice(),
        volumes: step.volumes.as_slice(),
        workdir: step.workdir.as_str(),
        cmd_display: step.display_cmd.as_str(),
        env_display: step.env_display.as_str(),
        user: match &step.user {
            Some(u) => Some(u.as_str()),
            None => None,
        },
        interactive: step.interactive,
    }
}

// ── Around a run ────────────────────────────────────────────────────────────

/// The lines a log file starts with: a rule of 80 `=`, the command, the
/// directory, the env when there is any, and a rule again.
pub open spec fn log_header_text(display_cmd: Seq<char>, workdir: Seq<char>, env_disp: Seq<char>) -> Seq<Seq<char>> {
    seq![repeat('=', 80), "Command   : "@ + display_cmd, "Directory : "@ + workdir] + (if env_disp.len() > 0 {
        seq!["Env       : "@ + env_disp]
    } else {
        Seq::empty()
    }) + seq![repeat('=', 80)]
}

/// See `log_header_text`.
pub fn log_header_lines(display_cmd: &str, workdir: &str, env_disp: &str) -> (r: Vec<String>)
    ensures
        r.deep_view() == log_header_text(display_cmd@, workdir@, env_disp@),
{
    let mut lines: Vec<String> = Vec::new();
    lines.push(repeat_char('=', 80));
    lines.push(cat("Command   : ", display_cmd));
    lines.push(cat("Directory : ", workdir));
    let ghost l3 = lines.deep_view();
    if !env_disp.is_empty() {
        lines.push(cat("Env       : ", env_disp));
    }
    lines.push(repeat_char('=', 80));
    assert(lines.deep_view() =~= log_header_text(display_cmd@, workdir@, env_disp@));
    lines
}

/// What the footer after a run shows: the exit code, or 130 when the run was
/// interrupted; and whether it names the log file, which a logged run does
/// when it was interrupted or failed.
pub open spec fn footer_plan_of(code: i32, killed: bool, logged: bool) -> (i32, bool) {
    if killed {
        (130, logged)
    } else {
        (code, logged && code != 0)
    }
}

/// See `footer_plan_of`.
pub fn footer_plan(code: i32, killed: bool, logged: bool) -> (r: (i32, bool))
    ensures
        r == footer_plan_of(code, killed, logged),
{
    if killed {
        (130, logged)
    } else {
        (code, logged && code != 0)
    }
}

/// The size of the pseudo-terminal a background step runs in, as rows and
/// columns: the terminal's when known, else 24 by 80.
pub open spec fn pty_dims_of(dims: Option<(u16, u16)>) -> (u16, u16) {
    match dims {
        Some((cols, rows)) => (rows, cols),
        None => (24, 80),
    }
}

/// The rows and columns for the pseudo-terminal of this process's terminal.
pub fn pty_dims() -> (r: (u16, u16))
    ensures
        exists|d: Option<(u16, u16)>| r == pty_dims_of(d),
{
    let d = terminal_dims();
    let r = match d {
        Some((cols, rows)) => (rows, cols),
        None => (24, 80),
    };
    assert(r == pty_dims_of(d));
    r
}

/// The shape of every `docker exec` command line: `exec -it`, then
/// `--user <user>` whenever the step has a user (whatever its command),
/// then `-w <workdir>`, the env flags as they are, the container, and last
/// the command: `sh -c <cmd>` for an alias, the words themselves for a
/// literal command.
pub proof fn law_exec_args_shape(container: Seq<char>, step: ExecStep)
    ensures
        ({
            let a = exec_args_of(container, step);
            let flags = step.env_flags.deep_view();
            let k: int = if step.user is Some { 4 } else { 2 };
            &&& a[0] == "exec"@ && a[1] == "-it"@
            &&& step.user is Some ==> a[2] == "--user"@ && a[3] == step.user.unwrap()@
            &&& a[k] == "-w"@ && a[k + 1] == step.workdir@
            &&& a.subrange(k + 2, k + 2 + flags.len()) == flags
            &&& a[k + 2 + flags.len()] == container
            &&& a.skip(k + 3 + flags.len()) == match step.cmd {
                StepCmd::Alias(c) => seq!["sh"@, "-c"@, c@],
                StepCmd::Literal(v) => v.deep_view(),
            }
        }),
{
    let a = exec_args_of(container, step);
    let flags = step.env_flags.deep_view();
    let u: Seq<Seq<char>> = match step.user {
        Some(x) => seq!["--user"@, x@],
        None => Seq::empty(),
    };
    let k: int = if step.user is Some { 4 } else { 2 };
    let head = seq!["exec"@, "-it"@] + u + seq!["-w"@, step.workdir@];
    let tail: Seq<Seq<char>> = match step.cmd {
        StepCmd::Alias(c) => seq!["sh"@, "-c"@, c@],
        StepCmd::Literal(v) => v.deep_view(),
    };
    assert(a == head + flags + seq![container] + tail);
    assert(head.len() == k + 2);
    assert(a.subrange(k + 2, k + 2 + flags.len()) =~= flags);
    assert(a.skip(k + 3 + flags.len()) =~= tail);
}

} // verus!

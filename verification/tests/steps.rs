use shrike::cli::Args;
use shrike::config::parse::parse_str;
use shrike::config::resolve::build_state;
use shrike::config::types::ConfigFile;
use shrike::docker::exec::StepCmd;
use shrike::steps::{
    build_alias_step, build_direct_alias_step, build_direct_literal_step, build_literal_step,
    command_kind, direct_action, direct_env_assignments, direct_pipeline_next, direct_profile,
    host_action, pipeline_next, CommandKind, DirectAction, DirectPipelineAction, HostAction,
    PipelineAction,
};

/// A stand-in for `sh -c`: `$(id -u)` gives 1000; nothing else is expected.
fn sh(script: &str) -> Option<String> {
    match script {
        "printf '%s' \"$(id -u)\"" => Some("1000\n".to_string()),
        other => panic!("unexpected script: {other}"),
    }
}

/// A stand-in for `sh -c` with extra environment: expands `$SUB` from it.
fn sh_env(script: &str, env: &[(String, String)]) -> Option<String> {
    match script {
        "printf '%s' \"/workspace/$SUB\"" => {
            let sub = env.iter().find(|(k, _)| k == "SUB").map(|(_, v)| v.clone()).unwrap_or_default();
            Some(format!("/workspace/{sub}"))
        }
        other => panic!("unexpected script: {other}"),
    }
}

fn host(k: &str) -> Option<String> {
    if k == "HOME_VAR" { Some("home".to_string()) } else { None }
}

const CONFIG: &str = r#"
[default]
image = "ubuntu:22.04"
env = ["HOME_VAR", "MISSING", "A=1"]
user = "$(id -u)"
ports = ["8080:80"]

[default.build]
cmd = "make"
workdir = "/workspace/$SUB"
env = ["SUB=src"]

[default.shell]
cmd = "bash"
interactive = true
user = "root"

[default.prep]
cmd = "prep"
hidden = true

[default.ci]
pipeline = ["prep", "build", "nope"]
"#;

fn state() -> shrike::config::resolve::ConfigState {
    let global = parse_str(CONFIG).unwrap();
    build_state(&global, None, &ConfigFile::new(), None, None, None, "default")
}

#[test]
fn alias_step_collects_env_workdir_user() {
    let st = state();
    let alias = st.resolve_alias("build").unwrap();
    let extra: Vec<String> = vec!["-j4".into(), "all".into()];
    let cli: Vec<String> = vec!["-e".into(), "X=9".into()];
    let step = build_alias_step("build", alias, &st, "ctr", "img", "/repo", "/repo/sub", &extra, &cli, false, &sh, &host, &sh_env);
    assert_eq!(step.env_flags, vec!["-e", "HOME_VAR=home", "-e", "A=1", "-e", "SUB=src", "-e", "X=9"]);
    assert_eq!(step.workdir, "/workspace/src");
    assert_eq!(step.user.as_deref(), Some("1000"));
    assert_eq!(step.env_display, "HOME_VAR=home, A=1, SUB=src, X=9");
    assert!(matches!(&step.cmd, StepCmd::Alias(c) if c == "make -j4 all"));
    assert_eq!(step.display_cmd, "build");
    assert!(!step.interactive);
    assert_eq!(step.profile, "default");
    assert_eq!(step.image, "img");
    assert_eq!(step.container, "ctr");
    assert_eq!(step.ports, vec!["8080:80"]);
}

#[test]
fn alias_step_alias_user_and_interactive() {
    let st = state();
    let alias = st.resolve_alias("shell").unwrap();
    let none: Vec<String> = vec![];
    let step = build_alias_step("shell", alias, &st, "ctr", "img", "/repo", "/repo/a/b", &none, &none, false, &sh, &host, &sh_env);
    assert_eq!(step.user.as_deref(), Some("root"));
    assert!(step.interactive);
    assert_eq!(step.workdir, "/workspace/a/b");
    assert!(matches!(&step.cmd, StepCmd::Alias(c) if c == "bash"));
}

#[test]
fn literal_step() {
    let st = state();
    let cmd: Vec<String> = vec!["ls".into(), "-la".into()];
    let none: Vec<String> = vec![];
    let step = build_literal_step(&cmd, &st, "ctr", "img", "/repo", "/elsewhere", &none, true, &sh, &host);
    assert!(matches!(&step.cmd, StepCmd::Literal(v) if v == &cmd));
    assert_eq!(step.display_cmd, "ls -la");
    assert_eq!(step.workdir, "/workspace");
    assert_eq!(step.env_flags, vec!["-e", "HOME_VAR=home", "-e", "A=1"]);
    assert!(step.interactive);
}

#[test]
fn kinds_of_commands() {
    let st = state();
    assert!(matches!(command_kind(&st, "ci"), CommandKind::Pipeline(v) if v == vec!["prep", "build", "nope"]));
    assert!(matches!(command_kind(&st, "build"), CommandKind::Alias));
    assert!(matches!(command_kind(&st, "prep"), CommandKind::Literal));
    assert!(matches!(command_kind(&st, "ls"), CommandKind::Literal));
}

#[test]
fn pipeline_runs_steps_in_order_and_stops() {
    let st = state();
    let steps: Vec<String> = vec!["prep".into(), "build".into(), "nope".into()];
    let none: Vec<String> = vec![];
    let first = pipeline_next(&steps, 0, None, &st, "c", "i", "/repo", "/repo", &none, false, &sh, &host, &sh_env);
    match first {
        PipelineAction::Run(s) => {
            assert_eq!(s.display_cmd, "prep [1/3]");
            assert!(matches!(&s.cmd, StepCmd::Alias(c) if c == "prep"));
        }
        _ => panic!("expected a step"),
    }
    let second = pipeline_next(&steps, 1, Some(0), &st, "c", "i", "/repo", "/repo", &none, false, &sh, &host, &sh_env);
    assert!(matches!(second, PipelineAction::Run(ref s) if s.display_cmd == "build [2/3]"));
    let failed = pipeline_next(&steps, 2, Some(3), &st, "c", "i", "/repo", "/repo", &none, false, &sh, &host, &sh_env);
    assert!(matches!(failed, PipelineAction::Done(3)));
    let missing = pipeline_next(&steps, 2, Some(0), &st, "c", "i", "/repo", "/repo", &none, false, &sh, &host, &sh_env);
    assert!(matches!(missing, PipelineAction::Missing(ref m) if m == "pipeline step `nope` not found"));
    let done = pipeline_next(&steps, 3, Some(0), &st, "c", "i", "/repo", "/repo", &none, false, &sh, &host, &sh_env);
    assert!(matches!(done, PipelineAction::Done(0)));
}

fn args() -> Args {
    Args {
        new: None,
        list: false,
        list_profiles: false,
        profile: None,
        env: vec![],
        interactive: false,
        restart: false,
        rebuild: false,
        stop: false,
        stop_all: false,
        command: vec![],
    }
}

#[test]
fn host_actions_by_priority() {
    let mut a = args();
    assert!(matches!(host_action(&a), HostAction::Run));
    a.stop = true;
    assert!(matches!(host_action(&a), HostAction::Stop));
    a.list = true;
    assert!(matches!(host_action(&a), HostAction::ListAliases));
    a.list_profiles = true;
    assert!(matches!(host_action(&a), HostAction::ListProfiles));
    a.new = Some(None);
    assert!(matches!(host_action(&a), HostAction::Generate));
    a.stop_all = true;
    assert!(matches!(host_action(&a), HostAction::StopAll));
}

#[test]
fn direct_actions_and_warnings() {
    let mut a = args();
    let (w, act) = direct_action(&a);
    assert!(w.is_empty());
    assert!(matches!(act, DirectAction::Nothing));
    a.command = vec!["ls".into()];
    a.rebuild = true;
    let (w, act) = direct_action(&a);
    assert_eq!(w, vec!["--rebuild/--restart have no effect inside a container"]);
    assert!(matches!(act, DirectAction::Run));
    a.list = true;
    assert!(matches!(direct_action(&a).1, DirectAction::ListAliases));
    a.stop_all = true;
    let (w, act) = direct_action(&a);
    assert_eq!(w.len(), 2);
    assert_eq!(w[1], "container management flags have no effect in direct mode");
    assert!(matches!(act, DirectAction::Ignore));
}

#[test]
fn direct_profile_from_cli_or_file() {
    assert_eq!(direct_profile(Some("cli"), "file\n/repo"), Some("cli".to_string()));
    assert_eq!(direct_profile(None, "clang\n/repo"), Some("clang".to_string()));
    assert_eq!(direct_profile(None, "clang\r\n/repo"), Some("clang".to_string()));
    assert_eq!(direct_profile(None, "solo"), Some("solo".to_string()));
    assert_eq!(direct_profile(None, "\n/repo"), None);
    assert_eq!(direct_profile(None, ""), None);
}

#[test]
fn direct_alias_step() {
    let st = state();
    let alias = st.resolve_alias("build").unwrap();
    let extra: Vec<String> = vec!["x".into()];
    let none: Vec<String> = vec![];
    let d = build_direct_alias_step(alias, &st, "/repo", "/repo", &extra, &none, true, &sh, &host, &sh_env);
    assert!(matches!(&d.cmd, StepCmd::Alias(c) if c == "make x"));
    assert_eq!(d.display_cmd, "make x");
    assert_eq!(d.workdir, "/workspace/src");
    assert_eq!(d.env_specs, vec!["HOME_VAR", "MISSING", "A=1", "SUB=src"]);
    assert_eq!(d.env_display, "HOME_VAR=home, A=1, SUB=src");
    assert!(d.interactive);
}

#[test]
fn direct_literal_step() {
    let st = state();
    let cmd: Vec<String> = vec!["echo".into(), "hi".into()];
    let none: Vec<String> = vec![];
    let d = build_direct_literal_step(&cmd, &st, "/repo", "/repo/x", &none, false, &sh, &host);
    assert!(matches!(&d.cmd, StepCmd::Literal(v) if v == &cmd));
    assert_eq!(d.display_cmd, "echo hi");
    assert_eq!(d.workdir, "/workspace/x");
    assert_eq!(d.env_specs, vec!["HOME_VAR", "MISSING", "A=1"]);
}

#[test]
fn direct_assignments() {
    let specs: Vec<String> = vec!["A=1".into(), "HOME_VAR".into(), "MISSING".into(), "U=$(id -u)".into()];
    let cli: Vec<String> = vec!["-e".into(), "K=V".into(), "Z=2".into()];
    let r = direct_env_assignments(&specs, &cli, &sh, &host);
    assert_eq!(
        r,
        vec![
            ("A".to_string(), "1".to_string()),
            ("HOME_VAR".to_string(), "home".to_string()),
            ("U".to_string(), "1000".to_string()),
            ("K".to_string(), "V".to_string()),
        ]
    );
}

#[test]
fn direct_cli_env_takes_effect() {
    let none: Vec<String> = vec![];
    let cli: Vec<String> = vec!["-e".into(), "SK_X=1".into()];
    let r = direct_env_assignments(&none, &cli, &sh, &host);
    assert_eq!(r, vec![("SK_X".to_string(), "1".to_string())]);
}

#[test]
fn direct_pipeline_steps() {
    let st = state();
    let steps: Vec<String> = vec!["prep".into(), "shell".into(), "nope".into()];
    let none: Vec<String> = vec![];
    match direct_pipeline_next(&steps, 1, Some(0), &st, "/repo", "/repo", &none, false, &sh, &host, &sh_env) {
        DirectPipelineAction::Run(d) => {
            assert!(matches!(&d.cmd, StepCmd::Alias(c) if c == "bash"));
            assert!(d.interactive);
        }
        _ => panic!("expected a step"),
    }
    assert!(matches!(
        direct_pipeline_next(&steps, 1, Some(5), &st, "/repo", "/repo", &none, false, &sh, &host, &sh_env),
        DirectPipelineAction::Done(5)
    ));
    assert!(matches!(
        direct_pipeline_next(&steps, 2, None, &st, "/repo", "/repo", &none, false, &sh, &host, &sh_env),
        DirectPipelineAction::Missing(ref m) if m == "pipeline step `nope` not found"
    ));
    assert!(matches!(
        direct_pipeline_next(&steps, 3, Some(0), &st, "/repo", "/repo", &none, false, &sh, &host, &sh_env),
        DirectPipelineAction::Done(0)
    ));
}

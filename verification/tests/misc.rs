use shrike::docker::container::{is_running_output, names_to_stop, setup_failed_message, start_failed_message};
use shrike::docker::exec::{build_exec_args, footer_plan, log_header_lines, ExecStep, StepCmd};
use shrike::docker::image::{image_name, image_plan, local_tag, pull_args, ImagePlan};
use shrike::generate::template_text;
use shrike::git::root_from_output;
use shrike::logfile::{is_expired, is_log_name, MAX_AGE_NANOS};
use shrike::order::sort_strings;

#[test]
fn templates_by_name() {
    let d = template_text(None).unwrap();
    assert!(d.starts_with("[project]\nprofile = \"default\"\n"));
    assert_eq!(template_text(Some("default")).unwrap(), d);
    let c = template_text(Some("cmake")).unwrap();
    assert!(c.contains("pipeline = [\"configure\", \"build\", \"test\"]"));
    assert_eq!(template_text(Some("rust")).unwrap_err(), "unknown template `rust`; use `default` or `cmake`");
}

#[test]
fn git_root_from_output() {
    assert_eq!(root_from_output(true, "/home/u/repo\n"), Ok("/home/u/repo".to_string()));
    assert_eq!(root_from_output(false, ""), Err("not inside a git repository".to_string()));
}

#[test]
fn log_file_names_and_age() {
    assert!(is_log_name("shrike-abc123.log"));
    assert!(!is_log_name("shrike-abc.txt"));
    assert!(!is_log_name("other-abc.log"));
    assert!(!is_log_name("shrike-"));
    assert!(is_expired(Some(MAX_AGE_NANOS + 1)));
    assert!(!is_expired(Some(MAX_AGE_NANOS)));
    assert!(!is_expired(None));
}

#[test]
fn exec_args_for_alias_and_literal() {
    let step = ExecStep {
        cmd: StepCmd::Alias("make all".into()),
        workdir: "/workspace".into(),
        display_cmd: "build".into(),
        env_flags: vec!["-e".into(), "A=1".into()],
        env_display: "A=1".into(),
        user: Some("1000".into()),
        interactive: false,
        profile: "default".into(),
        image: "img".into(),
        container: "ctr".into(),
        ports: vec![],
        volumes: vec![],
    };
    assert_eq!(
        build_exec_args("ctr", &step),
        vec!["exec", "-it", "--user", "1000", "-w", "/workspace", "-e", "A=1", "ctr", "sh", "-c", "make all"]
    );
    let lit = ExecStep { cmd: StepCmd::Literal(vec!["ls".into(), "-l".into()]), user: None, env_flags: vec![], ..step };
    assert_eq!(build_exec_args("c2", &lit), vec!["exec", "-it", "-w", "/workspace", "c2", "ls", "-l"]);
}

#[test]
fn log_header() {
    let l = log_header_lines("make", "/w", "");
    assert_eq!(l, vec!["=".repeat(80), "Command   : make".to_string(), "Directory : /w".to_string(), "=".repeat(80)]);
    let l = log_header_lines("make", "/w", "A=1");
    assert_eq!(l[3], "Env       : A=1");
    assert_eq!(l.len(), 5);
}

#[test]
fn footer_after_run() {
    assert_eq!(footer_plan(0, false, true), (0, false));
    assert_eq!(footer_plan(2, false, true), (2, true));
    assert_eq!(footer_plan(2, false, false), (2, false));
    assert_eq!(footer_plan(0, true, true), (130, true));
    assert_eq!(footer_plan(0, true, false), (130, false));
}

#[test]
fn names_from_docker_ps() {
    assert_eq!(names_to_stop("shrike--a\n  shrike--b  \n\n"), vec!["shrike--a", "shrike--b"]);
    assert!(names_to_stop("").is_empty());
}

#[test]
fn docker_answers_and_messages() {
    assert!(is_running_output("true\n"));
    assert!(!is_running_output("false\n"));
    assert_eq!(start_failed_message("box"), "docker start box failed");
    assert_eq!(setup_failed_message(Some(3)), "setup command failed (exit 3)");
    assert_eq!(setup_failed_message(None), "setup command failed (exit 1)");
}

#[test]
fn image_plans() {
    assert!(matches!(image_plan(true, false, true, "b", "b"), ImagePlan::Ready));
    assert!(matches!(image_plan(true, true, true, "b", "b"), ImagePlan::Build));
    assert!(matches!(image_plan(true, false, false, "b", "b"), ImagePlan::Build));
    assert!(matches!(image_plan(false, true, true, "b", "b"), ImagePlan::Ready));
    assert!(matches!(image_plan(false, false, false, "b", "b"), ImagePlan::Pull { tag: false }));
    assert!(matches!(image_plan(false, false, false, "b", "b--shrike-linux-arm64"), ImagePlan::Pull { tag: true }));
}

#[test]
fn image_names_and_pulls() {
    assert_eq!(image_name(Some("ubuntu"), Some("/r/Dockerfile")), Some("ubuntu".to_string()));
    assert_eq!(image_name(None, Some("/r/Dockerfile")), Some("shrike-r-dockerfile".to_string()));
    assert_eq!(image_name(None, None), None);
    assert_eq!(local_tag("ubuntu:22.04", None), "ubuntu:22.04");
    assert_eq!(pull_args("ubuntu", Some("linux/amd64")), vec!["pull", "--platform", "linux/amd64", "ubuntu"]);
}

#[test]
fn sorted_strings() {
    let v: Vec<String> = vec!["b".into(), "a".into(), "B".into(), "ab".into(), "a".into()];
    assert_eq!(sort_strings(v), vec!["B", "a", "a", "ab", "b"]);
}

use shrike::config::{assemble, select_project};
use shrike::config::parse::parse_str;
use shrike::config::resolve::{build_state, list_profiles, select_profile_name};
use shrike::config::types::ConfigFile;

#[test]
fn merge_layers() {
    let global = parse_str(
        r#"
[default]
image = "ubuntu:22.04"
env   = ["CC", "CXX"]

[default.build]
cmd = "cmake --build /workspace/build"
workdir = "/workspace/build"
"#,
    )
    .unwrap();

    let repo = parse_str(
        r#"
[project]
profile = "default"

[default]
image = "my-org/project:latest"

[default.build]
cmd = "cmake --build build"
"#,
    )
    .unwrap();

    let project = parse_str(
        r#"
[project]
pattern = ".*/myproject$"
profile = "default"

[default.test]
cmd = "ctest"
"#,
    )
    .unwrap();

    let profile = select_profile_name(&global, &repo, Some(&project), None);
    assert_eq!(profile, "default");

    let state = build_state(&global, None, &repo, None, Some(&project), None, &profile);

    // repo image overrides global
    assert_eq!(state.image.as_deref(), Some("my-org/project:latest"));
    // repo env replaces global env
    assert_eq!(state.env, vec!["CC", "CXX"]);
    // repo alias overrides global alias
    let build = state.aliases.get("build").unwrap();
    assert_eq!(build.cmd.as_deref(), Some("cmake --build build"));
    // project alias added
    assert!(state.aliases.contains_key("test"));
}

#[test]
fn hidden_alias_not_resolved() {
    let global = parse_str(
        r#"
[default]
image = "ubuntu:22.04"

[default.prepare]
cmd    = "make prepare"
hidden = true
"#,
    )
    .unwrap();
    let state = build_state(&global, None, &ConfigFile::default(), None, None, None, "default");
    assert!(state.resolve_alias("prepare").is_none());
    assert!(state.get_alias_internal("prepare").is_some());
}

#[test]
fn cli_profile_wins() {
    let repo = parse_str("[project]\nprofile = \"clang\"\n").unwrap();
    let global = ConfigFile::new();
    assert_eq!(select_profile_name(&global, &repo, None, Some("gcc")), "gcc");
    assert_eq!(select_profile_name(&global, &repo, None, None), "clang");
    assert_eq!(select_profile_name(&global, &ConfigFile::new(), None, None), "default");
}

#[test]
fn later_layer_env_replaces_earlier() {
    let global = parse_str("[default]\nenv = [\"A\", \"B\"]\n").unwrap();
    let repo = parse_str("[default]\nenv = [\"C=1\"]\n").unwrap();
    let state = build_state(&global, None, &repo, None, None, None, "default");
    assert_eq!(state.env, vec!["C=1"]);
}

#[test]
fn relative_dockerfile_under_config_dir() {
    let repo = parse_str("[default]\ndockerfile = \"docker/Dockerfile\"\n").unwrap();
    let state = build_state(&ConfigFile::new(), None, &repo, Some("/repo"), None, None, "default");
    assert_eq!(state.dockerfile.as_deref(), Some("/repo/docker/Dockerfile"));
    let abs = parse_str("[default]\ndockerfile = \"/abs/Dockerfile\"\n").unwrap();
    let state = build_state(&ConfigFile::new(), None, &abs, Some("/repo"), None, None, "default");
    assert_eq!(state.dockerfile.as_deref(), Some("/abs/Dockerfile"));
}

#[test]
fn profile_names_each_once_in_first_order() {
    let global = parse_str("[default]\nimage = \"a\"\n[clang]\nimage = \"b\"\n").unwrap();
    let repo = parse_str("[gcc]\nimage = \"c\"\n[default]\nimage = \"d\"\n").unwrap();
    let names = list_profiles(&global, &repo, None);
    // the parsed tables come in key order; each name is kept at its first place
    assert_eq!(names, vec!["clang", "default", "gcc"]);
}

#[test]
fn project_file_first_match_wins() {
    let a = parse_str("[project]\npattern = \".*/other$\"\n").unwrap();
    let b = parse_str("[project]\npattern = \".*/myproject$\"\n").unwrap();
    let c = parse_str("[project]\npattern = \".*\"\n").unwrap();
    let entries: Vec<(String, Result<ConfigFile, String>)> = vec![
        ("/d/a.toml".into(), Ok(a)),
        ("/d/b.toml".into(), Err("bad".into())),
        ("/d/c.toml".into(), Ok(b)),
        ("/d/d.toml".into(), Ok(c)),
    ];
    assert_eq!(select_project(&entries, "/home/u/myproject"), Ok(Some(2)));
    assert_eq!(select_project(&entries[..2], "/home/u/myproject"), Ok(None));
    let bad = parse_str("[project]\npattern = \"(\"\n").unwrap();
    let e2: Vec<(String, Result<ConfigFile, String>)> = vec![("/d/x.toml".into(), Ok(bad))];
    assert!(select_project(&e2, "/r").unwrap_err().starts_with("/d/x.toml: invalid pattern: "));
}

#[test]
fn assemble_records_files_and_dirs() {
    let global = parse_str("[default]\nimage = \"g\"\n").unwrap();
    let repo = parse_str("[project]\nprofile = \"dev\"\n[dev]\ndockerfile = \"Dockerfile\"\n").unwrap();
    let loaded = assemble(global, Some("/home/u/.shrike.toml"), false, repo, "/repo/.shrike.toml", true, None, None);
    assert_eq!(loaded.state.profile_name, "dev");
    assert_eq!(loaded.state.dockerfile.as_deref(), Some("/repo/Dockerfile"));
    assert_eq!(loaded.state.global_file, None);
    assert_eq!(loaded.state.repo_file.as_deref(), Some("/repo/.shrike.toml"));
    assert_eq!(loaded.all_profiles, vec!["default", "dev"]);
}

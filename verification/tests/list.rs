use shrike::config::parse::parse_str;
use shrike::config::resolve::build_state;
use shrike::config::types::ConfigFile;
use shrike::display::output::Colors;
use shrike::list::{list_aliases, list_profiles};

const CONFIG: &str = r#"
[default]
image = "ubuntu:22.04"
env = ["CC", "CXX"]

[default.zeta]
cmd = "make"
desc = "build it"
interactive = true

[default.build]
cmd = "cmake --build build"
workdir = "/workspace/build"
env = ["JOBS=4"]
user = "root"

[default.ci]
pipeline = ["build", "zeta"]

[default.secret]
cmd = "rm -rf /"
hidden = true
"#;

#[test]
fn alias_listing_sorted_without_hidden() {
    let global = parse_str(CONFIG).unwrap();
    let state = build_state(&global, None, &ConfigFile::new(), None, None, None, "default");
    let c = Colors::stdout(false);
    let lines = list_aliases(&state, Some("/home/u/.shrike.toml"), None, None, &c, "");
    let expected: Vec<String> = vec![
        format!(" ┌─ shrike aliases {}", "─".repeat(53)),
        " │ Profile  : default".to_string(),
        " │ Image    : ubuntu:22.04".to_string(),
        " │ Global   : /home/u/.shrike.toml".to_string(),
        " │ Base env : CC, CXX".to_string(),
        format!(" └{}", "─".repeat(67)),
        "   │  build      command: cmake --build build".to_string(),
        "   │             workdir: /workspace/build".to_string(),
        "   │             env:     JOBS=4".to_string(),
        "   │             user:    root".to_string(),
        "   │".to_string(),
        "   │  ci         [pipeline]  build  →  zeta".to_string(),
        "   │".to_string(),
        "   │  zeta       desc:    build it".to_string(),
        "   │             command: make  (interactive)".to_string(),
        format!("   └{}", "─".repeat(65)),
    ];
    assert_eq!(lines, expected);
}

#[test]
fn alias_listing_empty() {
    let state = build_state(&ConfigFile::new(), None, &ConfigFile::new(), None, None, None, "p");
    let c = Colors::stdout(false);
    let lines = list_aliases(&state, None, None, None, &c, "");
    assert_eq!(lines.len(), 5);
    assert_eq!(lines[3], "   │  (no aliases defined for this profile)");
}

#[test]
fn alias_name_column_fits_longest_name_in_bytes() {
    let global = parse_str("[p.a-very-long-alias-name]\ncmd = \"x\"\n[p.\"\u{e9}\"]\ncmd = \"y\"\n").unwrap();
    let state = build_state(&global, None, &ConfigFile::new(), None, None, None, "p");
    let c = Colors::stdout(false);
    let lines = list_aliases(&state, None, None, None, &c, "");
    assert_eq!(lines[3], "   │  a-very-long-alias-name command: x");
    assert_eq!(lines[5], format!("   │  \u{e9}{} command: y", " ".repeat(21)));
}

#[test]
fn profile_listing_marks_active_and_sources() {
    let global = parse_str("[default]\nimage = \"g\"\n[clang]\nimage = \"c\"\n").unwrap();
    let repo = parse_str("[default]\nimage = \"r\"\ndockerfile = \"Dockerfile\"\n").unwrap();
    let profiles: Vec<String> = vec!["default".into(), "clang".into()];
    let c = Colors::stdout(false);
    let lines = list_profiles(&profiles, "default", None, Some("/repo/.shrike.toml"), None, &global, &repo, None, &c, "");
    let expected: Vec<String> = vec![
        format!(" ┌─ shrike profiles {}", "─".repeat(54)),
        " │ Active   : default".to_string(),
        " │ Repo     : /repo/.shrike.toml".to_string(),
        format!(" └{}", "─".repeat(67)),
        "   │      clang          [Global]".to_string(),
        "   │      image:         c".to_string(),
        "   │".to_string(),
        "   │  [★] default        [Global, Repo]".to_string(),
        "   │      image:         r".to_string(),
        "   │      dockerfile:    Dockerfile".to_string(),
        format!("   └{}", "─".repeat(65)),
    ];
    assert_eq!(lines, expected);
}

#[test]
fn profile_listing_empty() {
    let c = Colors::stdout(false);
    let none: Vec<String> = vec![];
    let lines = list_profiles(&none, "default", None, None, None, &ConfigFile::new(), &ConfigFile::new(), None, &c, "");
    assert_eq!(lines[3], "   │  (no profiles defined)");
    assert_eq!(lines.len(), 5);
}

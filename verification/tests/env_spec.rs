use shrike::env_spec::{
    build_config_env_flags, build_env_flags, dedup_env_flags, env_map_from_flags, eval_value,
};

/// A stand-in for `sh -c` that knows the scripts these tests hand it, and
/// gives what the shell prints for them (`echo` adds a newline, which the
/// library cuts off).
fn host_sh(script: &str) -> Option<String> {
    match script {
        "printf '%s' \"$(echo hello)\"" => Some("hello".to_string()),
        "printf '%s' \"$(echo hello world)\"" => Some("hello world".to_string()),
        "printf '%s' \"$(printf 'x\\n\\n')\"" => Some("x\n\n".to_string()),
        other => panic!("unexpected script: {other}"),
    }
}

fn no_vars(_: &str) -> Option<String> {
    None
}

#[test]
fn literal_value() {
    let flags = build_env_flags(&["KEY=value".into()], &host_sh, &no_vars);
    assert_eq!(flags, vec!["-e", "KEY=value"]);
}

#[test]
fn passthrough_set() {
    let host = |k: &str| if k == "DEX_TEST_PASS" { Some("hello".to_string()) } else { None };
    let flags = build_env_flags(&["DEX_TEST_PASS".into()], &host_sh, &host);
    assert_eq!(flags, vec!["-e", "DEX_TEST_PASS=hello"]);
}

#[test]
fn passthrough_unset() {
    let flags = build_env_flags(&["DEX_TEST_MISSING_XYZ".into()], &host_sh, &no_vars);
    assert!(flags.is_empty());
}

#[test]
fn cmd_substitution() {
    let flags = build_env_flags(&["RESULT=$(echo hello)".into()], &host_sh, &no_vars);
    assert_eq!(flags, vec!["-e", "RESULT=hello"]);
}

#[test]
fn value_with_spaces_preserved() {
    let result = eval_value("$(echo hello world)", &host_sh);
    assert_eq!(result, "hello world");
}

#[test]
fn config_literal_ignores_host_by_default() {
    let host = |k: &str| if k == "DEX_TEST_CFG_LIT" { Some("host".to_string()) } else { None };
    let flags = build_env_flags(&["DEX_TEST_CFG_LIT=default".into()], &host_sh, &host);
    assert_eq!(flags, vec!["-e", "DEX_TEST_CFG_LIT=default"]);
}

#[test]
fn config_literal_host_override() {
    let host = |k: &str| if k == "DEX_TEST_CFG_OVERRIDE" { Some("host".to_string()) } else { None };
    let flags = build_config_env_flags(&["DEX_TEST_CFG_OVERRIDE=default".into()], &host_sh, &host);
    assert_eq!(flags, vec!["-e", "DEX_TEST_CFG_OVERRIDE=host"]);
}

#[test]
fn config_literal_default_when_host_unset() {
    let flags = build_config_env_flags(&["DEX_TEST_CFG_UNSET=default".into()], &host_sh, &no_vars);
    assert_eq!(flags, vec!["-e", "DEX_TEST_CFG_UNSET=default"]);
}

#[test]
fn dedup_last_wins() {
    let flags = dedup_env_flags(&[
        "-e".into(),
        "KEY=one".into(),
        "-e".into(),
        "KEY=two".into(),
    ]);
    assert_eq!(flags, vec!["-e", "KEY=two"]);
}

#[test]
fn multiple_specs() {
    let host = |k: &str| if k == "CC" { Some("gcc".to_string()) } else { None };
    let flags = build_env_flags(&["CC".into(), "CXX=g++".into()], &host_sh, &host);
    assert_eq!(flags, vec!["-e", "CC=gcc", "-e", "CXX=g++"]);
}

#[test]
fn flags_read_back_as_pairs() {
    let flags: Vec<String> = vec!["-e".into(), "A=1=2".into(), "x".into(), "-e".into(), "B=".into(), "-e".into()];
    let pairs = env_map_from_flags(&flags);
    assert_eq!(pairs, vec![("A".to_string(), "1=2".to_string()), ("B".to_string(), String::new())]);
}

#[test]
fn dedup_keeps_first_place() {
    let flags = dedup_env_flags(&[
        "-e".into(), "A=1".into(), "-e".into(), "B=2".into(), "-e".into(), "A=3".into(),
    ]);
    assert_eq!(flags, vec!["-e", "A=3", "-e", "B=2"]);
}

#[test]
fn specs_are_trimmed_and_blank_ones_skipped() {
    let flags = build_env_flags(&["  K=v  ".into(), "   ".into()], &host_sh, &no_vars);
    assert_eq!(flags, vec!["-e", "K=v"]);
}

#[test]
fn shell_unavailable_keeps_raw_value() {
    let broken = |_: &str| None;
    assert_eq!(eval_value("$(echo hi)", &broken), "$(echo hi)");
}

#[test]
fn trailing_newlines_are_cut() {
    assert_eq!(eval_value("$(printf 'x\\n\\n')", &host_sh), "x");
}

/// A stand-in for `sh -c "printf '%s' \"...\""` that expands `${NAME:-default}`
/// from `vars`, as the shell does.
fn expand_defaults(script: &str, vars: &[(&str, &str)]) -> Option<String> {
    let inner = script.strip_prefix("printf '%s' \"")?.strip_suffix('"')?;
    let mut out = String::new();
    let mut rest = inner;
    while let Some(start) = rest.find("${") {
        out.push_str(&rest[..start]);
        let end = start + rest[start..].find('}')?;
        let body = &rest[start + 2..end];
        let (name, default) = body.split_once(":-").unwrap_or((body, ""));
        match vars.iter().find(|(k, _)| *k == name) {
            Some((_, v)) if !v.is_empty() => out.push_str(v),
            _ => out.push_str(default),
        }
        rest = &rest[end + 1..];
    }
    out.push_str(rest);
    Some(out)
}

#[test]
fn bash_default_expansion_unset() {
    let sh = |s: &str| expand_defaults(s, &[]);
    let result = eval_value("${DEX_TEST_UNSET_PORT:-3061}:3061", &sh);
    assert_eq!(result, "3061:3061");
}

#[test]
fn bash_default_expansion_set() {
    let sh = |s: &str| expand_defaults(s, &[("DEX_TEST_PORT", "8080")]);
    let result = eval_value("${DEX_TEST_PORT:-3061}:3061", &sh);
    assert_eq!(result, "8080:3061");
}

#[test]
fn env_expansion_keeps_spaces() {
    let sh = |script: &str, env: &[(String, String)]| -> Option<String> {
        assert!(env.is_empty());
        match script {
            "printf '%s' \"$(echo hello world)\"" => Some("hello world\n".to_string()),
            other => panic!("unexpected script: {other}"),
        }
    };
    assert_eq!(shrike::env_spec::eval_value_with_env("$(echo hello world)", &[], &sh), "hello world");
}

#[test]
fn plain_specs_read_back_in_order() {
    let specs: Vec<String> = vec!["A=1".into(), "B=x=y".into(), "A=3".into()];
    let flags = build_env_flags(&specs, &host_sh, &no_vars);
    assert_eq!(
        env_map_from_flags(&flags),
        vec![("A".to_string(), "1".to_string()), ("B".to_string(), "x=y".to_string()), ("A".to_string(), "3".to_string())]
    );
}

#[test]
fn env_display_matches_read_back() {
    let flags = build_env_flags(&["A=1".into(), "B=2".into()], &host_sh, &no_vars);
    let shown = shrike::display::output::env_display(&flags);
    let joined: Vec<String> = env_map_from_flags(&flags).iter().map(|(k, v)| format!("{k}={v}")).collect();
    assert_eq!(shown, joined.join(", "));
    assert_eq!(shown, "A=1, B=2");
}

use shrike::config::parse::parse_str;
use shrike::trust::{
    cache_contains, cache_line, fnv1a, hash_input, hash_tag, is_affirmative, split_lines,
    trust_request, untrusted_message,
};

#[test]
fn fnv1a_known_values() {
    assert_eq!(fnv1a(b""), 0xcbf29ce484222325);
    assert_eq!(fnv1a(b"a"), 0xaf63dc4c8601ec8c);
    assert_eq!(fnv1a(b"foobar"), 0x85944171f73967e8);
}

#[test]
fn hash_tag_is_sixteen_hex_digits() {
    assert_eq!(hash_tag(0xaf63dc4c8601ec8c), "af63dc4c8601ec8c");
    assert_eq!(hash_tag(1), "0000000000000001");
    assert_eq!(hash_tag(u64::MAX), "ffffffffffffffff");
}

#[test]
fn hash_input_separates_with_nul() {
    let vals: Vec<String> = vec!["$(id -u)".into(), "`pwd`".into()];
    assert_eq!(hash_input("/repo", &vals), "/repo\0$(id -u)\0`pwd`");
}

#[test]
fn request_lists_host_evaluated_values() {
    let repo = parse_str(
        r#"
[default]
image = "x"
env = ["A=1", "B=$(date)"]
user = "$(id -u)"

[default.build]
cmd = "make"
env = ["J=`nproc`"]
"#,
    )
    .unwrap();
    let req = trust_request("/repo", &repo, None).unwrap();
    assert_eq!(req.vals, vec!["B=$(date)", "$(id -u)", "J=`nproc`"]);
    let input = hash_input("/repo", &req.vals);
    assert_eq!(req.hash, fnv1a(input.as_bytes()));
}

#[test]
fn nothing_to_approve_without_evaluated_values() {
    let repo = parse_str("[default]\nimage = \"x\"\nenv = [\"A=1\"]\n").unwrap();
    assert!(trust_request("/repo", &repo, None).is_none());
}

#[test]
fn store_then_cached() {
    let h = 0x1234_5678_9abc_def0u64;
    let mut content = String::from("0000000000000001\t/other\n");
    assert!(!cache_contains(&content, h));
    content.push_str(&cache_line(h, "/repo"));
    assert!(cache_contains(&content, h));
    assert_eq!(cache_line(h, "/repo"), "123456789abcdef0\t/repo\n");
}

#[test]
fn cache_line_with_crlf() {
    assert!(cache_contains("123456789abcdef0\r\n", 0x1234_5678_9abc_def0));
    assert!(!cache_contains("", 7));
}

#[test]
fn affirmative_answers() {
    assert!(is_affirmative("y"));
    assert!(is_affirmative("  Yes\n"));
    assert!(is_affirmative("YES"));
    assert!(!is_affirmative("no"));
    assert!(!is_affirmative(""));
    assert!(!is_affirmative("yess"));
}

#[test]
fn untrusted_message_lists_values() {
    let vals: Vec<String> = vec!["$(a)".into(), "$(b)".into()];
    assert_eq!(
        untrusted_message("/r", &vals),
        "untrusted repo config at /r contains values evaluated on the host:\n    $(a)\n    $(b)\nrun shrike interactively once to approve it, or remove these values"
    );
}

#[test]
fn lines_split_like_str_lines() {
    assert_eq!(split_lines("a\nb\r\nc"), vec!["a", "b", "c"]);
    assert_eq!(split_lines("a\n"), vec!["a"]);
    assert_eq!(split_lines(""), Vec::<String>::new());
    assert_eq!(split_lines("\n\n"), vec!["", ""]);
    assert_eq!(split_lines("x\r"), vec!["x\r"]);
}

fn evaluating_repo() -> shrike::config::types::ConfigFile {
    parse_str("[default]\nuser = \"$(id -u)\"\n").unwrap()
}

#[test]
fn approval_passes_without_host_values() {
    let repo = parse_str("[default]\nimage = \"x\"\n").unwrap();
    let c = shrike::display::output::Colors::stderr(false);
    let r = shrike::trust::ensure_repo_trusted(
        "/repo",
        &repo,
        None,
        false,
        &c,
        &|| panic!("no cache read expected"),
        &|_: &Vec<String>, _: &str| -> Result<String, String> { panic!("no question expected") },
        &|_: &str| -> Result<(), String> { panic!("no store expected") },
    );
    assert_eq!(r, Ok(()));
}

#[test]
fn approval_passes_when_cached() {
    let repo = evaluating_repo();
    let req = trust_request("/repo", &repo, None).unwrap();
    let content = cache_line(req.hash, "/repo");
    let c = shrike::display::output::Colors::stderr(false);
    let r = shrike::trust::ensure_repo_trusted(
        "/repo",
        &repo,
        None,
        true,
        &c,
        &|| Some(content.clone()),
        &|_: &Vec<String>, _: &str| -> Result<String, String> { panic!("no question expected") },
        &|_: &str| -> Result<(), String> { panic!("no store expected") },
    );
    assert_eq!(r, Ok(()));
}

#[test]
fn approval_refuses_without_terminal() {
    let repo = evaluating_repo();
    let c = shrike::display::output::Colors::stderr(false);
    let r = shrike::trust::ensure_repo_trusted(
        "/repo",
        &repo,
        None,
        false,
        &c,
        &|| None,
        &|_: &Vec<String>, _: &str| -> Result<String, String> { panic!("no question expected") },
        &|_: &str| -> Result<(), String> { panic!("no store expected") },
    );
    let vals: Vec<String> = vec!["$(id -u)".into()];
    assert_eq!(r, Err(untrusted_message("/repo", &vals)));
}

#[test]
fn approval_asks_and_stores_approval() {
    let repo = evaluating_repo();
    let req = trust_request("/repo", &repo, None).unwrap();
    let c = shrike::display::output::Colors::stderr(false);
    let stored = std::cell::RefCell::new(Vec::<String>::new());
    let asked = std::cell::RefCell::new(Vec::<String>::new());
    let r = shrike::trust::ensure_repo_trusted(
        "/repo",
        &repo,
        None,
        true,
        &c,
        &|| Some("0000000000000000\t/x\n".to_string()),
        &|lines: &Vec<String>, q: &str| -> Result<String, String> {
            asked.borrow_mut().extend(lines.iter().cloned());
            asked.borrow_mut().push(q.to_string());
            Ok("yes\n".to_string())
        },
        &|l: &str| -> Result<(), String> {
            stored.borrow_mut().push(l.to_string());
            Ok(())
        },
    );
    assert_eq!(r, Ok(()));
    assert_eq!(stored.borrow().clone(), vec![cache_line(req.hash, "/repo")]);
    assert_eq!(
        asked.borrow().clone(),
        vec![
            "\n ⚠  trust check:  repo config at /repo evaluates these on the host:".to_string(),
            "    $(id -u)".to_string(),
            " Trust this repo and run them on the host? [y/N] ".to_string(),
        ]
    );
}

#[test]
fn approval_refuses_other_answers() {
    let repo = evaluating_repo();
    let c = shrike::display::output::Colors::stderr(false);
    let r = shrike::trust::ensure_repo_trusted(
        "/repo",
        &repo,
        None,
        true,
        &c,
        &|| None,
        &|_: &Vec<String>, _: &str| -> Result<String, String> { Ok("n\n".to_string()) },
        &|_: &str| -> Result<(), String> { panic!("no store expected") },
    );
    assert_eq!(r, Err("repo config not trusted; aborting".to_string()));
}

#[test]
fn volumes_and_workdirs_need_approval() {
    let repo = parse_str(
        r#"
[default]
volumes = ["$HOME/src:/src", "/plain:/plain"]

[default.build]
cmd = "make"
workdir = "/workspace/$SUB"
"#,
    )
    .unwrap();
    let req = trust_request("/repo", &repo, None).unwrap();
    assert_eq!(req.vals, vec!["$HOME/src:/src", "/workspace/$SUB"]);
}

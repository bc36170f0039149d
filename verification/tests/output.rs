use shrike::display::output::{
    die_message, env_display, fmt_duration, footer_lines, lifecycle_box_lines, line_ext_for,
    summary_lines, warn_message, Colors, LifecycleBox, SummaryInfo,
};

#[test]
fn duration_millis() {
    assert_eq!(fmt_duration(0), "0ms");
    assert_eq!(fmt_duration(450), "450ms");
    assert_eq!(fmt_duration(999), "999ms");
}

#[test]
fn duration_seconds_tenths() {
    assert_eq!(fmt_duration(1000), "1.0s");
    assert_eq!(fmt_duration(1500), "1.5s");
    assert_eq!(fmt_duration(59_999), "59.9s");
}

#[test]
fn duration_minutes() {
    assert_eq!(fmt_duration(60_000), "1m 0s");
    assert_eq!(fmt_duration(61_000), "1m 1s");
    assert_eq!(fmt_duration(3_725_000), "62m 5s");
}

#[test]
fn env_display_shows_values_of_e_pairs() {
    let flags: Vec<String> = vec!["-e".into(), "A=1".into(), "-e".into(), "B=2".into()];
    assert_eq!(env_display(&flags), "A=1, B=2");
    let none: Vec<String> = vec![];
    assert_eq!(env_display(&none), "");
    let odd: Vec<String> = vec!["-e".into(), "A=1".into(), "-e".into()];
    assert_eq!(env_display(&odd), "A=1");
}

#[test]
fn line_ext_grows_in_steps_of_ten_columns() {
    assert_eq!(line_ext_for(80), "");
    assert_eq!(line_ext_for(90), "");
    assert_eq!(line_ext_for(91), "─".repeat(20));
    assert_eq!(line_ext_for(100), "─".repeat(20));
    assert_eq!(line_ext_for(101), "─".repeat(40));
}

#[test]
fn plain_palette_off_a_terminal() {
    let c = Colors::stdout(false);
    assert_eq!(c.b, "");
    assert_eq!(c.r, "");
    let t = Colors::stderr(true);
    assert_eq!(t.rd, "\x1b[1;31m");
    assert_eq!(t.r, "\x1b[0m");
}

#[test]
fn lifecycle_box_plain() {
    let c = Colors::stdout(false);
    let bx = LifecycleBox { action: "Create", container: "box", image: Some("img"), setup_cmd: None, platform: None };
    let lines = lifecycle_box_lines(&bx, &c, "");
    assert_eq!(lines.len(), 4);
    assert_eq!(lines[0], format!("\n ┌─ shrike {}", "─".repeat(61)));
    assert_eq!(lines[1], " │ Create  : box");
    assert_eq!(lines[2], " │ Image   : img");
    assert_eq!(lines[3], format!(" └{}", "─".repeat(67)));
}

#[test]
fn summary_plain_interactive() {
    let c = Colors::stdout(false);
    let ports: Vec<String> = vec!["8080:80".into()];
    let none: Vec<String> = vec![];
    let s = SummaryInfo {
        profile: "default",
        image: Some("ubuntu"),
        container: None,
        ports: &ports,
        volumes: &none,
        workdir: "/workspace",
        cmd_display: "bash",
        env_display: "",
        user: Some("1000"),
        interactive: true,
    };
    let lines = summary_lines(&s, &c, "");
    assert_eq!(
        lines[1..].to_vec(),
        vec![
            " │ Profile   : default".to_string(),
            " │ Image     : ubuntu".to_string(),
            " │ Ports     : 8080:80".to_string(),
            " │ Directory : /workspace".to_string(),
            " │ Command   : bash (interactive)".to_string(),
            " │ User      : 1000".to_string(),
            format!(" └{}", "─".repeat(67)),
        ]
    );
}

#[test]
fn footer_failure_shows_log() {
    let c = Colors::stdout(false);
    let lines = footer_lines(2, 1500, Some("/tmp/shrike-x.log"), &c, "");
    assert_eq!(lines[0], format!(" ┌─ result {}", "─".repeat(58)));
    assert_eq!(lines[1], " │ Status   : ✗ exit 2");
    assert_eq!(lines[2], " │ Duration : 1.5s");
    assert_eq!(lines[3], " │ Log      : /tmp/shrike-x.log");
    assert_eq!(lines[4], format!(" └{}\n", "─".repeat(67)));
}

#[test]
fn footer_success() {
    let c = Colors::stdout(false);
    let lines = footer_lines(0, 20, None, &c, "");
    assert_eq!(lines.len(), 4);
    assert_eq!(lines[1], " │ Status   : ✓ exit 0");
    assert_eq!(lines[2], " │ Duration : 20ms");
}

#[test]
fn die_and_warn_texts() {
    let c = Colors::stderr(false);
    assert_eq!(die_message("boom", &c), "\n ✗  error:  boom\n");
    assert_eq!(warn_message("careful", &c), " ⚠  warning:  careful");
}

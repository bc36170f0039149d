use vstd::prelude::*;

use super::ansi::{terminal_width, width_for};
use crate::env_spec::{env_pairs, env_pairs_from, key_part, value_part};
use crate::text::{
    concat, decimal, decimal_string, glue, join, pad_right, pad_str, repeat, repeat_char,
    signed_decimal, signed_decimal_string, str_eq, strs_view, first_index, lemma_first_index,
};
use vstd::string::StringExecFns;

verus! {

// ── Color palette ───────────────────────────────────────────────────────────

/// The escape sequences that color output: bold, magenta, red, yellow,
/// plain yellow, cyan, bold cyan, green, dim, and reset.
pub struct Colors {
    pub b: &'static str,
    pub mg: &'static str,
    pub rd: &'static str,
    pub yl: &'static str,
    pub yln: &'static str,
    pub cy: &'static str,
    pub cyb: &'static str,
    pub gr: &'static str,
    pub dim: &'static str,
    pub r: &'static str,
}

/// The palette as text.
pub struct ColorsView {
    pub b: Seq<char>,
    pub mg: Seq<char>,
    pub rd: Seq<char>,
    pub yl: Seq<char>,
    pub yln: Seq<char>,
    pub cy: Seq<char>,
    pub cyb: Seq<char>,
    pub gr: Seq<char>,
    pub dim: Seq<char>,
    pub r: Seq<char>,
}

impl View for Colors {
    type V = ColorsView;

    open spec fn view(&self) -> ColorsView {
        ColorsView {
            b: self.b@,
            mg: self.mg@,
            rd: self.rd@,
            yl: self.yl@,
            yln: self.yln@,
            cy: self.cy@,
            cyb: self.cyb@,
            gr: self.gr@,
            dim: self.dim@,
            r: self.r@,
        }
    }
}

/// The palette for a terminal.
pub open spec fn palette_on() -> ColorsView {
    ColorsView {
        b: "\x1b[1m"@,
        mg: "\x1b[1;35m"@,
        rd: "\x1b[1;31m"@,
        yl: "\x1b[1;33m"@,
        yln: "\x1b[0;33m"@,
        cy: "\x1b[0;36m"@,
        cyb: "\x1b[1;36m"@,
        gr: "\x1b[0;32m"@,
        dim: "\x1b[2m"@,
        r: "\x1b[0m"@,
    }
}

/// The palette for anything but a terminal: no escapes at all.
pub open spec fn palette_off() -> ColorsView {
    ColorsView {
        b: ""@,
        mg: ""@,
        rd: ""@,
        yl: ""@,
        yln: ""@,
        cy: ""@,
        cyb: ""@,
        gr: ""@,
        dim: ""@,
        r: ""@,
    }
}

/// The palette for a stream: colors on a terminal, none elsewhere.
pub open spec fn palette_for(is_tty: bool) -> ColorsView {
    if is_tty {
        palette_on()
    } else {
        palette_off()
    }
}

impl Colors {
    /// The palette for standard error, which is a terminal when `stderr_is_tty`.
    pub fn stderr(stderr_is_tty: bool) -> (r: Colors)
        ensures
            r@ == palette_for(stderr_is_tty),
    {
        if stderr_is_tty {
            Self::on()
        } else {
            Self::off()
        }
    }

    /// The palette for standard output, which is a terminal when `stdout_is_tty`.
    pub fn stdout(stdout_is_tty: bool) -> (r: Colors)
        ensures
            r@ == palette_for(stdout_is_tty),
    {
        if stdout_is_tty {
            Self::on()
        } else {
            Self::off()
        }
    }

    fn on() -> (r: Colors)
        ensures
            r@ == palette_on(),
    {
        Colors {
            b: "\x1b[1m",
            mg: "\x1b[1;35m",
            rd: "\x1b[1;31m",
            yl: "\x1b[1;33m",
            yln: "\x1b[0;33m",
            cy: "\x1b[0;36m",
            cyb: "\x1b[1;36m",
            gr: "\x1b[0;32m",
            dim: "\x1b[2m",
            r: "\x1b[0m",
        }
    }

    fn off() -> (r: Colors)
        ensures
            r@ == palette_off(),
    {
        Colors { b: "", mg: "", rd: "", yl: "", yln: "", cy: "", cyb: "", gr: "", dim: "", r: "" }
    }
}

// ── Line extension ──────────────────────────────────────────────────────────

/// How many ten-column steps fit between column 90 and `cols`.
pub open spec fn ext_steps(cols: nat) -> nat {
    if cols <= 90 {
        0
    } else {
        ((cols - 90 + 9) / 10) as nat
    }
}

/// The rule that lengthens headers on a terminal `cols` wide: twenty `─` for
/// each ten columns past 90.
pub open spec fn line_ext_text(cols: nat) -> Seq<char> {
    repeat('─', 20 * ext_steps(cols))
}

proof fn lemma_repeat_add(c: char, a: nat, b: nat)
    ensures
        repeat(c, a) + repeat(c, b) == repeat(c, a + b),
{
    assert(repeat(c, a) + repeat(c, b) =~= repeat(c, a + b));
}

/// See `line_ext_text`.
pub fn line_ext_for(cols: usize) -> (r: String)
    ensures
        r@ == line_ext_text(cols as nat),
{
    let mut out = String::new();
    let mut offset: u128 = 90;
    let mut k: usize = 0;
    while offset < cols as u128
        invariant
            offset == 90 + 10 * k,
            cols > 90 ==> k <= ext_steps(cols as nat),
            cols <= 90 ==> k == 0,
            k == 0 || offset < cols + 10,
            out@ == repeat('─', 20 * k as nat),
        decreases cols + 10 - offset,
    {
        let seg = repeat_char('─', 20);
        proof { lemma_repeat_add('─', 20 * k as nat, 20); }
        out.append(seg.as_str());
        offset += 10;
        k += 1;
        assert(out@ == repeat('─', 20 * k as nat));
    }
    assert(k == ext_steps(cols as nat));
    out
}

/// The rule for the current terminal.
pub fn line_ext() -> (r: String)
    ensures
        exists|c: Option<u16>| r@ == line_ext_text(width_for(c) as nat),
{
    let cols = terminal_width();
    line_ext_for(cols)
}

// ── Durations ───────────────────────────────────────────────────────────────

/// A duration in milliseconds as shown to the user: `Nms` below a second,
/// `S.Ts` (tenths) below a minute, else `Mm Ss`.
pub open spec fn duration_text(ms: nat) -> Seq<char> {
    if ms < 1000 {
        decimal(ms) + "ms"@
    } else if ms < 60_000 {
        decimal(ms / 1000) + "."@ + decimal((ms % 1000) / 100) + "s"@
    } else {
        decimal(ms / 60_000) + "m "@ + decimal((ms % 60_000) / 1000) + "s"@
    }
}

/// See `duration_text`.
pub fn fmt_duration(ms: u128) -> (r: String)
    ensures
        r@ == duration_text(ms as nat),
{
    if ms < 1000 {
        let mut s = decimal_string(ms);
        s.append("ms");
        s
    } else if ms < 60_000 {
        let mut s = decimal_string(ms / 1000);
        s.append(".");
        s.append(decimal_string((ms % 1000) / 100).as_str());
        s.append("s");
        s
    } else {
        let mut s = decimal_string(ms / 60_000);
        s.append("m ");
        s.append(decimal_string((ms % 60_000) / 1000).as_str());
        s.append("s");
        s
    }
}

// ── Env display ─────────────────────────────────────────────────────────────

/// The values of the `-e` flag pairs, taking the flags two at a time from
/// position `i`: a pair that starts with `-e` shows its second item.
pub open spec fn shown_env_from(flags: Seq<Seq<char>>, i: int) -> Seq<Seq<char>>
    decreases flags.len() - i,
{
    if i < 0 || i + 1 >= flags.len() {
        Seq::empty()
    } else if flags[i] == "-e"@ {
        seq![flags[i + 1]] + shown_env_from(flags, i + 2)
    } else {
        shown_env_from(flags, i + 2)
    }
}

/// The `KEY=VAL` items of `-e` flag pairs, joined with `, `.
pub open spec fn env_display_text(flags: Seq<Seq<char>>) -> Seq<char> {
    join(shown_env_from(flags, 0), ", "@)
}

/// See `env_display_text`.
pub fn env_display(env_flags: &[String]) -> (r: String)
    ensures
        r@ == env_display_text(env_flags@.map_values(|s: String| s@)),
{
    let ghost fl = env_flags@.map_values(|s: String| s@);
    let mut shown: Vec<String> = Vec::new();
    let mut i: usize = 0;
    while i + 1 < env_flags.len()
        invariant
            fl == env_flags@.map_values(|s: String| s@),
            i % 2 == 0,
            i <= env_flags.len() + 1,
            shown.deep_view() + shown_env_from(fl, i as int) == shown_env_from(fl, 0),
        decreases env_flags.len() + 1 - i,
    {
        let ghost before = shown.deep_view();
        if str_eq(env_flags[i].as_str(), "-e") {
            shown.push(env_flags[i + 1].clone());
            assert(shown.deep_view() =~= before.push(fl[i + 1]));
            assert(shown.deep_view() + shown_env_from(fl, i + 2) =~= before + shown_env_from(fl, i as int));
        }
        i += 2;
    }
    assert(shown_env_from(fl, i as int) == Seq::<Seq<char>>::empty());
    assert(shown.deep_view() + Seq::<Seq<char>>::empty() =~= shown.deep_view());
    crate::text::join_all(&shown, ", ")
}

// ── Container lifecycle box ─────────────────────────────────────────────────

/// What the box about a container step shows.
pub struct LifecycleBox<'a> {
    pub action: &'a str,
    pub container: &'a str,
    pub image: Option<&'a str>,
    pub setup_cmd: Option<&'a str>,
    pub platform: Option<&'a str>,
}

/// The header rule of a box: `┌─ <title> ` and a rule of `n` `─`.
pub open spec fn box_top(c: ColorsView, color: Seq<char>, title: Seq<char>, n: nat, ext: Seq<char>) -> Seq<char> {
    concat(seq![color, " ┌─ "@, title, " "@, repeat('─', n), ext, c.r])
}

/// The closing rule of a box.
pub open spec fn box_bottom(c: ColorsView, color: Seq<char>, ext: Seq<char>) -> Seq<char> {
    concat(seq![color, " └"@, repeat('─', 67), ext, c.r])
}

/// One `name: value` row of the lifecycle box.
pub open spec fn box_row(c: ColorsView, name: Seq<char>, value: Seq<char>) -> Seq<char> {
    concat(seq![c.mg, " │"@, c.r, " "@, c.b, pad_right(name, 8), ":"@, c.r, " "@, c.yl, value, c.r])
}

/// A row for an optional value.
pub open spec fn opt_row(c: ColorsView, name: Seq<char>, v: Option<Seq<char>>) -> Seq<Seq<char>> {
    match v {
        Some(x) => seq![box_row(c, name, x)],
        None => Seq::empty(),
    }
}

/// The lines of the lifecycle box (the first starts with an empty line).
pub open spec fn lifecycle_box_text(
    action: Seq<char>,
    container: Seq<char>,
    image: Option<Seq<char>>,
    setup_cmd: Option<Seq<char>>,
    platform: Option<Seq<char>>,
    c: ColorsView,
    ext: Seq<char>,
) -> Seq<Seq<char>> {
    seq!["\n"@ + box_top(c, c.mg, "shrike"@, 61, ext), box_row(c, action + " "@, container)]
        + opt_row(c, "Image   "@, image) + opt_row(c, "Setup   "@, setup_cmd) + opt_row(
        c,
        "Platform"@,
        platform,
    ) + seq![box_bottom(c, c.rd, ext)]
}

pub(crate) fn top_line(c: &Colors, color: &str, title: &str, n: usize, ext: &str) -> (r: String)
    ensures
        r@ == box_top(c@, color@, title@, n as nat, ext@),
{
    let rule = repeat_char('─', n);
    let rs = rule.as_str();
    let r = glue(&[color, " ┌─ ", title, " ", rs, ext, c.r]);
    assert(strs_view(seq![color, " ┌─ ", title, " ", rs, ext, c.r]) =~= seq![color@, " ┌─ "@, title@, " "@, rule@, ext@, c.r@]);
    r
}

pub(crate) fn bottom_line(c: &Colors, color: &str, ext: &str) -> (r: String)
    ensures
        r@ == box_bottom(c@, color@, ext@),
{
    let rule = repeat_char('─', 67);
    let rs = rule.as_str();
    let r = glue(&[color, " └", rs, ext, c.r]);
    assert(strs_view(seq![color, " └", rs, ext, c.r]) =~= seq![color@, " └"@, rule@, ext@, c.r@]);
    r
}

fn row_line(c: &Colors, name: &str, value: &str) -> (r: String)
    ensures
        r@ == box_row(c@, name@, value@),
{
    let padded = pad_str(name, 8);
    let ps = padded.as_str();
    let r = glue(&[c.mg, " │", c.r, " ", c.b, ps, ":", c.r, " ", c.yl, value, c.r]);
    assert(strs_view(seq![c.mg, " │", c.r, " ", c.b, ps, ":", c.r, " ", c.yl, value, c.r]) =~= seq![c.mg@, " │"@, c.r@, " "@, c.b@, padded@, ":"@, c.r@, " "@, c.yl@, value@, c.r@]);
    r
}

fn push_opt_row(lines: &mut Vec<String>, c: &Colors, name: &str, v: Option<&str>)
    ensures
        final(lines).deep_view() == old(lines).deep_view() + opt_row(c@, name@, v.deep_view()),
{
    let ghost before = lines.deep_view();
    match v {
        Some(x) => {
            lines.push(row_line(c, name, x));
            assert(lines.deep_view() =~= before + opt_row(c@, name@, v.deep_view()));
        },
        None => {
            assert(before + opt_row(c@, name@, v.deep_view()) =~= before);
        },
    }
}

/// The lines of the lifecycle box; see `lifecycle_box_text`.
pub fn lifecycle_box_lines(bx: &LifecycleBox, c: &Colors, ext: &str) -> (r: Vec<String>)
    ensures
        r.deep_view() == lifecycle_box_text(
            bx.action@,
            bx.container@,
            bx.image.deep_view(),
            bx.setup_cmd.deep_view(),
            bx.platform.deep_view(),
            c@,
            ext@,
        ),
{
    let mut lines: Vec<String> = Vec::new();
    let mut first = String::from_str("\n");
    first.append(top_line(c, c.mg, "shrike", 61, ext).as_str());
    lines.push(first);
    let action = crate::text::cat(bx.action, " ");
    lines.push(row_line(c, action.as_str(), bx.container));
    let ghost head = lines.deep_view();
    push_opt_row(&mut lines, c, "Image   ", bx.image);
    push_opt_row(&mut lines, c, "Setup   ", bx.setup_cmd);
    push_opt_row(&mut lines, c, "Platform", bx.platform);
    let ghost mid = lines.deep_view();
    lines.push(bottom_line(c, c.rd, ext));
    assert(lines.deep_view() =~= mid.push(box_bottom(c@, c.rd@, ext@)));
    lines
}

// ── Pre-execution summary ───────────────────────────────────────────────────

/// What the summary before a command shows.
pub struct SummaryInfo<'a> {
    pub profile: &'a str,
    pub image: Option<&'a str>,
    pub container: Option<&'a str>,
    pub ports: &'a [String],
    pub volumes: &'a [String],
    pub workdir: &'a str,
    pub cmd_display: &'a str,
    pub env_display: &'a str,
    pub user: Option<&'a str>,
    pub interactive: bool,
}

/// A summary row: the label, then the value in `color`, then `tail`.
pub open spec fn summary_row(c: ColorsView, label: Seq<char>, color: Seq<char>, value: Seq<char>, tail: Seq<char>) -> Seq<char> {
    concat(seq![c.mg, " │"@, c.r, " "@, c.b, label, ":"@, c.r, " "@, color, value, tail])
}

/// The view of a list of strings.
pub open spec fn texts(v: Seq<String>) -> Seq<Seq<char>> {
    v.map_values(|s: String| s@)
}

/// The text of an optional value (empty when absent).
pub open spec fn opt_str(o: Option<Seq<char>>) -> Seq<char> {
    match o {
        Some(x) => x,
        None => Seq::empty(),
    }
}

/// An optional row.
pub open spec fn maybe_row(present: bool, row: Seq<char>) -> Seq<Seq<char>> {
    if present {
        seq![row]
    } else {
        Seq::empty()
    }
}

/// The command row of the summary.
pub open spec fn command_row(s: SummaryInfo, c: ColorsView) -> Seq<char> {
    if s.interactive {
        summary_row(c, "Command   "@, c.yl, s.cmd_display@, c.r + " "@ + c.cy + "(interactive)"@ + c.r)
    } else {
        summary_row(c, "Command   "@, c.yl, s.cmd_display@, c.r)
    }
}

/// The lines of the summary printed before a command runs.
pub open spec fn summary_text(s: SummaryInfo, c: ColorsView, ext: Seq<char>) -> Seq<Seq<char>> {
    let ports = texts(s.ports@);
    let volumes = texts(s.volumes@);
    seq!["\n"@ + box_top(c, c.mg, "shrike"@, 61, ext), summary_row(c, "Profile   "@, c.yl, s.profile@, c.r)]
        + maybe_row(s.image is Some, summary_row(c, "Image     "@, ""@, opt_str(s.image.deep_view()), ""@))
        + maybe_row(s.container is Some, summary_row(c, "Container "@, c.dim, opt_str(s.container.deep_view()), c.r))
        + maybe_row(s.ports@.len() > 0, summary_row(c, "Ports     "@, c.gr, join(ports, ", "@), c.r))
        + maybe_row(s.volumes@.len() > 0, summary_row(c, "Volumes   "@, c.gr, join(volumes, ", "@), c.r))
        + seq![summary_row(c, "Directory "@, c.gr, s.workdir@, c.r), command_row(s, c)]
        + maybe_row(s.env_display@.len() > 0, summary_row(c, "Env       "@, c.gr, s.env_display@, c.r))
        + maybe_row(s.user is Some, summary_row(c, "User      "@, c.gr, opt_str(s.user.deep_view()), c.r))
        + seq![box_bottom(c, c.rd, ext)]
}

pub(crate) fn summary_line(c: &Colors, label: &str, color: &str, value: &str, tail: &str) -> (r: String)
    ensures
        r@ == summary_row(c@, label@, color@, value@, tail@),
{
    let r = glue(&[c.mg, " │", c.r, " ", c.b, label, ":", c.r, " ", color, value, tail]);
    assert(strs_view(seq![c.mg, " │", c.r, " ", c.b, label, ":", c.r, " ", color, value, tail]) =~= seq![c.mg@, " │"@, c.r@, " "@, c.b@, label@, ":"@, c.r@, " "@, color@, value@, tail@]);
    r
}

pub(crate) fn join_slice(v: &[String], sep: &str) -> (r: String)
    ensures
        r@ == join(texts(v@), sep@),
{
    let mut owned: Vec<String> = Vec::new();
    for i in 0..v.len()
        invariant
            owned.len() == i,
            forall|j: int| 0 <= j < i ==> #[trigger] owned@[j]@ == v@[j]@,
    {
        owned.push(v[i].clone());
    }
    assert(owned.deep_view() =~= texts(v@));
    crate::text::join_all(&owned, sep)
}

pub(crate) fn push_maybe(lines: &mut Vec<String>, present: bool, row: String)
    ensures
        final(lines).deep_view() == old(lines).deep_view() + maybe_row(present, row@),
{
    let ghost before = lines.deep_view();
    if present {
        lines.push(row);
        assert(lines.deep_view() =~= before + maybe_row(present, row@));
    } else {
        assert(before + maybe_row(present, row@) =~= before);
    }
}

pub(crate) fn opt_text(o: Option<&str>) -> (r: &str)
    ensures
        r@ == opt_str(o.deep_view()),
{
    match o {
        Some(x) => x,
        None => {
            proof { reveal_strlit(""); }
            assert(""@ =~= Seq::<char>::empty());
            ""
        },
    }
}

/// The lines of the summary; see `summary_text`.
#[verifier::rlimit(60)]
pub fn summary_lines(s: &SummaryInfo, c: &Colors, ext: &str) -> (r: Vec<String>)
    ensures
        r.deep_view() == summary_text(*s, c@, ext@),
{
    let mut lines: Vec<String> = Vec::new();
    let mut first = String::from_str("\n");
    first.append(top_line(c, c.mg, "shrike", 61, ext).as_str());
    lines.push(first);
    lines.push(summary_line(c, "Profile   ", c.yl, s.profile, c.r));
    push_maybe(&mut lines, s.image.is_some(), summary_line(c, "Image     ", "", opt_text(s.image), ""));
    push_maybe(&mut lines, s.container.is_some(), summary_line(c, "Container ", c.dim, opt_text(s.container), c.r));
    let ports = join_slice(s.ports, ", ");
    push_maybe(&mut lines, s.ports.len() > 0, summary_line(c, "Ports     ", c.gr, ports.as_str(), c.r));
    let volumes = join_slice(s.volumes, ", ");
    push_maybe(&mut lines, s.volumes.len() > 0, summary_line(c, "Volumes   ", c.gr, volumes.as_str(), c.r));
    let ghost l5 = lines.deep_view();
    lines.push(summary_line(c, "Directory ", c.gr, s.workdir, c.r));
    let cmd = if s.interactive {
        let tail = glue(&[c.r, " ", c.cy, "(interactive)", c.r]);
        assert(strs_view(seq![c.r, " ", c.cy, "(interactive)", c.r]) =~= seq![c.r@, " "@, c.cy@, "(interactive)"@, c.r@]);
        assert(concat(seq![c.r@, " "@, c.cy@, "(interactive)"@, c.r@]) =~= c.r@ + " "@ + c.cy@ + "(interactive)"@ + c.r@) by {
            reveal_with_fuel(concat, 6);
        }
        summary_line(c, "Command   ", c.yl, s.cmd_display, tail.as_str())
    } else {
        summary_line(c, "Command   ", c.yl, s.cmd_display, c.r)
    };
    lines.push(cmd);
    assert(lines.deep_view() =~= l5 + seq![summary_row(c@, "Directory "@, c.gr@, s.workdir@, c.r@), command_row(*s, c@)]);
    push_maybe(&mut lines, !s.env_display.is_empty(), summary_line(c, "Env       ", c.gr, s.env_display, c.r));
    push_maybe(&mut lines, s.user.is_some(), summary_line(c, "User      ", c.gr, opt_text(s.user), c.r));
    let ghost l8 = lines.deep_view();
    lines.push(bottom_line(c, c.rd, ext));
    assert(lines.deep_view() =~= l8 + seq![box_bottom(c@, c.rd@, ext@)]);
    lines
}

// ── Post-execution footer ───────────────────────────────────────────────────

/// The lines of the footer after a command: its exit status, how long it
/// took, and the log file when one is shown (the last line ends with an empty
/// line).
pub open spec fn footer_text(exit_code: int, elapsed_ms: nat, logfile: Option<Seq<char>>, c: ColorsView, ext: Seq<char>) -> Seq<Seq<char>> {
    let (sc, status) = if exit_code == 0 {
        (c.gr, "✓ exit 0"@)
    } else {
        (c.rd, "✗ exit "@ + signed_decimal(exit_code))
    };
    seq![
        box_top(c, c.rd, "result"@, 58, ext),
        summary_row(c, "Status   "@, sc, status, c.r),
        summary_row(c, "Duration "@, ""@, duration_text(elapsed_ms), ""@),
    ] + match logfile {
        Some(l) => seq![summary_row(c, "Log      "@, c.yl, l, c.r)],
        None => Seq::empty(),
    } + seq![box_bottom(c, c.mg, ext) + "\n"@]
}

/// The lines of the footer; see `footer_text`.
pub fn footer_lines(exit_code: i32, elapsed_ms: u128, logfile: Option<&str>, c: &Colors, ext: &str) -> (r: Vec<String>)
    ensures
        r.deep_view() == footer_text(exit_code as int, elapsed_ms as nat, logfile.deep_view(), c@, ext@),
{
    let mut lines: Vec<String> = Vec::new();
    lines.push(top_line(c, c.rd, "result", 58, ext));
    let status_color = if exit_code == 0 { c.gr } else { c.rd };
    let status = if exit_code == 0 {
        String::from_str("✓ exit 0")
    } else {
        crate::text::cat("✗ exit ", signed_decimal_string(exit_code as i64).as_str())
    };
    lines.push(summary_line(c, "Status   ", status_color, status.as_str(), c.r));
    let dur = fmt_duration(elapsed_ms);
    lines.push(summary_line(c, "Duration ", "", dur.as_str(), ""));
    let ghost l3 = lines.deep_view();
    if let Some(l) = logfile {
        lines.push(summary_line(c, "Log      ", c.yl, l, c.r));
    }
    let mut last = bottom_line(c, c.mg, ext);
    last.append("\n");
    lines.push(last);
    proof {
        assert(lines.deep_view() =~= footer_text(exit_code as int, elapsed_ms as nat, logfile.deep_view(), c@, ext@));
    }
    lines
}

// ── Diagnostics ─────────────────────────────────────────────────────────────

/// The text of a fatal error (printed on its own lines before exiting).
pub open spec fn die_text(msg: Seq<char>, c: ColorsView) -> Seq<char> {
    concat(seq!["\n "@, c.rd, c.b, "✗  error:"@, c.r, "  "@, msg, "\n"@])
}

/// See `die_text`.
pub fn die_message(msg: &str, c: &Colors) -> (r: String)
    ensures
        r@ == die_text(msg@, c@),
{
    let r = glue(&["\n ", c.rd, c.b, "✗  error:", c.r, "  ", msg, "\n"]);
    assert(strs_view(seq!["\n ", c.rd, c.b, "✗  error:", c.r, "  ", msg, "\n"]) =~= seq!["\n "@, c.rd@, c.b@, "✗  error:"@, c.r@, "  "@, msg@, "\n"@]);
    r
}

/// The text of a warning.
pub open spec fn warn_text(msg: Seq<char>, c: ColorsView) -> Seq<char> {
    concat(seq![" "@, c.yl, c.b, "⚠  warning:"@, c.r, "  "@, msg])
}

/// See `warn_text`.
pub fn warn_message(msg: &str, c: &Colors) -> (r: String)
    ensures
        r@ == warn_text(msg@, c@),
{
    let r = glue(&[" ", c.yl, c.b, "⚠  warning:", c.r, "  ", msg]);
    assert(strs_view(seq![" ", c.yl, c.b, "⚠  warning:", c.r, "  ", msg]) =~= seq![" "@, c.yl@, c.b@, "⚠  warning:"@, c.r@, "  "@, msg@]);
    r
}

// ── Law of the env display ──────────────────────────────────────────────────

/// Whether flags come as `-e KEY=VAL` pairs, as the flag builders give them.
pub open spec fn paired_flags(flags: Seq<Seq<char>>) -> bool {
    &&& flags.len() % 2 == 0
    &&& forall|i: int|
        0 <= i < flags.len() && i % 2 == 0 ==> #[trigger] flags[i] == "-e"@ && first_index(flags[i + 1], '=') >= 0
}

/// A read-back pair shown as `KEY=VAL`.
pub open spec fn pair_text(p: (Seq<char>, Seq<char>)) -> Seq<char> {
    p.0 + "="@ + p.1
}

proof fn lemma_kv_rejoined(kv: Seq<char>)
    requires
        first_index(kv, '=') >= 0,
    ensures
        key_part(kv) + "="@ + value_part(kv) == kv,
{
    lemma_first_index(kv, '=');
    let f = first_index(kv, '=');
    assert(key_part(kv) + "="@ + value_part(kv) =~= kv) by {
        reveal_strlit("=");
    }
}

proof fn lemma_shown_is_pairs(flags: Seq<Seq<char>>, i: int)
    requires
        paired_flags(flags),
        0 <= i,
        i % 2 == 0,
    ensures
        shown_env_from(flags, i) == env_pairs_from(flags, i).map_values(|p: (Seq<char>, Seq<char>)| pair_text(p)),
    decreases flags.len() - i,
{
    if i + 1 < flags.len() {
        assert(flags[i] == "-e"@ && first_index(flags[i + 1], '=') >= 0);
        lemma_shown_is_pairs(flags, i + 2);
        lemma_kv_rejoined(flags[i + 1]);
        let rest = env_pairs_from(flags, i + 2);
        let kv = flags[i + 1];
        assert(env_pairs_from(flags, i) == seq![(key_part(kv), value_part(kv))] + rest);
        assert(env_pairs_from(flags, i).map_values(|p: (Seq<char>, Seq<char>)| pair_text(p)) =~= seq![kv]
            + rest.map_values(|p: (Seq<char>, Seq<char>)| pair_text(p)));
    } else {
        assert(i >= flags.len());
        assert(env_pairs_from(flags, i).map_values(|p: (Seq<char>, Seq<char>)| pair_text(p)) =~= Seq::<
            Seq<char>,
        >::empty());
    }
}

/// For flags that come as `-e KEY=VAL` pairs, the env shown in a summary is
/// the pairs that `env_map_from_flags` reads back, each as `KEY=VAL`,
/// joined with `, `.
pub proof fn law_env_display_read_back(flags: Seq<Seq<char>>)
    requires
        paired_flags(flags),
    ensures
        env_display_text(flags) == join(env_pairs(flags).map_values(|p: (Seq<char>, Seq<char>)| pair_text(p)), ", "@),
{
    lemma_shown_is_pairs(flags, 0);
}

} // verus!

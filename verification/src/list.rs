use vstd::prelude::*;

use crate::config::resolve::{
    dockerfile_in, first_set, image_of, latest, layered_state, opt_file, profile_in, ConfigState, StateView,
};
use crate::config::types::{AliasConfig, AliasView, ConfigFile, ConfigView, ProfileView};
use crate::display::output::{
    bottom_line, box_bottom, box_top, maybe_row, opt_str, opt_text, push_maybe, summary_line,
    summary_row, texts, top_line, Colors, ColorsView,
};
use crate::maps::{
    alias_entries, alias_map_get, alias_map_get_index, alias_map_len, lookup, profile_map_get,
};
use crate::order::{sort_strings, sorted_texts};
use crate::text::{concat, copy_string, copy_strings, glue, join, join_all, pad_right, pad_str, repeat, repeat_char, strs_view};
use vstd::string::StringExecFns;
use vstd::utf8::encode_utf8;

verus! {

// ── Pieces shared by both listings ──────────────────────────────────────────

/// The line that closes a listing.
pub open spec fn list_footer(c: ColorsView, ext: Seq<char>) -> Seq<char> {
    concat(seq![c.rd, "   └"@, repeat('─', 65), ext, c.r])
}

/// The line between two entries.
pub open spec fn gap_line(c: ColorsView) -> Seq<char> {
    concat(seq![c.rd, "   │"@, c.r])
}

/// The line shown in place of the entries of an empty listing.
pub open spec fn none_line(c: ColorsView, msg: Seq<char>) -> Seq<char> {
    concat(seq![c.cy, "   │"@, c.r, "  "@, c.dim, msg, c.r])
}

/// The rows that name the config files in use: global, repo, then local.
pub open spec fn file_rows(
    c: ColorsView,
    global_file: Option<Seq<char>>,
    repo_file: Option<Seq<char>>,
    project_file: Option<Seq<char>>,
) -> Seq<Seq<char>> {
    maybe_row(global_file is Some, summary_row(c, "Global   "@, c.dim, opt_str(global_file), c.r))
        + maybe_row(repo_file is Some, summary_row(c, "Repo     "@, c.cy, opt_str(repo_file), c.r))
        + maybe_row(project_file is Some, summary_row(c, "Local    "@, c.dim, opt_str(project_file), c.r))
}

fn footer_line(c: &Colors, ext: &str) -> (r: String)
    ensures
        r@ == list_footer(c@, ext@),
{
    let rule = repeat_char('─', 65);
    let rs = rule.as_str();
    let r = glue(&[c.rd, "   └", rs, ext, c.r]);
    assert(strs_view(seq![c.rd, "   └", rs, ext, c.r]) =~= seq![c.rd@, "   └"@, rule@, ext@, c.r@]);
    r
}

fn gap(c: &Colors) -> (r: String)
    ensures
        r@ == gap_line(c@),
{
    let r = glue(&[c.rd, "   │", c.r]);
    assert(strs_view(seq![c.rd, "   │", c.r]) =~= seq![c.rd@, "   │"@, c.r@]);
    r
}

fn none(c: &Colors, msg: &str) -> (r: String)
    ensures
        r@ == none_line(c@, msg@),
{
    let r = glue(&[c.cy, "   │", c.r, "  ", c.dim, msg, c.r]);
    assert(strs_view(seq![c.cy, "   │", c.r, "  ", c.dim, msg, c.r]) =~= seq![c.cy@, "   │"@, c.r@, "  "@, c.dim@, msg@, c.r@]);
    r
}

fn push_file_rows(
    lines: &mut Vec<String>,
    c: &Colors,
    global_file: Option<&str>,
    repo_file: Option<&str>,
    project_file: Option<&str>,
)
    ensures
        final(lines).deep_view() == old(lines).deep_view() + file_rows(
            c@,
            global_file.deep_view(),
            repo_file.deep_view(),
            project_file.deep_view(),
        ),
{
    let ghost l0 = lines.deep_view();
    push_maybe(lines, global_file.is_some(), summary_line(c, "Global   ", c.dim, opt_text(global_file), c.r));
    push_maybe(lines, repo_file.is_some(), summary_line(c, "Repo     ", c.cy, opt_text(repo_file), c.r));
    push_maybe(lines, project_file.is_some(), summary_line(c, "Local    ", c.dim, opt_text(project_file), c.r));
    assert(lines.deep_view() =~= l0 + file_rows(c@, global_file.deep_view(), repo_file.deep_view(), project_file.deep_view()));
}

// ── Alias listing ───────────────────────────────────────────────────────────

/// The names of the aliases that are not hidden, in the map's order.
pub open spec fn visible_names(e: Seq<(Seq<char>, AliasView)>) -> Seq<Seq<char>>
    decreases e.len(),
{
    if e.len() == 0 {
        Seq::empty()
    } else if e.last().1.hidden == Some(true) {
        visible_names(e.drop_last())
    } else {
        visible_names(e.drop_last()).push(e.last().0)
    }
}

/// The length of `s` in UTF-8 bytes, as `str::len` reports it.
pub open spec fn byte_len(s: Seq<char>) -> nat {
    (encode_utf8(s).len() as usize) as nat
}

/// The widest of the names, counted in UTF-8 bytes (0 for no names).
pub open spec fn max_bytes(names: Seq<Seq<char>>) -> nat
    decreases names.len(),
{
    if names.len() == 0 {
        0
    } else {
        let m = max_bytes(names.drop_last());
        let n = byte_len(names.last());
        if n > m {
            n
        } else {
            m
        }
    }
}

/// The width of the name column: the widest name's bytes, at least 10.
pub open spec fn name_width(names: Seq<Seq<char>>) -> nat {
    if max_bytes(names) > 10 {
        max_bytes(names)
    } else {
        10
    }
}

/// A row of an alias entry: the name cell, then a label and a value.
pub open spec fn item_row(
    c: ColorsView,
    cell: Seq<char>,
    lcolor: Seq<char>,
    label: Seq<char>,
    gap: Seq<char>,
    vcolor: Seq<char>,
    value: Seq<char>,
    tail: Seq<char>,
) -> Seq<char> {
    concat(seq![c.rd, "   │"@, c.r, "  "@, cell, " "@, lcolor, label, c.r, gap, vcolor, value, c.r, tail])
}

/// The name cell: `s` padded to `w` characters, in `color`.
pub open spec fn name_cell(c: ColorsView, color: Seq<char>, s: Seq<char>, w: nat) -> Seq<char> {
    color + pad_right(s, w) + c.r
}

/// The blank cell under a name, with no color.
pub open spec fn blank_cell(w: nat) -> Seq<char> {
    pad_right(Seq::empty(), w)
}

/// A row under an entry for an optional value.
pub open spec fn detail_row(
    c: ColorsView,
    w: nat,
    label: Seq<char>,
    gap: Seq<char>,
    vcolor: Seq<char>,
    v: Option<Seq<char>>,
) -> Seq<Seq<char>> {
    match v {
        Some(x) => seq![item_row(c, blank_cell(w), c.b, label, gap, vcolor, x, Seq::empty())],
        None => Seq::empty(),
    }
}

/// An optional list joined with `, `.
pub open spec fn joined(v: Option<Seq<Seq<char>>>) -> Option<Seq<char>> {
    match v {
        Some(x) => Some(join(x, ", "@)),
        None => None,
    }
}

/// The lines of a pipeline alias: its description if any, its steps joined
/// with `→`, and its env.
pub open spec fn pipeline_entry_text(c: ColorsView, name: Seq<char>, a: AliasView, w: nat) -> Seq<Seq<char>> {
    let steps = join(
        match a.pipeline {
            Some(p) => p,
            None => Seq::empty(),
        },
        "  →  "@,
    );
    let head = match a.desc {
        Some(d) => seq![
            item_row(c, name_cell(c, c.mg, name, w), c.b, "desc:"@, "    "@, c.yl, d, Seq::empty()),
            item_row(c, name_cell(c, c.mg, Seq::empty(), w), c.mg, "[pipeline]"@, "  "@, c.rd, steps, Seq::empty()),
        ],
        None => seq![item_row(c, name_cell(c, c.mg, name, w), c.mg, "[pipeline]"@, "  "@, c.rd, steps, Seq::empty())],
    };
    head + detail_row(c, w, "env:"@, "     "@, c.yln, joined(a.env))
}

/// The mark after the command of an interactive alias.
pub open spec fn interactive_tag(c: ColorsView, a: AliasView) -> Seq<char> {
    if a.interactive == Some(true) {
        concat(seq!["  "@, c.rd, "(interactive)"@, c.r])
    } else {
        Seq::empty()
    }
}

/// The lines of a command alias: its description if any, its command, then
/// its workdir, env and user.
pub open spec fn command_entry_text(c: ColorsView, name: Seq<char>, a: AliasView, w: nat) -> Seq<Seq<char>> {
    let cmd = opt_str(a.cmd);
    let itag = interactive_tag(c, a);
    let head = match a.desc {
        Some(d) => seq![
            item_row(c, name_cell(c, c.yl, name, w), c.b, "desc:"@, "    "@, c.yl, d, Seq::empty()),
            item_row(c, name_cell(c, c.yl, Seq::empty(), w), c.b, "command:"@, " "@, c.cyb, cmd, itag),
        ],
        None => seq![item_row(c, name_cell(c, c.yl, name, w), c.b, "command:"@, " "@, c.cyb, cmd, itag)],
    };
    head + detail_row(c, w, "workdir:"@, " "@, c.gr, a.workdir) + detail_row(c, w, "env:"@, "     "@, c.yln, joined(a.env))
        + detail_row(c, w, "user:"@, "    "@, c.yln, a.user)
}

/// The lines of one alias.
pub open spec fn alias_entry_text(c: ColorsView, name: Seq<char>, a: AliasView, w: nat) -> Seq<Seq<char>> {
    if a.pipeline is Some {
        pipeline_entry_text(c, name, a, w)
    } else {
        command_entry_text(c, name, a, w)
    }
}

/// The entries for `names`, each looked up in `e`, with a gap line between
/// two entries.
pub open spec fn alias_entries_text(
    c: ColorsView,
    names: Seq<Seq<char>>,
    e: Seq<(Seq<char>, AliasView)>,
    w: nat,
) -> Seq<Seq<char>>
    decreases names.len(),
{
    if names.len() == 0 {
        Seq::empty()
    } else {
        let prev = alias_entries_text(c, names.drop_last(), e, w);
        let sep = if names.len() > 1 {
            seq![gap_line(c)]
        } else {
            Seq::empty()
        };
        prev + sep + match lookup(e, names.last()) {
            Some(a) => alias_entry_text(c, names.last(), a, w),
            None => Seq::empty(),
        }
    }
}

/// The lines of the alias listing of state `s`, with the visible alias names
/// in the order `names`.
pub open spec fn alias_list_text(
    c: ColorsView,
    ext: Seq<char>,
    s: StateView,
    global_file: Option<Seq<char>>,
    repo_file: Option<Seq<char>>,
    project_file: Option<Seq<char>>,
    names: Seq<Seq<char>>,
) -> Seq<Seq<char>> {
    seq![box_top(c, c.mg, "shrike aliases"@, 53, ext), summary_row(c, "Profile  "@, c.yl, s.profile_name, c.r)]
        + maybe_row(s.image is Some, summary_row(c, "Image    "@, Seq::empty(), opt_str(s.image), Seq::empty()))
        + file_rows(c, global_file, repo_file, project_file)
        + maybe_row(s.env.len() > 0, summary_row(c, "Base env "@, c.gr, join(s.env, ", "@), c.r))
        + seq![box_bottom(c, c.rd, ext)]
        + (if names.len() == 0 {
            seq![none_line(c, "(no aliases defined for this profile)"@)]
        } else {
            alias_entries_text(c, names, s.aliases, name_width(names))
        })
        + seq![list_footer(c, ext)]
}

fn item_line(
    c: &Colors,
    cell: &str,
    lcolor: &str,
    label: &str,
    gap: &str,
    vcolor: &str,
    value: &str,
    tail: &str,
) -> (r: String)
    ensures
        r@ == item_row(c@, cell@, lcolor@, label@, gap@, vcolor@, value@, tail@),
{
    let r = glue(&[c.rd, "   │", c.r, "  ", cell, " ", lcolor, label, c.r, gap, vcolor, value, c.r, tail]);
    assert(strs_view(seq![c.rd, "   │", c.r, "  ", cell, " ", lcolor, label, c.r, gap, vcolor, value, c.r, tail])
        =~= seq![c.rd@, "   │"@, c.r@, "  "@, cell@, " "@, lcolor@, label@, c.r@, gap@, vcolor@, value@, c.r@, tail@]);
    r
}

fn cell_text(c: &Colors, color: &str, s: &str, w: usize) -> (r: String)
    ensures
        r@ == name_cell(c@, color@, s@, w as nat),
{
    let padded = pad_str(s, w);
    let ps = padded.as_str();
    let r = glue(&[color, ps, c.r]);
    assert(strs_view(seq![color, ps, c.r]) =~= seq![color@, padded@, c.r@]);
    assert(concat(seq![color@, padded@, c.r@]) =~= color@ + padded@ + c.r@) by {
        reveal_with_fuel(concat, 4);
    }
    r
}

fn empty_str() -> (r: &'static str)
    ensures
        r@ == Seq::<char>::empty(),
{
    proof {
        reveal_strlit("");
    }
    ""
}

fn push_detail(lines: &mut Vec<String>, c: &Colors, w: usize, label: &str, gap: &str, vcolor: &str, v: Option<&str>)
    ensures
        final(lines).deep_view() == old(lines).deep_view() + detail_row(c@, w as nat, label@, gap@, vcolor@, v.deep_view()),
{
    let ghost l0 = lines.deep_view();
    if let Some(x) = v {
        let blank = pad_str(empty_str(), w);
        lines.push(item_line(c, blank.as_str(), c.b, label, gap, vcolor, x, empty_str()));
    }
    assert(lines.deep_view() =~= l0 + detail_row(c@, w as nat, label@, gap@, vcolor@, v.deep_view()));
}

fn joined_list(v: &Option<Vec<String>>) -> (r: Option<String>)
    ensures
        r.deep_view() == joined(v.deep_view()),
{
    match v {
        Some(x) => Some(join_all(x, ", ")),
        None => None,
    }
}

fn opt_as_str(o: &Option<String>) -> (r: Option<&str>)
    ensures
        r.deep_view() == o.deep_view(),
{
    match o {
        Some(s) => Some(s.as_str()),
        None => None,
    }
}

fn push_pipeline_entry(lines: &mut Vec<String>, c: &Colors, name: &str, a: &AliasConfig, w: usize)
    requires
        a@.pipeline is Some,
    ensures
        final(lines).deep_view() == old(lines).deep_view() + pipeline_entry_text(c@, name@, a@, w as nat),
{
    let ghost l0 = lines.deep_view();
    let steps = match &a.pipeline {
        Some(p) => join_all(p, "  →  "),
        None => String::new(),
    };
    match &a.desc {
        Some(d) => {
            let cell = cell_text(c, c.mg, name, w);
            lines.push(item_line(c, cell.as_str(), c.b, "desc:", "    ", c.yl, d.as_str(), empty_str()));
            let blank = cell_text(c, c.mg, empty_str(), w);
            lines.push(item_line(c, blank.as_str(), c.mg, "[pipeline]", "  ", c.rd, steps.as_str(), empty_str()));
        },
        None => {
            let cell = cell_text(c, c.mg, name, w);
            lines.push(item_line(c, cell.as_str(), c.mg, "[pipeline]", "  ", c.rd, steps.as_str(), empty_str()));
        },
    }
    let ghost l1 = lines.deep_view();
    let env = joined_list(&a.env);
    push_detail(lines, c, w, "env:", "     ", c.yln, opt_as_str(&env));
    assert(lines.deep_view() =~= l0 + pipeline_entry_text(c@, name@, a@, w as nat));
}

fn itag_text(c: &Colors, a: &AliasConfig) -> (r: String)
    ensures
        r@ == interactive_tag(c@, a@),
{
    if a.interactive == Some(true) {
        let r = glue(&["  ", c.rd, "(interactive)", c.r]);
        assert(strs_view(seq!["  ", c.rd, "(interactive)", c.r]) =~= seq!["  "@, c.rd@, "(interactive)"@, c.r@]);
        r
    } else {
        String::new()
    }
}

#[verifier::rlimit(40)]
fn push_command_entry(lines: &mut Vec<String>, c: &Colors, name: &str, a: &AliasConfig, w: usize)
    ensures
        final(lines).deep_view() == old(lines).deep_view() + command_entry_text(c@, name@, a@, w as nat),
{
    let ghost l0 = lines.deep_view();
    let cmd = opt_text(opt_as_str(&a.cmd));
    let itag = itag_text(c, a);
    match &a.desc {
        Some(d) => {
            let cell = cell_text(c, c.yl, name, w);
            lines.push(item_line(c, cell.as_str(), c.b, "desc:", "    ", c.yl, d.as_str(), empty_str()));
            let blank = cell_text(c, c.yl, empty_str(), w);
            lines.push(item_line(c, blank.as_str(), c.b, "command:", " ", c.cyb, cmd, itag.as_str()));
        },
        None => {
            let cell = cell_text(c, c.yl, name, w);
            lines.push(item_line(c, cell.as_str(), c.b, "command:", " ", c.cyb, cmd, itag.as_str()));
        },
    }
    let ghost l1 = lines.deep_view();
    push_detail(lines, c, w, "workdir:", " ", c.gr, opt_as_str(&a.workdir));
    let env = joined_list(&a.env);
    push_detail(lines, c, w, "env:", "     ", c.yln, opt_as_str(&env));
    push_detail(lines, c, w, "user:", "    ", c.yln, opt_as_str(&a.user));
    assert(lines.deep_view() =~= l0 + command_entry_text(c@, name@, a@, w as nat));
}

fn push_alias_entry(lines: &mut Vec<String>, c: &Colors, name: &str, a: &AliasConfig, w: usize)
    ensures
        final(lines).deep_view() == old(lines).deep_view() + alias_entry_text(c@, name@, a@, w as nat),
{
    if a.pipeline.is_some() {
        push_pipeline_entry(lines, c, name, a, w);
    } else {
        push_command_entry(lines, c, name, a, w);
    }
}

/// The names of the visible aliases of `state`, in the map's order.
fn visible_alias_names(state: &ConfigState) -> (r: Vec<String>)
    ensures
        r.deep_view() == visible_names(alias_entries(state.aliases)),
{
    let ghost e = alias_entries(state.aliases);
    let n = alias_map_len(&state.aliases);
    let mut out: Vec<String> = Vec::new();
    for i in 0..n
        invariant
            n == e.len(),
            e == alias_entries(state.aliases),
            out.deep_view() == visible_names(e.take(i as int)),
    {
        proof {
            assert(e.take(i + 1).drop_last() =~= e.take(i as int));
        }
        match alias_map_get_index(&state.aliases, i) {
            Some((k, a)) => {
                if a.hidden != Some(true) {
                    out.push(copy_string(k));
                }
            },
            None => {},
        }
        assert(out.deep_view() =~= visible_names(e.take(i + 1)));
    }
    assert(e.take(n as int) =~= e);
    out
}

/// The width of the name column for `names`; see `name_width`.
fn width_of(names: &Vec<String>) -> (r: usize)
    ensures
        r == name_width(names.deep_view()),
{
    let ghost v = names.deep_view();
    let mut m: usize = 0;
    for i in 0..names.len()
        invariant
            v == names.deep_view(),
            m == max_bytes(v.take(i as int)),
    {
        proof {
            assert(v.take(i + 1).drop_last() =~= v.take(i as int));
        }
        let n = names[i].as_str().len();
        assert(n == byte_len(v[i as int]));
        if n > m {
            m = n;
        }
    }
    assert(v.take(names.len() as int) =~= v);
    if m > 10 {
        m
    } else {
        10
    }
}

fn push_alias_entries(lines: &mut Vec<String>, c: &Colors, state: &ConfigState, names: &Vec<String>, w: usize)
    ensures
        final(lines).deep_view() == old(lines).deep_view() + alias_entries_text(
            c@,
            names.deep_view(),
            alias_entries(state.aliases),
            w as nat,
        ),
{
    let ghost l0 = lines.deep_view();
    let ghost v = names.deep_view();
    let ghost e = alias_entries(state.aliases);
    assert(alias_entries_text(c@, v.take(0), e, w as nat) =~= Seq::<Seq<char>>::empty());
    assert(l0 + Seq::<Seq<char>>::empty() =~= l0);
    for i in 0..names.len()
        invariant
            v == names.deep_view(),
            e == alias_entries(state.aliases),
            lines.deep_view() == l0 + alias_entries_text(c@, v.take(i as int), e, w as nat),
    {
        let ghost before = lines.deep_view();
        proof {
            assert(v.take(i + 1).drop_last() =~= v.take(i as int));
            assert(v.take(i + 1).last() == v[i as int]);
        }
        if i > 0 {
            lines.push(gap(c));
        }
        let ghost mid = lines.deep_view();
        match alias_map_get(&state.aliases, names[i].as_str()) {
            Some(a) => push_alias_entry(lines, c, names[i].as_str(), a, w),
            None => {},
        }
        proof {
            let prev = alias_entries_text(c@, v.take(i as int), e, w as nat);
            let sep = if i + 1 > 1 { seq![gap_line(c@)] } else { Seq::<Seq<char>>::empty() };
            assert(mid =~= before + sep);
            assert(lines.deep_view() =~= l0 + alias_entries_text(c@, v.take(i + 1), e, w as nat));
        }
    }
    assert(v.take(names.len() as int) =~= v);
}

/// The lines of the alias listing: a header with the profile, its image, the
/// config files and the base env, then each alias that is not hidden, by
/// name in order, then a closing line. `c` is the palette of the output and
/// `ext` the lengthening of its rules.
pub fn list_aliases(
    state: &ConfigState,
    global_file: Option<&str>,
    repo_file: Option<&str>,
    project_file: Option<&str>,
    c: &Colors,
    ext: &str,
) -> (r: Vec<String>)
    ensures
        exists|names: Seq<Seq<char>>|
            #![trigger alias_list_text(c@, ext@, state@, global_file.deep_view(), repo_file.deep_view(), project_file.deep_view(), names)]
            sorted_texts(names) && names.to_multiset() == visible_names(state@.aliases).to_multiset()
                && r.deep_view() == alias_list_text(
                c@,
                ext@,
                state@,
                global_file.deep_view(),
                repo_file.deep_view(),
                project_file.deep_view(),
                names,
            ),
{
    let mut lines: Vec<String> = Vec::new();
    lines.push(top_line(c, c.mg, "shrike aliases", 53, ext));
    lines.push(summary_line(c, "Profile  ", c.yl, state.profile_name.as_str(), c.r));
    let ghost l2 = lines.deep_view();
    let e0 = empty_str();
    let image_row = summary_line(c, "Image    ", e0, opt_text(opt_as_str(&state.image)), e0);
    assert(image_row@ == summary_row(c@, "Image    "@, Seq::empty(), opt_str(state@.image), Seq::empty()));
    push_maybe(&mut lines, state.image.is_some(), image_row);
    let ghost l3 = lines.deep_view();
    assert(l2 =~= seq![box_top(c@, c.mg@, "shrike aliases"@, 53, ext@), summary_row(c@, "Profile  "@, c.yl@, state@.profile_name, c.r@)]);
    assert(l3 == l2 + maybe_row(state@.image is Some, summary_row(c@, "Image    "@, Seq::empty(), opt_str(state@.image), Seq::empty())));
    push_file_rows(&mut lines, c, global_file, repo_file, project_file);
    let ghost l4 = lines.deep_view();
    let env = join_all(&state.env, ", ");
    assert(state.env.len() == state@.env.len());
    push_maybe(&mut lines, state.env.len() > 0, summary_line(c, "Base env ", c.gr, env.as_str(), c.r));
    let ghost l5 = lines.deep_view();
    assert(l4 == l3 + file_rows(c@, global_file.deep_view(), repo_file.deep_view(), project_file.deep_view()));
    assert(l5 == l4 + maybe_row(state@.env.len() > 0, summary_row(c@, "Base env "@, c.gr@, join(state@.env, ", "@), c.r@)));
    lines.push(bottom_line(c, c.rd, ext));
    let ghost head = lines.deep_view();
    proof {
        assert(head =~= seq![box_top(c@, c.mg@, "shrike aliases"@, 53, ext@), summary_row(c@, "Profile  "@, c.yl@, state@.profile_name, c.r@)]
            + maybe_row(state@.image is Some, summary_row(c@, "Image    "@, Seq::empty(), opt_str(state@.image), Seq::empty()))
            + file_rows(c@, global_file.deep_view(), repo_file.deep_view(), project_file.deep_view())
            + maybe_row(state@.env.len() > 0, summary_row(c@, "Base env "@, c.gr@, join(state@.env, ", "@), c.r@))
            + seq![box_bottom(c@, c.rd@, ext@)]);
    }
    let visible = visible_alias_names(state);
    let names = sort_strings(visible);
    if names.len() == 0 {
        lines.push(none(c, "(no aliases defined for this profile)"));
    } else {
        let w = width_of(&names);
        push_alias_entries(&mut lines, c, state, &names, w);
    }
    let ghost body = lines.deep_view();
    lines.push(footer_line(c, ext));
    proof {
        let nv = names.deep_view();
        assert(nv.len() == names.len());
        assert(lines.deep_view() =~= alias_list_text(
            c@,
            ext@,
            state@,
            global_file.deep_view(),
            repo_file.deep_view(),
            project_file.deep_view(),
            nv,
        ));
    }
    lines
}

// ── Profile listing ─────────────────────────────────────────────────────────

/// The dockerfile of an optional profile.
pub open spec fn dockerfile_of(p: Option<ProfileView>) -> Option<Seq<char>> {
    match p {
        Some(x) => x.dockerfile,
        None => None,
    }
}

/// The files that define profile `name`, as `[Global, Repo, Local]` shows them.
pub open spec fn sources_tag(
    name: Seq<char>,
    global: ConfigView,
    repo: ConfigView,
    project: Option<ConfigView>,
) -> Seq<char> {
    let sources = (if profile_in(Some(global), name) is Some {
        seq!["Global"@]
    } else {
        Seq::empty()
    }) + (if profile_in(Some(repo), name) is Some {
        seq!["Repo"@]
    } else {
        Seq::empty()
    }) + (if profile_in(project, name) is Some {
        seq!["Local"@]
    } else {
        Seq::empty()
    });
    "["@ + join(sources, ", "@) + "]"@
}

/// The lines of profile `name`: its name (marked when it is the active one)
/// and the files that define it, then the image and the dockerfile it
/// resolves to, the project file's winning over the repo file's over the
/// global file's.
pub open spec fn profile_entry_text(
    c: ColorsView,
    name: Seq<char>,
    active: Seq<char>,
    global: ConfigView,
    repo: ConfigView,
    project: Option<ConfigView>,
) -> Seq<Seq<char>> {
    let src = sources_tag(name, global, repo, project);
    let head = if name == active {
        concat(seq![c.rd, "   │"@, c.r, "  "@, c.rd, "[★]"@, c.r, " "@, c.b, c.yl, pad_right(name, 14), c.r, " "@, c.dim, src, c.r])
    } else {
        concat(seq![c.rd, "   │"@, c.r, "      "@, c.yl, pad_right(name, 14), c.r, " "@, c.dim, src, c.r])
    };
    let image = first_set(
        image_of(profile_in(project, name)),
        image_of(profile_in(Some(repo), name)),
        image_of(profile_in(Some(global), name)),
    );
    let dockerfile = first_set(
        dockerfile_of(profile_in(project, name)),
        dockerfile_of(profile_in(Some(repo), name)),
        dockerfile_of(profile_in(Some(global), name)),
    );
    seq![head] + maybe_row(
        image is Some,
        concat(seq![c.rd, "   │"@, c.r, "      "@, c.dim, "image:"@, c.r, "         "@, c.cy, opt_str(image), c.r]),
    ) + maybe_row(
        dockerfile is Some,
        concat(seq![c.rd, "   │"@, c.r, "      "@, c.dim, "dockerfile:"@, c.r, "    "@, c.cy, opt_str(dockerfile), c.r]),
    )
}

/// The entries for `names`, with a gap line between two entries.
pub open spec fn profile_entries_text(
    c: ColorsView,
    names: Seq<Seq<char>>,
    active: Seq<char>,
    global: ConfigView,
    repo: ConfigView,
    project: Option<ConfigView>,
) -> Seq<Seq<char>>
    decreases names.len(),
{
    if names.len() == 0 {
        Seq::empty()
    } else {
        let prev = profile_entries_text(c, names.drop_last(), active, global, repo, project);
        let sep = if names.len() > 1 {
            seq![gap_line(c)]
        } else {
            Seq::empty()
        };
        prev + sep + profile_entry_text(c, names.last(), active, global, repo, project)
    }
}

/// The lines of the profile listing, with the profiles in the order `names`.
pub open spec fn profile_list_text(
    c: ColorsView,
    ext: Seq<char>,
    names: Seq<Seq<char>>,
    active: Seq<char>,
    global_file: Option<Seq<char>>,
    repo_file: Option<Seq<char>>,
    project_file: Option<Seq<char>>,
    global: ConfigView,
    repo: ConfigView,
    project: Option<ConfigView>,
) -> Seq<Seq<char>> {
    seq![box_top(c, c.mg, "shrike profiles"@, 54, ext), summary_row(c, "Active   "@, c.yl, active, c.r)]
        + file_rows(c, global_file, repo_file, project_file)
        + seq![box_bottom(c, c.rd, ext)]
        + (if names.len() == 0 {
            seq![none_line(c, "(no profiles defined)"@)]
        } else {
            profile_entries_text(c, names, active, global, repo, project)
        })
        + seq![list_footer(c, ext)]
}

fn file_profile<'a>(f: Option<&'a ConfigFile>, name: &str) -> (r: Option<&'a crate::config::types::ProfileSection>)
    ensures
        match r {
            Some(p) => profile_in(opt_file(f), name@) == Some(p@),
            None => profile_in(opt_file(f), name@) is None,
        },
{
    match f {
        Some(x) => profile_map_get(&x.profiles, name),
        None => None,
    }
}

fn profile_image<'a>(p: Option<&'a crate::config::types::ProfileSection>) -> (r: Option<&'a str>)
    ensures
        r.deep_view() == image_of(match p {
            Some(x) => Some(x@),
            None => None,
        }),
{
    match p {
        Some(x) => opt_as_str(&x.image),
        None => None,
    }
}

fn profile_dockerfile<'a>(p: Option<&'a crate::config::types::ProfileSection>) -> (r: Option<&'a str>)
    ensures
        r.deep_view() == dockerfile_of(match p {
            Some(x) => Some(x@),
            None => None,
        }),
{
    match p {
        Some(x) => opt_as_str(&x.dockerfile),
        None => None,
    }
}

fn first_of<'a>(a: Option<&'a str>, b: Option<&'a str>, d: Option<&'a str>) -> (r: Option<&'a str>)
    ensures
        r.deep_view() == first_set(a.deep_view(), b.deep_view(), d.deep_view()),
{
    if a.is_some() {
        a
    } else if b.is_some() {
        b
    } else {
        d
    }
}

fn sources_text(name: &str, global: &ConfigFile, repo: &ConfigFile, project: Option<&ConfigFile>) -> (r: String)
    ensures
        r@ == sources_tag(name@, global@, repo@, opt_file(project)),
{
    let mut sources: Vec<String> = Vec::new();
    if file_profile(Some(global), name).is_some() {
        sources.push(String::from_str("Global"));
    }
    if file_profile(Some(repo), name).is_some() {
        sources.push(String::from_str("Repo"));
    }
    if file_profile(project, name).is_some() {
        sources.push(String::from_str("Local"));
    }
    let ghost sv = (if profile_in(Some(global@), name@) is Some {
        seq!["Global"@]
    } else {
        Seq::<Seq<char>>::empty()
    }) + (if profile_in(Some(repo@), name@) is Some {
        seq!["Repo"@]
    } else {
        Seq::<Seq<char>>::empty()
    }) + (if profile_in(opt_file(project), name@) is Some {
        seq!["Local"@]
    } else {
        Seq::<Seq<char>>::empty()
    });
    assert(opt_file(Some(global)) == Some(global@));
    assert(opt_file(Some(repo)) == Some(repo@));
    assert(sources.deep_view() =~= sv);
    let inner = join_all(&sources, ", ");
    let is = inner.as_str();
    let r = glue(&["[", is, "]"]);
    assert(strs_view(seq!["[", is, "]"]) =~= seq!["["@, inner@, "]"@]);
    assert(concat(seq!["["@, inner@, "]"@]) =~= "["@ + inner@ + "]"@) by {
        reveal_with_fuel(concat, 4);
    }
    r
}

#[verifier::rlimit(40)]
fn push_profile_entry(
    lines: &mut Vec<String>,
    c: &Colors,
    name: &str,
    active: &str,
    global: &ConfigFile,
    repo: &ConfigFile,
    project: Option<&ConfigFile>,
)
    ensures
        final(lines).deep_view() == old(lines).deep_view() + profile_entry_text(
            c@,
            name@,
            active@,
            global@,
            repo@,
            opt_file(project),
        ),
{
    let ghost l0 = lines.deep_view();
    let src = sources_text(name, global, repo, project);
    let sr = src.as_str();
    let padded = pad_str(name, 14);
    let ps = padded.as_str();
    let head = if crate::text::str_eq(name, active) {
        let r = glue(&[c.rd, "   │", c.r, "  ", c.rd, "[★]", c.r, " ", c.b, c.yl, ps, c.r, " ", c.dim, sr, c.r]);
        assert(strs_view(seq![c.rd, "   │", c.r, "  ", c.rd, "[★]", c.r, " ", c.b, c.yl, ps, c.r, " ", c.dim, sr, c.r])
            =~= seq![c.rd@, "   │"@, c.r@, "  "@, c.rd@, "[★]"@, c.r@, " "@, c.b@, c.yl@, padded@, c.r@, " "@, c.dim@, src@, c.r@]);
        r
    } else {
        let r = glue(&[c.rd, "   │", c.r, "      ", c.yl, ps, c.r, " ", c.dim, sr, c.r]);
        assert(strs_view(seq![c.rd, "   │", c.r, "      ", c.yl, ps, c.r, " ", c.dim, sr, c.r])
            =~= seq![c.rd@, "   │"@, c.r@, "      "@, c.yl@, padded@, c.r@, " "@, c.dim@, src@, c.r@]);
        r
    };
    lines.push(head);
    let pp = file_profile(project, name);
    let pr = file_profile(Some(repo), name);
    let pg = file_profile(Some(global), name);
    assert(opt_file(Some(global)) == Some(global@));
    assert(opt_file(Some(repo)) == Some(repo@));
    let image = first_of(profile_image(pp), profile_image(pr), profile_image(pg));
    let dockerfile = first_of(profile_dockerfile(pp), profile_dockerfile(pr), profile_dockerfile(pg));
    let img = opt_text(image);
    let image_row = glue(&[c.rd, "   │", c.r, "      ", c.dim, "image:", c.r, "         ", c.cy, img, c.r]);
    assert(strs_view(seq![c.rd, "   │", c.r, "      ", c.dim, "image:", c.r, "         ", c.cy, img, c.r])
        =~= seq![c.rd@, "   │"@, c.r@, "      "@, c.dim@, "image:"@, c.r@, "         "@, c.cy@, img@, c.r@]);
    push_maybe(lines, image.is_some(), image_row);
    let df = opt_text(dockerfile);
    let df_row = glue(&[c.rd, "   │", c.r, "      ", c.dim, "dockerfile:", c.r, "    ", c.cy, df, c.r]);
    assert(strs_view(seq![c.rd, "   │", c.r, "      ", c.dim, "dockerfile:", c.r, "    ", c.cy, df, c.r])
        =~= seq![c.rd@, "   │"@, c.r@, "      "@, c.dim@, "dockerfile:"@, c.r@, "    "@, c.cy@, df@, c.r@]);
    push_maybe(lines, dockerfile.is_some(), df_row);
    assert(lines.deep_view() =~= l0 + profile_entry_text(c@, name@, active@, global@, repo@, opt_file(project)));
}

/// The lines of the profile listing: a header with the active profile and
/// the config files, then each profile by name in order, then a closing
/// line. `c` is the palette of the output and `ext` the lengthening of its
/// rules.
pub fn list_profiles(
    profiles: &[String],
    active: &str,
    global_file: Option<&str>,
    repo_file: Option<&str>,
    project_file: Option<&str>,
    global: &ConfigFile,
    repo: &ConfigFile,
    project: Option<&ConfigFile>,
    c: &Colors,
    ext: &str,
) -> (r: Vec<String>)
    ensures
        exists|names: Seq<Seq<char>>|
            #![trigger profile_list_text(c@, ext@, names, active@, global_file.deep_view(), repo_file.deep_view(), project_file.deep_view(), global@, repo@, opt_file(project))]
            sorted_texts(names) && names.to_multiset() == texts(profiles@).to_multiset()
                && r.deep_view() == profile_list_text(
                c@,
                ext@,
                names,
                active@,
                global_file.deep_view(),
                repo_file.deep_view(),
                project_file.deep_view(),
                global@,
                repo@,
                opt_file(project),
            ),
{
    let mut lines: Vec<String> = Vec::new();
    lines.push(top_line(c, c.mg, "shrike profiles", 54, ext));
    lines.push(summary_line(c, "Active   ", c.yl, active, c.r));
    let ghost l2 = lines.deep_view();
    assert(l2 =~= seq![box_top(c@, c.mg@, "shrike profiles"@, 54, ext@), summary_row(c@, "Active   "@, c.yl@, active@, c.r@)]);
    push_file_rows(&mut lines, c, global_file, repo_file, project_file);
    let ghost l3 = lines.deep_view();
    lines.push(bottom_line(c, c.rd, ext));
    let ghost head = lines.deep_view();
    assert(head =~= seq![box_top(c@, c.mg@, "shrike profiles"@, 54, ext@), summary_row(c@, "Active   "@, c.yl@, active@, c.r@)]
        + file_rows(c@, global_file.deep_view(), repo_file.deep_view(), project_file.deep_view())
        + seq![box_bottom(c@, c.rd@, ext@)]);
    let names = sort_strings(copy_strings(profiles));
    let ghost nv = names.deep_view();
    let ghost pj = opt_file(project);
    if names.len() == 0 {
        lines.push(none(c, "(no profiles defined)"));
    } else {
        let ghost l0 = lines.deep_view();
        assert(profile_entries_text(c@, nv.take(0), active@, global@, repo@, pj) =~= Seq::<Seq<char>>::empty());
        assert(l0 + Seq::<Seq<char>>::empty() =~= l0);
        for i in 0..names.len()
            invariant
                nv == names.deep_view(),
                pj == opt_file(project),
                lines.deep_view() == l0 + profile_entries_text(c@, nv.take(i as int), active@, global@, repo@, pj),
        {
            let ghost before = lines.deep_view();
            proof {
                assert(nv.take(i + 1).drop_last() =~= nv.take(i as int));
                assert(nv.take(i + 1).last() == nv[i as int]);
            }
            if i > 0 {
                lines.push(gap(c));
            }
            let ghost mid = lines.deep_view();
            push_profile_entry(&mut lines, c, names[i].as_str(), active, global, repo, project);
            proof {
                let sep = if i + 1 > 1 { seq![gap_line(c@)] } else { Seq::<Seq<char>>::empty() };
                assert(mid =~= before + sep);
                assert(lines.deep_view() =~= l0 + profile_entries_text(c@, nv.take(i + 1), active@, global@, repo@, pj));
            }
        }
        assert(nv.take(names.len() as int) =~= nv);
    }
    lines.push(footer_line(c, ext));
    proof {
        assert(l2 =~= seq![box_top(c@, c.mg@, "shrike profiles"@, 54, ext@), summary_row(c@, "Active   "@, c.yl@, active@, c.r@)]);
        assert(nv.len() == names.len());
        assert(lines.deep_view() =~= profile_list_text(
            c@,
            ext@,
            nv,
            active@,
            global_file.deep_view(),
            repo_file.deep_view(),
            project_file.deep_view(),
            global@,
            repo@,
            pj,
        ));
    }
    lines
}

/// The row that shows a profile's image in the listing.
pub open spec fn image_line(c: ColorsView, x: Seq<char>) -> Seq<char> {
    concat(seq![c.rd, "   │"@, c.r, "      "@, c.dim, "image:"@, c.r, "         "@, c.cy, x, c.r])
}

/// The row that shows a profile's dockerfile in the listing.
pub open spec fn dockerfile_line(c: ColorsView, x: Seq<char>) -> Seq<char> {
    concat(seq![c.rd, "   │"@, c.r, "      "@, c.dim, "dockerfile:"@, c.r, "    "@, c.cy, x, c.r])
}

/// The listing shows for a profile the image that the merged state of that
/// profile runs (the project file's over the repo file's over the global
/// file's), and the dockerfile of the latest layer that names one, as
/// written: a row for each that is set, image first, after the name.
pub proof fn law_listing_shows_latest_layer(
    c: ColorsView,
    name: Seq<char>,
    active: Seq<char>,
    global: ConfigView,
    global_dir: Option<Seq<char>>,
    repo: ConfigView,
    repo_dir: Option<Seq<char>>,
    project: Option<ConfigView>,
    project_dir: Option<Seq<char>>,
)
    ensures
        ({
            let e = profile_entry_text(c, name, active, global, repo, project);
            let pg = profile_in(Some(global), name);
            let pr = profile_in(Some(repo), name);
            let pp = profile_in(project, name);
            let img = latest(image_of(pp), image_of(pr), image_of(pg));
            let df = latest(dockerfile_in(pp), dockerfile_in(pr), dockerfile_in(pg));
            &&& img == layered_state(global, global_dir, repo, repo_dir, project, project_dir, name).image
            &&& e.len() == 1 + (if img is Some { 1int } else { 0 }) + (if df is Some { 1int } else { 0 })
            &&& img is Some ==> e[1] == image_line(c, img.unwrap())
            &&& df is Some ==> e.last() == dockerfile_line(c, df.unwrap())
        }),
{
    crate::config::resolve::law_later_layers_win(global, global_dir, repo, repo_dir, project, project_dir, name, name);
}

} // verus!

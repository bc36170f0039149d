use vstd::prelude::*;

use super::tree::{parse_toml, toml_document, TomlValue};
use super::types::{AliasConfig, AliasView, ConfigFile, ConfigView, ProfileSection, ProfileView, ProjectSection, ProjectView, empty_alias, empty_config, empty_profile, empty_project};
use crate::maps::{alias_map_insert, entries_insert, profile_map_insert};
use crate::text::{cat, cat3, copy_string, str_eq};
use vstd::string::StringExecFns;

verus! {

// ── Field readers ───────────────────────────────────────────────────────────

/// The text of a string value (empty for any other kind of value).
pub open spec fn str_text(v: TomlValue) -> Seq<char> {
    match v {
        TomlValue::Str(s) => s@,
        _ => Seq::empty(),
    }
}

/// A string field: its text, or the error naming `ctx`.
pub open spec fn spec_as_str(v: TomlValue, ctx: Seq<char>) -> Result<Seq<char>, Seq<char>> {
    match v {
        TomlValue::Str(s) => Ok(s@),
        _ => Err("`"@ + ctx + "` must be a string"@),
    }
}

/// A boolean field: its value, or the error naming `ctx`.
pub open spec fn spec_as_bool(v: TomlValue, ctx: Seq<char>) -> Result<bool, Seq<char>> {
    match v {
        TomlValue::Bool(b) => Ok(b),
        _ => Err("`"@ + ctx + "` must be a boolean"@),
    }
}

/// Whether every item is a string.
pub open spec fn all_strings(items: Seq<TomlValue>) -> bool {
    forall|i: int| 0 <= i < items.len() ==> #[trigger] items[i] is Str
}

/// An array-of-strings field: the texts in order, or the error naming `ctx`.
pub open spec fn spec_as_str_array(v: TomlValue, ctx: Seq<char>) -> Result<
    Seq<Seq<char>>,
    Seq<char>,
> {
    match v {
        TomlValue::Array(items) => if all_strings(items@) {
            Ok(items@.map_values(|x: TomlValue| str_text(x)))
        } else {
            Err("`"@ + ctx + "` array must contain strings"@)
        },
        _ => Err("`"@ + ctx + "` must be an array of strings"@),
    }
}

fn as_str(v: &TomlValue, ctx: &str) -> (r: Result<String, String>)
    ensures
        match r {
            Ok(s) => spec_as_str(*v, ctx@) == Ok::<Seq<char>, Seq<char>>(s@),
            Err(e) => spec_as_str(*v, ctx@) == Err::<Seq<char>, Seq<char>>(e@),
        },
{
    match v {
        TomlValue::Str(s) => Ok(copy_string(s)),
        _ => Err(cat3("`", ctx, "` must be a string")),
    }
}

fn as_bool(v: &TomlValue, ctx: &str) -> (r: Result<bool, String>)
    ensures
        match r {
            Ok(b) => spec_as_bool(*v, ctx@) == Ok::<bool, Seq<char>>(b),
            Err(e) => spec_as_bool(*v, ctx@) == Err::<bool, Seq<char>>(e@),
        },
{
    match v {
        TomlValue::Bool(b) => Ok(*b),
        _ => Err(cat3("`", ctx, "` must be a boolean")),
    }
}

#[verifier::loop_isolation(false)]
fn as_str_array(v: &TomlValue, ctx: &str) -> (r: Result<Vec<String>, String>)
    ensures
        match r {
            Ok(a) => spec_as_str_array(*v, ctx@) == Ok::<Seq<Seq<char>>, Seq<char>>(a.deep_view()),
            Err(e) => spec_as_str_array(*v, ctx@) == Err::<Seq<Seq<char>>, Seq<char>>(e@),
        },
{
    match v {
        TomlValue::Array(items) => {
            let mut out: Vec<String> = Vec::new();
            let n = items.len();
            for i in 0..n
                invariant
                    n == items.len(),
                    out.len() == i,
                    forall|j: int| 0 <= j < i ==> #[trigger] items@[j] is Str,
                    forall|j: int| 0 <= j < i ==> #[trigger] out@[j]@ == str_text(items@[j]),
            {
                match &items[i] {
                    TomlValue::Str(s) => {
                        out.push(copy_string(s));
                    },
                    _ => {
                        assert(!all_strings(items@));
                        return Err(cat3("`", ctx, "` array must contain strings"));
                    },
                }
            }
            assert(out.deep_view() =~= items@.map_values(|x: TomlValue| str_text(x)));
            Ok(out)
        },
        _ => Err(cat3("`", ctx, "` must be an array of strings")),
    }
}

// ── Aliases ─────────────────────────────────────────────────────────────────

/// The context that errors in field `k` of alias `name` carry.
pub open spec fn alias_ctx(name: Seq<char>, k: Seq<char>) -> Seq<char> {
    "alias `"@ + name + "`."@ + k
}

/// Reading one key of an alias table into `a`.
pub open spec fn alias_step(a: AliasView, k: Seq<char>, v: TomlValue, name: Seq<char>) -> Result<
    AliasView,
    Seq<char>,
> {
    let ctx = alias_ctx(name, k);
    if k == "cmd"@ {
        match spec_as_str(v, ctx) {
            Ok(s) => Ok(AliasView { cmd: Some(s), ..a }),
            Err(e) => Err(e),
        }
    } else if k == "desc"@ {
        match spec_as_str(v, ctx) {
            Ok(s) => Ok(AliasView { desc: Some(s), ..a }),
            Err(e) => Err(e),
        }
    } else if k == "workdir"@ {
        match spec_as_str(v, ctx) {
            Ok(s) => Ok(AliasView { workdir: Some(s), ..a }),
            Err(e) => Err(e),
        }
    } else if k == "user"@ {
        match spec_as_str(v, ctx) {
            Ok(s) => Ok(AliasView { user: Some(s), ..a }),
            Err(e) => Err(e),
        }
    } else if k == "env"@ {
        match spec_as_str_array(v, ctx) {
            Ok(s) => Ok(AliasView { env: Some(s), ..a }),
            Err(e) => Err(e),
        }
    } else if k == "pipeline"@ {
        match spec_as_str_array(v, ctx) {
            Ok(s) => Ok(AliasView { pipeline: Some(s), ..a }),
            Err(e) => Err(e),
        }
    } else if k == "interactive"@ {
        match spec_as_bool(v, ctx) {
            Ok(b) => Ok(AliasView { interactive: Some(b), ..a }),
            Err(e) => Err(e),
        }
    } else if k == "hidden"@ {
        match spec_as_bool(v, ctx) {
            Ok(b) => Ok(AliasView { hidden: Some(b), ..a }),
            Err(e) => Err(e),
        }
    } else {
        Err("unknown key in alias `"@ + name + "`: `"@ + k + "`"@)
    }
}

/// The alias that a table describes, keys read in order; the first bad key
/// gives the error.
pub open spec fn alias_of(entries: Seq<(String, TomlValue)>, name: Seq<char>) -> Result<
    AliasView,
    Seq<char>,
>
    decreases entries.len(),
{
    if entries.len() == 0 {
        Ok(empty_alias())
    } else {
        match alias_of(entries.drop_last(), name) {
            Ok(a) => alias_step(a, entries.last().0@, entries.last().1, name),
            Err(e) => Err(e),
        }
    }
}

/// Once a prefix of the keys fails, the whole table fails with that error.
proof fn lemma_alias_error_stays(entries: Seq<(String, TomlValue)>, i: int, name: Seq<char>)
    requires
        0 <= i <= entries.len(),
        alias_of(entries.take(i), name) is Err,
    ensures
        alias_of(entries, name) == alias_of(entries.take(i), name),
    decreases entries.len() - i,
{
    if i < entries.len() {
        assert(entries.take(i + 1).drop_last() == entries.take(i));
        lemma_alias_error_stays(entries, i + 1, name);
    } else {
        assert(entries.take(i) == entries);
    }
}

fn parse_alias(table: &Vec<(String, TomlValue)>, name: &str) -> (r: Result<AliasConfig, String>)
    ensures
        match r {
            Ok(a) => alias_of(table@, name@) == Ok::<AliasView, Seq<char>>(a@),
            Err(e) => alias_of(table@, name@) == Err::<AliasView, Seq<char>>(e@),
        },
{
    let mut a = AliasConfig::new();
    let n = table.len();
    for i in 0..n
        invariant
            n == table.len(),
            alias_of(table@.take(i as int), name@) == Ok::<AliasView, Seq<char>>(a@),
    {
        assert(table@.take(i + 1).drop_last() == table@.take(i as int));
        let k = &table[i].0;
        let v = &table[i].1;
        let ctx = cat(&cat3("alias `", name, "`."), k.as_str());
        assert(ctx@ == alias_ctx(name@, k@));
        if str_eq(k.as_str(), "cmd") {
            match as_str(v, &ctx) {
                Ok(s) => a.cmd = Some(s),
                Err(e) => {
                    proof { lemma_alias_error_stays(table@, i + 1, name@); }
                    return Err(e);
                },
            }
        } else if str_eq(k.as_str(), "desc") {
            match as_str(v, &ctx) {
                Ok(s) => a.desc = Some(s),
                Err(e) => {
                    proof { lemma_alias_error_stays(table@, i + 1, name@); }
                    return Err(e);
                },
            }
        } else if str_eq(k.as_str(), "workdir") {
            match as_str(v, &ctx) {
                Ok(s) => a.workdir = Some(s),
                Err(e) => {
                    proof { lemma_alias_error_stays(table@, i + 1, name@); }
                    return Err(e);
                },
            }
        } else if str_eq(k.as_str(), "user") {
            match as_str(v, &ctx) {
                Ok(s) => a.user = Some(s),
                Err(e) => {
                    proof { lemma_alias_error_stays(table@, i + 1, name@); }
                    return Err(e);
                },
            }
        } else if str_eq(k.as_str(), "env") {
            match as_str_array(v, &ctx) {
                Ok(s) => a.env = Some(s),
                Err(e) => {
                    proof { lemma_alias_error_stays(table@, i + 1, name@); }
                    return Err(e);
                },
            }
        } else if str_eq(k.as_str(), "pipeline") {
            match as_str_array(v, &ctx) {
                Ok(s) => a.pipeline = Some(s),
                Err(e) => {
                    proof { lemma_alias_error_stays(table@, i + 1, name@); }
                    return Err(e);
                },
            }
        } else if str_eq(k.as_str(), "interactive") {
            match as_bool(v, &ctx) {
                Ok(b) => a.interactive = Some(b),
                Err(e) => {
                    proof { lemma_alias_error_stays(table@, i + 1, name@); }
                    return Err(e);
                },
            }
        } else if str_eq(k.as_str(), "hidden") {
            match as_bool(v, &ctx) {
                Ok(b) => a.hidden = Some(b),
                Err(e) => {
                    proof { lemma_alias_error_stays(table@, i + 1, name@); }
                    return Err(e);
                },
            }
        } else {
            let e = cat(&cat3("unknown key in alias `", name, "`: `"), &cat(k.as_str(), "`"));
            proof {
                assert(e@ == "unknown key in alias `"@ + name@ + "`: `"@ + k@ + "`"@);
                lemma_alias_error_stays(table@, i + 1, name@);
            }
            return Err(e);
        }
    }
    assert(table@.take(n as int) == table@);
    Ok(a)
}


// ── Profiles ────────────────────────────────────────────────────────────────

/// Reading one key of a profile table into `p`: a known field, or else a
/// table that defines an alias.
pub open spec fn profile_step(p: ProfileView, k: Seq<char>, v: TomlValue) -> Result<
    ProfileView,
    Seq<char>,
> {
    if k == "image"@ {
        match spec_as_str(v, k) {
            Ok(s) => Ok(ProfileView { image: Some(s), ..p }),
            Err(e) => Err(e),
        }
    } else if k == "dockerfile"@ {
        match spec_as_str(v, k) {
            Ok(s) => Ok(ProfileView { dockerfile: Some(s), ..p }),
            Err(e) => Err(e),
        }
    } else if k == "platform"@ {
        match spec_as_str(v, k) {
            Ok(s) => Ok(ProfileView { platform: Some(s), ..p }),
            Err(e) => Err(e),
        }
    } else if k == "user"@ {
        match spec_as_str(v, k) {
            Ok(s) => Ok(ProfileView { user: Some(s), ..p }),
            Err(e) => Err(e),
        }
    } else if k == "setup"@ {
        match spec_as_str(v, k) {
            Ok(s) => Ok(ProfileView { setup: Some(s), ..p }),
            Err(e) => Err(e),
        }
    } else if k == "env"@ {
        match spec_as_str_array(v, k) {
            Ok(s) => Ok(ProfileView { env: Some(s), ..p }),
            Err(e) => Err(e),
        }
    } else if k == "ports"@ {
        match spec_as_str_array(v, k) {
            Ok(s) => Ok(ProfileView { ports: Some(s), ..p }),
            Err(e) => Err(e),
        }
    } else if k == "volumes"@ {
        match spec_as_str_array(v, k) {
            Ok(s) => Ok(ProfileView { volumes: Some(s), ..p }),
            Err(e) => Err(e),
        }
    } else {
        match v {
            TomlValue::Table(t) => match alias_of(t@, k) {
                Ok(a) => Ok(ProfileView { aliases: entries_insert(p.aliases, k, a), ..p }),
                Err(e) => Err(e),
            },
            _ => Err(
                "unexpected profile key `"@ + k
                    + "`: must be a table (alias) or known profile field"@,
            ),
        }
    }
}

/// The profile that a table describes, keys read in order; the first bad key
/// gives the error.
pub open spec fn profile_of(entries: Seq<(String, TomlValue)>) -> Result<ProfileView, Seq<char>>
    decreases entries.len(),
{
    if entries.len() == 0 {
        Ok(empty_profile())
    } else {
        match profile_of(entries.drop_last()) {
            Ok(p) => profile_step(p, entries.last().0@, entries.last().1),
            Err(e) => Err(e),
        }
    }
}

/// Once a prefix of the keys fails, the whole table fails with that error.
proof fn lemma_profile_error_stays(entries: Seq<(String, TomlValue)>, i: int)
    requires
        0 <= i <= entries.len(),
        profile_of(entries.take(i)) is Err,
    ensures
        profile_of(entries) == profile_of(entries.take(i)),
    decreases entries.len() - i,
{
    if i < entries.len() {
        assert(entries.take(i + 1).drop_last() == entries.take(i));
        lemma_profile_error_stays(entries, i + 1);
    } else {
        assert(entries.take(i) == entries);
    }
}

fn parse_profile(table: &Vec<(String, TomlValue)>) -> (r: Result<ProfileSection, String>)
    ensures
        match r {
            Ok(p) => profile_of(table@) == Ok::<ProfileView, Seq<char>>(p@),
            Err(e) => profile_of(table@) == Err::<ProfileView, Seq<char>>(e@),
        },
{
    let mut p = ProfileSection::new();
    let n = table.len();
    for i in 0..n
        invariant
            n == table.len(),
            profile_of(table@.take(i as int)) == Ok::<ProfileView, Seq<char>>(p@),
    {
        assert(table@.take(i + 1).drop_last() == table@.take(i as int));
        let k = &table[i].0;
        let v = &table[i].1;
        let step: Result<(), String> = if str_eq(k.as_str(), "image") {
            match as_str(v, k.as_str()) {
                Ok(s) => { p.image = Some(s); Ok(()) },
                Err(e) => Err(e),
            }
        } else if str_eq(k.as_str(), "dockerfile") {
            match as_str(v, k.as_str()) {
                Ok(s) => { p.dockerfile = Some(s); Ok(()) },
                Err(e) => Err(e),
            }
        } else if str_eq(k.as_str(), "platform") {
            match as_str(v, k.as_str()) {
                Ok(s) => { p.platform = Some(s); Ok(()) },
                Err(e) => Err(e),
            }
        } else if str_eq(k.as_str(), "user") {
            match as_str(v, k.as_str()) {
                Ok(s) => { p.user = Some(s); Ok(()) },
                Err(e) => Err(e),
            }
        } else if str_eq(k.as_str(), "setup") {
            match as_str(v, k.as_str()) {
                Ok(s) => { p.setup = Some(s); Ok(()) },
                Err(e) => Err(e),
            }
        } else if str_eq(k.as_str(), "env") {
            match as_str_array(v, k.as_str()) {
                Ok(s) => { p.env = Some(s); Ok(()) },
                Err(e) => Err(e),
            }
        } else if str_eq(k.as_str(), "ports") {
            match as_str_array(v, k.as_str()) {
                Ok(s) => { p.ports = Some(s); Ok(()) },
                Err(e) => Err(e),
            }
        } else if str_eq(k.as_str(), "volumes") {
            match as_str_array(v, k.as_str()) {
                Ok(s) => { p.volumes = Some(s); Ok(()) },
                Err(e) => Err(e),
            }
        } else {
            match v {
                TomlValue::Table(t) => match parse_alias(t, k.as_str()) {
                    Ok(a) => {
                        let _ = alias_map_insert(&mut p.aliases, copy_string(k), a);
                        Ok(())
                    },
                    Err(e) => Err(e),
                },
                _ => Err(cat3(
                    "unexpected profile key `",
                    k.as_str(),
                    "`: must be a table (alias) or known profile field",
                )),
            }
        };
        match step {
            Ok(()) => {},
            Err(e) => {
                proof { lemma_profile_error_stays(table@, i + 1); }
                return Err(e);
            },
        }
    }
    assert(table@.take(n as int) == table@);
    Ok(p)
}

// ── The project section ─────────────────────────────────────────────────────

/// Reading one key of the `[project]` table into `s`.
pub open spec fn project_step(s: ProjectView, k: Seq<char>, v: TomlValue) -> Result<
    ProjectView,
    Seq<char>,
> {
    if k == "pattern"@ {
        match spec_as_str(v, "project.pattern"@) {
            Ok(x) => Ok(ProjectView { pattern: Some(x), ..s }),
            Err(e) => Err(e),
        }
    } else if k == "profile"@ {
        match spec_as_str(v, "project.profile"@) {
            Ok(x) => Ok(ProjectView { profile: Some(x), ..s }),
            Err(e) => Err(e),
        }
    } else {
        Err("unknown key in [project]: `"@ + k + "`"@)
    }
}

/// The project section that a table's keys describe, read in order.
pub open spec fn project_fields(entries: Seq<(String, TomlValue)>) -> Result<ProjectView, Seq<char>>
    decreases entries.len(),
{
    if entries.len() == 0 {
        Ok(empty_project())
    } else {
        match project_fields(entries.drop_last()) {
            Ok(s) => project_step(s, entries.last().0@, entries.last().1),
            Err(e) => Err(e),
        }
    }
}

/// The project section that a value describes: it must be a table.
pub open spec fn project_of(v: TomlValue) -> Result<ProjectView, Seq<char>> {
    match v {
        TomlValue::Table(t) => project_fields(t@),
        _ => Err("`project` must be a table"@),
    }
}

proof fn lemma_project_error_stays(entries: Seq<(String, TomlValue)>, i: int)
    requires
        0 <= i <= entries.len(),
        project_fields(entries.take(i)) is Err,
    ensures
        project_fields(entries) == project_fields(entries.take(i)),
    decreases entries.len() - i,
{
    if i < entries.len() {
        assert(entries.take(i + 1).drop_last() == entries.take(i));
        lemma_project_error_stays(entries, i + 1);
    } else {
        assert(entries.take(i) == entries);
    }
}

fn parse_project(val: &TomlValue) -> (r: Result<ProjectSection, String>)
    ensures
        match r {
            Ok(p) => project_of(*val) == Ok::<ProjectView, Seq<char>>(p@),
            Err(e) => project_of(*val) == Err::<ProjectView, Seq<char>>(e@),
        },
{
    let table = match val {
        TomlValue::Table(t) => t,
        _ => return Err(String::from_str("`project` must be a table")),
    };
    let mut s = ProjectSection::new();
    let n = table.len();
    for i in 0..n
        invariant
            n == table.len(),
            *val == TomlValue::Table(*table),
            project_fields(table@.take(i as int)) == Ok::<ProjectView, Seq<char>>(s@),
    {
        assert(table@.take(i + 1).drop_last() == table@.take(i as int));
        let k = &table[i].0;
        let v = &table[i].1;
        if str_eq(k.as_str(), "pattern") {
            match as_str(v, "project.pattern") {
                Ok(x) => s.pattern = Some(x),
                Err(e) => {
                    proof { lemma_project_error_stays(table@, i + 1); }
                    return Err(e);
                },
            }
        } else if str_eq(k.as_str(), "profile") {
            match as_str(v, "project.profile") {
                Ok(x) => s.profile = Some(x),
                Err(e) => {
                    proof { lemma_project_error_stays(table@, i + 1); }
                    return Err(e);
                },
            }
        } else {
            let e = cat3("unknown key in [project]: `", k.as_str(), "`");
            proof { lemma_project_error_stays(table@, i + 1); }
            return Err(e);
        }
    }
    assert(table@.take(n as int) == table@);
    Ok(s)
}

// ── The whole document ──────────────────────────────────────────────────────

/// Reading one top-level key into `c`: `project`, or else a profile table.
pub open spec fn config_step(c: ConfigView, k: Seq<char>, v: TomlValue) -> Result<
    ConfigView,
    Seq<char>,
> {
    if k == "project"@ {
        match project_of(v) {
            Ok(p) => Ok(ConfigView { project: Some(p), ..c }),
            Err(e) => Err(e),
        }
    } else {
        match v {
            TomlValue::Table(t) => match profile_of(t@) {
                Ok(p) => Ok(ConfigView { profiles: entries_insert(c.profiles, k, p), ..c }),
                Err(e) => Err(e),
            },
            _ => Err("unexpected top-level key `"@ + k + "`: must be a table"@),
        }
    }
}

/// The config that the top-level keys describe, read in order.
pub open spec fn config_fields(entries: Seq<(String, TomlValue)>) -> Result<ConfigView, Seq<char>>
    decreases entries.len(),
{
    if entries.len() == 0 {
        Ok(empty_config())
    } else {
        match config_fields(entries.drop_last()) {
            Ok(c) => config_step(c, entries.last().0@, entries.last().1),
            Err(e) => Err(e),
        }
    }
}

/// The config that a TOML document describes: it must be a table at the top.
pub open spec fn config_of(doc: TomlValue) -> Result<ConfigView, Seq<char>> {
    match doc {
        TomlValue::Table(t) => config_fields(t@),
        _ => Err("expected TOML table at top level"@),
    }
}

proof fn lemma_config_error_stays(entries: Seq<(String, TomlValue)>, i: int)
    requires
        0 <= i <= entries.len(),
        config_fields(entries.take(i)) is Err,
    ensures
        config_fields(entries) == config_fields(entries.take(i)),
    decreases entries.len() - i,
{
    if i < entries.len() {
        assert(entries.take(i + 1).drop_last() == entries.take(i));
        lemma_config_error_stays(entries, i + 1);
    } else {
        assert(entries.take(i) == entries);
    }
}

/// Reads a config file out of a parsed TOML document.
pub fn parse_document(doc: &TomlValue) -> (r: Result<ConfigFile, String>)
    ensures
        match r {
            Ok(f) => config_of(*doc) == Ok::<ConfigView, Seq<char>>(f@),
            Err(e) => config_of(*doc) == Err::<ConfigView, Seq<char>>(e@),
        },
{
    let table = match doc {
        TomlValue::Table(t) => t,
        _ => return Err(String::from_str("expected TOML table at top level")),
    };
    let mut file = ConfigFile::new();
    let n = table.len();
    for i in 0..n
        invariant
            n == table.len(),
            *doc == TomlValue::Table(*table),
            config_fields(table@.take(i as int)) == Ok::<ConfigView, Seq<char>>(file@),
    {
        assert(table@.take(i + 1).drop_last() == table@.take(i as int));
        let k = &table[i].0;
        let v = &table[i].1;
        if str_eq(k.as_str(), "project") {
            match parse_project(v) {
                Ok(p) => file.project = Some(p),
                Err(e) => {
                    proof { lemma_config_error_stays(table@, i + 1); }
                    return Err(e);
                },
            }
        } else {
            match v {
                TomlValue::Table(t) => match parse_profile(t) {
                    Ok(p) => {
                        let _ = profile_map_insert(&mut file.profiles, copy_string(k), p);
                    },
                    Err(e) => {
                        proof { lemma_config_error_stays(table@, i + 1); }
                        return Err(e);
                    },
                },
                _ => {
                    let e = cat3("unexpected top-level key `", k.as_str(), "`: must be a table");
                    proof { lemma_config_error_stays(table@, i + 1); }
                    return Err(e);
                },
            }
        }
    }
    assert(table@.take(n as int) == table@);
    Ok(file)
}

/// Parses the text of a config file: TOML first, then the config's own
/// structure.
pub fn parse_str(text: &str) -> (r: Result<ConfigFile, String>)
    ensures
        match toml_document(text@) {
            Err(m) => r matches Err(e) && e@ == m,
            Ok(doc) => match r {
                Ok(f) => config_of(doc) == Ok::<ConfigView, Seq<char>>(f@),
                Err(e) => config_of(doc) == Err::<ConfigView, Seq<char>>(e@),
            },
        },
{
    match parse_toml(text) {
        Ok(doc) => parse_document(&doc),
        Err(e) => Err(e),
    }
}

// ── Law of the profile fields ───────────────────────────────────────────────

/// The position of the last entry with key `k`, or -1 when there is none.
pub open spec fn last_key_index(entries: Seq<(String, TomlValue)>, k: Seq<char>) -> int
    decreases entries.len(),
{
    if entries.len() == 0 {
        -1
    } else if entries.last().0@ == k {
        entries.len() - 1
    } else {
        last_key_index(entries.drop_last(), k)
    }
}

/// The string setting that key `k` of a profile table names (`None` for any
/// other key).
pub open spec fn text_setting(p: ProfileView, k: Seq<char>) -> Option<Seq<char>> {
    if k == "image"@ {
        p.image
    } else if k == "dockerfile"@ {
        p.dockerfile
    } else if k == "platform"@ {
        p.platform
    } else if k == "user"@ {
        p.user
    } else if k == "setup"@ {
        p.setup
    } else {
        None
    }
}

/// The list setting that key `k` of a profile table names.
pub open spec fn list_setting(p: ProfileView, k: Seq<char>) -> Option<Seq<Seq<char>>> {
    if k == "env"@ {
        p.env
    } else if k == "ports"@ {
        p.ports
    } else if k == "volumes"@ {
        p.volumes
    } else {
        None
    }
}

/// The keys of a profile's string settings.
pub open spec fn text_key(k: Seq<char>) -> bool {
    k == "image"@ || k == "dockerfile"@ || k == "platform"@ || k == "user"@ || k == "setup"@
}

/// The keys of a profile's list settings.
pub open spec fn list_key(k: Seq<char>) -> bool {
    k == "env"@ || k == "ports"@ || k == "volumes"@
}

/// Each setting of a parsed profile is what its own key in the table says:
/// a string setting is the string of the (last) entry with its key, a list
/// setting is the strings of that entry's array, and a setting whose key
/// the table lacks is unset.
pub proof fn law_profile_settings_from_keys(entries: Seq<(String, TomlValue)>, k: Seq<char>)
    requires
        profile_of(entries) is Ok,
    ensures
        ({
            let p = profile_of(entries)->Ok_0;
            let i = last_key_index(entries, k);
            &&& -1 <= i < entries.len()
            &&& text_key(k) && i < 0 ==> text_setting(p, k) is None
            &&& text_key(k) && i >= 0 ==> entries[i].1 is Str && text_setting(p, k) == Some(str_text(entries[i].1))
            &&& list_key(k) && i < 0 ==> list_setting(p, k) is None
            &&& list_key(k) && i >= 0 ==> (entries[i].1 matches TomlValue::Array(items) && all_strings(items@)
                && list_setting(p, k) == Some(items@.map_values(|x: TomlValue| str_text(x))))
        }),
    decreases entries.len(),
{
    if entries.len() == 0 {
        assert(profile_of(entries) == Ok::<ProfileView, Seq<char>>(empty_profile()));
    }
    reveal_strlit("image");
    reveal_strlit("dockerfile");
    reveal_strlit("platform");
    reveal_strlit("user");
    reveal_strlit("setup");
    reveal_strlit("env");
    reveal_strlit("ports");
    reveal_strlit("volumes");
    if entries.len() > 0 {
        let d = entries.drop_last();
        let x = entries.last();
        law_profile_settings_from_keys(d, k);
        let q = profile_of(d)->Ok_0;
        assert(profile_of(entries) == profile_step(q, x.0@, x.1));
        if x.0@ == k {
            assert(last_key_index(entries, k) == entries.len() - 1);
            assert(entries[entries.len() - 1] == x);
            if k == "image"@ || k == "dockerfile"@ || k == "platform"@ || k == "user"@ || k == "setup"@ {
                assert(spec_as_str(x.1, k) is Ok);
                assert(x.1 is Str);
            }
            if k == "env"@ || k == "ports"@ || k == "volumes"@ {
                assert(k != "image"@ && k != "dockerfile"@ && k != "platform"@ && k != "user"@ && k != "setup"@) by {
                    assert(k.len() != 5 || k[0] != 'i');
                    assert("user"@.len() == 4 && "user"@[0] == 'u');
                    assert("setup"@.len() == 5 && "setup"@[0] == 's');
                    assert("image"@.len() == 5 && "image"@[0] == 'i');
                    assert("dockerfile"@.len() == 10);
                    assert("platform"@.len() == 8);
                    assert("env"@.len() == 3 && "ports"@[0] == 'p' && "volumes"@.len() == 7);
                }
                assert(profile_step(q, k, x.1) is Ok);
                assert(spec_as_str_array(x.1, k) is Ok);
            }
        } else {
            assert(last_key_index(entries, k) == last_key_index(d, k));
            let p = profile_of(entries)->Ok_0;
            assert(text_setting(p, k) == text_setting(q, k));
            assert(list_setting(p, k) == list_setting(q, k));
            if last_key_index(d, k) >= 0 {
                assert(entries[last_key_index(d, k)] == d[last_key_index(d, k)]);
            }
        }
    }
}

} // verus!

use indexmap::IndexMap;
use vstd::prelude::*;

use super::types::{AliasConfig, AliasView, ConfigFile, ConfigView, ProfileSection, ProfileView};
use crate::maps::{
    alias_entries, alias_map_get, alias_map_get_index, alias_map_insert, alias_map_len,
    alias_map_new, distinct_keys, entries_insert, insert_all, keys_of, lookup, lookup_last, name_entries,
    name_map_get_index, name_map_insert, name_map_len, name_map_new,
    profile_map_get, profile_map_get_index, profile_map_len,
};
use crate::text::{chars_of, copy_string, push_char, string_of};
use vstd::string::StringExecFns;

verus! {

/// The settings in force for one profile after the config layers are merged.
#[derive(Debug)]
pub struct ConfigState {
    pub profile_name: String,
    pub image: Option<String>,
    pub dockerfile: Option<String>,
    pub platform: Option<String>,
    pub env: Vec<String>,
    pub ports: Vec<String>,
    pub volumes: Vec<String>,
    pub user: Option<String>,
    pub setup: Option<String>,
    pub aliases: IndexMap<String, AliasConfig>,
    pub global_file: Option<String>,
    pub repo_file: Option<String>,
    pub project_file: Option<String>,
}

/// What a merged state holds, as plain values.
pub struct StateView {
    pub profile_name: Seq<char>,
    pub image: Option<Seq<char>>,
    pub dockerfile: Option<Seq<char>>,
    pub platform: Option<Seq<char>>,
    pub env: Seq<Seq<char>>,
    pub ports: Seq<Seq<char>>,
    pub volumes: Seq<Seq<char>>,
    pub user: Option<Seq<char>>,
    pub setup: Option<Seq<char>>,
    pub aliases: Seq<(Seq<char>, AliasView)>,
    pub global_file: Option<Seq<char>>,
    pub repo_file: Option<Seq<char>>,
    pub project_file: Option<Seq<char>>,
}

impl View for ConfigState {
    type V = StateView;

    open spec fn view(&self) -> StateView {
        StateView {
            profile_name: self.profile_name@,
            image: self.image.deep_view(),
            dockerfile: self.dockerfile.deep_view(),
            platform: self.platform.deep_view(),
            env: self.env.deep_view(),
            ports: self.ports.deep_view(),
            volumes: self.volumes.deep_view(),
            user: self.user.deep_view(),
            setup: self.setup.deep_view(),
            aliases: alias_entries(self.aliases),
            global_file: self.global_file.deep_view(),
            repo_file: self.repo_file.deep_view(),
            project_file: self.project_file.deep_view(),
        }
    }
}

/// The state of profile `name` before any layer is applied.
pub open spec fn initial_state(name: Seq<char>) -> StateView {
    StateView {
        profile_name: name,
        image: None,
        dockerfile: None,
        platform: None,
        env: Seq::empty(),
        ports: Seq::empty(),
        volumes: Seq::empty(),
        user: None,
        setup: None,
        aliases: Seq::empty(),
        global_file: None,
        repo_file: None,
        project_file: None,
    }
}

/// Whether a path is absolute (it starts at the root).
pub open spec fn is_absolute(p: Seq<char>) -> bool {
    p.len() > 0 && p[0] == '/'
}

/// `rel` put under `base`, with one separator between them.
pub open spec fn join_path(base: Seq<char>, rel: Seq<char>) -> Seq<char> {
    if is_absolute(rel) {
        rel
    } else if base.len() == 0 || base.last() == '/' {
        base + rel
    } else {
        base + seq!['/'] + rel
    }
}

/// Where a profile's `dockerfile` setting points: an absolute path as it is,
/// a relative one under the directory of the file that set it (or `.`).
pub open spec fn dockerfile_path(base: Option<Seq<char>>, raw: Seq<char>) -> Seq<char> {
    if is_absolute(raw) {
        raw
    } else {
        join_path(
            match base {
                Some(b) => b,
                None => seq!['.'],
            },
            raw,
        )
    }
}

/// Option `o` if it is set, else `d`.
pub open spec fn or_else<T>(o: Option<T>, d: T) -> T {
    match o {
        Some(x) => x,
        None => d,
    }
}

/// Laying profile `p` over state `s`: each setting that `p` has replaces the
/// earlier one, and `p`'s aliases are added over the earlier ones.
pub open spec fn state_apply(s: StateView, p: ProfileView, base: Option<Seq<char>>) -> StateView {
    StateView {
        image: if p.image is Some { p.image } else { s.image },
        platform: if p.platform is Some { p.platform } else { s.platform },
        dockerfile: match p.dockerfile {
            Some(d) => Some(dockerfile_path(base, d)),
            None => s.dockerfile,
        },
        env: or_else(p.env, s.env),
        ports: or_else(p.ports, s.ports),
        volumes: or_else(p.volumes, s.volumes),
        user: if p.user is Some { p.user } else { s.user },
        setup: if p.setup is Some { p.setup } else { s.setup },
        aliases: insert_all(s.aliases, p.aliases),
        ..s
    }
}

/// Laying the profile `name` of file `f` over `s`, when `f` defines it.
pub open spec fn state_apply_file(s: StateView, f: ConfigView, name: Seq<char>, base: Option<Seq<char>>) -> StateView {
    match lookup(f.profiles, name) {
        Some(p) => state_apply(s, p, base),
        None => s,
    }
}

/// Builds the path of a dockerfile setting; see `dockerfile_path`.
pub fn resolve_dockerfile(base: Option<&str>, raw: &str) -> (r: String)
    ensures
        r@ == dockerfile_path(base.deep_view(), raw@),
{
    let rc = chars_of(raw);
    if rc.len() > 0 && rc[0] == '/' {
        return String::from_str(raw);
    }
    let b: Vec<char> = match base {
        Some(b) => chars_of(b),
        None => {
            let mut v: Vec<char> = Vec::new();
            v.push('.');
            v
        },
    };
    let mut out = string_of(&b);
    if b.len() > 0 && b[b.len() - 1] != '/' {
        push_char(&mut out, '/');
    }
    out.append(raw);
    proof {
        let bs = match base.deep_view() {
            Some(x) => x,
            None => seq!['.'],
        };
        assert(b@ == bs);
        if b.len() > 0 && b@.last() != '/' {
            assert(out@ == bs + seq!['/'] + raw@);
        } else {
            assert(out@ == bs + raw@);
        }
    }
    out
}

fn copy_opt(o: &Option<String>) -> (r: Option<String>)
    ensures
        r.deep_view() == o.deep_view(),
{
    match o {
        Some(s) => Some(copy_string(s)),
        None => None,
    }
}

fn copy_strings(v: &Vec<String>) -> (r: Vec<String>)
    ensures
        r.deep_view() == v.deep_view(),
{
    let mut out: Vec<String> = Vec::new();
    for i in 0..v.len()
        invariant
            out.len() == i,
            forall|j: int| 0 <= j < i ==> #[trigger] out@[j]@ == v@[j]@,
    {
        out.push(copy_string(&v[i]));
    }
    assert(out.deep_view() =~= v.deep_view());
    out
}

/// Adds each alias of `from` to `into`, in `from`'s order.
fn insert_aliases(into: &mut IndexMap<String, AliasConfig>, from: &IndexMap<String, AliasConfig>)
    ensures
        alias_entries(*final(into)) == insert_all(alias_entries(*old(into)), alias_entries(*from)),
{
    let n = alias_map_len(from);
    let ghost adds = alias_entries(*from);
    for i in 0..n
        invariant
            n == adds.len(),
            adds == alias_entries(*from),
            alias_entries(*into) == insert_all(alias_entries(*old(into)), adds.take(i as int)),
    {
        assert(adds.take(i + 1).drop_last() == adds.take(i as int));
        match alias_map_get_index(from, i) {
            Some((k, a)) => {
                let _ = alias_map_insert(into, copy_string(k), a.duplicate());
            },
            None => {},
        }
    }
    assert(adds.take(n as int) == adds);
}

impl ConfigState {
    /// The state of profile `name` before any layer is applied.
    pub fn new(profile_name: &str) -> (r: ConfigState)
        ensures
            r@ == initial_state(profile_name@),
    {
        let env: Vec<String> = Vec::new();
        let ports: Vec<String> = Vec::new();
        let volumes: Vec<String> = Vec::new();
        assert(env.deep_view() =~= Seq::<Seq<char>>::empty());
        assert(ports.deep_view() =~= Seq::<Seq<char>>::empty());
        assert(volumes.deep_view() =~= Seq::<Seq<char>>::empty());
        ConfigState {
            profile_name: String::from_str(profile_name),
            image: None,
            dockerfile: None,
            platform: None,
            env,
            ports,
            volumes,
            user: None,
            setup: None,
            aliases: alias_map_new(),
            global_file: None,
            repo_file: None,
            project_file: None,
        }
    }

    /// The state of profile `profile_name` with only `file` applied.
    pub fn from_profile(file: &ConfigFile, profile_name: &str, base_dir: Option<&str>) -> (r: ConfigState)
        ensures
            r@ == state_apply_file(initial_state(profile_name@), file@, profile_name@, base_dir.deep_view()),
    {
        let mut state = ConfigState::new(profile_name);
        state.apply(file, profile_name, base_dir);
        state
    }

    /// Lays profile `profile_name` of `file` over this state, when the file
    /// defines it.
    pub fn apply(&mut self, file: &ConfigFile, profile_name: &str, base_dir: Option<&str>)
        ensures
            final(self)@ == state_apply_file(old(self)@, file@, profile_name@, base_dir.deep_view()),
    {
        match profile_map_get(&file.profiles, profile_name) {
            Some(profile) => self.apply_profile(profile, base_dir),
            None => {},
        }
    }

    fn apply_profile(&mut self, profile: &ProfileSection, base_dir: Option<&str>)
        ensures
            final(self)@ == state_apply(old(self)@, profile@, base_dir.deep_view()),
    {
        if profile.image.is_some() {
            self.image = copy_opt(&profile.image);
        }
        if profile.platform.is_some() {
            self.platform = copy_opt(&profile.platform);
        }
        match &profile.dockerfile {
            Some(v) => {
                self.dockerfile = Some(resolve_dockerfile(base_dir, v.as_str()));
            },
            None => {},
        }
        match &profile.env {
            Some(v) => self.env = copy_strings(v),
            None => {},
        }
        match &profile.ports {
            Some(v) => self.ports = copy_strings(v),
            None => {},
        }
        match &profile.volumes {
            Some(v) => self.volumes = copy_strings(v),
            None => {},
        }
        if profile.user.is_some() {
            self.user = copy_opt(&profile.user);
        }
        if profile.setup.is_some() {
            self.setup = copy_opt(&profile.setup);
        }
        insert_aliases(&mut self.aliases, &profile.aliases);
    }

    /// The alias `name` as a user may call it: hidden aliases are left out.
    pub fn resolve_alias(&self, name: &str) -> (r: Option<&AliasConfig>)
        ensures
            match r {
                Some(a) => lookup(self@.aliases, name@) == Some(a@) && a@.hidden != Some(true),
                None => match lookup(self@.aliases, name@) {
                    Some(a) => a.hidden == Some(true),
                    None => true,
                },
            },
    {
        let a = alias_map_get(&self.aliases, name)?;
        if a.hidden == Some(true) {
            return None;
        }
        Some(a)
    }

    /// The alias `name`, hidden or not (pipeline steps use it).
    pub fn get_alias_internal(&self, name: &str) -> (r: Option<&AliasConfig>)
        ensures
            match r {
                Some(a) => lookup(self@.aliases, name@) == Some(a@),
                None => lookup(self@.aliases, name@) is None,
            },
    {
        alias_map_get(&self.aliases, name)
    }
}

/// The `profile` of a file's `[project]` section, if set.
pub open spec fn project_profile(f: ConfigView) -> Option<Seq<char>> {
    match f.project {
        Some(p) => p.profile,
        None => None,
    }
}

/// Which profile is in force: the command line's, else the project file's,
/// else the repo file's, else the global file's, else `default`.
pub open spec fn chosen_profile(
    global: ConfigView,
    repo: ConfigView,
    project: Option<ConfigView>,
    cli: Option<Seq<char>>,
) -> Seq<char> {
    if cli is Some {
        cli.unwrap()
    } else if project is Some && project_profile(project.unwrap()) is Some {
        project_profile(project.unwrap()).unwrap()
    } else if project_profile(repo) is Some {
        project_profile(repo).unwrap()
    } else if project_profile(global) is Some {
        project_profile(global).unwrap()
    } else {
        "default"@
    }
}

/// The view of an optional file.
pub open spec fn opt_file(f: Option<&ConfigFile>) -> Option<ConfigView> {
    match f {
        Some(x) => Some(x@),
        None => None,
    }
}

fn file_project_profile(f: &ConfigFile) -> (r: Option<String>)
    ensures
        r.deep_view() == project_profile(f@),
{
    match &f.project {
        Some(p) => copy_opt(&p.profile),
        None => None,
    }
}

/// Picks the profile name; see `chosen_profile`.
pub fn select_profile_name(
    global: &ConfigFile,
    repo: &ConfigFile,
    project: Option<&ConfigFile>,
    cli_profile: Option<&str>,
) -> (r: String)
    ensures
        r@ == chosen_profile(global@, repo@, opt_file(project), cli_profile.deep_view()),
{
    if let Some(p) = cli_profile {
        return String::from_str(p);
    }
    if let Some(f) = project {
        if let Some(p) = file_project_profile(f) {
            return p;
        }
    }
    if let Some(p) = file_project_profile(repo) {
        return p;
    }
    if let Some(p) = file_project_profile(global) {
        return p;
    }
    String::from_str("default")
}

/// The state of profile `name` after the global, repo and project layers,
/// each over the one before.
pub open spec fn layered_state(
    global: ConfigView,
    global_dir: Option<Seq<char>>,
    repo: ConfigView,
    repo_dir: Option<Seq<char>>,
    project: Option<ConfigView>,
    project_dir: Option<Seq<char>>,
    name: Seq<char>,
) -> StateView {
    let s1 = state_apply_file(initial_state(name), global, name, global_dir);
    let s2 = state_apply_file(s1, repo, name, repo_dir);
    match project {
        Some(p) => state_apply_file(s2, p, name, project_dir),
        None => s2,
    }
}

/// Merges the layers for one profile; see `layered_state`.
pub fn build_state(
    global: &ConfigFile,
    global_dir: Option<&str>,
    repo: &ConfigFile,
    repo_dir: Option<&str>,
    project: Option<&ConfigFile>,
    project_dir: Option<&str>,
    profile_name: &str,
) -> (r: ConfigState)
    ensures
        r@ == layered_state(
            global@,
            global_dir.deep_view(),
            repo@,
            repo_dir.deep_view(),
            opt_file(project),
            project_dir.deep_view(),
            profile_name@,
        ),
{
    let mut state = ConfigState::from_profile(global, profile_name, global_dir);
    state.apply(repo, profile_name, repo_dir);
    if let Some(p) = project {
        state.apply(p, profile_name, project_dir);
    }
    state
}

/// The profile names of the files: global first, then repo, then project,
/// each name once, at its first place.
pub open spec fn all_profile_names(global: ConfigView, repo: ConfigView, project: Option<ConfigView>) -> Seq<
    Seq<char>,
> {
    distinct_keys(
        keys_of(global.profiles) + keys_of(repo.profiles) + match project {
            Some(p) => keys_of(p.profiles),
            None => Seq::empty(),
        },
    )
}

/// Inserting keys one after another into a name map keeps them as
/// `distinct_keys` does.
proof fn lemma_insert_names(e: Seq<(Seq<char>, ())>, k: Seq<char>)
    ensures
        keys_of(entries_insert(e, k, ())) == if keys_of(e).contains(k) {
            keys_of(e)
        } else {
            keys_of(e).push(k)
        },
{
    crate::maps::lemma_entry_index(e, k);
    let i = crate::maps::entry_index(e, k);
    if i >= 0 {
        assert(keys_of(e)[i] == k);
        assert(e[i] == (k, ()));
        assert(e.update(i, (k, ())) =~= e);
    } else {
        if keys_of(e).contains(k) {
            let j = choose|j: int| 0 <= j < keys_of(e).len() && keys_of(e)[j] == k;
            assert(e[j].0 == k);
        }
        assert(keys_of(e.push((k, ()))) =~= keys_of(e).push(k));
    }
}

fn add_profile_names(names: &mut IndexMap<String, ()>, f: &ConfigFile)
    ensures
        keys_of(name_entries(*final(names))) == distinct_keys_onto(
            keys_of(name_entries(*old(names))),
            keys_of(f@.profiles),
        ),
{
    let n = profile_map_len(&f.profiles);
    let ghost ks = keys_of(f@.profiles);
    for i in 0..n
        invariant
            n == ks.len(),
            ks == keys_of(f@.profiles),
            keys_of(name_entries(*names)) == distinct_keys_onto(
                keys_of(name_entries(*old(names))),
                ks.take(i as int),
            ),
    {
        assert(ks.take(i + 1).drop_last() == ks.take(i as int));
        match profile_map_get_index(&f.profiles, i) {
            Some((k, _)) => {
                proof { lemma_insert_names(name_entries(*names), k@); }
                let _ = name_map_insert(names, copy_string(k));
            },
            None => {},
        }
    }
    assert(ks.take(n as int) == ks);
}

/// Appending each of `ks` to `acc` unless `acc` already holds it.
pub open spec fn distinct_keys_onto(acc: Seq<Seq<char>>, ks: Seq<Seq<char>>) -> Seq<Seq<char>>
    decreases ks.len(),
{
    if ks.len() == 0 {
        acc
    } else if distinct_keys_onto(acc, ks.drop_last()).contains(ks.last()) {
        distinct_keys_onto(acc, ks.drop_last())
    } else {
        distinct_keys_onto(acc, ks.drop_last()).push(ks.last())
    }
}

proof fn lemma_onto_concat(acc: Seq<Seq<char>>, a: Seq<Seq<char>>, b: Seq<Seq<char>>)
    ensures
        distinct_keys_onto(distinct_keys_onto(acc, a), b) == distinct_keys_onto(acc, a + b),
    decreases b.len(),
{
    if b.len() == 0 {
        assert(a + b =~= a);
    } else {
        lemma_onto_concat(acc, a, b.drop_last());
        assert((a + b).drop_last() =~= a + b.drop_last());
    }
}

proof fn lemma_onto_empty(ks: Seq<Seq<char>>)
    ensures
        distinct_keys_onto(Seq::empty(), ks) == distinct_keys(ks),
    decreases ks.len(),
{
    if ks.len() > 0 {
        lemma_onto_empty(ks.drop_last());
    }
}

/// The profile names of all the files; see `all_profile_names`.
pub fn list_profiles(global: &ConfigFile, repo: &ConfigFile, project: Option<&ConfigFile>) -> (r: Vec<String>)
    ensures
        r.deep_view() == all_profile_names(global@, repo@, opt_file(project)),
{
    let mut names = name_map_new();
    add_profile_names(&mut names, global);
    add_profile_names(&mut names, repo);
    let ghost pk: Seq<Seq<char>> = match project {
        Some(p) => keys_of(p@.profiles),
        None => Seq::empty(),
    };
    if let Some(p) = project {
        add_profile_names(&mut names, p);
    }
    proof {
        let g = keys_of(global@.profiles);
        let rk = keys_of(repo@.profiles);
        assert(keys_of(Seq::<(Seq<char>, ())>::empty()) =~= Seq::<Seq<char>>::empty());
        lemma_onto_concat(Seq::empty(), g, rk);
        lemma_onto_concat(Seq::empty(), g + rk, pk);
        if project is None {
            assert(g + rk + pk =~= g + rk);
            assert(distinct_keys_onto(distinct_keys_onto(Seq::empty(), g + rk), pk) == distinct_keys_onto(Seq::empty(), g + rk));
        }
        lemma_onto_empty(g + rk + pk);
    }
    let n = name_map_len(&names);
    let mut out: Vec<String> = Vec::new();
    for i in 0..n
        invariant
            n == name_entries(names).len(),
            out.len() == i,
            forall|j: int| 0 <= j < i ==> #[trigger] out@[j]@ == name_entries(names)[j].0,
    {
        match name_map_get_index(&names, i) {
            Some((k, _)) => out.push(copy_string(k)),
            None => {},
        }
    }
    assert(out.deep_view() =~= keys_of(name_entries(names)));
    out
}


// ── Laws of layering ────────────────────────────────────────────────────────

/// The profile `name` of an optional file.
pub open spec fn profile_in(f: Option<ConfigView>, name: Seq<char>) -> Option<ProfileView> {
    match f {
        Some(c) => lookup(c.profiles, name),
        None => None,
    }
}

/// The first of three options that is set.
pub open spec fn first_set<T>(a: Option<T>, b: Option<T>, c: Option<T>) -> Option<T> {
    if a is Some {
        a
    } else if b is Some {
        b
    } else {
        c
    }
}

/// A profile field of an optional profile.
pub open spec fn image_of(p: Option<ProfileView>) -> Option<Seq<char>> {
    match p {
        Some(x) => x.image,
        None => None,
    }
}

/// The env list of an optional profile.
pub open spec fn env_of(p: Option<ProfileView>) -> Option<Seq<Seq<char>>> {
    match p {
        Some(x) => x.env,
        None => None,
    }
}

/// The alias `k` as an optional profile defines it (its last definition).
pub open spec fn alias_in(p: Option<ProfileView>, k: Seq<char>) -> Option<AliasView> {
    match p {
        Some(x) => lookup_last(x.aliases, k),
        None => None,
    }
}

/// Merging the layers: the project file's setting wins over the repo file's,
/// which wins over the global file's; an `env` list replaces the earlier list
/// whole; an alias is the one of the latest layer that defines it, and aliases
/// of earlier layers that later ones do not define stay.
pub proof fn law_later_layers_win(
    global: ConfigView,
    global_dir: Option<Seq<char>>,
    repo: ConfigView,
    repo_dir: Option<Seq<char>>,
    project: Option<ConfigView>,
    project_dir: Option<Seq<char>>,
    name: Seq<char>,
    k: Seq<char>,
)
    ensures
        ({
            let s = layered_state(global, global_dir, repo, repo_dir, project, project_dir, name);
            let pg = profile_in(Some(global), name);
            let pr = profile_in(Some(repo), name);
            let pp = profile_in(project, name);
            &&& s.profile_name == name
            &&& s.image == first_set(image_of(pp), image_of(pr), image_of(pg))
            &&& s.env == or_else(first_set(env_of(pp), env_of(pr), env_of(pg)), Seq::empty())
            &&& lookup(s.aliases, k) == first_set(alias_in(pp, k), alias_in(pr, k), alias_in(pg, k))
        }),
{
    let s0 = initial_state(name);
    let s1 = state_apply_file(s0, global, name, global_dir);
    let s2 = state_apply_file(s1, repo, name, repo_dir);
    assert(lookup(s0.aliases, k) is None);
    match lookup(global.profiles, name) {
        Some(p) => crate::maps::lemma_lookup_insert_all(s0.aliases, p.aliases, k),
        None => {},
    }
    match lookup(repo.profiles, name) {
        Some(p) => crate::maps::lemma_lookup_insert_all(s1.aliases, p.aliases, k),
        None => {},
    }
    match project {
        Some(c) => match lookup(c.profiles, name) {
            Some(p) => crate::maps::lemma_lookup_insert_all(s2.aliases, p.aliases, k),
            None => {},
        },
        None => {},
    }
}

/// Which profile is active: the one named on the command line; else the
/// `profile` of the project file's `[project]` section; else the repo
/// file's; else the global file's; else `default`. Each source is taken
/// whatever the later ones say.
pub proof fn law_profile_choice_priority(
    global: ConfigView,
    repo: ConfigView,
    project: Option<ConfigView>,
    cli: Option<Seq<char>>,
)
    ensures
        cli is Some ==> chosen_profile(global, repo, project, cli) == cli.unwrap(),
        cli is None && project is Some && project.unwrap().project is Some
            && project.unwrap().project.unwrap().profile is Some ==> chosen_profile(global, repo, project, cli)
            == project.unwrap().project.unwrap().profile.unwrap(),
        cli is None && !(project is Some && project.unwrap().project is Some
            && project.unwrap().project.unwrap().profile is Some) && repo.project is Some
            && repo.project.unwrap().profile is Some ==> chosen_profile(global, repo, project, cli)
            == repo.project.unwrap().profile.unwrap(),
        cli is None && !(project is Some && project.unwrap().project is Some
            && project.unwrap().project.unwrap().profile is Some) && !(repo.project is Some
            && repo.project.unwrap().profile is Some) && global.project is Some
            && global.project.unwrap().profile is Some ==> chosen_profile(global, repo, project, cli)
            == global.project.unwrap().profile.unwrap(),
        cli is None && !(project is Some && project.unwrap().project is Some
            && project.unwrap().project.unwrap().profile is Some) && !(repo.project is Some
            && repo.project.unwrap().profile is Some) && !(global.project is Some
            && global.project.unwrap().profile is Some) ==> chosen_profile(global, repo, project, cli)
            == "default"@,
{
}

/// A setting of a profile, if the profile is defined and sets it: its user.
pub open spec fn user_in(p: Option<ProfileView>) -> Option<Seq<char>> {
    match p {
        Some(x) => x.user,
        None => None,
    }
}

/// Its platform.
pub open spec fn platform_in(p: Option<ProfileView>) -> Option<Seq<char>> {
    match p {
        Some(x) => x.platform,
        None => None,
    }
}

/// Its setup command.
pub open spec fn setup_in(p: Option<ProfileView>) -> Option<Seq<char>> {
    match p {
        Some(x) => x.setup,
        None => None,
    }
}

/// Its ports.
pub open spec fn ports_in(p: Option<ProfileView>) -> Option<Seq<Seq<char>>> {
    match p {
        Some(x) => x.ports,
        None => None,
    }
}

/// Its volumes.
pub open spec fn volumes_in(p: Option<ProfileView>) -> Option<Seq<Seq<char>>> {
    match p {
        Some(x) => x.volumes,
        None => None,
    }
}

/// Its dockerfile, as written.
pub open spec fn dockerfile_in(p: Option<ProfileView>) -> Option<Seq<char>> {
    match p {
        Some(x) => x.dockerfile,
        None => None,
    }
}

/// Of three layers (latest first), the value that the latest layer setting
/// it gives.
pub open spec fn latest<T>(project: Option<T>, repo: Option<T>, global: Option<T>) -> Option<T> {
    match project {
        Some(x) => Some(x),
        None => match repo {
            Some(x) => Some(x),
            None => global,
        },
    }
}

/// Every single setting of the merged profile comes from the latest layer
/// that sets it: the project file's over the repo file's over the global
/// file's, for the user, the platform, the setup command, the ports and the
/// volumes; the dockerfile likewise, placed under the directory of the file
/// that names it.
pub proof fn law_settings_from_latest_layer(
    global: ConfigView,
    global_dir: Option<Seq<char>>,
    repo: ConfigView,
    repo_dir: Option<Seq<char>>,
    project: Option<ConfigView>,
    project_dir: Option<Seq<char>>,
    name: Seq<char>,
)
    ensures
        ({
            let s = layered_state(global, global_dir, repo, repo_dir, project, project_dir, name);
            let pg = profile_in(Some(global), name);
            let pr = profile_in(Some(repo), name);
            let pp = profile_in(project, name);
            &&& s.user == latest(user_in(pp), user_in(pr), user_in(pg))
            &&& s.platform == latest(platform_in(pp), platform_in(pr), platform_in(pg))
            &&& s.setup == latest(setup_in(pp), setup_in(pr), setup_in(pg))
            &&& s.ports == match latest(ports_in(pp), ports_in(pr), ports_in(pg)) {
                Some(v) => v,
                None => Seq::empty(),
            }
            &&& s.volumes == match latest(volumes_in(pp), volumes_in(pr), volumes_in(pg)) {
                Some(v) => v,
                None => Seq::empty(),
            }
            &&& s.dockerfile == match dockerfile_in(pp) {
                Some(d) => Some(dockerfile_path(project_dir, d)),
                None => match dockerfile_in(pr) {
                    Some(d) => Some(dockerfile_path(repo_dir, d)),
                    None => match dockerfile_in(pg) {
                        Some(d) => Some(dockerfile_path(global_dir, d)),
                        None => None,
                    },
                },
            }
        }),
{
}

/// `distinct_keys` holds each key once, and exactly the keys of its input.
pub proof fn lemma_distinct_keys(ks: Seq<Seq<char>>)
    ensures
        forall|i: int, j: int|
            0 <= i < j < distinct_keys(ks).len() ==> distinct_keys(ks)[i] != distinct_keys(ks)[j],
        forall|k: Seq<char>| distinct_keys(ks).contains(k) <==> ks.contains(k),
    decreases ks.len(),
{
    if ks.len() > 0 {
        let dl = ks.drop_last();
        let d = distinct_keys(dl);
        let x = ks.last();
        lemma_distinct_keys(dl);
        assert forall|k: Seq<char>| ks.contains(k) <==> (dl.contains(k) || k == x) by {
            if ks.contains(k) {
                let i = choose|i: int| 0 <= i < ks.len() && ks[i] == k;
                if i < ks.len() - 1 {
                    assert(dl[i] == k);
                }
            }
            if dl.contains(k) {
                let i = choose|i: int| 0 <= i < dl.len() && dl[i] == k;
                assert(ks[i] == k);
            }
            if k == x {
                assert(ks[ks.len() - 1] == k);
            }
        }
        if !d.contains(x) {
            let e = d.push(x);
            assert forall|k: Seq<char>| e.contains(k) <==> (d.contains(k) || k == x) by {
                if e.contains(k) {
                    let i = choose|i: int| 0 <= i < e.len() && e[i] == k;
                    if i < d.len() {
                        assert(d[i] == k);
                    }
                }
                if d.contains(k) {
                    let i = choose|i: int| 0 <= i < d.len() && d[i] == k;
                    assert(e[i] == k);
                }
                if k == x {
                    assert(e[d.len() as int] == k);
                }
            }
            assert forall|i: int, j: int| 0 <= i < j < e.len() implies e[i] != e[j] by {
                if j == d.len() {
                    assert(e[i] == d[i]);
                    if e[i] == e[j] {
                        assert(d.contains(x));
                    }
                } else {
                    assert(e[i] == d[i] && e[j] == d[j]);
                }
            }
        }
    }
}

/// Listing the profiles of the layers names each profile once, and names
/// exactly the profiles that some layer defines.
pub proof fn law_profile_list(global: ConfigView, repo: ConfigView, project: Option<ConfigView>)
    ensures
        ({
            let names = all_profile_names(global, repo, project);
            &&& forall|i: int, j: int| 0 <= i < j < names.len() ==> names[i] != names[j]
            &&& forall|k: Seq<char>|
                names.contains(k) <==> (keys_of(global.profiles).contains(k) || keys_of(
                    repo.profiles,
                ).contains(k) || (project is Some && keys_of(project.unwrap().profiles).contains(k)))
        }),
{
    let g = keys_of(global.profiles);
    let r = keys_of(repo.profiles);
    let p: Seq<Seq<char>> = match project {
        Some(c) => keys_of(c.profiles),
        None => Seq::empty(),
    };
    lemma_distinct_keys(g + r + p);
    assert forall|k: Seq<char>| (g + r + p).contains(k) <==> (g.contains(k) || r.contains(k) || (project is Some && keys_of(project.unwrap().profiles).contains(k))) by {
        if (g + r + p).contains(k) {
            let i = choose|i: int| 0 <= i < (g + r + p).len() && (g + r + p)[i] == k;
            if i < g.len() {
                assert(g[i] == k);
            } else if i < g.len() + r.len() {
                assert(r[i - g.len()] == k);
            } else {
                assert(p[i - g.len() - r.len()] == k);
            }
        }
        if g.contains(k) {
            let i = choose|i: int| 0 <= i < g.len() && g[i] == k;
            assert((g + r + p)[i] == k);
        }
        if r.contains(k) {
            let i = choose|i: int| 0 <= i < r.len() && r[i] == k;
            assert((g + r + p)[g.len() + i] == k);
        }
        if project is Some && keys_of(project.unwrap().profiles).contains(k) {
            let i = choose|i: int| 0 <= i < p.len() && p[i] == k;
            assert((g + r + p)[g.len() + r.len() + i] == k);
        }
    }
}

} // verus!

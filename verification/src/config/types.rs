use indexmap::IndexMap;
use vstd::prelude::*;

use crate::maps::{alias_entries, profile_entries};

verus! {

/// The `[project]` section of a config file.
#[derive(Debug)]
pub struct ProjectSection {
    pub pattern: Option<String>,
    pub profile: Option<String>,
}

/// What a `[project]` section holds, as plain values.
pub struct ProjectView {
    pub pattern: Option<Seq<char>>,
    pub profile: Option<Seq<char>>,
}

impl View for ProjectSection {
    type V = ProjectView;

    open spec fn view(&self) -> ProjectView {
        ProjectView { pattern: self.pattern.deep_view(), profile: self.profile.deep_view() }
    }
}

/// One alias of a profile: a command, or a pipeline of other aliases.
#[derive(Debug)]
pub struct AliasConfig {
    pub cmd: Option<String>,
    pub desc: Option<String>,
    pub workdir: Option<String>,
    pub env: Option<Vec<String>>,
    pub pipeline: Option<Vec<String>>,
    pub user: Option<String>,
    pub interactive: Option<bool>,
    pub hidden: Option<bool>,
}

/// What an alias holds, as plain values.
pub struct AliasView {
    pub cmd: Option<Seq<char>>,
    pub desc: Option<Seq<char>>,
    pub workdir: Option<Seq<char>>,
    pub env: Option<Seq<Seq<char>>>,
    pub pipeline: Option<Seq<Seq<char>>>,
    pub user: Option<Seq<char>>,
    pub interactive: Option<bool>,
    pub hidden: Option<bool>,
}

impl View for AliasConfig {
    type V = AliasView;

    open spec fn view(&self) -> AliasView {
        AliasView {
            cmd: self.cmd.deep_view(),
            desc: self.desc.deep_view(),
            workdir: self.workdir.deep_view(),
            env: self.env.deep_view(),
            pipeline: self.pipeline.deep_view(),
            user: self.user.deep_view(),
            interactive: self.interactive,
            hidden: self.hidden,
        }
    }
}

/// The alias with no field set.
pub open spec fn empty_alias() -> AliasView {
    AliasView {
        cmd: None,
        desc: None,
        workdir: None,
        env: None,
        pipeline: None,
        user: None,
        interactive: None,
        hidden: None,
    }
}

impl AliasConfig {
    /// The alias with no field set.
    pub fn new() -> (r: AliasConfig)
        ensures
            r@ == empty_alias(),
    {
        AliasConfig {
            cmd: None,
            desc: None,
            workdir: None,
            env: None,
            pipeline: None,
            user: None,
            interactive: None,
            hidden: None,
        }
    }

    /// A copy of this alias.
    pub fn duplicate(&self) -> (r: AliasConfig)
        ensures
            r@ == self@,
    {
        AliasConfig {
            cmd: self.cmd.clone(),
            desc: self.desc.clone(),
            workdir: self.workdir.clone(),
            env: self.env.clone(),
            pipeline: self.pipeline.clone(),
            user: self.user.clone(),
            interactive: self.interactive,
            hidden: self.hidden,
        }
    }
}

/// One profile: container settings and its aliases.
#[derive(Debug)]
pub struct ProfileSection {
    pub image: Option<String>,
    pub dockerfile: Option<String>,
    pub platform: Option<String>,
    pub env: Option<Vec<String>>,
    pub ports: Option<Vec<String>>,
    pub volumes: Option<Vec<String>>,
    pub user: Option<String>,
    pub setup: Option<String>,
    pub aliases: IndexMap<String, AliasConfig>,
}

/// What a profile holds, as plain values; `aliases` in the map's order.
pub struct ProfileView {
    pub image: Option<Seq<char>>,
    pub dockerfile: Option<Seq<char>>,
    pub platform: Option<Seq<char>>,
    pub env: Option<Seq<Seq<char>>>,
    pub ports: Option<Seq<Seq<char>>>,
    pub volumes: Option<Seq<Seq<char>>>,
    pub user: Option<Seq<char>>,
    pub setup: Option<Seq<char>>,
    pub aliases: Seq<(Seq<char>, AliasView)>,
}

impl View for ProfileSection {
    type V = ProfileView;

    open spec fn view(&self) -> ProfileView {
        ProfileView {
            image: self.image.deep_view(),
            dockerfile: self.dockerfile.deep_view(),
            platform: self.platform.deep_view(),
            env: self.env.deep_view(),
            ports: self.ports.deep_view(),
            volumes: self.volumes.deep_view(),
            user: self.user.deep_view(),
            setup: self.setup.deep_view(),
            aliases: alias_entries(self.aliases),
        }
    }
}

/// A whole config file: an optional `[project]` section and the profiles.
#[derive(Debug)]
pub struct ConfigFile {
    pub project: Option<ProjectSection>,
    pub profiles: IndexMap<String, ProfileSection>,
}

/// What a config file holds, as plain values; `profiles` in the map's order.
pub struct ConfigView {
    pub project: Option<ProjectView>,
    pub profiles: Seq<(Seq<char>, ProfileView)>,
}

impl View for ConfigFile {
    type V = ConfigView;

    open spec fn view(&self) -> ConfigView {
        ConfigView {
            project: match self.project {
                Some(p) => Some(p@),
                None => None,
            },
            profiles: profile_entries(self.profiles),
        }
    }
}

} // verus!

verus! {

/// The project section with no field set.
pub open spec fn empty_project() -> ProjectView {
    ProjectView { pattern: None, profile: None }
}

/// The profile with no field set and no alias.
pub open spec fn empty_profile() -> ProfileView {
    ProfileView {
        image: None,
        dockerfile: None,
        platform: None,
        env: None,
        ports: None,
        volumes: None,
        user: None,
        setup: None,
        aliases: Seq::empty(),
    }
}

/// The config file with no project section and no profile.
pub open spec fn empty_config() -> ConfigView {
    ConfigView { project: None, profiles: Seq::empty() }
}

impl ProjectSection {
    /// The project section with no field set.
    pub fn new() -> (r: ProjectSection)
        ensures
            r@ == empty_project(),
    {
        ProjectSection { pattern: None, profile: None }
    }
}

impl ProfileSection {
    /// The profile with no field set and no alias.
    pub fn new() -> (r: ProfileSection)
        ensures
            r@ == empty_profile(),
    {
        ProfileSection {
            image: None,
            dockerfile: None,
            platform: None,
            env: None,
            ports: None,
            volumes: None,
            user: None,
            setup: None,
            aliases: crate::maps::alias_map_new(),
        }
    }
}

impl ConfigFile {
    /// The config file with no project section and no profile.
    pub fn new() -> (r: ConfigFile)
        ensures
            r@ == empty_config(),
    {
        ConfigFile { project: None, profiles: crate::maps::profile_map_new() }
    }
}

impl Default for ConfigFile {
    fn default() -> (r: ConfigFile)
        ensures
            r@ == empty_config(),
    {
        ConfigFile::new()
    }
}

impl Default for ProfileSection {
    fn default() -> (r: ProfileSection)
        ensures
            r@ == empty_profile(),
    {
        ProfileSection::new()
    }
}

impl Default for ProjectSection {
    fn default() -> (r: ProjectSection)
        ensures
            r@ == empty_project(),
    {
        ProjectSection::new()
    }
}

impl Default for AliasConfig {
    fn default() -> (r: AliasConfig)
        ensures
            r@ == empty_alias(),
    {
        AliasConfig::new()
    }
}

} // verus!

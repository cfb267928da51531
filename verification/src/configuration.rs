//! The user's configuration, as read from `config.toml`.
use vstd::prelude::*;
use crate::text::{copy_str, views};

verus! {

/// The members of a workspace declared in the configuration file.
#[derive(Debug, Clone)]
pub struct WorkspaceConfig {
    pub containers: Option<Vec<String>>,
    pub processes: Option<Vec<String>>,
    pub services: Option<Vec<String>>,
}

/// A [`WorkspaceConfig`] taken by its characters.
pub struct WorkspaceConfigView {
    pub containers: Option<Seq<Seq<char>>>,
    pub processes: Option<Seq<Seq<char>>>,
    pub services: Option<Seq<Seq<char>>>,
}

/// The views of an optional list of names.
pub open spec fn opt_views(o: Option<Vec<String>>) -> Option<Seq<Seq<char>>> {
    match o {
        Some(v) => Some(views(v@)),
        None => None,
    }
}

impl View for WorkspaceConfig {
    type V = WorkspaceConfigView;

    open spec fn view(&self) -> WorkspaceConfigView {
        WorkspaceConfigView {
            containers: opt_views(self.containers),
            processes: opt_views(self.processes),
            services: opt_views(self.services),
        }
    }
}

/// A copy of a list of strings.
pub fn copy_strings(v: &Vec<String>) -> (c: Vec<String>)
    ensures
        views(c@) == views(v@),
{
    let mut c: Vec<String> = Vec::new();
    let mut i: usize = 0;
    while i < v.len()
        invariant
            i <= v@.len(),
            c@.len() == i,
            forall|k: int| 0 <= k < i ==> (#[trigger] c@[k])@ == v@[k]@,
        decreases v@.len() - i,
    {
        c.push(copy_str(v[i].as_str()));
        i = i + 1;
    }
    assert(views(c@) =~= views(v@));
    c
}

fn copy_opt_strings(o: &Option<Vec<String>>) -> (c: Option<Vec<String>>)
    ensures
        opt_views(c) == opt_views(*o),
{
    match o {
        Some(v) => Some(copy_strings(v)),
        None => None,
    }
}

impl WorkspaceConfig {
    /// A copy of this workspace declaration.
    pub fn duplicate(&self) -> (c: WorkspaceConfig)
        ensures
            c@ == self@,
    {
        WorkspaceConfig {
            containers: copy_opt_strings(&self.containers),
            processes: copy_opt_strings(&self.processes),
            services: copy_opt_strings(&self.services),
        }
    }
}

/// The views of named workspace declarations.
pub open spec fn named_config_views(v: Seq<(String, WorkspaceConfig)>) -> Seq<
    (Seq<char>, WorkspaceConfigView),
> {
    v.map_values(|e: (String, WorkspaceConfig)| (e.0@, e.1@))
}

/// A copy of named workspace declarations.
pub fn copy_named_configs(v: &Vec<(String, WorkspaceConfig)>) -> (c: Vec<(String, WorkspaceConfig)>)
    ensures
        named_config_views(c@) == named_config_views(v@),
{
    let mut c: Vec<(String, WorkspaceConfig)> = Vec::new();
    let mut i: usize = 0;
    while i < v.len()
        invariant
            i <= v@.len(),
            c@.len() == i,
            forall|k: int|
                0 <= k < i ==> (#[trigger] c@[k]).0@ == v@[k].0@ && c@[k].1@ == v@[k].1@,
        decreases v@.len() - i,
    {
        let (name, conf) = &v[i];
        c.push((copy_str(name.as_str()), conf.duplicate()));
        i = i + 1;
    }
    assert(named_config_views(c@) =~= named_config_views(v@));
    c
}

/// Display preferences.
#[derive(Debug, Clone)]
pub struct ThemeConfig {
    /// The screen shown at start (`ProcessList`, `DockerList`, `ServiceList`, ...).
    pub default_view: Option<String>,
}

/// A remote machine reachable over SSH.
#[derive(Debug, Clone)]
pub struct ServerConfig {
    pub name: String,
    pub address: String,
    pub user: String,
    pub ssh_key: Option<String>,
}

/// The whole configuration. Workspaces are listed by name, each name once,
/// in the order the configuration was read.
#[derive(Debug, Clone, Default)]
pub struct Config {
    pub database_path: Option<String>,
    pub log_path: Option<String>,
    pub theme: Option<ThemeConfig>,
    pub workspaces: Option<Vec<(String, WorkspaceConfig)>>,
    pub servers: Option<Vec<ServerConfig>>,
}

} // verus!

//! The launcher's persistent settings: which Java executable serves which
//! major version.
use vstd::prelude::*;
use std::collections::HashMap;
use crate::layout::{is_minecraft_dir, get_minecraft_dir};
use crate::paths::{path_join, join_path};
use crate::java::JavaInfo;

verus! {

broadcast use vstd::std_specs::hash::group_hash_axioms;

/// The file name of the settings file inside the launcher directory.
pub open spec fn config_file_name() -> Seq<char> {
    "nexus_config.toml"@
}

/// Where the settings file is kept under `mc`.
pub open spec fn config_path_of(mc: Seq<char>) -> Seq<char> {
    path_join(mc, config_file_name())
}

/// The launcher's persistent settings.
#[derive(Debug)]
pub struct LauncherConfig {
    /// The Java executable that served each major version, such as
    /// 17 = "/usr/lib/jvm/java-17-openjdk/bin/java".
    pub java_paths: HashMap<u32, String>,
}

impl LauncherConfig {
    /// Settings with no Java executable recorded.
    pub fn new() -> (r: LauncherConfig)
        ensures
            r.java_paths@ == Map::<u32, String>::empty(),
    {
        LauncherConfig { java_paths: HashMap::new() }
    }

    /// Where the settings file is kept under `mc`.
    pub fn config_path_in(mc: &str) -> (r: String)
        ensures
            r@ == config_path_of(mc@),
    {
        join_path(mc, "nexus_config.toml")
    }

    /// Where the settings file is kept under the current user's launcher
    /// directory, or `None` when the environment names no home directory.
    pub fn get_config_path() -> (r: Option<String>)
        ensures
            r matches Some(p) ==> exists|mc: Seq<char>|
                is_minecraft_dir(mc) && p@ == #[trigger] config_path_of(mc),
    {
        match get_minecraft_dir() {
            Some(mc) => {
                let p = Self::config_path_in(mc.as_str());
                assert(is_minecraft_dir(mc@) && p@ == config_path_of(mc@));
                Some(p)
            },
            None => None,
        }
    }

    /// The executable recorded for a major version, if any.
    pub fn cached_java_path(&self, major_version: u32) -> (r: Option<String>)
        ensures
            r matches Some(p) ==> self.java_paths@.contains_key(major_version)
                && p == self.java_paths@[major_version],
            r is None ==> !self.java_paths@.contains_key(major_version),
    {
        match self.java_paths.get(&major_version) {
            Some(p) => Some(p.clone()),
            None => None,
        }
    }

    /// Records the executable that serves a major version, replacing any
    /// earlier one.
    pub fn remember_java(&mut self, major_version: u32, path: String)
        ensures
            final(self).java_paths@ == old(self).java_paths@.insert(major_version, path),
    {
        self.java_paths.insert(major_version, path);
    }

    /// Decides whether a recorded executable still serves `major_version`,
    /// given what running it reported: it does when it ran and reported that
    /// same major version.
    pub fn java_if_valid(path: String, major_version: u32, checked: Option<JavaInfo>) -> (r: Option<String>)
        ensures
            r matches Some(p) ==> p == path,
            r is Some <==> (checked matches Some(info) && info.major_version == major_version),
    {
        match checked {
            Some(info) => {
                if info.major_version == major_version {
                    Some(path)
                } else {
                    None
                }
            },
            None => None,
        }
    }
}

impl Default for LauncherConfig {
    fn default() -> (r: LauncherConfig)
        ensures
            r.java_paths@ == Map::<u32, String>::empty(),
    {
        LauncherConfig::new()
    }
}

/// What the settings give back after a write: the executable just recorded for
/// a major version is the one found for it, and every other major version
/// keeps what it had.
pub proof fn lemma_remember_then_lookup(
    before: Map<u32, String>,
    major_version: u32,
    path: String,
    other: u32,
)
    requires
        other != major_version,
    ensures
        before.insert(major_version, path).contains_key(major_version),
        before.insert(major_version, path)[major_version] == path,
        before.insert(major_version, path).contains_key(other) == before.contains_key(other),
        before.contains_key(other) ==> before.insert(major_version, path)[other] == before[other],
{
}

} // verus!

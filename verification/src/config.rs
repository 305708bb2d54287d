//! Configuration: what it holds, its defaults and where it is kept.

use crate::environment::{config_dir, home_dir};
use crate::pathname::{join_path, joined};
use crate::paths::{home_or_current, home_or_here};
use crate::text::{opt_str_view, opt_view, string_views};
use vstd::prelude::*;

verus! {

/// Application configuration.
#[derive(Debug, Clone, PartialEq, Eq)]
pub struct Config {
    /// Paths to never delete.
    pub whitelist: Vec<String>,
    /// Directories to scan for build artifacts.
    pub project_paths: Vec<String>,
    /// Skip files newer than this many days.
    pub skip_recent_days: u32,
    /// Maximum journal log size to keep.
    pub journal_max_size: String,
}

/// The project directories scanned by default below `home`.
pub open spec fn default_project_paths(home: Seq<char>) -> Seq<Seq<char>> {
    seq![
        joined(home, "Projects"@),
        joined(home, "Development"@),
        joined(home, "dev"@),
        joined(home, "code"@),
        joined(home, "GitHub"@),
    ]
}

/// The configuration file below the configuration directory `config`, or
/// below the current directory where there is none.
pub open spec fn config_location(config: Option<Seq<char>>) -> Seq<char> {
    joined(joined(home_or_here(config), "mole-rs"@), "config.toml"@)
}

impl Config {
    /// This is the default configuration of a user whose home directory is
    /// `home`: an empty whitelist, the five default project directories, a
    /// week of grace and a journal limit of 100M.
    pub open spec fn is_default_for(&self, home: Seq<char>) -> bool {
        &&& self.whitelist@.len() == 0
        &&& string_views(self.project_paths@) == default_project_paths(home)
        &&& self.skip_recent_days == 7
        &&& self.journal_max_size@ == "100M"@
    }

    /// The default configuration of a user whose home directory is `home`;
    /// without one, the current directory stands in for it.
    pub fn default_for(home: Option<&str>) -> (config: Self)
        ensures
            config.is_default_for(home_or_here(opt_str_view(home))),
    {
        let h = home_or_current(home);
        let home = h.as_str();
        let project_paths = vec![
            join_path(home, "Projects"),
            join_path(home, "Development"),
            join_path(home, "dev"),
            join_path(home, "code"),
            join_path(home, "GitHub"),
        ];
        assert(string_views(project_paths@) =~= default_project_paths(h@));
        Config {
            whitelist: Vec::new(),
            project_paths,
            skip_recent_days: 7,
            journal_max_size: String::from_str("100M"),
        }
    }

    /// The configuration to run with: the one that was read from the
    /// configuration file, or the defaults where none could be read.
    pub fn load(parsed: Option<Config>) -> (config: Self)
        ensures
            parsed is Some ==> config == parsed->0,
            parsed is None ==> exists|home: Seq<char>| config.is_default_for(home),
    {
        match parsed {
            Some(config) => config,
            None => Self::default(),
        }
    }

    /// Where the configuration file lies for the configuration directory
    /// `config`.
    pub fn config_path_in(config: Option<&str>) -> (path: String)
        ensures
            path@ == config_location(opt_str_view(config)),
    {
        let base = home_or_current(config);
        let dir = join_path(base.as_str(), "mole-rs");
        join_path(dir.as_str(), "config.toml")
    }

    /// Get the path of the configuration file of the invoking user.
    pub fn config_path() -> (path: String)
        ensures
            exists|config: Option<Seq<char>>| path@ == config_location(config),
    {
        let config = config_dir();
        let path = match &config {
            Some(dir) => Self::config_path_in(Some(dir.as_str())),
            None => Self::config_path_in(None),
        };
        assert(path@ == config_location(opt_view(config)));
        path
    }
}

impl Default for Config {
    fn default() -> (config: Self)
        ensures
            exists|home: Seq<char>| config.is_default_for(home),
    {
        let home = home_dir();
        let config = match &home {
            Some(h) => Self::default_for(Some(h.as_str())),
            None => Self::default_for(None),
        };
        assert(config.is_default_for(home_or_here(opt_view(home))));
        config
    }
}

} // verus!

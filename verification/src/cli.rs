//! The commands of the program and their parameters.

use crate::environment::home_dir;
use crate::paths::{home_or_here, is_named_home};
use crate::text::{opt_str_view, opt_view, string_views};
use vstd::prelude::*;

verus! {

/// What was asked for on the command line.
#[derive(Debug, Clone, PartialEq, Eq)]
pub struct Args {
    /// Enable debug output.
    pub debug: bool,
    /// The command; none starts the interactive menu.
    pub command: Option<Command>,
}

/// A command with its parameters.
#[derive(Debug, Clone, PartialEq, Eq)]
pub enum Command {
    /// Deep system cleanup.
    Clean { dry_run: bool, debug: bool },
    /// Analyze disk usage below `path`.
    Analyze { path: String },
    /// Monitor live system status.
    Status,
    /// Clean development project artifacts below `paths`, or below the
    /// configured project directories where none are given.
    Purge { paths: Option<Vec<String>>, dry_run: bool },
    /// System optimization and maintenance.
    Optimize { dry_run: bool },
}

/// A command with its texts as character sequences.
pub enum CommandView {
    Clean { dry_run: bool, debug: bool },
    Analyze { path: Seq<char> },
    Status,
    Purge { paths: Option<Seq<Seq<char>>>, dry_run: bool },
    Optimize { dry_run: bool },
}

impl View for Command {
    type V = CommandView;

    open spec fn view(&self) -> CommandView {
        match self {
            Command::Clean { dry_run, debug } => CommandView::Clean {
                dry_run: *dry_run,
                debug: *debug,
            },
            Command::Analyze { path } => CommandView::Analyze { path: path@ },
            Command::Status => CommandView::Status,
            Command::Purge { paths, dry_run } => CommandView::Purge {
                paths: match paths {
                    Some(list) => Some(string_views(list@)),
                    None => None,
                },
                dry_run: *dry_run,
            },
            Command::Optimize { dry_run } => CommandView::Optimize { dry_run: *dry_run },
        }
    }
}

/// The path that `analyze` looks at when none is given: the home directory
/// `home`, or the current directory where none is known.
pub fn analyze_path_for(home: Option<&str>) -> (path: String)
    ensures
        path@ == home_or_here(opt_str_view(home)),
{
    crate::paths::home_or_current(home)
}

/// The path that `analyze` looks at when none is given, for the invoking
/// user: what `analyze_path_for` gives for the home directory that the
/// environment names. Which directory that is cannot be known here; it is
/// never the empty path, and neither is the path handed back.
pub fn default_analyze_path() -> (path: String)
    ensures
        exists|home: Option<Seq<char>>| is_named_home(home) && path@ == home_or_here(home),
        path@.len() > 0,
{
    let home = home_dir();
    let path = match &home {
        Some(h) => analyze_path_for(Some(h.as_str())),
        None => analyze_path_for(None),
    };
    proof {
        reveal_strlit(".");
        assert(is_named_home(opt_view(home)) && path@ == home_or_here(opt_view(home)));
    }
    path
}

} // verus!

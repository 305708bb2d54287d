//! The places that are cleaned: cache locations and build artifacts.

use crate::environment::home_dir;
use crate::pathname::{join_path, joined};
use crate::text::{opt_str_view, table_views};
use vstd::prelude::*;

verus! {

/// All cleanup target paths of a system.
#[derive(Debug, Clone, PartialEq, Eq)]
pub struct CleanupPaths {
    // System caches (require superuser rights)
    pub apt_cache: String,
    pub apt_lists: String,
    pub journal_logs: String,
    pub system_logs: String,
    pub tmp: String,
    pub var_tmp: String,
    // User caches
    pub user_cache: String,
    pub thumbnails: String,
    pub trash: String,
    pub pip_cache: String,
    pub npm_cache: String,
    pub yarn_cache: String,
    // Browser caches
    pub firefox_cache: String,
    pub chrome_cache: String,
    pub chromium_cache: String,
    // Package manager caches
    pub snap_cache: String,
    pub flatpak_cache: String,
}

/// The home directory to work with: the given one, or the current directory
/// where none is known.
pub open spec fn home_or_here(home: Option<Seq<char>>) -> Seq<char> {
    match home {
        Some(h) => h,
        None => "."@,
    }
}

/// A home directory as the environment names it: none, or a path that is
/// not empty.
pub open spec fn is_named_home(home: Option<Seq<char>>) -> bool {
    home matches Some(h) ==> h.len() > 0
}

/// The home directory to work with, as a string.
pub fn home_or_current(home: Option<&str>) -> (h: String)
    ensures
        h@ == home_or_here(opt_str_view(home)),
{
    match home {
        Some(h) => String::from_str(h),
        None => String::from_str("."),
    }
}

impl CleanupPaths {
    /// These are the cleanup paths of a user whose home directory is `home`:
    /// the system paths are fixed, the others lie below `home`.
    pub open spec fn is_for_home(&self, home: Seq<char>) -> bool {
        &&& self.apt_cache@ == "/var/cache/apt/archives"@
        &&& self.apt_lists@ == "/var/lib/apt/lists"@
        &&& self.journal_logs@ == "/var/log/journal"@
        &&& self.system_logs@ == "/var/log"@
        &&& self.tmp@ == "/tmp"@
        &&& self.var_tmp@ == "/var/tmp"@
        &&& self.user_cache@ == joined(home, ".cache"@)
        &&& self.thumbnails@ == joined(home, ".cache/thumbnails"@)
        &&& self.trash@ == joined(home, ".local/share/Trash"@)
        &&& self.pip_cache@ == joined(home, ".cache/pip"@)
        &&& self.npm_cache@ == joined(home, ".npm/_cacache"@)
        &&& self.yarn_cache@ == joined(home, ".cache/yarn"@)
        &&& self.firefox_cache@ == joined(home, ".cache/mozilla/firefox"@)
        &&& self.chrome_cache@ == joined(home, ".cache/google-chrome"@)
        &&& self.chromium_cache@ == joined(home, ".cache/chromium"@)
        &&& self.snap_cache@ == joined(home, "snap"@)
        &&& self.flatpak_cache@ == joined(home, ".var/app"@)
    }

    /// The user-level caches, each with its label, in display order.
    pub open spec fn user_cache_list(&self) -> Seq<(Seq<char>, Seq<char>)> {
        seq![
            ("User Cache"@, self.user_cache@),
            ("Thumbnails"@, self.thumbnails@),
            ("Trash"@, self.trash@),
            ("Pip Cache"@, self.pip_cache@),
            ("NPM Cache"@, self.npm_cache@),
            ("Yarn Cache"@, self.yarn_cache@),
            ("Firefox Cache"@, self.firefox_cache@),
            ("Chrome Cache"@, self.chrome_cache@),
            ("Chromium Cache"@, self.chromium_cache@),
        ]
    }

    /// The system-level caches, each with its label, in display order.
    pub open spec fn system_cache_list(&self) -> Seq<(Seq<char>, Seq<char>)> {
        seq![
            ("APT Cache"@, self.apt_cache@),
            ("APT Lists"@, self.apt_lists@),
            ("Journal Logs"@, self.journal_logs@),
            ("System Logs"@, self.system_logs@),
            ("Temp Files"@, self.tmp@),
            ("Var Temp"@, self.var_tmp@),
        ]
    }

    /// The cleanup paths of a user whose home directory is `home`; without
    /// one, the current directory stands in for it.
    pub fn for_home(home: Option<&str>) -> (paths: Self)
        ensures
            paths.is_for_home(home_or_here(opt_str_view(home))),
    {
        let h = home_or_current(home);
        let home = h.as_str();
        CleanupPaths {
            apt_cache: String::from_str("/var/cache/apt/archives"),
            apt_lists: String::from_str("/var/lib/apt/lists"),
            journal_logs: String::from_str("/var/log/journal"),
            system_logs: String::from_str("/var/log"),
            tmp: String::from_str("/tmp"),
            var_tmp: String::from_str("/var/tmp"),
            user_cache: join_path(home, ".cache"),
            thumbnails: join_path(home, ".cache/thumbnails"),
            trash: join_path(home, ".local/share/Trash"),
            pip_cache: join_path(home, ".cache/pip"),
            npm_cache: join_path(home, ".npm/_cacache"),
            yarn_cache: join_path(home, ".cache/yarn"),
            firefox_cache: join_path(home, ".cache/mozilla/firefox"),
            chrome_cache: join_path(home, ".cache/google-chrome"),
            chromium_cache: join_path(home, ".cache/chromium"),
            snap_cache: join_path(home, "snap"),
            flatpak_cache: join_path(home, ".var/app"),
        }
    }

    /// Create paths for the current user.
    pub fn new() -> (paths: Self)
        ensures
            exists|home: Seq<char>| paths.is_for_home(home),
    {
        let home = home_dir();
        let paths = match &home {
            Some(h) => Self::for_home(Some(h.as_str())),
            None => Self::for_home(None),
        };
        assert(paths.is_for_home(home_or_here(crate::text::opt_view(home))));
        paths
    }

    /// Get all user-level cache paths (no superuser rights required).
    pub fn user_caches(&self) -> (list: Vec<(&'static str, &String)>)
        ensures
            labelled_views(list@) == self.user_cache_list(),
    {
        let list = vec![
            ("User Cache", &self.user_cache),
            ("Thumbnails", &self.thumbnails),
            ("Trash", &self.trash),
            ("Pip Cache", &self.pip_cache),
            ("NPM Cache", &self.npm_cache),
            ("Yarn Cache", &self.yarn_cache),
            ("Firefox Cache", &self.firefox_cache),
            ("Chrome Cache", &self.chrome_cache),
            ("Chromium Cache", &self.chromium_cache),
        ];
        assert(labelled_views(list@) =~= self.user_cache_list());
        list
    }

    /// Get all system-level cache paths (superuser rights required).
    pub fn system_caches(&self) -> (list: Vec<(&'static str, &String)>)
        ensures
            labelled_views(list@) == self.system_cache_list(),
    {
        let list = vec![
            ("APT Cache", &self.apt_cache),
            ("APT Lists", &self.apt_lists),
            ("Journal Logs", &self.journal_logs),
            ("System Logs", &self.system_logs),
            ("Temp Files", &self.tmp),
            ("Var Temp", &self.var_tmp),
        ];
        assert(labelled_views(list@) =~= self.system_cache_list());
        list
    }
}

/// The views of a list of labelled paths.
pub open spec fn labelled_views(list: Seq<(&'static str, &String)>) -> Seq<(Seq<char>, Seq<char>)> {
    list.map_values(|e: (&'static str, &String)| (e.0@, e.1@))
}

impl Default for CleanupPaths {
    fn default() -> (paths: Self)
        ensures
            exists|home: Seq<char>| paths.is_for_home(home),
    {
        Self::new()
    }
}

/// One kind of build artifact: a directory name and the files that mark a
/// project of that kind.
#[derive(Debug, Clone, PartialEq, Eq)]
pub struct ArtifactPattern {
    pub name: &'static str,
    pub dir_name: &'static str,
    pub marker_files: Vec<&'static str>,
}

/// An artifact pattern with its texts as character sequences.
pub struct PatternView {
    pub name: Seq<char>,
    pub dir_name: Seq<char>,
    pub marker_files: Seq<Seq<char>>,
}

impl View for ArtifactPattern {
    type V = PatternView;

    open spec fn view(&self) -> PatternView {
        PatternView {
            name: self.name@,
            dir_name: self.dir_name@,
            marker_files: table_views(self.marker_files@),
        }
    }
}

/// The views of a list of patterns.
pub open spec fn pattern_views(patterns: Seq<ArtifactPattern>) -> Seq<PatternView> {
    patterns.map_values(|p: ArtifactPattern| p@)
}

/// The known kinds of build artifacts, in matching order.
pub open spec fn artifact_table() -> Seq<PatternView> {
    seq![
        PatternView {
            name: "Node.js"@,
            dir_name: "node_modules"@,
            marker_files: seq!["package.json"@],
        },
        PatternView { name: "Rust"@, dir_name: "target"@, marker_files: seq!["Cargo.toml"@] },
        PatternView {
            name: "Python venv"@,
            dir_name: "venv"@,
            marker_files: seq!["requirements.txt"@, "setup.py"@, "pyproject.toml"@],
        },
        PatternView {
            name: "Python .venv"@,
            dir_name: ".venv"@,
            marker_files: seq!["requirements.txt"@, "setup.py"@, "pyproject.toml"@],
        },
        PatternView {
            name: "Python cache"@,
            dir_name: "__pycache__"@,
            marker_files: Seq::<Seq<char>>::empty(),
        },
        PatternView {
            name: "Gradle"@,
            dir_name: "build"@,
            marker_files: seq!["build.gradle"@, "build.gradle.kts"@],
        },
        PatternView { name: "Maven"@, dir_name: "target"@, marker_files: seq!["pom.xml"@] },
        PatternView {
            name: "Next.js"@,
            dir_name: ".next"@,
            marker_files: seq!["next.config.js"@, "next.config.mjs"@],
        },
        PatternView {
            name: "Nuxt"@,
            dir_name: ".nuxt"@,
            marker_files: seq!["nuxt.config.js"@, "nuxt.config.ts"@],
        },
    ]
}

/// Development artifact patterns.
#[derive(Debug, Clone, PartialEq, Eq)]
pub struct DevArtifacts {
    pub patterns: Vec<ArtifactPattern>,
}

fn pattern(name: &'static str, dir_name: &'static str, marker_files: Vec<&'static str>) -> (p:
    ArtifactPattern)
    ensures
        p@ == (PatternView {
            name: name@,
            dir_name: dir_name@,
            marker_files: table_views(marker_files@),
        }),
{
    ArtifactPattern { name, dir_name, marker_files }
}

impl DevArtifacts {
    /// The known kinds of build artifacts.
    pub fn new() -> (artifacts: Self)
        ensures
            pattern_views(artifacts.patterns@) == artifact_table(),
    {
        let python = vec!["requirements.txt", "setup.py", "pyproject.toml"];
        let python_too = vec!["requirements.txt", "setup.py", "pyproject.toml"];
        let node = vec!["package.json"];
        let rust = vec!["Cargo.toml"];
        let none: Vec<&'static str> = Vec::new();
        let gradle = vec!["build.gradle", "build.gradle.kts"];
        let maven = vec!["pom.xml"];
        let next = vec!["next.config.js", "next.config.mjs"];
        let nuxt = vec!["nuxt.config.js", "nuxt.config.ts"];
        proof {
            assert(table_views(python@) =~= seq![
                "requirements.txt"@,
                "setup.py"@,
                "pyproject.toml"@,
            ]);
            assert(table_views(python_too@) =~= seq![
                "requirements.txt"@,
                "setup.py"@,
                "pyproject.toml"@,
            ]);
            assert(table_views(node@) =~= seq!["package.json"@]);
            assert(table_views(rust@) =~= seq!["Cargo.toml"@]);
            assert(table_views(none@) =~= Seq::<Seq<char>>::empty());
            assert(table_views(gradle@) =~= seq!["build.gradle"@, "build.gradle.kts"@]);
            assert(table_views(maven@) =~= seq!["pom.xml"@]);
            assert(table_views(next@) =~= seq!["next.config.js"@, "next.config.mjs"@]);
            assert(table_views(nuxt@) =~= seq!["nuxt.config.js"@, "nuxt.config.ts"@]);
        }
        let patterns = vec![
            pattern("Node.js", "node_modules", node),
            pattern("Rust", "target", rust),
            pattern("Python venv", "venv", python),
            pattern("Python .venv", ".venv", python_too),
            pattern("Python cache", "__pycache__", none),
            pattern("Gradle", "build", gradle),
            pattern("Maven", "target", maven),
            pattern("Next.js", ".next", next),
            pattern("Nuxt", ".nuxt", nuxt),
        ];
        assert(pattern_views(patterns@) =~= artifact_table());
        DevArtifacts { patterns }
    }
}

impl Default for DevArtifacts {
    fn default() -> (artifacts: Self)
        ensures
            pattern_views(artifacts.patterns@) == artifact_table(),
    {
        Self::new()
    }
}

} // verus!

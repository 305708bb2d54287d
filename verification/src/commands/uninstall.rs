//! The uninstall command: what is installed, and what an application may
//! have left behind.

use crate::pathname::{join_path, joined};
use crate::paths::{home_or_current, home_or_here};
use crate::sorting::{arranged, is_dictionary_order, key_views, order_by_name};
use crate::text::{
    after_header, chars_of, contains, contains_seq, lines, lines_of, lowercase, opt_str_view,
    parse_u64, parsed_u64, split, split_chars, string_of, string_of_range, string_views, views,
    words, words_of,
};
use vstd::prelude::*;

verus! {

/// Type of application.
#[derive(Debug, Clone, Copy, PartialEq, Eq, Structural)]
pub enum AppType {
    /// Installed via apt/dpkg
    Deb,
    /// Installed via snap
    Snap,
    /// Installed via flatpak
    Flatpak,
    /// AppImage file
    AppImage,
    /// Manually installed
    Manual,
}

/// The label of an application type.
pub open spec fn app_type_label(t: AppType) -> Seq<char> {
    match t {
        AppType::Deb => "deb"@,
        AppType::Snap => "snap"@,
        AppType::Flatpak => "flatpak"@,
        AppType::AppImage => "AppImage"@,
        AppType::Manual => "manual"@,
    }
}

impl AppType {
    /// The label this type is shown with.
    pub fn label(&self) -> (text: &'static str)
        ensures
            text@ == app_type_label(*self),
    {
        match self {
            AppType::Deb => "deb",
            AppType::Snap => "snap",
            AppType::Flatpak => "flatpak",
            AppType::AppImage => "AppImage",
            AppType::Manual => "manual",
        }
    }
}

/// Type of leftover file.
#[derive(Debug, Clone, Copy, PartialEq, Eq, Structural)]
pub enum LeftoverType {
    /// Configuration files
    Config,
    /// Cache files
    Cache,
    /// Application data
    Data,
    /// Log files
    Log,
    /// Desktop entries
    Desktop,
    /// Autostart entries
    Autostart,
}

/// The label of a leftover type.
pub open spec fn leftover_label(t: LeftoverType) -> Seq<char> {
    match t {
        LeftoverType::Config => "config"@,
        LeftoverType::Cache => "cache"@,
        LeftoverType::Data => "data"@,
        LeftoverType::Log => "log"@,
        LeftoverType::Desktop => "desktop"@,
        LeftoverType::Autostart => "autostart"@,
    }
}

impl LeftoverType {
    /// The label this type is shown with.
    pub fn label(&self) -> (text: &'static str)
        ensures
            text@ == leftover_label(*self),
    {
        match self {
            LeftoverType::Config => "config",
            LeftoverType::Cache => "cache",
            LeftoverType::Data => "data",
            LeftoverType::Log => "log",
            LeftoverType::Desktop => "desktop",
            LeftoverType::Autostart => "autostart",
        }
    }
}

/// Leftover file from an uninstalled app.
#[derive(Debug, Clone, PartialEq, Eq)]
pub struct LeftoverFile {
    pub path: String,
    pub file_type: LeftoverType,
    pub size: u64,
}

/// A leftover file with its path as a character sequence.
pub struct LeftoverView {
    pub path: Seq<char>,
    pub file_type: LeftoverType,
    pub size: u64,
}

impl View for LeftoverFile {
    type V = LeftoverView;

    open spec fn view(&self) -> LeftoverView {
        LeftoverView { path: self.path@, file_type: self.file_type, size: self.size }
    }
}

/// The views of a list of leftover files.
pub open spec fn leftover_views(list: Seq<LeftoverFile>) -> Seq<LeftoverView> {
    list.map_values(|l: LeftoverFile| l@)
}

/// Installed application info.
#[derive(Debug, Clone, PartialEq, Eq)]
pub struct InstalledApp {
    pub name: String,
    pub path: String,
    pub size: u64,
    pub app_type: AppType,
    pub leftovers: Vec<LeftoverFile>,
}

/// An installed application with its texts as character sequences.
pub struct AppView {
    pub name: Seq<char>,
    pub path: Seq<char>,
    pub size: u64,
    pub app_type: AppType,
    pub leftovers: Seq<LeftoverView>,
}

impl View for InstalledApp {
    type V = AppView;

    open spec fn view(&self) -> AppView {
        AppView {
            name: self.name@,
            path: self.path@,
            size: self.size,
            app_type: self.app_type,
            leftovers: leftover_views(self.leftovers@),
        }
    }
}

/// The views of a list of applications.
pub open spec fn app_views(list: Seq<InstalledApp>) -> Seq<AppView> {
    list.map_values(|a: InstalledApp| a@)
}

/// The places where applications leave files behind, each with the kind of
/// file found there, for a user whose home directory is `home`.
pub open spec fn leftover_places(home: Seq<char>) -> Seq<(Seq<char>, LeftoverType)> {
    seq![
        (joined(home, ".config"@), LeftoverType::Config),
        ("/etc"@, LeftoverType::Config),
        (joined(home, ".cache"@), LeftoverType::Cache),
        ("/var/cache"@, LeftoverType::Cache),
        (joined(home, ".local/share"@), LeftoverType::Data),
        ("/var/lib"@, LeftoverType::Data),
        (joined(home, ".local/share"@), LeftoverType::Log),
        ("/var/log"@, LeftoverType::Log),
        (joined(home, ".local/share/applications"@), LeftoverType::Desktop),
        ("/usr/share/applications"@, LeftoverType::Desktop),
        (joined(home, ".config/autostart"@), LeftoverType::Autostart),
    ]
}

/// The views of a list of places.
pub open spec fn place_views(list: Seq<(String, LeftoverType)>) -> Seq<(Seq<char>, LeftoverType)> {
    list.map_values(|p: (String, LeftoverType)| (p.0@, p.1))
}

/// Common leftover locations; without a home directory the current
/// directory stands in for it.
pub fn get_leftover_locations(home: Option<&str>) -> (places: Vec<(String, LeftoverType)>)
    ensures
        place_views(places@) == leftover_places(home_or_here(opt_str_view(home))),
{
    let h = home_or_current(home);
    let home = h.as_str();
    let places = vec![
        (join_path(home, ".config"), LeftoverType::Config),
        (String::from_str("/etc"), LeftoverType::Config),
        (join_path(home, ".cache"), LeftoverType::Cache),
        (String::from_str("/var/cache"), LeftoverType::Cache),
        (join_path(home, ".local/share"), LeftoverType::Data),
        (String::from_str("/var/lib"), LeftoverType::Data),
        (join_path(home, ".local/share"), LeftoverType::Log),
        (String::from_str("/var/log"), LeftoverType::Log),
        (join_path(home, ".local/share/applications"), LeftoverType::Desktop),
        (String::from_str("/usr/share/applications"), LeftoverType::Desktop),
        (join_path(home, ".config/autostart"), LeftoverType::Autostart),
    ];
    assert(place_views(places@) =~= leftover_places(h@));
    places
}

/// `c` is kept in a normalized name: it is no hyphen, underscore or space.
pub open spec fn is_name_char(c: char) -> bool {
    c != '-' && c != '_' && c != ' '
}

/// `is_name_char` as a predicate value.
pub open spec fn name_chars() -> spec_fn(char) -> bool {
    |c: char| is_name_char(c)
}

/// The normalized form of an application name: lower case, without
/// hyphens, underscores and spaces.
pub open spec fn normalized(name: Seq<char>) -> Seq<char> {
    lowercase(name).filter(name_chars())
}

/// `lower` without hyphens, underscores and spaces.
pub fn strip_separators(lower: &str) -> (out: String)
    ensures
        out@ == lower@.filter(name_chars()),
{
    let s = chars_of(lower);
    let mut out: Vec<char> = Vec::new();
    let mut i: usize = 0;
    proof {
        assert(s@.take(0).filter(name_chars()) =~= Seq::<char>::empty()) by {
            reveal(Seq::filter);
        }
    }
    while i < s.len()
        invariant
            i <= s.len(),
            out@ == s@.take(i as int).filter(name_chars()),
        decreases s.len() - i,
    {
        let c = s[i];
        proof {
            assert(s@.take(i + 1) =~= s@.take(i as int).push(c));
            s@.take(i as int).lemma_filter_push(c, name_chars());
        }
        if c != '-' && c != '_' && c != ' ' {
            out.push(c);
        }
        i += 1;
    }
    assert(s@.take(s.len() as int) =~= s@);
    string_of(&out)
}

/// Normalize app name for matching.
pub fn normalize_app_name(name: &str) -> (out: String)
    ensures
        out@ == normalized(name@),
{
    let lower = name.to_lowercase();
    strip_separators(lower.as_str())
}

/// The texts to look for: the normalized name and, where it has five
/// characters or more, its first five.
pub open spec fn search_patterns(normalized: Seq<char>) -> Seq<Seq<char>> {
    if normalized.len() >= 5 {
        seq![normalized, normalized.take(5)]
    } else {
        seq![normalized]
    }
}

/// Generate search patterns from a normalized app name.
pub fn generate_search_patterns(normalized: &str) -> (patterns: Vec<String>)
    ensures
        string_views(patterns@) == search_patterns(normalized@),
{
    let c = chars_of(normalized);
    let mut patterns = vec![String::from_str(normalized)];
    if c.len() >= 5 {
        patterns.push(string_of_range(&c, 0, 5));
    }
    assert(string_views(patterns@) =~= search_patterns(normalized@));
    patterns
}

/// The lower-case name `entry` holds one of the patterns.
pub open spec fn holds_pattern(entry: Seq<char>, patterns: Seq<Seq<char>>) -> bool {
    exists|i: int| 0 <= i < patterns.len() && contains_seq(entry, #[trigger] patterns[i])
}

/// Whether the lower-case name `entry` holds one of the patterns.
pub fn entry_matches(entry: &str, patterns: &Vec<String>) -> (r: bool)
    ensures
        r == holds_pattern(entry@, string_views(patterns@)),
{
    let e = chars_of(entry);
    let mut i: usize = 0;
    while i < patterns.len()
        invariant
            i <= patterns.len(),
            e@ == entry@,
            forall|j: int|
                0 <= j < i ==> !contains_seq(entry@, #[trigger] string_views(patterns@)[j]),
        decreases patterns.len() - i,
    {
        assert(string_views(patterns@)[i as int] == patterns@[i as int]@);
        if contains(&e, &chars_of(patterns[i].as_str())) {
            return true;
        }
        i += 1;
    }
    false
}

/// The positions of the names that an application may have left behind:
/// those whose lower-case form holds one of the application's patterns.
pub open spec fn leftover_positions(names: Seq<Seq<char>>, patterns: Seq<Seq<char>>) -> Seq<usize>
    decreases names.len(),
{
    if names.len() == 0 {
        Seq::<usize>::empty()
    } else {
        let init = leftover_positions(names.drop_last(), patterns);
        if holds_pattern(lowercase(names.last()), patterns) {
            init.push((names.len() - 1) as usize)
        } else {
            init
        }
    }
}

/// Find the entries of one location that the application `app_name` may
/// have left behind, as positions in `names`, the names found there.
pub fn find_leftovers(app_name: &str, names: &Vec<String>) -> (found: Vec<usize>)
    ensures
        found@ == leftover_positions(
            string_views(names@),
            search_patterns(normalized(app_name@)),
        ),
        forall|k: int| 0 <= k < found@.len() ==> (#[trigger] found@[k]) < names@.len(),
{
    let normal = normalize_app_name(app_name);
    let patterns = generate_search_patterns(normal.as_str());
    let ghost all = string_views(names@);
    let ghost pats = search_patterns(normalized(app_name@));
    let mut found: Vec<usize> = Vec::new();
    let mut i: usize = 0;
    while i < names.len()
        invariant
            i <= names.len(),
            all == string_views(names@),
            pats == string_views(patterns@),
            found@ == leftover_positions(all.take(i as int), pats),
            forall|k: int| 0 <= k < found@.len() ==> (#[trigger] found@[k]) < i,
        decreases names.len() - i,
    {
        proof {
            assert(all[i as int] == names@[i as int]@);
            assert(all.take(i + 1).drop_last() =~= all.take(i as int));
            assert(all.take(i + 1).last() == names@[i as int]@);
        }
        let lower = names[i].as_str().to_lowercase();
        if entry_matches(lower.as_str(), &patterns) {
            found.push(i);
        }
        i += 1;
    }
    assert(all.take(names.len() as int) =~= all);
    found
}

/// `kib` kibibytes in bytes, held at `u64::MAX`.
pub open spec fn kib_to_bytes(kib: u64) -> u64 {
    if kib * 1024 <= u64::MAX {
        (kib * 1024) as u64
    } else {
        u64::MAX
    }
}

/// The package that a line of the dpkg listing names: the line has a tab;
/// the name stands before it and the installed size in KiB after it, a size
/// that cannot be read counting as 0.
pub open spec fn dpkg_app(line: Seq<char>) -> Option<AppView> {
    let parts = split(line, '\t');
    if parts.len() >= 2 {
        Some(
            AppView {
                name: parts[0],
                path: "/var/lib/dpkg/info/"@ + parts[0] + ".list"@,
                size: kib_to_bytes(
                    match parsed_u64(parts[1]) {
                        Some(n) => n,
                        None => 0,
                    },
                ),
                app_type: AppType::Deb,
                leftovers: Seq::<LeftoverView>::empty(),
            },
        )
    } else {
        None
    }
}

/// The application that a line of the flatpak listing names: the line has a
/// tab; the application id stands before it and the name after it.
pub open spec fn flatpak_app(line: Seq<char>) -> Option<AppView> {
    let parts = split(line, '\t');
    if parts.len() >= 2 {
        Some(
            AppView {
                name: parts[1],
                path: "/var/lib/flatpak/app/"@ + parts[0],
                size: 0,
                app_type: AppType::Flatpak,
                leftovers: Seq::<LeftoverView>::empty(),
            },
        )
    } else {
        None
    }
}

/// The applications that the lines name, in order, each line read by
/// `read`.
pub open spec fn apps_in(lines: Seq<Seq<char>>, read: spec_fn(Seq<char>) -> Option<AppView>) -> Seq<
    AppView,
>
    decreases lines.len(),
{
    if lines.len() == 0 {
        Seq::<AppView>::empty()
    } else {
        let init = apps_in(lines.drop_last(), read);
        match read(lines.last()) {
            Some(app) => init.push(app),
            None => init,
        }
    }
}

/// `dpkg_app` as a function value.
pub open spec fn reading_dpkg() -> spec_fn(Seq<char>) -> Option<AppView> {
    |line: Seq<char>| dpkg_app(line)
}

/// `flatpak_app` as a function value.
pub open spec fn reading_flatpak() -> spec_fn(Seq<char>) -> Option<AppView> {
    |line: Seq<char>| flatpak_app(line)
}

fn read_dpkg_line(line: &Vec<char>) -> (app: Option<InstalledApp>)
    ensures
        match app {
            Some(a) => dpkg_app(line@) == Some(a@),
            None => dpkg_app(line@) is None,
        },
{
    let parts = split_chars(line, '\t');
    if parts.len() < 2 {
        return None;
    }
    assert(views(parts@)[0] == parts@[0]@);
    assert(views(parts@)[1] == parts@[1]@);
    let name = string_of(&parts[0]);
    let kib: u64 = match parse_u64(&parts[1]) {
        Some(n) => n,
        None => 0,
    };
    let size: u64 = match kib.checked_mul(1024) {
        Some(n) => n,
        None => u64::MAX,
    };
    let path = String::from_str("/var/lib/dpkg/info/").concat(name.as_str()).concat(".list");
    let app = InstalledApp { name, path, size, app_type: AppType::Deb, leftovers: Vec::new() };
    assert(app@.leftovers =~= Seq::<LeftoverView>::empty());
    Some(app)
}

fn read_flatpak_line(line: &Vec<char>) -> (app: Option<InstalledApp>)
    ensures
        match app {
            Some(a) => flatpak_app(line@) == Some(a@),
            None => flatpak_app(line@) is None,
        },
{
    let parts = split_chars(line, '\t');
    if parts.len() < 2 {
        return None;
    }
    assert(views(parts@)[0] == parts@[0]@);
    assert(views(parts@)[1] == parts@[1]@);
    let id = string_of(&parts[0]);
    let name = string_of(&parts[1]);
    let path = String::from_str("/var/lib/flatpak/app/").concat(id.as_str());
    let app = InstalledApp {
        name,
        path,
        size: 0,
        app_type: AppType::Flatpak,
        leftovers: Vec::new(),
    };
    assert(app@.leftovers =~= Seq::<LeftoverView>::empty());
    Some(app)
}

/// Reads the installed packages out of the output of `dpkg-query`, which
/// gives one package per line: name, tab, installed size in KiB.
pub fn scan_dpkg_apps(output: &str) -> (apps: Vec<InstalledApp>)
    ensures
        app_views(apps@) == apps_in(lines(output@), reading_dpkg()),
{
    let all = lines_of(&chars_of(output));
    let ghost l = lines(output@);
    let mut apps: Vec<InstalledApp> = Vec::new();
    let mut i: usize = 0;
    assert(app_views(apps@) =~= Seq::<AppView>::empty());
    while i < all.len()
        invariant
            i <= all.len(),
            l == views(all@),
            app_views(apps@) == apps_in(l.take(i as int), reading_dpkg()),
        decreases all.len() - i,
    {
        proof {
            assert(l[i as int] == all@[i as int]@);
            assert(l.take(i + 1).drop_last() =~= l.take(i as int));
            assert(l.take(i + 1).last() == all@[i as int]@);
        }
        if let Some(app) = read_dpkg_line(&all[i]) {
            let ghost before = apps@;
            apps.push(app);
            assert(app_views(apps@) =~= app_views(before).push(app@));
        }
        i += 1;
    }
    assert(l.take(all.len() as int) =~= l);
    apps
}

/// Reads the installed applications out of the output of `flatpak list`
/// with the columns application, name and size, separated by tabs.
pub fn scan_flatpak_apps(output: &str) -> (apps: Vec<InstalledApp>)
    ensures
        app_views(apps@) == apps_in(lines(output@), reading_flatpak()),
{
    let all = lines_of(&chars_of(output));
    let ghost l = lines(output@);
    let mut apps: Vec<InstalledApp> = Vec::new();
    let mut i: usize = 0;
    assert(app_views(apps@) =~= Seq::<AppView>::empty());
    while i < all.len()
        invariant
            i <= all.len(),
            l == views(all@),
            app_views(apps@) == apps_in(l.take(i as int), reading_flatpak()),
        decreases all.len() - i,
    {
        proof {
            assert(l[i as int] == all@[i as int]@);
            assert(l.take(i + 1).drop_last() =~= l.take(i as int));
            assert(l.take(i + 1).last() == all@[i as int]@);
        }
        if let Some(app) = read_flatpak_line(&all[i]) {
            let ghost before = apps@;
            apps.push(app);
            assert(app_views(apps@) =~= app_views(before).push(app@));
        }
        i += 1;
    }
    assert(l.take(all.len() as int) =~= l);
    apps
}

/// The names of the snaps that the lines list: the first word of every line
/// that has one.
pub open spec fn snap_names_in(lines: Seq<Seq<char>>) -> Seq<Seq<char>>
    decreases lines.len(),
{
    if lines.len() == 0 {
        Seq::<Seq<char>>::empty()
    } else {
        let init = snap_names_in(lines.drop_last());
        if words(lines.last()).len() > 0 {
            init.push(words(lines.last())[0])
        } else {
            init
        }
    }
}

/// Reads the names of the installed snaps out of the output of `snap list`;
/// the first line is the header and is passed over.
pub fn scan_snap_names(output: &str) -> (names: Vec<String>)
    ensures
        string_views(names@) == snap_names_in(after_header(lines(output@))),
{
    let all = lines_of(&chars_of(output));
    let mut names: Vec<String> = Vec::new();
    assert(string_views(names@) =~= Seq::<Seq<char>>::empty());
    if all.len() == 0 {
        assert(views(all@).len() == 0);
        return names;
    }
    assert(views(all@).len() == all@.len());
    let ghost body = after_header(lines(output@));
    let mut i: usize = 1;
    assert(body.take(0) =~= Seq::<Seq<char>>::empty());
    while i < all.len()
        invariant
            1 <= i <= all.len(),
            views(all@) == lines(output@),
            body == after_header(lines(output@)),
            string_views(names@) == snap_names_in(body.take(i - 1)),
        decreases all.len() - i,
    {
        let line = &all[i];
        proof {
            assert(views(all@)[i as int] == line@);
            assert(body[i - 1] == line@);
            assert(body.take(i as int).drop_last() =~= body.take(i - 1));
            assert(body.take(i as int).last() == line@);
        }
        let w = words_of(line);
        if w.len() > 0 {
            assert(views(w@)[0] == w@[0]@);
            let ghost before = names@;
            names.push(string_of(&w[0]));
            assert(string_views(names@) =~= string_views(before).push(w@[0]@));
        }
        i += 1;
    }
    assert(body.take(all.len() - 1) =~= body);
    names
}

/// The record of an installed snap of the given name and measured size.
pub fn snap_app(name: String, size: u64) -> (app: InstalledApp)
    ensures
        app@ == (AppView {
            name: name@,
            path: "/snap/"@ + name@,
            size,
            app_type: AppType::Snap,
            leftovers: Seq::<LeftoverView>::empty(),
        }),
{
    let path = String::from_str("/snap/").concat(name.as_str());
    let app = InstalledApp { name, path, size, app_type: AppType::Snap, leftovers: Vec::new() };
    assert(app@.leftovers =~= Seq::<LeftoverView>::empty());
    app
}

/// The lower-case names of a list of applications.
pub open spec fn sort_keys(list: Seq<AppView>) -> Seq<Seq<char>> {
    list.map_values(|a: AppView| lowercase(a.name))
}

/// `output` is `input` sorted by lower-case name in dictionary order, equal
/// names in input order.
pub open spec fn is_sorted_by_name(output: Seq<AppView>, input: Seq<AppView>) -> bool {
    exists|order: Seq<usize>|
        is_dictionary_order(sort_keys(input), order) && output == arranged(input, order)
}

fn copy_of(app: &InstalledApp) -> (copy: InstalledApp)
    ensures
        copy@ == app@,
{
    let mut leftovers: Vec<LeftoverFile> = Vec::new();
    let mut i: usize = 0;
    assert(leftover_views(leftovers@) =~= leftover_views(app.leftovers@).take(0));
    while i < app.leftovers.len()
        invariant
            i <= app.leftovers.len(),
            leftover_views(leftovers@) == leftover_views(app.leftovers@).take(i as int),
        decreases app.leftovers.len() - i,
    {
        let l = &app.leftovers[i];
        let ghost before = leftovers@;
        leftovers.push(LeftoverFile { path: l.path.clone(), file_type: l.file_type, size: l.size });
        assert(leftover_views(leftovers@) =~= leftover_views(before).push(l@));
        assert(leftover_views(app.leftovers@).take(i + 1) =~= leftover_views(
            app.leftovers@,
        ).take(i as int).push(l@));
        i += 1;
    }
    assert(leftover_views(app.leftovers@).take(app.leftovers.len() as int) =~= leftover_views(
        app.leftovers@,
    ));
    InstalledApp {
        name: app.name.clone(),
        path: app.path.clone(),
        size: app.size,
        app_type: app.app_type,
        leftovers,
    }
}

/// Lists the installed applications: the packages, snaps and flatpaks that
/// were found, in that order, sorted by name without regard to case.
pub fn scan_installed_apps(
    dpkg: Vec<InstalledApp>,
    snap: Vec<InstalledApp>,
    flatpak: Vec<InstalledApp>,
) -> (apps: Vec<InstalledApp>)
    ensures
        is_sorted_by_name(app_views(apps@), app_views(dpkg@ + snap@ + flatpak@)),
{
    let mut all = dpkg;
    let mut snap = snap;
    let mut flatpak = flatpak;
    all.append(&mut snap);
    all.append(&mut flatpak);
    let ghost input = app_views(all@);
    let mut keys: Vec<Vec<char>> = Vec::new();
    let mut i: usize = 0;
    while i < all.len()
        invariant
            i <= all.len(),
            input == app_views(all@),
            key_views(keys@) == sort_keys(input).take(i as int),
        decreases all.len() - i,
    {
        let lower = all[i].name.as_str().to_lowercase();
        let key = chars_of(lower.as_str());
        let ghost before = keys@;
        keys.push(key);
        assert(input[i as int] == all@[i as int]@);
        assert(key_views(keys@) =~= key_views(before).push(lowercase(all@[i as int].name@)));
        assert(sort_keys(input).take(i + 1) =~= sort_keys(input).take(i as int).push(
            lowercase(all@[i as int].name@),
        ));
        i += 1;
    }
    assert(key_views(keys@) =~= sort_keys(input));
    let order = order_by_name(&keys);
    let mut apps: Vec<InstalledApp> = Vec::new();
    let mut k: usize = 0;
    while k < order.len()
        invariant
            k <= order.len(),
            input == app_views(all@),
            order@.len() == all@.len(),
            forall|j: int| 0 <= j < order@.len() ==> (#[trigger] order@[j]) < all@.len(),
            app_views(apps@) == arranged(input, order@).take(k as int),
        decreases order.len() - k,
    {
        let a = &all[order[k]];
        let ghost before = apps@;
        apps.push(copy_of(a));
        assert(input[order@[k as int] as int] == a@);
        assert(app_views(apps@) =~= app_views(before).push(a@));
        assert(arranged(input, order@).take(k + 1) =~= arranged(input, order@).take(
            k as int,
        ).push(a@));
        k += 1;
    }
    assert(app_views(apps@) =~= arranged(input, order@));
    apps
}

/// The positions of the applications that a search for `query` finds:
/// those whose name holds the query, both in lower case.
pub open spec fn found_positions(names: Seq<Seq<char>>, query: Seq<char>) -> Seq<usize>
    decreases names.len(),
{
    if names.len() == 0 {
        Seq::<usize>::empty()
    } else {
        let init = found_positions(names.drop_last(), query);
        if contains_seq(lowercase(names.last()), lowercase(query)) {
            init.push((names.len() - 1) as usize)
        } else {
            init
        }
    }
}

/// The names of a list of applications.
pub open spec fn app_names(list: Seq<InstalledApp>) -> Seq<Seq<char>> {
    list.map_values(|a: InstalledApp| a.name@)
}

/// Finds the applications whose name holds `query`, without regard to case,
/// as positions in `apps`.
pub fn find_apps(apps: &Vec<InstalledApp>, query: &str) -> (found: Vec<usize>)
    ensures
        found@ == found_positions(app_names(apps@), query@),
        forall|k: int| 0 <= k < found@.len() ==> (#[trigger] found@[k]) < apps@.len(),
{
    let wanted = chars_of(query.to_lowercase().as_str());
    let ghost names = app_names(apps@);
    let mut found: Vec<usize> = Vec::new();
    let mut i: usize = 0;
    while i < apps.len()
        invariant
            i <= apps.len(),
            names == app_names(apps@),
            wanted@ == lowercase(query@),
            found@ == found_positions(names.take(i as int), query@),
            forall|k: int| 0 <= k < found@.len() ==> (#[trigger] found@[k]) < i,
        decreases apps.len() - i,
    {
        proof {
            assert(names[i as int] == apps@[i as int].name@);
            assert(names.take(i + 1).drop_last() =~= names.take(i as int));
            assert(names.take(i + 1).last() == apps@[i as int].name@);
        }
        let lower = apps[i].name.as_str().to_lowercase();
        if contains(&chars_of(lower.as_str()), &wanted) {
            found.push(i);
        }
        i += 1;
    }
    assert(names.take(apps.len() as int) =~= names);
    found
}

} // verus!

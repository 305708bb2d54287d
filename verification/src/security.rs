//! Path validation: the rules that decide whether a path may be deleted.

use crate::environment::{config_dir, home_dir};
use crate::pathname::{
    components, components_of, components_start_with, join_chars, join_path, joined,
    lemma_empty_path_lies_nowhere, path_starts_with, starts_with_path,
};
use crate::paths::is_named_home;
use crate::text::{
    all_whitespace, chars_of, contains, has_prefix, has_suffix, is_blank, lines, lines_of,
    occurs_at, opt_str_view, opt_view, same_chars, string_of, string_views, table_views, views,
};
use vstd::prelude::*;

verus! {

/// Sizes at or above this many bytes count as large deletions (1 GiB).
pub const LARGE_DELETION_THRESHOLD: u64 = 1073741824;

/// The system locations that are never deleted, in matching order.
pub open spec fn blocked_prefixes() -> Seq<Seq<char>> {
    seq![
        "/"@,
        "/bin"@,
        "/boot"@,
        "/dev"@,
        "/etc"@,
        "/lib"@,
        "/lib32"@,
        "/lib64"@,
        "/libx32"@,
        "/proc"@,
        "/root"@,
        "/run"@,
        "/sbin"@,
        "/srv"@,
        "/sys"@,
        "/usr"@,
        "/var"@,
        "/var/lib"@,
        "/var/log"@,
        "/var/run"@,
        "/snap/core"@,
        "/snap/snapd"@,
    ]
}

/// The locations whose deletion is allowed but calls for a warning.
pub open spec fn caution_entries() -> Seq<Seq<char>> {
    seq!["/opt"@, "/home"@, "/tmp"@, "/var/tmp"@, "/var/cache"@]
}

/// Package-cache locations that stay deletable inside a blocked prefix.
pub open spec fn safe_cache_patterns() -> Seq<Seq<char>> {
    seq![
        "/var/cache/apt/archives"@,
        "/var/cache/apt/pkgcache.bin"@,
        "/var/cache/apt/srcpkgcache.bin"@,
    ]
}

/// `path` is `prefix` itself or lies below it: `prefix`, a separator, and more.
pub open spec fn on_or_under(prefix: Seq<char>, path: Seq<char>) -> bool {
    path == prefix || (prefix + seq!['/']).is_prefix_of(path)
}

/// The first index at or after `from` whose table entry `path` is on or under.
pub open spec fn first_under(table: Seq<Seq<char>>, path: Seq<char>, from: int) -> Option<int>
    decreases table.len() - from,
{
    if from < 0 || from >= table.len() {
        None
    } else if on_or_under(table[from], path) {
        Some(from)
    } else {
        first_under(table, path, from + 1)
    }
}

/// The first index at or after `from` whose table entry equals `path`.
pub open spec fn first_equal(table: Seq<Seq<char>>, path: Seq<char>, from: int) -> Option<int>
    decreases table.len() - from,
{
    if from < 0 || from >= table.len() {
        None
    } else if table[from] == path {
        Some(from)
    } else {
        first_equal(table, path, from + 1)
    }
}

/// `path` is one of the safe cache locations or lies inside one. A sibling
/// whose name only begins like a safe cache location is not inside it.
pub open spec fn in_safe_cache(path: Seq<char>) -> bool {
    exists|i: int|
        0 <= i < safe_cache_patterns().len() && on_or_under(
            #[trigger] safe_cache_patterns()[i],
            path,
        )
}

/// The blocked entry that protects `path`, if any: the first one in table
/// order that `path` is on or under, unless `path` is in a safe cache
/// location.
pub open spec fn system_block(path: Seq<char>) -> Option<int> {
    if in_safe_cache(path) {
        None
    } else {
        first_under(blocked_prefixes(), path, 0)
    }
}

/// A `..` component starts at position `i` of `path`: two dots that fill the
/// whole stretch between two separators or the ends of the path.
pub open spec fn parent_component_at(path: Seq<char>, i: int) -> bool {
    &&& 0 <= i
    &&& i + 2 <= path.len()
    &&& path[i] == '.'
    &&& path[i + 1] == '.'
    &&& (i == 0 || path[i - 1] == '/')
    &&& (i + 2 == path.len() || path[i + 2] == '/')
}

/// `path` has a `..` component somewhere.
pub open spec fn has_parent_component(path: Seq<char>) -> bool {
    exists|i: int| parent_component_at(path, i)
}

/// The executable table of blocked prefixes.
pub fn blocked_paths() -> (t: Vec<&'static str>)
    ensures
        table_views(t@) == blocked_prefixes(),
{
    let t = vec![
        "/",
        "/bin",
        "/boot",
        "/dev",
        "/etc",
        "/lib",
        "/lib32",
        "/lib64",
        "/libx32",
        "/proc",
        "/root",
        "/run",
        "/sbin",
        "/srv",
        "/sys",
        "/usr",
        "/var",
        "/var/lib",
        "/var/log",
        "/var/run",
        "/snap/core",
        "/snap/snapd",
    ];
    assert(table_views(t@) =~= blocked_prefixes());
    t
}

/// The executable table of caution paths.
pub fn caution_paths() -> (t: Vec<&'static str>)
    ensures
        table_views(t@) == caution_entries(),
{
    let t = vec!["/opt", "/home", "/tmp", "/var/tmp", "/var/cache"];
    assert(table_views(t@) =~= caution_entries());
    t
}

/// The executable table of safe cache patterns.
fn safe_cache_table() -> (t: Vec<&'static str>)
    ensures
        table_views(t@) == safe_cache_patterns(),
{
    let t = vec![
        "/var/cache/apt/archives",
        "/var/cache/apt/pkgcache.bin",
        "/var/cache/apt/srcpkgcache.bin",
    ];
    assert(table_views(t@) =~= safe_cache_patterns());
    t
}

/// Whether `path` is `prefix` or lies below it.
pub fn is_on_or_under(prefix: &Vec<char>, path: &Vec<char>) -> (r: bool)
    ensures
        r == on_or_under(prefix@, path@),
{
    if same_chars(path, prefix) {
        return true;
    }
    if !has_prefix(path, prefix) {
        assert(!(prefix@ + seq!['/']).is_prefix_of(path@)) by {
            if (prefix@ + seq!['/']).is_prefix_of(path@) {
                assert(path@.subrange(0, prefix@.len() as int) == (prefix@ + seq!['/']).subrange(
                    0,
                    prefix@.len() as int,
                ));
                assert((prefix@ + seq!['/']).subrange(0, prefix@.len() as int) == prefix@);
            }
        }
        return false;
    }
    if path.len() == prefix.len() {
        assert(path@.subrange(0, prefix@.len() as int) == path@);
        return true;
    }
    let r = path[prefix.len()] == '/';
    proof {
        let ext = prefix@ + seq!['/'];
        if r {
            assert(path@.subrange(0, ext.len() as int) =~= ext);
        } else {
            if ext.is_prefix_of(path@) {
                assert(path@.subrange(0, ext.len() as int)[prefix@.len() as int] == '/');
            }
        }
    }
    r
}

/// Whether `path` (absolute) has a `..` component: it holds `/../` or ends
/// in `/..`.
pub fn has_traversal(path: &Vec<char>) -> (r: bool)
    requires
        path@.len() > 0,
        path@[0] == '/',
    ensures
        r == has_parent_component(path@),
{
    let inner = chars_of("/../");
    let tail = chars_of("/..");
    proof {
        reveal_strlit("/../");
        reveal_strlit("/..");
    }
    let found_inner = contains(path, &inner);
    let found_tail = has_suffix(path, &tail);
    proof {
        let p = path@;
        if found_inner {
            let k = choose|k: int| occurs_at(p, inner@, k);
            assert(p.subrange(k, k + 4)[0] == '/');
            assert(p.subrange(k, k + 4)[1] == '.');
            assert(p.subrange(k, k + 4)[2] == '.');
            assert(p.subrange(k, k + 4)[3] == '/');
            assert(parent_component_at(p, k + 1));
        }
        if found_tail {
            let k = p.len() - 3;
            assert(p.subrange(k, p.len() as int)[0] == '/');
            assert(p.subrange(k, p.len() as int)[1] == '.');
            assert(p.subrange(k, p.len() as int)[2] == '.');
            assert(parent_component_at(p, k + 1));
        }
        if has_parent_component(p) {
            let i = choose|i: int| parent_component_at(p, i);
            assert(i >= 1);
            if i + 2 == p.len() {
                assert(p.subrange(i - 1, p.len() as int) =~= tail@);
                assert(found_tail);
            } else {
                assert(p.subrange(i - 1, i + 3) =~= inner@);
                assert(occurs_at(p, inner@, i - 1));
                assert(found_inner);
            }
        }
    }
    found_inner || found_tail
}

/// What the classifier says of a path, with its texts as character sequences.
pub enum Verdict {
    /// Nothing speaks against deleting the path.
    Safe,
    /// The path is never deleted.
    Blocked { reason: Seq<char> },
    /// The path may be deleted once the user has been warned.
    Caution { reason: Seq<char> },
    /// The path is a symbolic link to `target`.
    Symlink { target: Seq<char> },
    /// The path is malformed.
    Invalid { reason: Seq<char> },
}

/// The verdict on a path.
#[derive(Debug, Clone, PartialEq, Eq)]
pub enum PathValidation {
    /// Path is safe to delete.
    Safe,
    /// Path is blocked: never delete.
    Blocked { reason: String },
    /// Path requires caution: warn the user.
    Caution { reason: String },
    /// Path is a symlink and needs special handling.
    Symlink { target: String },
    /// Path validation failed.
    Invalid { reason: String },
}

impl View for PathValidation {
    type V = Verdict;

    open spec fn view(&self) -> Verdict {
        match self {
            PathValidation::Safe => Verdict::Safe,
            PathValidation::Blocked { reason } => Verdict::Blocked { reason: reason@ },
            PathValidation::Caution { reason } => Verdict::Caution { reason: reason@ },
            PathValidation::Symlink { target } => Verdict::Symlink { target: target@ },
            PathValidation::Invalid { reason } => Verdict::Invalid { reason: reason@ },
        }
    }
}

/// `path` is on or under some entry of `whitelist`, by whole components.
pub open spec fn whitelisted(whitelist: Seq<Seq<char>>, path: Seq<char>) -> bool {
    exists|i: int| 0 <= i < whitelist.len() && path_starts_with(path, #[trigger] whitelist[i])
}

/// The verdict on `path`, given the whitelist and, where the path itself is a
/// symbolic link whose target could be read, that target. The first rule
/// that applies decides.
pub open spec fn classify(
    whitelist: Seq<Seq<char>>,
    path: Seq<char>,
    link: Option<Seq<char>>,
) -> Verdict {
    if path.len() == 0 {
        Verdict::Invalid { reason: "Empty path"@ }
    } else if path[0] != '/' {
        Verdict::Invalid { reason: "Path must be absolute"@ }
    } else if has_parent_component(path) {
        Verdict::Invalid { reason: "Path traversal detected"@ }
    } else if system_block(path) is Some {
        Verdict::Blocked {
            reason: "System path protected: "@ + blocked_prefixes()[system_block(path)->0],
        }
    } else if whitelisted(whitelist, path) {
        Verdict::Blocked { reason: "Path is whitelisted by user"@ }
    } else if link is Some {
        Verdict::Symlink { target: link->0 }
    } else if first_equal(caution_entries(), path, 0) is Some {
        Verdict::Caution {
            reason: "Deleting "@ + caution_entries()[first_equal(caution_entries(), path, 0)->0]
                + " requires confirmation"@,
        }
    } else {
        Verdict::Safe
    }
}

/// The verdict for a deletion made with superuser rights: as `classify`, but
/// a path found safe is still blocked when its fully resolved form
/// `canonical` is protected by a blocked prefix.
pub open spec fn classify_privileged(
    whitelist: Seq<Seq<char>>,
    path: Seq<char>,
    link: Option<Seq<char>>,
    canonical: Option<Seq<char>>,
) -> Verdict {
    let base = classify(whitelist, path, link);
    if base != Verdict::Safe {
        base
    } else if canonical is Some && system_block(canonical->0) is Some {
        Verdict::Blocked { reason: "Symlink resolves to protected path: "@ + canonical->0 }
    } else {
        Verdict::Safe
    }
}

/// Whether `path` is one of the safe cache locations or lies inside one.
pub fn is_safe_cache(path: &Vec<char>) -> (r: bool)
    ensures
        r == in_safe_cache(path@),
{
    let table = safe_cache_table();
    let mut i: usize = 0;
    while i < table.len()
        invariant
            i <= table.len(),
            table_views(table@) == safe_cache_patterns(),
            forall|j: int| 0 <= j < i ==> !on_or_under(#[trigger] safe_cache_patterns()[j], path@),
        decreases table.len() - i,
    {
        let pattern = chars_of(table[i]);
        assert(table_views(table@)[i as int] == table@[i as int]@);
        if is_on_or_under(&pattern, path) {
            return true;
        }
        i += 1;
    }
    assert(table_views(table@).len() == table@.len());
    false
}

/// The blocked entry that protects `path`, if there is one.
pub fn find_system_block(path: &Vec<char>) -> (r: Option<&'static str>)
    ensures
        r is Some == system_block(path@) is Some,
        r matches Some(s) ==> s@ == blocked_prefixes()[system_block(path@)->0],
{
    if is_safe_cache(path) {
        return None;
    }
    let table = blocked_paths();
    let mut i: usize = 0;
    assert(table_views(table@).len() == table@.len());
    while i < table.len()
        invariant
            i <= table.len(),
            table_views(table@) == blocked_prefixes(),
            table_views(table@).len() == table@.len(),
            !in_safe_cache(path@),
            first_under(blocked_prefixes(), path@, 0) == first_under(
                blocked_prefixes(),
                path@,
                i as int,
            ),
        decreases table.len() - i,
    {
        let entry = chars_of(table[i]);
        assert(table_views(table@)[i as int] == table@[i as int]@);
        if is_on_or_under(&entry, path) {
            return Some(table[i]);
        }
        i += 1;
    }
    None
}

/// The caution entry that equals `path`, if there is one.
pub fn find_caution(path: &Vec<char>) -> (r: Option<&'static str>)
    ensures
        r is Some == first_equal(caution_entries(), path@, 0) is Some,
        r matches Some(s) ==> s@ == caution_entries()[first_equal(caution_entries(), path@, 0)->0],
{
    let table = caution_paths();
    let mut i: usize = 0;
    assert(table_views(table@).len() == table@.len());
    while i < table.len()
        invariant
            i <= table.len(),
            table_views(table@) == caution_entries(),
            table_views(table@).len() == table@.len(),
            first_equal(caution_entries(), path@, 0) == first_equal(
                caution_entries(),
                path@,
                i as int,
            ),
        decreases table.len() - i,
    {
        let entry = chars_of(table[i]);
        assert(table_views(table@)[i as int] == table@[i as int]@);
        if same_chars(&entry, path) {
            return Some(table[i]);
        }
        i += 1;
    }
    None
}

/// Validates paths before deletion: built-in protected locations plus the
/// user's whitelist.
pub struct SecurityValidator {
    whitelist: Vec<String>,
    large_deletion_threshold: u64,
}

impl SecurityValidator {
    #[verifier::type_invariant]
    spec fn threshold_is_fixed(self) -> bool {
        self.large_deletion_threshold == LARGE_DELETION_THRESHOLD
    }

    /// The whitelist entries, in order.
    pub closed spec fn entries(&self) -> Seq<Seq<char>> {
        string_views(self.whitelist@)
    }

    /// A validator that protects the given whitelist entries.
    pub fn new(whitelist: Vec<String>) -> (v: Self)
        ensures
            v.entries() == string_views(whitelist@),
    {
        SecurityValidator { whitelist, large_deletion_threshold: LARGE_DELETION_THRESHOLD }
    }

    /// Whether `path` is on or under an entry of the user's whitelist.
    pub fn is_whitelisted(&self, path: &str) -> (r: bool)
        ensures
            r == whitelisted(self.entries(), path@),
    {
        let p = components_of(&chars_of(path));
        let mut i: usize = 0;
        while i < self.whitelist.len()
            invariant
                i <= self.whitelist.len(),
                views(p@) == components(path@),
                forall|j: int|
                    0 <= j < i ==> !path_starts_with(path@, #[trigger] self.entries()[j]),
            decreases self.whitelist.len() - i,
        {
            let entry = components_of(&chars_of(self.whitelist[i].as_str()));
            assert(self.entries()[i as int] == self.whitelist@[i as int]@);
            if components_start_with(&p, &entry) {
                return true;
            }
            i += 1;
        }
        false
    }

    /// Whether `path` is one of the cache locations that stay deletable
    /// inside a blocked prefix.
    pub fn is_safe_cache_subdir(&self, path: &str) -> (r: bool)
        ensures
            r == in_safe_cache(path@),
    {
        is_safe_cache(&chars_of(path))
    }

    /// Whether deleting `size` bytes counts as a large deletion.
    pub fn is_large_deletion(&self, size: u64) -> (r: bool)
        ensures
            r == (size >= LARGE_DELETION_THRESHOLD),
    {
        proof {
            use_type_invariant(self);
        }
        size >= self.large_deletion_threshold
    }

    /// Whether `path` lies in the invoking user's home directory: what
    /// `is_within_home` says for the home directory that the environment
    /// names. Which directory that is cannot be known here; it is never the
    /// empty path, so the empty path lies in no home directory.
    pub fn is_in_home_directory(path: &str) -> (r: bool)
        ensures
            exists|home: Option<Seq<char>>| is_named_home(home) && r == within_home(path@, home),
            path@.len() == 0 ==> !r,
    {
        let home = home_dir();
        let r = match &home {
            Some(h) => is_within_home(path, Some(h.as_str())),
            None => is_within_home(path, None),
        };
        proof {
            assert(is_named_home(opt_view(home)) && r == within_home(path@, opt_view(home)));
            if path@.len() == 0 && home is Some {
                lemma_empty_path_lies_nowhere(home->0@);
                assert(path@ =~= Seq::<char>::empty());
            }
        }
        r
    }

    /// Classifies `path`. `link_target` is the target of `path` where `path`
    /// itself is a symbolic link whose target could be read, and `None`
    /// otherwise; the target is handed back, not validated.
    pub fn validate_path(&self, path: &str, link_target: Option<String>) -> (verdict:
        PathValidation)
        ensures
            verdict@ == classify(self.entries(), path@, opt_view(link_target)),
    {
        let p = chars_of(path);
        if p.len() == 0 {
            return PathValidation::Invalid { reason: String::from_str("Empty path") };
        }
        if p[0] != '/' {
            return PathValidation::Invalid { reason: String::from_str("Path must be absolute") };
        }
        if has_traversal(&p) {
            return PathValidation::Invalid { reason: String::from_str("Path traversal detected") };
        }
        if let Some(blocked) = find_system_block(&p) {
            return PathValidation::Blocked {
                reason: String::from_str("System path protected: ").concat(blocked),
            };
        }
        if self.is_whitelisted(path) {
            return PathValidation::Blocked {
                reason: String::from_str("Path is whitelisted by user"),
            };
        }
        if let Some(target) = link_target {
            return PathValidation::Symlink { target };
        }
        if let Some(caution) = find_caution(&p) {
            return PathValidation::Caution {
                reason: String::from_str("Deleting ").concat(caution).concat(
                    " requires confirmation",
                ),
            };
        }
        PathValidation::Safe
    }

    /// Whether `path` is refused outright, as blocked or as invalid. The
    /// rules that refuse come before the link is looked at, so the answer
    /// holds whatever the path is on disk, and a refused path need not be
    /// looked up there at all.
    pub fn is_refused(&self, path: &str) -> (r: bool)
        ensures
            forall|link: Option<Seq<char>>|
                r == (#[trigger] classify(self.entries(), path@, link) is Blocked || classify(
                    self.entries(),
                    path@,
                    link,
                ) is Invalid),
    {
        match self.validate_path(path, None) {
            PathValidation::Blocked { reason } => true,
            PathValidation::Invalid { reason } => true,
            _ => false,
        }
    }

    /// Classifies `path` for a deletion made with superuser rights.
    /// `canonical` is the fully resolved form of `path` where it could be
    /// resolved, and `None` otherwise.
    pub fn validate_sudo_operation(
        &self,
        path: &str,
        link_target: Option<String>,
        canonical: Option<String>,
    ) -> (verdict: PathValidation)
        ensures
            verdict@ == classify_privileged(
                self.entries(),
                path@,
                opt_view(link_target),
                opt_view(canonical),
            ),
    {
        let base = self.validate_path(path, link_target);
        match base {
            PathValidation::Safe => {},
            _ => {
                return base;
            },
        }
        if let Some(resolved) = canonical {
            let r = chars_of(resolved.as_str());
            if find_system_block(&r).is_some() {
                return PathValidation::Blocked {
                    reason: String::from_str("Symlink resolves to protected path: ").concat(
                        resolved.as_str(),
                    ),
                };
            }
        }
        PathValidation::Safe
    }
}

impl Default for SecurityValidator {
    /// A validator with an empty whitelist.
    fn default() -> (v: Self)
        ensures
            v.entries() == Seq::<Seq<char>>::empty(),
    {
        let v = Self::new(Vec::new());
        assert(v.entries() =~= Seq::<Seq<char>>::empty());
        v
    }
}

/// A line of the whitelist file names an entry: it is not blank and does not
/// begin with the comment marker `#`.
pub open spec fn is_listed(line: Seq<char>) -> bool {
    !is_blank(line) && !(line.len() > 0 && line[0] == '#')
}

/// `is_listed` as a predicate value.
pub open spec fn listed() -> spec_fn(Seq<char>) -> bool {
    |line: Seq<char>| is_listed(line)
}

/// The path that a listed line stands for. A line that begins with `~`
/// means the home directory joined with what follows the first two
/// characters (`~/`); where no home directory is known, and for every other
/// line, the line stands for itself.
pub open spec fn expanded(line: Seq<char>, home: Option<Seq<char>>) -> Seq<char> {
    if line.len() > 0 && line[0] == '~' && home is Some {
        joined(
            home->0,
            line.skip(
                if line.len() >= 2 {
                    2
                } else {
                    1
                },
            ),
        )
    } else {
        line
    }
}

/// `expanded` for a fixed home directory, as a function value.
pub open spec fn expanding(home: Option<Seq<char>>) -> spec_fn(Seq<char>) -> Seq<char> {
    |line: Seq<char>| expanded(line, home)
}

/// The whitelist that the text of a whitelist file stands for.
pub open spec fn whitelist_entries(text: Seq<char>, home: Option<Seq<char>>) -> Seq<Seq<char>> {
    lines(text).filter(listed()).map_values(expanding(home))
}

/// The whitelist file below the configuration directory `config`, or below
/// the current directory where there is none.
pub open spec fn whitelist_location(config: Option<Seq<char>>) -> Seq<char> {
    joined(
        joined(
            match config {
                Some(dir) => dir,
                None => "."@,
            },
            "mole-rs"@,
        ),
        "whitelist"@,
    )
}

/// Reads the whitelist out of the text of a whitelist file: one path per
/// line, blank lines and `#` comments skipped, a leading `~` expanded to
/// `home`.
pub fn parse_whitelist(text: &str, home: Option<&str>) -> (entries: Vec<String>)
    ensures
        string_views(entries@) == whitelist_entries(text@, opt_str_view(home)),
{
    let all = lines_of(&chars_of(text));
    let home_chars: Option<Vec<char>> = match home {
        Some(h) => Some(chars_of(h)),
        None => None,
    };
    let ghost h = opt_str_view(home);
    let mut entries: Vec<String> = Vec::new();
    let mut i: usize = 0;
    proof {
        assert(views(all@).take(0).filter(listed()) =~= Seq::<Seq<char>>::empty()) by {
            reveal(Seq::filter);
        }
    }
    while i < all.len()
        invariant
            i <= all.len(),
            views(all@) == lines(text@),
            h == opt_str_view(home),
            match home_chars {
                Some(c) => h == Some(c@),
                None => h is None,
            },
            string_views(entries@) == views(all@).take(i as int).filter(listed()).map_values(
                expanding(h),
            ),
        decreases all.len() - i,
    {
        let line = &all[i];
        let keep = !all_whitespace(line) && !(line.len() > 0 && line[0] == '#');
        proof {
            let l = views(all@);
            assert(l[i as int] == line@);
            assert(l.take(i + 1) =~= l.take(i as int).push(line@));
            l.take(i as int).lemma_filter_push(line@, listed());
        }
        if keep {
            let ghost before = entries@;
            let entry: String = match &home_chars {
                Some(c) => {
                    if line[0] == '~' {
                        let from: usize = if line.len() >= 2 {
                            2
                        } else {
                            1
                        };
                        let mut rest: Vec<char> = Vec::new();
                        let mut k: usize = from;
                        while k < line.len()
                            invariant
                                from <= k <= line.len(),
                                rest@ == line@.subrange(from as int, k as int),
                            decreases line.len() - k,
                        {
                            rest.push(line[k]);
                            k += 1;
                        }
                        assert(rest@ =~= line@.skip(from as int));
                        string_of(&join_chars(c, &rest))
                    } else {
                        string_of(line)
                    }
                },
                None => string_of(line),
            };
            assert(entry@ == expanded(line@, h));
            entries.push(entry);
            proof {
                let kept = views(all@).take(i as int).filter(listed());
                assert(string_views(entries@) =~= string_views(before).push(entry@));
                assert(kept.push(line@).map_values(expanding(h)) =~= kept.map_values(
                    expanding(h),
                ).push(expanded(line@, h)));
            }
        }
        i += 1;
    }
    assert(views(all@).take(all.len() as int) =~= views(all@));
    entries
}

/// The whitelist that the program runs with: what the whitelist file holds,
/// or nothing where the file could not be read (`content` is `None`).
pub fn load_whitelist(content: Option<&str>, home: Option<&str>) -> (entries: Vec<String>)
    ensures
        string_views(entries@) == match content {
            Some(text) => whitelist_entries(text@, opt_str_view(home)),
            None => Seq::<Seq<char>>::empty(),
        },
{
    match content {
        Some(text) => parse_whitelist(text, home),
        None => {
            let entries: Vec<String> = Vec::new();
            assert(string_views(entries@) =~= Seq::<Seq<char>>::empty());
            entries
        },
    }
}

/// Where the whitelist file lies for the configuration directory `config`.
pub fn whitelist_path_in(config: Option<&str>) -> (path: String)
    ensures
        path@ == whitelist_location(opt_str_view(config)),
{
    let base = match config {
        Some(dir) => dir,
        None => ".",
    };
    let dir = join_path(base, "mole-rs");
    join_path(dir.as_str(), "whitelist")
}

/// Where the whitelist file lies for the invoking user.
pub fn whitelist_path() -> (path: String)
    ensures
        exists|config: Option<Seq<char>>| path@ == whitelist_location(config),
{
    let config = config_dir();
    let path = match &config {
        Some(dir) => whitelist_path_in(Some(dir.as_str())),
        None => whitelist_path_in(None),
    };
    assert(path@ == whitelist_location(opt_view(config)));
    path
}

/// `path` is `home` or lies below it; no home directory holds nothing.
pub open spec fn within_home(path: Seq<char>, home: Option<Seq<char>>) -> bool {
    home matches Some(h) && path_starts_with(path, h)
}

/// Whether `path` is `home` or lies below it; no home directory holds
/// nothing.
pub fn is_within_home(path: &str, home: Option<&str>) -> (r: bool)
    ensures
        r == (home matches Some(h) && path_starts_with(path@, h@)),
{
    match home {
        Some(h) => starts_with_path(path, h),
        None => false,
    }
}

/// `c` is a control character: U+0000 to U+001F or U+007F to U+009F.
pub open spec fn is_control(c: char) -> bool {
    c as u32 <= 0x1f || 0x7f <= c as u32 <= 0x9f
}

/// `path` holds a control character; NUL, line feed and carriage return are
/// among them.
pub open spec fn has_control(path: Seq<char>) -> bool {
    exists|i: int| 0 <= i < path.len() && is_control(#[trigger] path[i])
}

/// Whether `path` holds characters that are dangerous in a path: any control
/// character.
pub fn contains_dangerous_chars(path: &str) -> (r: bool)
    ensures
        r == has_control(path@),
{
    let p = chars_of(path);
    let mut i: usize = 0;
    while i < p.len()
        invariant
            i <= p.len(),
            p@ == path@,
            forall|j: int| 0 <= j < i ==> !is_control(#[trigger] p@[j]),
        decreases p.len() - i,
    {
        let u: u32 = p[i] as u32;
        if u <= 0x1f || (0x7f <= u && u <= 0x9f) {
            assert(is_control(p@[i as int]));
            return true;
        }
        i += 1;
    }
    false
}

/// What is left of a component list once it is walked from the front: `..`
/// removes the component before it (the root too) or nothing where there is
/// none, `.` is passed over, the root starts afresh, and every other
/// component is kept.
pub open spec fn resolved(comps: Seq<Seq<char>>) -> Seq<Seq<char>>
    decreases comps.len(),
{
    if comps.len() == 0 {
        comps
    } else {
        let init = resolved(comps.drop_last());
        let c = comps.last();
        if c == seq!['.', '.'] {
            if init.len() > 0 {
                init.drop_last()
            } else {
                init
            }
        } else if c == seq!['.'] {
            init
        } else if c == seq!['/'] {
            seq![c]
        } else {
            init.push(c)
        }
    }
}

/// The path that a component list spells.
pub open spec fn rendered(comps: Seq<Seq<char>>) -> Seq<char>
    decreases comps.len(),
{
    if comps.len() == 0 {
        Seq::<char>::empty()
    } else {
        joined(rendered(comps.drop_last()), comps.last())
    }
}

/// The normal form of `path`: none where it holds a control character or
/// nothing is left of it, else its components resolved and spelled out.
pub open spec fn sanitized(path: Seq<char>) -> Option<Seq<char>> {
    if has_control(path) || resolved(components(path)).len() == 0 {
        None
    } else {
        Some(rendered(resolved(components(path))))
    }
}

/// Sanitizes `path` by resolving `.` and `..` textually.
pub fn sanitize_path(path: &str) -> (r: Option<String>)
    ensures
        opt_view(r) == sanitized(path@),
{
    if contains_dangerous_chars(path) {
        return None;
    }
    let comps = components_of(&chars_of(path));
    let mut stack: Vec<Vec<char>> = Vec::new();
    let mut i: usize = 0;
    assert(views(comps@).take(0) =~= Seq::<Seq<char>>::empty());
    while i < comps.len()
        invariant
            i <= comps.len(),
            views(stack@) == resolved(views(comps@).take(i as int)),
        decreases comps.len() - i,
    {
        let c = &comps[i];
        let ghost before = stack@;
        proof {
            let all = views(comps@);
            assert(all[i as int] == c@);
            assert(all.take(i + 1).drop_last() =~= all.take(i as int));
            assert(all.take(i + 1).last() == c@);
        }
        if c.len() == 2 && c[0] == '.' && c[1] == '.' {
            assert(c@ =~= seq!['.', '.']);
            if stack.len() > 0 {
                stack.pop();
                assert(views(stack@) =~= views(before).drop_last());
            }
        } else if c.len() == 1 && c[0] == '.' {
            assert(c@ =~= seq!['.']);
            assert(c@ != seq!['.', '.']);
        } else if c.len() == 1 && c[0] == '/' {
            assert(c@ =~= seq!['/']);
            assert(c@ != seq!['.', '.']);
            assert(c@ != seq!['.']) by {
                assert(c@[0] != seq!['.'][0]);
            }
            stack = Vec::new();
            stack.push(c.clone());
            assert(views(stack@) =~= seq![c@]);
        } else {
            assert(c@ != seq!['.', '.']) by {
                if c@ == seq!['.', '.'] {
                    assert(c@.len() == 2 && c@[0] == '.' && c@[1] == '.');
                }
            }
            assert(c@ != seq!['.']) by {
                if c@ == seq!['.'] {
                    assert(c@.len() == 1 && c@[0] == '.');
                }
            }
            assert(c@ != seq!['/']) by {
                if c@ == seq!['/'] {
                    assert(c@.len() == 1 && c@[0] == '/');
                }
            }
            stack.push(c.clone());
            assert(views(stack@) =~= views(before).push(c@));
        }
        i += 1;
    }
    assert(views(comps@).take(comps.len() as int) =~= views(comps@));
    if stack.len() == 0 {
        return None;
    }
    let mut out: Vec<char> = Vec::new();
    let mut k: usize = 0;
    assert(views(stack@).take(0) =~= Seq::<Seq<char>>::empty());
    while k < stack.len()
        invariant
            k <= stack.len(),
            out@ == rendered(views(stack@).take(k as int)),
        decreases stack.len() - k,
    {
        proof {
            let all = views(stack@);
            assert(all[k as int] == stack@[k as int]@);
            assert(all.take(k + 1).drop_last() =~= all.take(k as int));
            assert(all.take(k + 1).last() == stack@[k as int]@);
        }
        out = join_chars(&out, &stack[k]);
        k += 1;
    }
    assert(views(stack@).take(stack.len() as int) =~= views(stack@));
    Some(string_of(&out))
}

} // verus!

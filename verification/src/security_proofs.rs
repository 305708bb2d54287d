//! Facts about the path classifier, proved once for every input.

use crate::pathname::{components, is_rooted, lead, named, path_starts_with};
use crate::security::{
    blocked_prefixes, caution_entries, classify, classify_privileged, first_equal, first_under,
    has_parent_component, in_safe_cache, on_or_under, safe_cache_patterns, system_block,
    whitelisted, Verdict,
};
use crate::text::{contains_seq, lemma_split_is_nonempty, occurs_at, split};
use vstd::prelude::*;

verus! {

/// An empty path and a path that does not begin at the root are invalid,
/// whatever the whitelist and whatever the path is on disk.
pub proof fn lemma_non_absolute_is_invalid(
    whitelist: Seq<Seq<char>>,
    path: Seq<char>,
    link: Option<Seq<char>>,
)
    requires
        path.len() == 0 || path[0] != '/',
    ensures
        classify(whitelist, path, link) is Invalid,
{
}

/// A path with a `..` component is invalid, wherever the component stands
/// and whatever the path would resolve to.
pub proof fn lemma_traversal_is_invalid(
    whitelist: Seq<Seq<char>>,
    path: Seq<char>,
    link: Option<Seq<char>>,
)
    requires
        has_parent_component(path),
    ensures
        classify(whitelist, path, link) is Invalid,
{
}

/// The verdict depends on nothing but the whitelist, the path and what the
/// path is on disk: classifying the same unchanged path again gives the same
/// verdict.
pub proof fn lemma_classify_is_repeatable(
    whitelist: Seq<Seq<char>>,
    path: Seq<char>,
    link: Option<Seq<char>>,
    first: Verdict,
    second: Verdict,
)
    requires
        first == classify(whitelist, path, link),
        second == classify(whitelist, path, link),
    ensures
        first == second,
{
}

/// A whitelist only ever adds refusals: where the verdict with a whitelist
/// differs from the verdict without one, it is the whitelist block. So no
/// entry lets a path past the rules on empty, relative and traversing paths
/// or past a system block, and an entry can silence a caution or hide a link
/// only by blocking the path.
pub proof fn lemma_whitelist_only_blocks(
    whitelist: Seq<Seq<char>>,
    path: Seq<char>,
    link: Option<Seq<char>>,
)
    ensures
        classify(whitelist, path, link) == classify(Seq::<Seq<char>>::empty(), path, link)
            || classify(whitelist, path, link) == (Verdict::Blocked {
            reason: "Path is whitelisted by user"@,
        }),
{
    assert(!whitelisted(Seq::<Seq<char>>::empty(), path));
}

/// Splitting distributes over a separator: the pieces of `a`, `sep`, `b` are
/// the pieces of `a` followed by the pieces of `b`.
pub proof fn lemma_split_at_separator(a: Seq<char>, b: Seq<char>, sep: char)
    ensures
        split(a + seq![sep] + b, sep) == split(a, sep) + split(b, sep),
    decreases b.len(),
{
    let whole = a + seq![sep] + b;
    lemma_split_is_nonempty(b, sep);
    if b.len() == 0 {
        assert(whole.drop_last() =~= a);
        assert(whole.last() == sep);
        assert(split(a, sep).push(Seq::<char>::empty()) =~= split(a, sep) + split(b, sep));
    } else {
        let shorter = b.drop_last();
        lemma_split_at_separator(a, shorter, sep);
        lemma_split_is_nonempty(shorter, sep);
        assert(whole.drop_last() =~= a + seq![sep] + shorter);
        assert(whole.last() == b.last());
        let init = split(a, sep) + split(shorter, sep);
        if b.last() == sep {
            assert(init.push(Seq::<char>::empty()) =~= split(a, sep) + split(b, sep));
        } else {
            assert(init.last() == split(shorter, sep).last());
            assert(init.drop_last() =~= split(a, sep) + split(shorter, sep).drop_last());
            assert(init.drop_last().push(init.last().push(b.last())) =~= split(a, sep) + split(
                b,
                sep,
            ));
        }
    }
}

/// A path that is textually `base` or `base`, a separator and more is on or
/// under `base` by whole components too.
pub proof fn lemma_textual_descendant_starts_with(base: Seq<char>, path: Seq<char>)
    requires
        on_or_under(base, path),
    ensures
        path_starts_with(path, base),
{
    if path != base {
        let ext = base + seq!['/'];
        let rest = path.skip(ext.len() as int);
        assert(path =~= base + seq!['/'] + rest) by {
            assert(path.subrange(0, ext.len() as int) == ext);
            assert(path =~= path.subrange(0, ext.len() as int) + rest);
        }
        lemma_split_at_separator(base, rest, '/');
        lemma_split_is_nonempty(base, '/');
        Seq::filter_distributes_over_add(split(base, '/'), split(rest, '/'), named());
        assert(lead(path) == lead(base) || base.len() == 0) by {
            if base.len() > 0 {
                assert(path[0] == base[0]);
                assert(split(path, '/')[0] == split(base, '/')[0]);
            }
        }
        if base.len() == 0 {
            let none = Seq::<Seq<char>>::empty();
            assert(split(base, '/') =~= none.push(Seq::<char>::empty()));
            none.lemma_filter_push(Seq::<char>::empty(), named());
            assert(none.filter(named()) =~= none) by {
                reveal(Seq::filter);
            }
            assert(split(base, '/').filter(named()) =~= none);
            assert(components(base) =~= Seq::<Seq<char>>::empty());
            assert(components(path).subrange(0, 0) =~= components(base));
        } else {
            assert(components(path) =~= components(base) + split(rest, '/').filter(named()));
            assert(components(path).subrange(0, components(base).len() as int) =~= components(
                base,
            ));
        }
    } else {
        assert(components(path).subrange(0, components(base).len() as int) =~= components(base));
    }
}

/// A well-formed path that no system rule blocks and that is on or under a
/// whitelist entry is blocked, and the reason names the whitelist, whether
/// or not the path is a link or would otherwise be safe.
pub proof fn lemma_whitelisted_is_blocked(
    whitelist: Seq<Seq<char>>,
    entry: int,
    path: Seq<char>,
    link: Option<Seq<char>>,
)
    requires
        0 <= entry < whitelist.len(),
        on_or_under(whitelist[entry], path) || path_starts_with(path, whitelist[entry]),
        is_rooted(path),
        !has_parent_component(path),
        system_block(path) is None,
    ensures
        classify(whitelist, path, link) == (Verdict::Blocked {
            reason: "Path is whitelisted by user"@,
        }),
        contains_seq("Path is whitelisted by user"@, "whitelist"@),
{
    if on_or_under(whitelist[entry], path) {
        lemma_textual_descendant_starts_with(whitelist[entry], path);
    }
    assert(whitelisted(whitelist, path));
    reveal_strlit("Path is whitelisted by user");
    reveal_strlit("whitelist");
    let reason = "Path is whitelisted by user"@;
    assert(reason.subrange(8, 17) =~= "whitelist"@);
    assert(occurs_at(reason, "whitelist"@, 8));
}

/// No entry at or after `from` matches exactly when the search from there
/// finds nothing; a found index is in range and matches.
pub proof fn lemma_first_under(table: Seq<Seq<char>>, path: Seq<char>, from: int)
    requires
        0 <= from,
    ensures
        first_under(table, path, from) is None <==> (forall|j: int|
            from <= j < table.len() ==> !on_or_under(#[trigger] table[j], path)),
        first_under(table, path, from) matches Some(k) ==> from <= k < table.len() && on_or_under(
            table[k],
            path,
        ),
    decreases table.len() - from,
{
    if from < table.len() {
        lemma_first_under(table, path, from + 1);
        if !on_or_under(table[from], path) {
            assert forall|j: int| from <= j < table.len() && first_under(table, path, from)
                is None implies !on_or_under(#[trigger] table[j], path) by {
                if j > from {
                }
            }
        }
    }
}

/// No entry at or after `from` equals `path` exactly when the search from
/// there finds nothing; a found index is in range and holds `path`.
pub proof fn lemma_first_equal(table: Seq<Seq<char>>, path: Seq<char>, from: int)
    requires
        0 <= from,
    ensures
        first_equal(table, path, from) is None <==> (forall|j: int|
            from <= j < table.len() ==> #[trigger] table[j] != path),
        first_equal(table, path, from) matches Some(k) ==> from <= k < table.len() && table[k]
            == path,
    decreases table.len() - from,
{
    if from < table.len() {
        lemma_first_equal(table, path, from + 1);
        if table[from] != path {
            assert forall|j: int| from <= j < table.len() && first_equal(table, path, from)
                is None implies #[trigger] table[j] != path by {
                if j > from {
                }
            }
        }
    }
}

/// `entry` is a plain location: not empty, without a dot, and without a
/// separator at its end unless it is the root.
pub open spec fn plain_entry(entry: Seq<char>) -> bool {
    &&& entry.len() > 0
    &&& entry[0] == '/'
    &&& forall|k: int| 0 <= k < entry.len() ==> entry[k] != '.'
    &&& (entry.len() == 1 || entry.last() != '/')
}

/// Every blocked prefix is a plain location.
pub proof fn lemma_blocked_prefixes_are_plain()
    ensures
        blocked_prefixes().len() == 22,
        forall|j: int| 0 <= j < 22 ==> plain_entry(#[trigger] blocked_prefixes()[j]),
{
    reveal_strlit("/");
    reveal_strlit("/bin");
    reveal_strlit("/boot");
    reveal_strlit("/dev");
    reveal_strlit("/etc");
    reveal_strlit("/lib");
    reveal_strlit("/lib32");
    reveal_strlit("/lib64");
    reveal_strlit("/libx32");
    reveal_strlit("/proc");
    reveal_strlit("/root");
    reveal_strlit("/run");
    reveal_strlit("/sbin");
    reveal_strlit("/srv");
    reveal_strlit("/sys");
    reveal_strlit("/usr");
    reveal_strlit("/var");
    reveal_strlit("/var/lib");
    reveal_strlit("/var/log");
    reveal_strlit("/var/run");
    reveal_strlit("/snap/core");
    reveal_strlit("/snap/snapd");
    let t = blocked_prefixes();
    assert(plain_entry(t[0]));
    assert(plain_entry(t[1]));
    assert(plain_entry(t[2]));
    assert(plain_entry(t[3]));
    assert(plain_entry(t[4]));
    assert(plain_entry(t[5]));
    assert(plain_entry(t[6]));
    assert(plain_entry(t[7]));
    assert(plain_entry(t[8]));
    assert(plain_entry(t[9]));
    assert(plain_entry(t[10]));
    assert(plain_entry(t[11]));
    assert(plain_entry(t[12]));
    assert(plain_entry(t[13]));
    assert(plain_entry(t[14]));
    assert(plain_entry(t[15]));
    assert(plain_entry(t[16]));
    assert(plain_entry(t[17]));
    assert(plain_entry(t[18]));
    assert(plain_entry(t[19]));
    assert(plain_entry(t[20]));
    assert(plain_entry(t[21]));
}

/// Every caution entry is a plain location.
pub proof fn lemma_caution_entries_are_plain()
    ensures
        caution_entries().len() == 5,
        forall|j: int| 0 <= j < 5 ==> plain_entry(#[trigger] caution_entries()[j]),
{
    reveal_strlit("/opt");
    reveal_strlit("/home");
    reveal_strlit("/tmp");
    reveal_strlit("/var/tmp");
    reveal_strlit("/var/cache");
    let t = caution_entries();
    assert(plain_entry(t[0]));
    assert(plain_entry(t[1]));
    assert(plain_entry(t[2]));
    assert(plain_entry(t[3]));
    assert(plain_entry(t[4]));
}

/// A plain location that does not protect a rooted directory does not
/// protect what lies in a dot-named entry of that directory either.
pub proof fn lemma_plain_entry_stays_clear(
    entry: Seq<char>,
    dir: Seq<char>,
    below: Seq<char>,
)
    requires
        plain_entry(entry),
        is_rooted(dir),
        !on_or_under(entry, dir),
        below.len() >= 2,
        below[0] == '/',
        below[1] == '.',
    ensures
        !on_or_under(entry, dir + below),
{
    let path = dir + below;
    let ext = entry + seq!['/'];
    if on_or_under(entry, path) {
        if entry.len() < dir.len() {
            assert(path != entry);
            assert(path.subrange(0, ext.len() as int) == ext);
            assert(dir.subrange(0, ext.len() as int) =~= path.subrange(0, ext.len() as int));
            assert(ext.is_prefix_of(dir));
        } else if entry.len() == dir.len() {
            assert(path != entry);
            assert(path.subrange(0, ext.len() as int) == ext);
            assert(dir =~= entry) by {
                assert forall|k: int| 0 <= k < dir.len() implies dir[k] == entry[k] by {
                    assert(path.subrange(0, ext.len() as int)[k] == ext[k]);
                }
            }
        } else {
            // The entry reaches into `below`, whose second character is a dot.
            let k = dir.len() as int;
            if path == entry {
                if entry.len() == k + 1 {
                    assert(entry.last() == path[k]);
                } else {
                    assert(entry[k + 1] == path[k + 1]);
                }
            } else {
                assert(path.subrange(0, ext.len() as int) == ext);
                if entry.len() == k + 1 {
                    assert(path.subrange(0, ext.len() as int)[k] == ext[k]);
                    assert(entry.last() == '/');
                } else {
                    assert(path.subrange(0, ext.len() as int)[k + 1] == ext[k + 1]);
                    assert(entry[k + 1] == '.');
                }
            }
        }
    }
}

/// With an empty whitelist, anything inside the `.cache` directory of a home
/// directory is safe to delete, provided the home directory is rooted and
/// not itself protected, and the path has no `..` component and is not a
/// symbolic link.
pub proof fn lemma_home_cache_is_safe(home: Seq<char>, rest: Seq<char>)
    requires
        is_rooted(home),
        first_under(blocked_prefixes(), home, 0) is None || in_safe_cache(
            home + "/.cache/"@ + rest,
        ),
        !has_parent_component(home + "/.cache/"@ + rest),
    ensures
        classify(Seq::<Seq<char>>::empty(), home + "/.cache/"@ + rest, None) == Verdict::Safe,
{
    reveal_strlit("/.cache/");
    let below = "/.cache/"@ + rest;
    let path = home + "/.cache/"@ + rest;
    assert(path =~= home + below);
    assert(path[0] == home[0]);
    assert(path[home.len() as int + 1] == '.');
    if !in_safe_cache(path) {
        lemma_first_under(blocked_prefixes(), home, 0);
        lemma_blocked_prefixes_are_plain();
        assert forall|j: int| 0 <= j < blocked_prefixes().len() implies !on_or_under(
            #[trigger] blocked_prefixes()[j],
            path,
        ) by {
            lemma_plain_entry_stays_clear(blocked_prefixes()[j], home, below);
        }
        lemma_first_under(blocked_prefixes(), path, 0);
    }
    lemma_caution_entries_are_plain();
    assert forall|j: int| 0 <= j < caution_entries().len() implies #[trigger] caution_entries()[j]
        != path by {
        if caution_entries()[j] == path {
            assert(caution_entries()[j][home.len() as int + 1] == '.');
        }
    }
    lemma_first_equal(caution_entries(), path, 0);
    assert(!whitelisted(Seq::<Seq<char>>::empty(), path));
}

/// No location is both blocked and a caution entry.
pub proof fn lemma_blocked_and_caution_are_disjoint()
    ensures
        forall|i: int, j: int|
            0 <= i < blocked_prefixes().len() && 0 <= j < caution_entries().len()
                ==> #[trigger] blocked_prefixes()[i] != #[trigger] caution_entries()[j],
{
    reveal_strlit("/opt");
    reveal_strlit("/home");
    reveal_strlit("/tmp");
    reveal_strlit("/var/tmp");
    reveal_strlit("/var/cache");
    reveal_strlit("/");
    reveal_strlit("/bin");
    reveal_strlit("/boot");
    reveal_strlit("/dev");
    reveal_strlit("/etc");
    reveal_strlit("/lib");
    reveal_strlit("/lib32");
    reveal_strlit("/lib64");
    reveal_strlit("/libx32");
    reveal_strlit("/proc");
    reveal_strlit("/root");
    reveal_strlit("/run");
    reveal_strlit("/sbin");
    reveal_strlit("/srv");
    reveal_strlit("/sys");
    reveal_strlit("/usr");
    reveal_strlit("/var");
    reveal_strlit("/var/lib");
    reveal_strlit("/var/log");
    reveal_strlit("/var/run");
    reveal_strlit("/snap/core");
    reveal_strlit("/snap/snapd");
    let c = caution_entries();
    let t = blocked_prefixes();
    assert forall|i: int, j: int| 0 <= i < t.len() && 0 <= j < c.len() implies #[trigger] t[i]
        != #[trigger] c[j] by {
        let b = t[i];
        // Told apart by length and by the characters at positions 1, 2 and 5.
        if b == c[j] {
            assert(b.len() == c[j].len());
            assert(b[1] == c[j][1]);
            assert(b[2] == c[j][2]);
            if b.len() > 5 {
                assert(b[5] == c[j][5]);
            }
        }
    }
}

/// The safe cache exceptions only narrow the blocked set: each of them lies
/// under a blocked prefix.
pub proof fn lemma_safe_cache_is_nested()
    ensures
        forall|i: int|
            0 <= i < safe_cache_patterns().len() ==> first_under(
                blocked_prefixes(),
                #[trigger] safe_cache_patterns()[i],
                0,
            ) is Some,
{
    reveal_strlit("/var");
    reveal_strlit("/var/cache/apt/archives");
    reveal_strlit("/var/cache/apt/pkgcache.bin");
    reveal_strlit("/var/cache/apt/srcpkgcache.bin");
    let var = blocked_prefixes()[16];
    assert(var == "/var"@);
    assert forall|i: int| 0 <= i < safe_cache_patterns().len() implies first_under(
        blocked_prefixes(),
        #[trigger] safe_cache_patterns()[i],
        0,
    ) is Some by {
        let p = safe_cache_patterns()[i];
        assert(p.subrange(0, 5) =~= var + seq!['/']);
        assert(on_or_under(var, p));
        lemma_first_under(blocked_prefixes(), p, 0);
    }
}

/// `path` is on or under one of the blocked prefixes.
pub open spec fn under_blocked_prefix(path: Seq<char>) -> bool {
    exists|i: int|
        0 <= i < blocked_prefixes().len() && on_or_under(#[trigger] blocked_prefixes()[i], path)
}

/// A system rule protects a path exactly when the path is on or under a
/// blocked prefix and in no safe cache location.
pub proof fn lemma_system_block(path: Seq<char>)
    ensures
        system_block(path) is Some <==> under_blocked_prefix(path) && !in_safe_cache(path),
{
    lemma_first_under(blocked_prefixes(), path, 0);
    if first_under(blocked_prefixes(), path, 0) is Some {
        let k = first_under(blocked_prefixes(), path, 0)->0;
        assert(on_or_under(blocked_prefixes()[k], path));
    }
}

/// A well-formed path is blocked exactly when it is on or under a blocked
/// prefix and in no safe cache location, or is on or under a whitelist
/// entry.
pub proof fn lemma_blocked_exactly_when(
    whitelist: Seq<Seq<char>>,
    path: Seq<char>,
    link: Option<Seq<char>>,
)
    requires
        is_rooted(path),
        !has_parent_component(path),
    ensures
        classify(whitelist, path, link) is Blocked <==> (under_blocked_prefix(path)
            && !in_safe_cache(path)) || whitelisted(whitelist, path),
{
    lemma_system_block(path);
}

/// A path that only begins like a safe cache location, without being one or
/// lying inside one, is not excepted: where it lies under a blocked prefix
/// and is well formed, it is blocked.
pub proof fn lemma_lookalike_is_not_excepted(
    whitelist: Seq<Seq<char>>,
    path: Seq<char>,
    link: Option<Seq<char>>,
)
    requires
        is_rooted(path),
        !has_parent_component(path),
        under_blocked_prefix(path),
        forall|i: int|
            0 <= i < safe_cache_patterns().len() ==> path != (#[trigger] safe_cache_patterns()[i])
                && !(safe_cache_patterns()[i] + seq!['/']).is_prefix_of(path),
    ensures
        !in_safe_cache(path),
        classify(whitelist, path, link) is Blocked,
{
    lemma_system_block(path);
}

/// The privileged check blocks a path that the plain check finds safe where
/// its resolved form lies under a blocked prefix and in no safe cache
/// location; the reason names the resolved path.
pub proof fn lemma_privileged_check_blocks_resolved_path(
    whitelist: Seq<Seq<char>>,
    path: Seq<char>,
    link: Option<Seq<char>>,
    resolved: Seq<char>,
)
    requires
        classify(whitelist, path, link) == Verdict::Safe,
        under_blocked_prefix(resolved),
        !in_safe_cache(resolved),
    ensures
        classify_privileged(whitelist, path, link, Some(resolved)) == (Verdict::Blocked {
            reason: "Symlink resolves to protected path: "@ + resolved,
        }),
{
    lemma_system_block(resolved);
}

/// The privileged check is never weaker than the plain one: where it says
/// safe, the plain check says safe, and the resolved path, if there is one,
/// is under no blocked prefix or in a safe cache location. A path that does
/// not resolve keeps its plain verdict.
pub proof fn lemma_privileged_check_is_no_weaker(
    whitelist: Seq<Seq<char>>,
    path: Seq<char>,
    link: Option<Seq<char>>,
    canonical: Option<Seq<char>>,
)
    ensures
        classify_privileged(whitelist, path, link, canonical) == Verdict::Safe ==> classify(
            whitelist,
            path,
            link,
        ) == Verdict::Safe && (canonical matches Some(c) ==> !under_blocked_prefix(c)
            || in_safe_cache(c)),
        classify_privileged(whitelist, path, link, None) == classify(whitelist, path, link),
{
    if canonical is Some {
        lemma_system_block(canonical->0);
    }
}

} // verus!

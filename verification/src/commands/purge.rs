//! The purge command: which directories are build artifacts, and which of
//! them are old enough to go.

use crate::commands::clean::size_sum;
use crate::filesystem::clamp_u64;
use crate::paths::{pattern_views, DevArtifacts, PatternView};
use crate::text::{chars_of, opt_view, same_chars, string_views, table_views};
use crate::sorting::{arranged, is_sorted_by_size, order_by_size_desc};
use vstd::prelude::*;

verus! {

/// Artifacts older than this many days are selected by default.
pub const SELECT_AFTER_DAYS: u64 = 7;

/// Found artifact with metadata.
#[derive(Debug, Clone, PartialEq, Eq)]
pub struct FoundArtifact {
    pub project_name: String,
    pub artifact_type: String,
    pub path: String,
    pub size: u64,
    pub age_days: u64,
    pub selected: bool,
}

/// A found artifact with its texts as character sequences.
pub struct ArtifactView {
    pub project_name: Seq<char>,
    pub artifact_type: Seq<char>,
    pub path: Seq<char>,
    pub size: u64,
    pub age_days: u64,
    pub selected: bool,
}

impl View for FoundArtifact {
    type V = ArtifactView;

    open spec fn view(&self) -> ArtifactView {
        ArtifactView {
            project_name: self.project_name@,
            artifact_type: self.artifact_type@,
            path: self.path@,
            size: self.size,
            age_days: self.age_days,
            selected: self.selected,
        }
    }
}

/// The views of a list of artifacts.
pub open spec fn artifact_views(list: Seq<FoundArtifact>) -> Seq<ArtifactView> {
    list.map_values(|a: FoundArtifact| a@)
}

/// The sizes of a list of artifacts.
pub open spec fn artifact_sizes(list: Seq<FoundArtifact>) -> Seq<u64> {
    list.map_values(|a: FoundArtifact| a.size)
}

/// The age in whole days of something last modified `elapsed_secs` seconds
/// ago; 0 where the time is not known.
pub fn calculate_age(elapsed_secs: Option<u64>) -> (days: u64)
    ensures
        days == age_of(elapsed_secs),
{
    match elapsed_secs {
        Some(secs) => secs / 86400,
        None => 0,
    }
}

/// One of `markers` is among the names `present`.
pub open spec fn any_present(markers: Seq<Seq<char>>, present: Seq<Seq<char>>) -> bool {
    exists|i: int| 0 <= i < markers.len() && present.contains(#[trigger] markers[i])
}

/// A directory named `dir_name` is an artifact of kind `p` where the names
/// agree and the parent directory holds one of the kind's marker files; a
/// kind without marker files needs none.
pub open spec fn pattern_matches(p: PatternView, dir_name: Seq<char>, present: Seq<Seq<char>>)
    -> bool {
    p.dir_name == dir_name && (p.marker_files.len() == 0 || any_present(p.marker_files, present))
}

/// The positions of the kinds that a directory is an artifact of, in table
/// order.
pub open spec fn matching_positions(
    patterns: Seq<PatternView>,
    dir_name: Seq<char>,
    present: Seq<Seq<char>>,
) -> Seq<usize>
    decreases patterns.len(),
{
    if patterns.len() == 0 {
        Seq::<usize>::empty()
    } else {
        let init = matching_positions(patterns.drop_last(), dir_name, present);
        if pattern_matches(patterns.last(), dir_name, present) {
            init.push((patterns.len() - 1) as usize)
        } else {
            init
        }
    }
}

/// Whether `name` is among `present`.
pub fn is_present(name: &str, present: &Vec<String>) -> (r: bool)
    ensures
        r == string_views(present@).contains(name@),
{
    let n = chars_of(name);
    let mut i: usize = 0;
    while i < present.len()
        invariant
            i <= present.len(),
            n@ == name@,
            forall|j: int| 0 <= j < i ==> (#[trigger] string_views(present@)[j]) != name@,
        decreases present.len() - i,
    {
        assert(string_views(present@)[i as int] == present@[i as int]@);
        if same_chars(&chars_of(present[i].as_str()), &n) {
            return true;
        }
        i += 1;
    }
    false
}

/// Whether one of `markers` is among `present`.
pub fn has_marker(markers: &Vec<&'static str>, present: &Vec<String>) -> (r: bool)
    ensures
        r == any_present(table_views(markers@), string_views(present@)),
{
    let mut i: usize = 0;
    while i < markers.len()
        invariant
            i <= markers.len(),
            forall|j: int|
                0 <= j < i ==> !string_views(present@).contains(
                    #[trigger] table_views(markers@)[j],
                ),
        decreases markers.len() - i,
    {
        assert(table_views(markers@)[i as int] == markers@[i as int]@);
        if is_present(markers[i], present) {
            return true;
        }
        i += 1;
    }
    false
}

impl DevArtifacts {
    /// The kinds that a directory named `dir_name` is an artifact of, as
    /// positions in `patterns`; `present` holds the names found in its parent
    /// directory.
    pub fn matching(&self, dir_name: &str, present: &Vec<String>) -> (found: Vec<usize>)
        ensures
            found@ == matching_positions(
                pattern_views(self.patterns@),
                dir_name@,
                string_views(present@),
            ),
            forall|k: int| 0 <= k < found@.len() ==> (#[trigger] found@[k]) < self.patterns@.len(),
    {
        let name = chars_of(dir_name);
        let ghost all = pattern_views(self.patterns@);
        let mut found: Vec<usize> = Vec::new();
        let mut i: usize = 0;
        while i < self.patterns.len()
            invariant
                i <= self.patterns.len(),
                name@ == dir_name@,
                all == pattern_views(self.patterns@),
                found@ == matching_positions(all.take(i as int), dir_name@, string_views(present@)),
                forall|k: int| 0 <= k < found@.len() ==> (#[trigger] found@[k]) < i,
            decreases self.patterns.len() - i,
        {
            let p = &self.patterns[i];
            proof {
                assert(all[i as int] == p@);
                assert(all.take(i + 1).drop_last() =~= all.take(i as int));
                assert(all.take(i + 1).last() == p@);
            }
            if same_chars(&chars_of(p.dir_name), &name) && (p.marker_files.len() == 0 || has_marker(
                &p.marker_files,
                present,
            )) {
                found.push(i);
            }
            i += 1;
        }
        assert(all.take(self.patterns.len() as int) =~= all);
        found
    }
}

/// The name a project goes by: that of the directory that holds the
/// artifact, or `unknown` where it has none.
pub open spec fn project_name_of(parent_name: Option<Seq<char>>) -> Seq<char> {
    match parent_name {
        Some(n) => n,
        None => "unknown"@,
    }
}

impl FoundArtifact {
    /// The record of an artifact that was found. It is selected for deletion
    /// where it is more than a week old.
    pub fn new(
        parent_name: Option<String>,
        artifact_type: &str,
        path: String,
        size: u64,
        age_days: u64,
    ) -> (found: Self)
        ensures
            found@ == (ArtifactView {
                project_name: project_name_of(opt_view(parent_name)),
                artifact_type: artifact_type@,
                path: path@,
                size,
                age_days,
                selected: age_days > SELECT_AFTER_DAYS,
            }),
    {
        FoundArtifact {
            project_name: match parent_name {
                Some(n) => n,
                None => String::from_str("unknown"),
            },
            artifact_type: String::from_str(artifact_type),
            path,
            size,
            age_days,
            selected: age_days > SELECT_AFTER_DAYS,
        }
    }
}

/// A directory that a walk of the project directories found, with what was
/// read of it.
#[derive(Debug, Clone, PartialEq, Eq)]
pub struct WalkedDir {
    /// The directory's full path.
    pub path: String,
    /// Its own name.
    pub dir_name: String,
    /// The name of the directory that holds it, where that has one.
    pub parent_name: Option<String>,
    /// The names found in the directory that holds it.
    pub present: Vec<String>,
    /// The size of what lies below it.
    pub size: u64,
    /// The seconds since it was last modified, where that is known.
    pub elapsed_secs: Option<u64>,
}

/// The age in whole days of something last modified `elapsed_secs` seconds
/// ago; 0 where the time is not known.
pub open spec fn age_of(elapsed_secs: Option<u64>) -> u64 {
    match elapsed_secs {
        Some(secs) => secs / 86400,
        None => 0,
    }
}

/// The record of a walked directory as an artifact of the kind `kind`: it
/// goes by the name of the directory that holds it and is selected where it
/// is more than a week old.
pub open spec fn artifact_record(kind: PatternView, dir: WalkedDir) -> ArtifactView {
    ArtifactView {
        project_name: project_name_of(opt_view(dir.parent_name)),
        artifact_type: kind.name,
        path: dir.path@,
        size: dir.size,
        age_days: age_of(dir.elapsed_secs),
        selected: age_of(dir.elapsed_secs) > SELECT_AFTER_DAYS,
    }
}

/// The records that one walked directory gives: one for each kind that it
/// is an artifact of, in table order.
pub open spec fn artifacts_in(patterns: Seq<PatternView>, dir: WalkedDir) -> Seq<ArtifactView>
    decreases patterns.len(),
{
    if patterns.len() == 0 {
        Seq::<ArtifactView>::empty()
    } else {
        let init = artifacts_in(patterns.drop_last(), dir);
        if pattern_matches(patterns.last(), dir.dir_name@, string_views(dir.present@)) {
            init.push(artifact_record(patterns.last(), dir))
        } else {
            init
        }
    }
}

/// The records that the walked directories give, directory by directory in
/// walk order.
pub open spec fn artifacts_of(patterns: Seq<PatternView>, dirs: Seq<WalkedDir>) -> Seq<
    ArtifactView,
>
    decreases dirs.len(),
{
    if dirs.len() == 0 {
        Seq::<ArtifactView>::empty()
    } else {
        artifacts_of(patterns, dirs.drop_last()) + artifacts_in(patterns, dirs.last())
    }
}

/// Collects the build artifacts among the walked directories: every
/// directory that bears the name of a kind and whose parent holds one of the
/// kind's marker files gives a record, once for each such kind.
pub fn collect_artifacts(patterns: &DevArtifacts, dirs: &Vec<WalkedDir>) -> (found: Vec<
    FoundArtifact,
>)
    ensures
        artifact_views(found@) == artifacts_of(pattern_views(patterns.patterns@), dirs@),
{
    let ghost kinds = pattern_views(patterns.patterns@);
    let mut found: Vec<FoundArtifact> = Vec::new();
    let mut i: usize = 0;
    assert(artifact_views(found@) =~= artifacts_of(kinds, dirs@.take(0)));
    while i < dirs.len()
        invariant
            i <= dirs.len(),
            kinds == pattern_views(patterns.patterns@),
            artifact_views(found@) == artifacts_of(kinds, dirs@.take(i as int)),
        decreases dirs.len() - i,
    {
        let dir = &dirs[i];
        let name = chars_of(dir.dir_name.as_str());
        let age = calculate_age(dir.elapsed_secs);
        let ghost base = artifact_views(found@);
        let mut j: usize = 0;
        assert(base + artifacts_in(kinds.take(0), *dir) =~= base);
        while j < patterns.patterns.len()
            invariant
                j <= patterns.patterns.len(),
                kinds == pattern_views(patterns.patterns@),
                name@ == dir.dir_name@,
                age == age_of(dir.elapsed_secs),
                artifact_views(found@) == base + artifacts_in(kinds.take(j as int), *dir),
            decreases patterns.patterns.len() - j,
        {
            let p = &patterns.patterns[j];
            proof {
                assert(kinds[j as int] == p@);
                assert(kinds.take(j + 1).drop_last() =~= kinds.take(j as int));
                assert(kinds.take(j + 1).last() == p@);
            }
            if same_chars(&chars_of(p.dir_name), &name) && (p.marker_files.len() == 0 || has_marker(
                &p.marker_files,
                &dir.present,
            )) {
                let ghost before = found@;
                let record = FoundArtifact::new(
                    dir.parent_name.clone(),
                    p.name,
                    dir.path.clone(),
                    dir.size,
                    age,
                );
                assert(record@ == artifact_record(p@, *dir));
                found.push(record);
                assert(artifact_views(found@) =~= artifact_views(before).push(record@));
                assert(base + artifacts_in(kinds.take(j as int), *dir).push(record@) =~= (base
                    + artifacts_in(kinds.take(j as int), *dir)).push(record@));
            }
            j += 1;
        }
        proof {
            assert(kinds.take(patterns.patterns.len() as int) =~= kinds);
            assert(dirs@.take(i + 1).drop_last() =~= dirs@.take(i as int));
            assert(dirs@.take(i + 1).last() == *dir);
        }
        i += 1;
    }
    assert(dirs@.take(dirs.len() as int) =~= dirs@);
    found
}

/// Sorts the artifacts that were found by size, from the largest down;
/// artifacts of equal size stay in the order they were found.
pub fn scan_artifacts(found: &Vec<FoundArtifact>) -> (sorted: Vec<FoundArtifact>)
    ensures
        is_sorted_by_size(artifact_views(sorted@), artifact_views(found@), artifact_sizes(found@)),
{
    let mut sizes: Vec<u64> = Vec::new();
    let mut i: usize = 0;
    while i < found.len()
        invariant
            i <= found.len(),
            sizes@ == artifact_sizes(found@).take(i as int),
        decreases found.len() - i,
    {
        sizes.push(found[i].size);
        assert(artifact_sizes(found@).take(i + 1) =~= artifact_sizes(found@).take(i as int).push(
            found@[i as int].size,
        ));
        i += 1;
    }
    assert(sizes@ =~= artifact_sizes(found@));
    let order = order_by_size_desc(&sizes);
    let mut sorted: Vec<FoundArtifact> = Vec::new();
    let mut k: usize = 0;
    while k < order.len()
        invariant
            k <= order.len(),
            order@.len() == found@.len(),
            forall|j: int| 0 <= j < order@.len() ==> (#[trigger] order@[j]) < found@.len(),
            artifact_views(sorted@) == arranged(artifact_views(found@), order@).take(k as int),
        decreases order.len() - k,
    {
        let a = &found[order[k]];
        let ghost before = sorted@;
        sorted.push(
            FoundArtifact {
                project_name: a.project_name.clone(),
                artifact_type: a.artifact_type.clone(),
                path: a.path.clone(),
                size: a.size,
                age_days: a.age_days,
                selected: a.selected,
            },
        );
        assert(artifact_views(sorted@) =~= artifact_views(before).push(a@));
        assert(arranged(artifact_views(found@), order@).take(k + 1) =~= arranged(
            artifact_views(found@),
            order@,
        ).take(k as int).push(a@));
        k += 1;
    }
    assert(artifact_views(sorted@) =~= arranged(artifact_views(found@), order@));
    sorted
}

/// The sizes of the selected artifacts, in order.
pub open spec fn selected_sizes(list: Seq<FoundArtifact>) -> Seq<u64>
    decreases list.len(),
{
    if list.len() == 0 {
        Seq::<u64>::empty()
    } else {
        let init = selected_sizes(list.drop_last());
        if list.last().selected {
            init.push(list.last().size)
        } else {
            init
        }
    }
}

/// How many artifacts are selected and what they add up to.
#[derive(Debug, Clone, Copy, PartialEq, Eq)]
pub struct Selection {
    pub count: usize,
    pub total_size: u64,
}

/// Counts the selected artifacts and adds up their sizes; the sum is held at
/// `u64::MAX`.
pub fn selection(list: &Vec<FoundArtifact>) -> (s: Selection)
    ensures
        s.count == selected_sizes(list@).len(),
        s.total_size == clamp_u64(size_sum(selected_sizes(list@))),
{
    let mut count: usize = 0;
    let mut total: u64 = 0;
    let mut i: usize = 0;
    while i < list.len()
        invariant
            i <= list.len(),
            count <= i,
            count == selected_sizes(list@.take(i as int)).len(),
            total == clamp_u64(size_sum(selected_sizes(list@.take(i as int)))),
        decreases list.len() - i,
    {
        proof {
            assert(list@.take(i + 1).drop_last() =~= list@.take(i as int));
            assert(list@.take(i + 1).last() == list@[i as int]);
            let init = selected_sizes(list@.take(i as int));
            assert(init.push(list@[i as int].size).drop_last() =~= init);
        }
        if list[i].selected {
            count += 1;
            total = total.saturating_add(list[i].size);
        }
        i += 1;
    }
    assert(list@.take(list.len() as int) =~= list@);
    Selection { count, total_size: total }
}

/// How an age in days is shown.
pub open spec fn age_text(days: u64) -> Seq<char> {
    if days == 0 {
        "Today"@
    } else if days == 1 {
        "1 day"@
    } else {
        crate::text::digits_of(days as nat) + " days"@
    }
}

/// The label for an age in days: `Today`, `1 day`, or the number and
/// `days`.
pub fn age_label(days: u64) -> (label: String)
    ensures
        label@ == age_text(days),
{
    if days == 0 {
        String::from_str("Today")
    } else if days == 1 {
        String::from_str("1 day")
    } else {
        crate::text::decimal_text(days).concat(" days")
    }
}

} // verus!

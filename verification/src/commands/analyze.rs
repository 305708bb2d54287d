//! The analyze command: the entries of a directory, largest first.

use crate::commands::clean::size_sum;
use crate::filesystem::clamp_u64;
use crate::sorting::{arranged, is_sorted_by_size, order_by_size_desc};
use crate::text::{chars_of, string_of, string_of_range};
use vstd::prelude::*;

verus! {

/// Directory entry with size info.
#[derive(Debug, Clone, PartialEq, Eq)]
pub struct DirEntry {
    pub path: String,
    pub name: String,
    pub size: u64,
    pub is_dir: bool,
}

/// A directory entry with its texts as character sequences.
pub struct DirEntryView {
    pub path: Seq<char>,
    pub name: Seq<char>,
    pub size: u64,
    pub is_dir: bool,
}

impl View for DirEntry {
    type V = DirEntryView;

    open spec fn view(&self) -> DirEntryView {
        DirEntryView { path: self.path@, name: self.name@, size: self.size, is_dir: self.is_dir }
    }
}

/// The views of a list of entries.
pub open spec fn entry_views(list: Seq<DirEntry>) -> Seq<DirEntryView> {
    list.map_values(|e: DirEntry| e@)
}

/// The sizes of a list of entries.
pub open spec fn entry_sizes(list: Seq<DirEntry>) -> Seq<u64> {
    list.map_values(|e: DirEntry| e.size)
}

/// Sorts the entries that were read from a directory by size, from the
/// largest down; entries of equal size stay in the order they were read.
pub fn scan_directory(entries: &Vec<DirEntry>) -> (sorted: Vec<DirEntry>)
    ensures
        is_sorted_by_size(entry_views(sorted@), entry_views(entries@), entry_sizes(entries@)),
{
    let mut sizes: Vec<u64> = Vec::new();
    let mut i: usize = 0;
    while i < entries.len()
        invariant
            i <= entries.len(),
            sizes@ == entry_sizes(entries@).take(i as int),
        decreases entries.len() - i,
    {
        sizes.push(entries[i].size);
        assert(entry_sizes(entries@).take(i + 1) =~= entry_sizes(entries@).take(i as int).push(
            entries@[i as int].size,
        ));
        i += 1;
    }
    assert(sizes@ =~= entry_sizes(entries@));
    let order = order_by_size_desc(&sizes);
    let mut sorted: Vec<DirEntry> = Vec::new();
    let mut k: usize = 0;
    while k < order.len()
        invariant
            k <= order.len(),
            order@.len() == entries@.len(),
            forall|j: int| 0 <= j < order@.len() ==> (#[trigger] order@[j]) < entries@.len(),
            entry_views(sorted@) == arranged(entry_views(entries@), order@).take(k as int),
        decreases order.len() - k,
    {
        let e = &entries[order[k]];
        let ghost before = sorted@;
        sorted.push(
            DirEntry { path: e.path.clone(), name: e.name.clone(), size: e.size, is_dir: e.is_dir },
        );
        assert(entry_views(sorted@) =~= entry_views(before).push(e@));
        assert(arranged(entry_views(entries@), order@).take(k + 1) =~= arranged(
            entry_views(entries@),
            order@,
        ).take(k as int).push(e@));
        k += 1;
    }
    assert(entry_views(sorted@) =~= arranged(entry_views(entries@), order@));
    sorted
}

/// The sizes of the entries, added up and held at `u64::MAX`.
pub fn total_size(entries: &Vec<DirEntry>) -> (total: u64)
    ensures
        total == clamp_u64(size_sum(entry_sizes(entries@))),
{
    let ghost sizes = entry_sizes(entries@);
    let mut total: u64 = 0;
    let mut i: usize = 0;
    while i < entries.len()
        invariant
            i <= entries.len(),
            sizes == entry_sizes(entries@),
            total == clamp_u64(size_sum(sizes.take(i as int))),
        decreases entries.len() - i,
    {
        proof {
            assert(sizes.take(i + 1).drop_last() =~= sizes.take(i as int));
            assert(sizes.take(i + 1).last() == entries@[i as int].size);
        }
        total = total.saturating_add(entries[i].size);
        i += 1;
    }
    assert(sizes.take(entries.len() as int) =~= sizes);
    total
}

/// Names longer than this many characters are cut short in the listing.
pub const NAME_WIDTH: usize = 30;

/// How a name is shown in the listing: as it is where it has thirty
/// characters or fewer, else its first twenty-seven and three dots.
pub open spec fn shown_name(name: Seq<char>) -> Seq<char> {
    if name.len() > NAME_WIDTH {
        name.take(NAME_WIDTH - 3) + "..."@
    } else {
        name
    }
}

/// The name of an entry as the listing shows it.
pub fn display_name(name: &str) -> (shown: String)
    ensures
        shown@ == shown_name(name@),
{
    let c = chars_of(name);
    if c.len() > NAME_WIDTH {
        string_of_range(&c, 0, NAME_WIDTH - 3).concat("...")
    } else {
        string_of(&c)
    }
}

} // verus!

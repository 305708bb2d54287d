//! The clean command: which caches are worth cleaning, largest first.

use crate::sorting::{arranged, is_sorted_by_size, order_by_size_desc};
use vstd::prelude::*;

verus! {

/// Cleanup category with size information.
#[derive(Debug, Clone, PartialEq, Eq)]
pub struct CleanupCategory {
    pub name: String,
    pub path: String,
    pub size: u64,
    pub requires_sudo: bool,
    pub selected: bool,
}

/// A cleanup category with its texts as character sequences.
pub struct CategoryView {
    pub name: Seq<char>,
    pub path: Seq<char>,
    pub size: u64,
    pub requires_sudo: bool,
    pub selected: bool,
}

impl View for CleanupCategory {
    type V = CategoryView;

    open spec fn view(&self) -> CategoryView {
        CategoryView {
            name: self.name@,
            path: self.path@,
            size: self.size,
            requires_sudo: self.requires_sudo,
            selected: self.selected,
        }
    }
}

/// A cache location with the size that was measured for it; a location that
/// does not exist measures 0.
#[derive(Debug, Clone, PartialEq, Eq)]
pub struct MeasuredCache {
    pub name: String,
    pub path: String,
    pub size: u64,
}

/// The views of a list of categories.
pub open spec fn category_views(list: Seq<CleanupCategory>) -> Seq<CategoryView> {
    list.map_values(|c: CleanupCategory| c@)
}

/// The category that a measured cache makes.
pub open spec fn category_of(m: MeasuredCache, requires_sudo: bool) -> CategoryView {
    CategoryView { name: m.name@, path: m.path@, size: m.size, requires_sudo, selected: true }
}

/// The categories of the measured caches that hold anything, in listing
/// order.
pub open spec fn non_empty_categories(caches: Seq<MeasuredCache>, requires_sudo: bool) -> Seq<
    CategoryView,
>
    decreases caches.len(),
{
    if caches.len() == 0 {
        Seq::<CategoryView>::empty()
    } else {
        let init = non_empty_categories(caches.drop_last(), requires_sudo);
        if caches.last().size > 0 {
            init.push(category_of(caches.last(), requires_sudo))
        } else {
            init
        }
    }
}

/// The categories to offer, before they are sorted: the user caches that
/// hold anything and, with superuser rights, the system caches that do.
pub open spec fn candidates(user: Seq<MeasuredCache>, system: Seq<MeasuredCache>, is_sudo: bool)
    -> Seq<CategoryView> {
    non_empty_categories(user, false) + if is_sudo {
        non_empty_categories(system, true)
    } else {
        Seq::<CategoryView>::empty()
    }
}

/// The sizes of a list of category views.
pub open spec fn view_sizes(list: Seq<CategoryView>) -> Seq<u64> {
    list.map_values(|c: CategoryView| c.size)
}

fn push_non_empty(out: &mut Vec<CleanupCategory>, caches: &Vec<MeasuredCache>, requires_sudo: bool)
    ensures
        category_views(final(out)@) == category_views(old(out)@) + non_empty_categories(
            caches@,
            requires_sudo,
        ),
{
    let ghost start = category_views(out@);
    let mut i: usize = 0;
    assert(start + non_empty_categories(caches@.take(0), requires_sudo) =~= start);
    while i < caches.len()
        invariant
            i <= caches.len(),
            category_views(out@) == start + non_empty_categories(
                caches@.take(i as int),
                requires_sudo,
            ),
        decreases caches.len() - i,
    {
        let m = &caches[i];
        proof {
            assert(caches@.take(i + 1).drop_last() =~= caches@.take(i as int));
            assert(caches@.take(i + 1).last() == *m);
        }
        if m.size > 0 {
            let ghost before = out@;
            out.push(
                CleanupCategory {
                    name: m.name.clone(),
                    path: m.path.clone(),
                    size: m.size,
                    requires_sudo,
                    selected: true,
                },
            );
            assert(category_views(out@) =~= category_views(before).push(
                category_of(*m, requires_sudo),
            ));
            assert(start + non_empty_categories(caches@.take(i as int), requires_sudo).push(
                category_of(*m, requires_sudo),
            ) =~= (start + non_empty_categories(caches@.take(i as int), requires_sudo)).push(
                category_of(*m, requires_sudo),
            ));
        }
        i += 1;
    }
    assert(caches@.take(caches.len() as int) =~= caches@);
}

/// Scan all cleanup categories: from the measured user and system caches,
/// the ones that hold anything, every one selected, sorted by size from the
/// largest down. System caches are offered only with superuser rights.
pub fn scan_categories(
    user: &Vec<MeasuredCache>,
    system: &Vec<MeasuredCache>,
    is_sudo: bool,
) -> (list: Vec<CleanupCategory>)
    ensures
        is_sorted_by_size(
            category_views(list@),
            candidates(user@, system@, is_sudo),
            view_sizes(candidates(user@, system@, is_sudo)),
        ),
{
    let mut found: Vec<CleanupCategory> = Vec::new();
    assert(category_views(found@) =~= Seq::<CategoryView>::empty());
    push_non_empty(&mut found, user, false);
    if is_sudo {
        push_non_empty(&mut found, system, true);
    }
    assert(category_views(found@) =~= candidates(user@, system@, is_sudo));
    let mut sizes: Vec<u64> = Vec::new();
    let mut i: usize = 0;
    while i < found.len()
        invariant
            i <= found.len(),
            sizes@ == view_sizes(category_views(found@)).take(i as int),
        decreases found.len() - i,
    {
        sizes.push(found[i].size);
        assert(view_sizes(category_views(found@)).take(i + 1) =~= view_sizes(
            category_views(found@),
        ).take(i as int).push(found@[i as int].size));
        i += 1;
    }
    assert(sizes@ =~= view_sizes(category_views(found@)));
    let order = order_by_size_desc(&sizes);
    let mut list: Vec<CleanupCategory> = Vec::new();
    let mut k: usize = 0;
    while k < order.len()
        invariant
            k <= order.len(),
            order@.len() == found@.len(),
            forall|j: int| 0 <= j < order@.len() ==> (#[trigger] order@[j]) < found@.len(),
            category_views(list@) == arranged(category_views(found@), order@).take(k as int),
        decreases order.len() - k,
    {
        let c = &found[order[k]];
        let ghost before = list@;
        list.push(
            CleanupCategory {
                name: c.name.clone(),
                path: c.path.clone(),
                size: c.size,
                requires_sudo: c.requires_sudo,
                selected: c.selected,
            },
        );
        assert(category_views(list@) =~= category_views(before).push(c@));
        assert(arranged(category_views(found@), order@).take(k + 1) =~= arranged(
            category_views(found@),
            order@,
        ).take(k as int).push(c@));
        k += 1;
    }
    assert(category_views(list@) =~= arranged(category_views(found@), order@));
    list
}

/// The sizes of the categories, added up and held at `u64::MAX`.
pub fn total_size(list: &Vec<CleanupCategory>) -> (total: u64)
    ensures
        total == crate::filesystem::clamp_u64(size_sum(view_sizes(category_views(list@)))),
{
    let ghost sizes = view_sizes(category_views(list@));
    let mut total: u64 = 0;
    let mut i: usize = 0;
    while i < list.len()
        invariant
            i <= list.len(),
            sizes == view_sizes(category_views(list@)),
            total == crate::filesystem::clamp_u64(size_sum(sizes.take(i as int))),
        decreases list.len() - i,
    {
        proof {
            assert(sizes.take(i + 1).drop_last() =~= sizes.take(i as int));
            assert(sizes.take(i + 1).last() == list@[i as int].size);
        }
        total = total.saturating_add(list[i].size);
        i += 1;
    }
    assert(sizes.take(list.len() as int) =~= sizes);
    total
}

/// The sum of a list of sizes.
pub open spec fn size_sum(sizes: Seq<u64>) -> nat
    decreases sizes.len(),
{
    if sizes.len() == 0 {
        0
    } else {
        size_sum(sizes.drop_last()) + sizes.last() as nat
    }
}

} // verus!

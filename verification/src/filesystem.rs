//! Size accounting and the decisions of a guarded deletion.
//!
//! Nothing here touches the disk. The caller walks directories, probes links
//! and removes files; these functions say what to do with what was found.

use crate::errors::{ErrorView, MoleError};
use crate::security::{
    classify, PathValidation, SecurityValidator, Verdict, LARGE_DELETION_THRESHOLD,
};
use crate::text::{opt_view, string_views};
use vstd::prelude::*;

verus! {

/// The text that `humansize::format_size` gives for a byte count with its
/// `BINARY` options.
pub uninterp spec fn binary_size_text(bytes: u64) -> Seq<char>;

/// Formats a byte count for people, in binary units (`KiB`, `MiB`, ...).
///
/// Calls `humansize::format_size` with `humansize::BINARY`; the text is
/// whatever that function computes from the number, and is not proved here.
#[verifier::external_body]
pub fn format_size(bytes: u64) -> (text: String)
    ensures
        text@ == binary_size_text(bytes),
{
    humansize::format_size(bytes, humansize::BINARY)
}

/// What a directory walk found at one place.
#[derive(Debug, Clone, Copy, PartialEq, Eq)]
pub struct WalkedEntry {
    /// The entry is a regular file (links are not followed).
    pub is_file: bool,
    /// The length in its metadata, where the metadata could be read.
    pub len: Option<u64>,
}

/// The bytes that one walked entry accounts for: its length for a regular
/// file with readable metadata, nothing for anything else.
pub open spec fn entry_bytes(e: WalkedEntry) -> nat {
    if e.is_file {
        match e.len {
            Some(n) => n as nat,
            None => 0,
        }
    } else {
        0
    }
}

/// The bytes that a walk accounts for.
pub open spec fn total_bytes(entries: Seq<WalkedEntry>) -> nat
    decreases entries.len(),
{
    if entries.len() == 0 {
        0
    } else {
        total_bytes(entries.drop_last()) + entry_bytes(entries.last())
    }
}

/// The number of regular files in a walk.
pub open spec fn file_count(entries: Seq<WalkedEntry>) -> nat
    decreases entries.len(),
{
    if entries.len() == 0 {
        0
    } else {
        file_count(entries.drop_last()) + if entries.last().is_file {
            1nat
        } else {
            0nat
        }
    }
}

/// `n` as a byte count, held at the largest one where it does not fit.
pub open spec fn clamp_u64(n: nat) -> u64 {
    if n <= u64::MAX {
        n as u64
    } else {
        u64::MAX
    }
}

/// The size of a directory tree, from the entries that a walk of it found:
/// the sum of the lengths of its regular files. A path that does not exist
/// has no entries and so the size 0. The sum is held at `u64::MAX`.
pub fn dir_size(entries: &Vec<WalkedEntry>) -> (r: Result<u64, MoleError>)
    ensures
        r matches Ok(total) && total == clamp_u64(total_bytes(entries@)),
{
    let mut total: u64 = 0;
    let mut i: usize = 0;
    while i < entries.len()
        invariant
            i <= entries.len(),
            total == clamp_u64(total_bytes(entries@.take(i as int))),
        decreases entries.len() - i,
    {
        let e = entries[i];
        proof {
            assert(entries@.take(i + 1).drop_last() =~= entries@.take(i as int));
            assert(entries@.take(i + 1).last() == e);
        }
        if e.is_file {
            let n: u64 = match e.len {
                Some(n) => n,
                None => 0,
            };
            total = total.saturating_add(n);
        }
        i += 1;
    }
    assert(entries@.take(entries.len() as int) =~= entries@);
    Ok(total)
}

/// The number of regular files in a directory tree, from the entries that a
/// walk of it found.
pub fn count_files(entries: &Vec<WalkedEntry>) -> (n: usize)
    ensures
        n == file_count(entries@),
{
    let mut n: usize = 0;
    let mut i: usize = 0;
    while i < entries.len()
        invariant
            i <= entries.len(),
            n == file_count(entries@.take(i as int)),
            n <= i,
        decreases entries.len() - i,
    {
        proof {
            assert(entries@.take(i + 1).drop_last() =~= entries@.take(i as int));
            assert(entries@.take(i + 1).last() == entries@[i as int]);
        }
        if entries[i].is_file {
            n += 1;
        }
        i += 1;
    }
    assert(entries@.take(entries.len() as int) =~= entries@);
    n
}

/// Whether a path can be deleted: it exists and the metadata of its parent
/// directory could be read and does not say read-only. `parent_readonly` is
/// `None` where the path has no parent or the metadata could not be read.
pub fn can_delete(present: bool, parent_readonly: Option<bool>) -> (r: bool)
    ensures
        r == (present && parent_readonly == Some(false)),
{
    if !present {
        return false;
    }
    match parent_readonly {
        Some(readonly) => !readonly,
        None => false,
    }
}

/// Whether a deletion may go ahead: the verdict that lets it through, or the
/// error that refuses it. A blocked path is refused as a blocked path, with
/// the path and the reason; an invalid path is refused as malformed. A link
/// goes through, except that a privileged run refuses, as a blocked path, a
/// link whose target is blocked.
pub open spec fn clearance(
    whitelist: Seq<Seq<char>>,
    path: Seq<char>,
    link: Option<Seq<char>>,
    elevated: bool,
) -> Result<Verdict, ErrorView> {
    let verdict = classify(whitelist, path, link);
    match verdict {
        Verdict::Blocked { reason } => Err(ErrorView::BlockedPath { path, reason }),
        Verdict::Invalid { reason } => Err(ErrorView::Other("Invalid path: "@ + reason)),
        Verdict::Symlink { target } => {
            if elevated && classify(whitelist, target, None) is Blocked {
                Err(
                    ErrorView::BlockedPath {
                        path,
                        reason: "Symlink target blocked: "@ + classify(
                            whitelist,
                            target,
                            None,
                        )->Blocked_reason,
                    },
                )
            } else {
                Ok(verdict)
            }
        },
        _ => Ok(verdict),
    }
}

/// The view of a clearance.
pub open spec fn clearance_view(r: Result<PathValidation, MoleError>) -> Result<
    Verdict,
    ErrorView,
> {
    match r {
        Ok(v) => Ok(v@),
        Err(e) => Err(e@),
    }
}

/// Decides whether `path` may be deleted, before anything is measured or
/// removed. `link_target` is as for `validate_path`; `elevated` says whether
/// the run has superuser rights. The verdict handed back on success is
/// `Safe`, `Caution` (the caller shows the warning) or `Symlink` (the link
/// itself is deleted, never its target).
pub fn safe_delete_check(
    validator: &SecurityValidator,
    path: &str,
    link_target: Option<String>,
    elevated: bool,
) -> (r: Result<PathValidation, MoleError>)
    ensures
        clearance_view(r) == clearance(
            validator.entries(),
            path@,
            opt_view(link_target),
            elevated,
        ),
{
    let verdict = validator.validate_path(path, link_target);
    match verdict {
        PathValidation::Blocked { reason } => Err(
            MoleError::BlockedPath { path: String::from_str(path), reason },
        ),
        PathValidation::Invalid { reason } => Err(
            MoleError::Other(String::from_str("Invalid path: ").concat(reason.as_str())),
        ),
        PathValidation::Symlink { target } => {
            if elevated {
                match validator.validate_path(target.as_str(), None) {
                    PathValidation::Blocked { reason } => {
                        return Err(
                            MoleError::BlockedPath {
                                path: String::from_str(path),
                                reason: String::from_str("Symlink target blocked: ").concat(
                                    reason.as_str(),
                                ),
                            },
                        );
                    },
                    _ => {},
                }
            }
            Ok(PathValidation::Symlink { target })
        },
        PathValidation::Safe => Ok(PathValidation::Safe),
        PathValidation::Caution { reason } => Ok(PathValidation::Caution { reason }),
    }
}

/// What to do with a path that was cleared for deletion.
#[derive(Debug, Clone, Copy, PartialEq, Eq)]
pub enum DeletePlan {
    /// The path does not exist: nothing is freed and nothing is done.
    Nothing,
    /// Dry run: report `size` and leave the disk alone.
    Report { size: u64, large: bool },
    /// Remove the directory and all below it, freeing `size` bytes.
    RemoveDir { size: u64, large: bool },
    /// Remove the single file or link, freeing `size` bytes.
    RemoveFile { size: u64, large: bool },
}

/// The plan for a cleared path; `large` asks for the advisory warning that
/// goes with a size at or above the large-deletion threshold, in a dry run
/// and in a real run alike.
pub open spec fn planned(present: bool, is_dir: bool, size: u64, dry_run: bool) -> DeletePlan {
    let large = size >= LARGE_DELETION_THRESHOLD;
    if !present {
        DeletePlan::Nothing
    } else if dry_run {
        DeletePlan::Report { size, large }
    } else if is_dir {
        DeletePlan::RemoveDir { size, large }
    } else {
        DeletePlan::RemoveFile { size, large }
    }
}

/// Plans the deletion of a cleared path from what was found on disk: whether
/// it is there, whether it is a directory, and its size.
pub fn safe_delete_plan(
    validator: &SecurityValidator,
    present: bool,
    is_dir: bool,
    size: u64,
    dry_run: bool,
) -> (plan: DeletePlan)
    ensures
        plan == planned(present, is_dir, size, dry_run),
{
    let large = validator.is_large_deletion(size);
    if !present {
        DeletePlan::Nothing
    } else if dry_run {
        DeletePlan::Report { size, large }
    } else if is_dir {
        DeletePlan::RemoveDir { size, large }
    } else {
        DeletePlan::RemoveFile { size, large }
    }
}

/// How a removal went.
#[derive(Debug, Clone, PartialEq, Eq)]
pub enum RemovalOutcome {
    /// The path is gone.
    Removed,
    /// The filesystem refused for want of permission.
    PermissionDenied,
    /// Any other I/O failure, with its text.
    Failed(String),
}

/// A removal outcome with its text as a character sequence.
pub enum OutcomeView {
    Removed,
    PermissionDenied,
    Failed(Seq<char>),
}

impl View for RemovalOutcome {
    type V = OutcomeView;

    open spec fn view(&self) -> OutcomeView {
        match self {
            RemovalOutcome::Removed => OutcomeView::Removed,
            RemovalOutcome::PermissionDenied => OutcomeView::PermissionDenied,
            RemovalOutcome::Failed(text) => OutcomeView::Failed(text@),
        }
    }
}

/// The result of a removal of `size` bytes at `path`.
pub open spec fn concluded(path: Seq<char>, size: u64, outcome: OutcomeView) -> Result<
    u64,
    ErrorView,
> {
    match outcome {
        OutcomeView::Removed => Ok(size),
        OutcomeView::PermissionDenied => Err(ErrorView::PermissionDenied { path }),
        OutcomeView::Failed(text) => Err(ErrorView::Io(text)),
    }
}

/// The result of a deletion that needed no removal.
pub open spec fn settled(plan: DeletePlan) -> Option<u64> {
    match plan {
        DeletePlan::Nothing => Some(0),
        DeletePlan::Report { size, large } => Some(size),
        _ => None,
    }
}

/// Turns the outcome of a removal into the result of the deletion: the
/// bytes freed, a permission error that names the path, or the I/O error.
pub fn safe_delete_result(path: &str, size: u64, outcome: RemovalOutcome) -> (r: Result<
    u64,
    MoleError,
>)
    ensures
        crate::errors::bytes_result_view(r) == concluded(path@, size, outcome@),
{
    match outcome {
        RemovalOutcome::Removed => Ok(size),
        RemovalOutcome::PermissionDenied => Err(
            MoleError::PermissionDenied { path: String::from_str(path) },
        ),
        RemovalOutcome::Failed(text) => Err(MoleError::Io(text)),
    }
}

/// The result of a whole deletion: what the plan settles by itself, or
/// what the removal it asks for came to.
pub open spec fn deletion_result(path: Seq<char>, plan: DeletePlan, outcome: OutcomeView) -> Result<
    u64,
    ErrorView,
> {
    match plan {
        DeletePlan::Nothing => Ok(0),
        DeletePlan::Report { size, large } => Ok(size),
        DeletePlan::RemoveDir { size, large } => concluded(path, size, outcome),
        DeletePlan::RemoveFile { size, large } => concluded(path, size, outcome),
    }
}

/// What was found of a path on disk once it was cleared for deletion.
pub struct Found {
    /// The path exists.
    pub present: bool,
    /// The path is a directory.
    pub is_dir: bool,
    /// The size of what lies at the path.
    pub size: u64,
}

/// A whole deletion from beginning to end: the path is classified and
/// refused or cleared; a cleared path is planned for from what was found on
/// disk; where the plan asks for a removal, its outcome decides.
pub open spec fn deletion(
    whitelist: Seq<Seq<char>>,
    path: Seq<char>,
    link: Option<Seq<char>>,
    elevated: bool,
    found: Found,
    dry_run: bool,
    outcome: OutcomeView,
) -> Result<u64, ErrorView> {
    match clearance(whitelist, path, link, elevated) {
        Err(e) => Err(e),
        Ok(verdict) => deletion_result(
            path,
            planned(found.present, found.is_dir, found.size, dry_run),
            outcome,
        ),
    }
}

/// Whether the contents of a directory are to be cleaned: nothing is done
/// for a path that is missing or no directory, and a blocked directory is
/// refused as a blocked path; any other verdict on the directory lets its children be looked
/// at one by one.
pub open spec fn directory_clearance(
    whitelist: Seq<Seq<char>>,
    dir: Seq<char>,
    present: bool,
    is_dir: bool,
) -> Result<bool, ErrorView> {
    if !present || !is_dir {
        Ok(false)
    } else if classify(whitelist, dir, None) is Blocked {
        Err(
            ErrorView::BlockedPath {
                path: dir,
                reason: classify(whitelist, dir, None)->Blocked_reason,
            },
        )
    } else {
        Ok(true)
    }
}

/// The view of a directory clearance.
pub open spec fn flag_result_view(r: Result<bool, MoleError>) -> Result<bool, ErrorView> {
    match r {
        Ok(b) => Ok(b),
        Err(e) => Err(e@),
    }
}

/// Decides whether the contents of the directory `path` are to be cleaned.
/// `Ok(true)` asks the caller to list the directory and hand its children to
/// `clean_directory`; `Ok(false)` means there is nothing to do.
pub fn clean_directory_check(
    validator: &SecurityValidator,
    path: &str,
    present: bool,
    is_dir: bool,
) -> (r: Result<bool, MoleError>)
    ensures
        flag_result_view(r) == directory_clearance(validator.entries(), path@, present, is_dir),
{
    if !present || !is_dir {
        return Ok(false);
    }
    match validator.validate_path(path, None) {
        PathValidation::Blocked { reason } => Err(
            MoleError::BlockedPath { path: String::from_str(path), reason },
        ),
        _ => Ok(true),
    }
}

/// An immediate child of a directory that is being cleaned.
#[derive(Debug, Clone, PartialEq, Eq)]
pub struct DirChild {
    /// The child's full path.
    pub path: String,
    /// Its target, where the child itself is a link whose target could be
    /// read.
    pub link_target: Option<String>,
}

/// Whether a child is deleted when its directory is cleaned. A safe or
/// caution child is; a blocked or invalid child is skipped; a link is
/// skipped where its target is blocked, with or without superuser rights,
/// and deleted otherwise. (A single deletion is laxer: `clearance` looks at
/// the target of a link only in a privileged run.)
pub open spec fn child_is_deleted(
    whitelist: Seq<Seq<char>>,
    path: Seq<char>,
    link: Option<Seq<char>>,
) -> bool {
    match classify(whitelist, path, link) {
        Verdict::Safe => true,
        Verdict::Caution { reason } => true,
        Verdict::Symlink { target } => !(classify(whitelist, target, None) is Blocked),
        Verdict::Blocked { reason } => false,
        Verdict::Invalid { reason } => false,
    }
}

/// `child_is_deleted` for a fixed whitelist, as a predicate on children.
pub open spec fn deleted_under(whitelist: Seq<Seq<char>>) -> spec_fn(DirChild) -> bool {
    |c: DirChild| child_is_deleted(whitelist, c.path@, opt_view(c.link_target))
}

/// The path of a child, as a function value.
pub open spec fn child_path() -> spec_fn(DirChild) -> Seq<char> {
    |c: DirChild| c.path@
}

/// The paths to delete when a directory with these children is cleaned: the
/// children that are deleted, in listing order.
pub open spec fn children_to_delete(whitelist: Seq<Seq<char>>, children: Seq<DirChild>) -> Seq<
    Seq<char>,
> {
    children.filter(deleted_under(whitelist)).map_values(child_path())
}

/// Whether one child is deleted when its directory is cleaned.
pub fn clean_directory_child(validator: &SecurityValidator, child: &DirChild) -> (r: bool)
    ensures
        r == child_is_deleted(validator.entries(), child.path@, opt_view(child.link_target)),
{
    match validator.validate_path(child.path.as_str(), child.link_target.clone()) {
        PathValidation::Safe => true,
        PathValidation::Caution { reason } => true,
        PathValidation::Symlink { target } => {
            match validator.validate_path(target.as_str(), None) {
                PathValidation::Blocked { reason } => false,
                _ => true,
            }
        },
        PathValidation::Blocked { reason } => false,
        PathValidation::Invalid { reason } => false,
    }
}

/// Picks the children to delete when a directory is cleaned. Each child is
/// judged by itself; one that does not pass is skipped and the rest go on.
/// The directory itself stays.
pub fn clean_directory(validator: &SecurityValidator, children: &Vec<DirChild>) -> (paths: Vec<
    String,
>)
    ensures
        string_views(paths@) == children_to_delete(validator.entries(), children@),
{
    let ghost wl = validator.entries();
    let mut paths: Vec<String> = Vec::new();
    let mut i: usize = 0;
    proof {
        assert(children@.take(0).filter(deleted_under(wl)) =~= Seq::<DirChild>::empty()) by {
            reveal(Seq::filter);
        }
    }
    while i < children.len()
        invariant
            i <= children.len(),
            wl == validator.entries(),
            string_views(paths@) == children@.take(i as int).filter(
                deleted_under(wl),
            ).map_values(child_path()),
        decreases children.len() - i,
    {
        let child = &children[i];
        let keep = clean_directory_child(validator, child);
        proof {
            assert(children@.take(i + 1) =~= children@.take(i as int).push(*child));
            children@.take(i as int).lemma_filter_push(*child, deleted_under(wl));
        }
        if keep {
            let ghost before = paths@;
            paths.push(child.path.clone());
            proof {
                let kept = children@.take(i as int).filter(deleted_under(wl));
                assert(string_views(paths@) =~= string_views(before).push(child.path@));
                assert(kept.push(*child).map_values(child_path()) =~= kept.map_values(
                    child_path(),
                ).push(child.path@));
            }
        }
        i += 1;
    }
    assert(children@.take(children.len() as int) =~= children@);
    paths
}

/// The record of one deletion, executed or simulated.
#[derive(Debug, PartialEq, Eq)]
pub struct DeletionReceipt {
    /// The path acted on.
    pub path: String,
    /// The bytes freed, or why the deletion failed.
    pub result: Result<u64, MoleError>,
}

/// The tally of a batch of deletions.
#[derive(Debug, Clone, Copy, PartialEq, Eq)]
pub struct BatchSummary {
    /// The bytes freed by the deletions that succeeded, held at `u64::MAX`.
    pub freed: u64,
    /// How many deletions succeeded.
    pub succeeded: usize,
    /// How many deletions failed.
    pub failed: usize,
}

/// The bytes that the successful receipts freed.
pub open spec fn freed_bytes(receipts: Seq<DeletionReceipt>) -> nat
    decreases receipts.len(),
{
    if receipts.len() == 0 {
        0
    } else {
        freed_bytes(receipts.drop_last()) + match receipts.last().result {
            Ok(n) => n as nat,
            Err(e) => 0nat,
        }
    }
}

/// The number of receipts that record a failure.
pub open spec fn failure_count(receipts: Seq<DeletionReceipt>) -> nat
    decreases receipts.len(),
{
    if receipts.len() == 0 {
        0
    } else {
        failure_count(receipts.drop_last()) + if receipts.last().result is Err {
            1nat
        } else {
            0nat
        }
    }
}

/// Tallies a batch: one failed deletion does not stop the others, and the
/// total counts only what was freed.
pub fn summarize(receipts: &Vec<DeletionReceipt>) -> (summary: BatchSummary)
    ensures
        summary.freed == clamp_u64(freed_bytes(receipts@)),
        summary.failed == failure_count(receipts@),
        summary.succeeded + summary.failed == receipts@.len(),
{
    let mut freed: u64 = 0;
    let mut succeeded: usize = 0;
    let mut failed: usize = 0;
    let mut i: usize = 0;
    while i < receipts.len()
        invariant
            i <= receipts.len(),
            freed == clamp_u64(freed_bytes(receipts@.take(i as int))),
            failed == failure_count(receipts@.take(i as int)),
            succeeded + failed == i,
        decreases receipts.len() - i,
    {
        proof {
            assert(receipts@.take(i + 1).drop_last() =~= receipts@.take(i as int));
            assert(receipts@.take(i + 1).last() == receipts@[i as int]);
        }
        match &receipts[i].result {
            Ok(n) => {
                freed = freed.saturating_add(*n);
                succeeded += 1;
            },
            Err(e) => {
                failed += 1;
            },
        }
        i += 1;
    }
    assert(receipts@.take(receipts.len() as int) =~= receipts@);
    BatchSummary { freed, succeeded, failed }
}

} // verus!

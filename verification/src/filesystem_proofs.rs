//! Facts about guarded deletion, proved once for every input.

use crate::errors::ErrorView;
use crate::filesystem::{
    child_is_deleted, clearance, concluded, deletion, deletion_result, directory_clearance,
    planned, DeletePlan, Found, OutcomeView,
};
use crate::security::{classify, Verdict};
use vstd::prelude::*;

verus! {

/// Whether a path is blocked or invalid, and why, does not depend on what
/// the path is on disk: those rules come before the link is looked at.
pub proof fn lemma_refusal_ignores_links(
    whitelist: Seq<Seq<char>>,
    path: Seq<char>,
    first: Option<Seq<char>>,
    second: Option<Seq<char>>,
)
    requires
        classify(whitelist, path, first) is Blocked || classify(whitelist, path, first) is Invalid,
    ensures
        classify(whitelist, path, second) == classify(whitelist, path, first),
{
}

/// A blocked or invalid path is refused before anything is measured or
/// removed, with or without superuser rights.
pub proof fn lemma_refused_paths_are_not_cleared(
    whitelist: Seq<Seq<char>>,
    path: Seq<char>,
    link: Option<Seq<char>>,
    elevated: bool,
)
    requires
        classify(whitelist, path, link) is Blocked || classify(whitelist, path, link) is Invalid,
    ensures
        clearance(whitelist, path, link, elevated) is Err,
{
}

/// A blocked path is refused as a blocked path, with the path and the
/// reason of the verdict, with or without superuser rights.
pub proof fn lemma_blocked_path_is_refused_as_such(
    whitelist: Seq<Seq<char>>,
    path: Seq<char>,
    link: Option<Seq<char>>,
    elevated: bool,
)
    requires
        classify(whitelist, path, link) is Blocked,
    ensures
        clearance(whitelist, path, link, elevated) == Err::<Verdict, ErrorView>(
            ErrorView::BlockedPath {
                path,
                reason: classify(whitelist, path, link)->Blocked_reason,
            },
        ),
{
}

/// A refusal by policy and a denial by the filesystem are different kinds
/// of error: a path is refused before the deletion as a blocked path or as
/// malformed, and a removal fails as a permission error or an I/O error.
pub proof fn lemma_refusal_and_denial_differ(
    whitelist: Seq<Seq<char>>,
    path: Seq<char>,
    link: Option<Seq<char>>,
    elevated: bool,
    size: u64,
    outcome: OutcomeView,
)
    ensures
        clearance(whitelist, path, link, elevated) matches Err(e) ==> e is BlockedPath || e
            is Other,
        concluded(path, size, outcome) matches Err(e) ==> e is PermissionDenied || e is Io,
{
}

/// A caution path is cleared like a safe one; the warning is the caller's
/// to show.
pub proof fn lemma_caution_is_cleared(
    whitelist: Seq<Seq<char>>,
    path: Seq<char>,
    link: Option<Seq<char>>,
    elevated: bool,
)
    requires
        classify(whitelist, path, link) is Caution || classify(whitelist, path, link) is Safe,
    ensures
        clearance(whitelist, path, link, elevated) == Ok::<Verdict, ErrorView>(
            classify(whitelist, path, link),
        ),
{
}

/// Without superuser rights the target of a link is not looked at: the
/// link is cleared whatever it points to.
pub proof fn lemma_unprivileged_link_is_cleared(
    whitelist: Seq<Seq<char>>,
    path: Seq<char>,
    link: Option<Seq<char>>,
)
    requires
        classify(whitelist, path, link) is Symlink,
    ensures
        clearance(whitelist, path, link, false) is Ok,
{
}

/// A dry run never asks for a removal.
pub proof fn lemma_dry_run_removes_nothing(present: bool, is_dir: bool, size: u64)
    ensures
        planned(present, is_dir, size, true) is Nothing || planned(present, is_dir, size, true)
            is Report,
{
}

/// A dry run reports the byte count that the real deletion of the same
/// path, found in the same state, frees when its removal succeeds.
pub proof fn lemma_dry_run_matches_real_run(
    path: Seq<char>,
    present: bool,
    is_dir: bool,
    size: u64,
    dry_outcome: OutcomeView,
)
    ensures
        deletion_result(path, planned(present, is_dir, size, true), dry_outcome) == deletion_result(
            path,
            planned(present, is_dir, size, false),
            OutcomeView::Removed,
        ),
{
}

/// From beginning to end, a dry run of a deletion returns what the real
/// deletion of the same path, found in the same state, returns when its
/// removal succeeds: the same byte count, or the same refusal.
pub proof fn lemma_dry_run_predicts_deletion(
    whitelist: Seq<Seq<char>>,
    path: Seq<char>,
    link: Option<Seq<char>>,
    elevated: bool,
    found: Found,
    dry_outcome: OutcomeView,
)
    ensures
        deletion(whitelist, path, link, elevated, found, true, dry_outcome) == deletion(
            whitelist,
            path,
            link,
            elevated,
            found,
            false,
            OutcomeView::Removed,
        ),
{
}

/// A blocked or invalid path is never deleted: the deletion fails whatever
/// is on disk, in a dry run and in a real run alike.
pub proof fn lemma_refused_paths_are_never_deleted(
    whitelist: Seq<Seq<char>>,
    path: Seq<char>,
    link: Option<Seq<char>>,
    elevated: bool,
    found: Found,
    dry_run: bool,
    outcome: OutcomeView,
)
    requires
        classify(whitelist, path, link) is Blocked || classify(whitelist, path, link) is Invalid,
    ensures
        deletion(whitelist, path, link, elevated, found, dry_run, outcome) is Err,
{
}

/// The large-deletion warning is advisory: it changes neither what is done
/// nor what is returned, and it is asked for in a dry run exactly when it is
/// in a real run.
pub proof fn lemma_large_warning_is_advisory(present: bool, is_dir: bool, size: u64)
    ensures
        planned(present, is_dir, size, true) matches DeletePlan::Report { large, .. } ==> large == (
        size >= 1073741824),
        planned(present, is_dir, size, false) matches DeletePlan::RemoveDir { large, .. } ==> large
            == (size >= 1073741824),
        planned(present, is_dir, size, false) matches DeletePlan::RemoveFile { large, .. } ==> large
            == (size >= 1073741824),
{
}

/// When a directory is cleaned, a child that is a link to a blocked target
/// is skipped, and so is every blocked or invalid child.
pub proof fn lemma_protected_children_are_skipped(
    whitelist: Seq<Seq<char>>,
    path: Seq<char>,
    link: Option<Seq<char>>,
)
    ensures
        classify(whitelist, path, link) is Blocked ==> !child_is_deleted(whitelist, path, link),
        classify(whitelist, path, link) is Invalid ==> !child_is_deleted(whitelist, path, link),
        classify(whitelist, path, link) matches Verdict::Symlink { target } ==> (child_is_deleted(
            whitelist,
            path,
            link,
        ) <==> !(classify(whitelist, target, None) is Blocked)),
{
}

/// Cleaning a blocked directory is refused; cleaning something that is no
/// directory does nothing.
pub proof fn lemma_directory_clearance(
    whitelist: Seq<Seq<char>>,
    dir: Seq<char>,
    present: bool,
    is_dir: bool,
)
    ensures
        !(present && is_dir) ==> directory_clearance(whitelist, dir, present, is_dir) == Ok::<
            bool,
            ErrorView,
        >(false),
        present && is_dir && classify(whitelist, dir, None) is Blocked ==> directory_clearance(
            whitelist,
            dir,
            present,
            is_dir,
        ) is Err,
{
}

} // verus!

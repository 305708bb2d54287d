//! What the process learns from its environment: the user's directories.

use crate::paths::is_named_home;
use crate::text::opt_view;
use vstd::prelude::*;

verus! {

/// `dirs::home_dir`: the invoking user's home directory. Which directory
/// that is depends on the environment and is not claimed. What is claimed is
/// what `dirs` documents for Linux, the system this library is for: `$HOME`
/// is used only where it is set and not empty, the entry of the password
/// database only where its directory is not empty, and otherwise there is no
/// home directory. So a home directory that is handed out is never the empty
/// path.
#[verifier::external_body]
pub(crate) fn home_dir() -> (home: Option<String>)
    ensures
        is_named_home(opt_view(home)),
{
    dirs::home_dir().map(|p| p.to_string_lossy().into_owned())
}

/// `dirs::config_dir`: the user's configuration directory, taken from
/// `$XDG_CONFIG_HOME` or derived from the home directory. The answer depends
/// on the environment, so nothing is claimed of it.
#[verifier::external_body]
pub(crate) fn config_dir() -> Option<String> {
    dirs::config_dir().map(|p| p.to_string_lossy().into_owned())
}

} // verus!

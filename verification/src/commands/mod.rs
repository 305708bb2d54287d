//! What each command decides, apart from what it reads and prints.

pub mod analyze;
pub mod clean;
pub mod optimize;
pub mod purge;
pub mod uninstall;

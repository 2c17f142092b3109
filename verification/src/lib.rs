//! Decides whether the current process was started by the graphical shell
//! (a double click in the desktop file browser) rather than from a terminal.
//!
//! The decision logic — scanning a process-table snapshot for a record,
//! resolving the parent process, extracting the parent's image name from its
//! fixed-capacity buffer, and comparing it against the shell's executable
//! name — is verified here over plain values: see [`snapshot`] for the scan,
//! [`text`] for what counts as a decodable name, and [`resolver`] for the
//! two-hop decision itself. Opening and enumerating the operating system's
//! snapshot is left to a thin platform layer that feeds those values in;
//! the decision is fail-closed, so whatever that layer reports, the answer
//! to a failed lookup is "not started by the shell".
//!
//! The ancestry a snapshot shows is best-effort: a parent process may exit,
//! and its identifier be reused, between the moment it spawned the caller
//! and the moment a scan is read, so the answer can be stale under
//! adversarial timing. That is an accepted limitation of the source data;
//! the query does not retry or lock around it.

use vstd::prelude::*;

pub mod resolver;
pub mod snapshot;
pub mod text;

pub use crate::resolver::DecodeError;
pub use crate::resolver::image_name_of;
pub use crate::resolver::is_shell_image_name;
pub use crate::resolver::query_decision;
pub use crate::resolver::resolve_shell_launch;
pub use crate::snapshot::LookupError;
pub use crate::snapshot::ProcessEntry;
pub use crate::snapshot::ScanOutcome;
pub use crate::snapshot::find_entry;
pub use crate::snapshot::parent_of;

verus! {

/// On a platform without a process-snapshot API the query degrades to a
/// fixed, deterministic answer: the process is never considered to have
/// been started by the graphical shell, regardless of how it was launched.
/// The function is total — it takes no input, never fails, and never
/// panics.
pub fn started_by_explorer() -> (r: bool)
    ensures
        !r,
{
    false
}

} // verus!

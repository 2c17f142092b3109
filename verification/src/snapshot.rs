//! Model of a process-table snapshot and the linear scan over it.
//!
//! A snapshot is a point-in-time enumeration of the processes the operating
//! system knew about; here it is the plain sequence of records that the
//! enumeration produced, or the error that kept it from being produced.

use vstd::prelude::*;

verus! {

/// One record of a process-table snapshot: the process's own identifier,
/// its parent's identifier, and its executable image name as the raw bytes
/// of a fixed-capacity buffer that may or may not hold a terminating null.
pub struct ProcessEntry {
    /// Identifier of the process this record describes.
    pub pid: u32,
    /// Identifier of the process that spawned it. May dangle: the parent
    /// can have exited, and its identifier been reused, by the time the
    /// record is read.
    pub parent_pid: u32,
    /// The image-name buffer exactly as the snapshot delivered it.
    pub image_name: Vec<u8>,
}

/// Why a lookup in a snapshot failed.
#[derive(Clone, Copy, Debug, PartialEq, Eq, Structural)]
pub enum LookupError {
    /// The operating system refused or could not produce a snapshot.
    SnapshotUnavailable,
    /// The enumeration failed part-way through the scan.
    EnumerationError,
    /// The scan was exhausted without meeting the requested identifier.
    NotFound,
}

/// The outcome of opening and fully enumerating one snapshot: either the
/// records in enumeration order, or the failure that ended the attempt.
pub type ScanOutcome = Result<Vec<ProcessEntry>, LookupError>;

/// Some record in `entries` carries the identifier `pid`.
pub open spec fn has_entry(entries: Seq<ProcessEntry>, pid: u32) -> bool {
    exists|i: int| 0 <= i < entries.len() && (#[trigger] entries[i]).pid == pid
}

/// Position `i` holds the first record of `entries` whose identifier is `pid`.
pub open spec fn first_match_at(entries: Seq<ProcessEntry>, pid: u32, i: int) -> bool {
    &&& 0 <= i < entries.len()
    &&& entries[i].pid == pid
    &&& forall|j: int| 0 <= j < i ==> (#[trigger] entries[j]).pid != pid
}

/// At most one position holds the first matching record.
pub proof fn lemma_first_match_unique(entries: Seq<ProcessEntry>, pid: u32, i: int, k: int)
    requires
        first_match_at(entries, pid, i),
        first_match_at(entries, pid, k),
    ensures
        i == k,
{
}

/// Scans the snapshot records in order and returns the first one whose own
/// identifier equals `target_pid`, or `NotFound` once the sequence is
/// exhausted without a match. No ordering among records is assumed: every
/// record is checked until a match or exhaustion.
pub fn find_entry<'a>(entries: &'a Vec<ProcessEntry>, target_pid: u32) -> (r: Result<
    &'a ProcessEntry,
    LookupError,
>)
    ensures
        match r {
            Ok(e) => exists|i: int|
                #[trigger] first_match_at(entries@, target_pid, i) && *e == entries@[i],
            Err(err) => err == LookupError::NotFound && !has_entry(entries@, target_pid),
        },
{
    let mut i: usize = 0;
    while i < entries.len()
        invariant
            i <= entries@.len(),
            forall|j: int| 0 <= j < i ==> (#[trigger] entries@[j]).pid != target_pid,
        decreases entries@.len() - i,
    {
        if entries[i].pid == target_pid {
            proof {
                assert(first_match_at(entries@, target_pid, i as int));
            }
            return Ok(&entries[i]);
        }
        i = i + 1;
    }
    Err(LookupError::NotFound)
}

/// Resolves the parent identifier of `pid` from one snapshot scan: the
/// scan's own failure is passed through, a missing record reports
/// `NotFound`, and otherwise the parent identifier recorded in the first
/// matching record is returned.
pub fn parent_of(scan: &ScanOutcome, pid: u32) -> (r: Result<u32, LookupError>)
    ensures
        match r {
            Ok(p) => *scan matches Ok(entries) && exists|i: int|
                #[trigger] first_match_at(entries@, pid, i) && p == entries@[i].parent_pid,
            Err(err) => match *scan {
                Ok(entries) => err == LookupError::NotFound && !has_entry(entries@, pid),
                Err(scan_err) => err == scan_err,
            },
        },
{
    match scan {
        Ok(entries) => match find_entry(entries, pid) {
            Ok(e) => Ok(e.parent_pid),
            Err(err) => Err(err),
        },
        Err(scan_err) => Err(*scan_err),
    }
}

} // verus!

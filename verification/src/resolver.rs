//! Ancestry resolution: extracting a record's image name and deciding
//! whether a process was started by the graphical shell.
//!
//! The image name sits in a fixed-capacity buffer; extraction finds the
//! first null terminator (failing on a malformed record without one) and
//! checks that the bytes before it are text. The decoded name is then
//! compared byte for byte — and hence case-sensitively, a deliberate
//! tie-break that follows the behaviour of comparing the decoded strings
//! for exact equality — against the shell's executable name. Every failure
//! along the way collapses to "not started by the shell".

use vstd::prelude::*;

use crate::snapshot::ProcessEntry;
use crate::snapshot::ScanOutcome;
use crate::snapshot::find_entry;
use crate::snapshot::first_match_at;
use crate::snapshot::has_entry;
use crate::snapshot::lemma_first_match_unique;
use crate::snapshot::parent_of;
use crate::text::is_utf8;
use crate::text::is_valid_text;
use crate::text::lemma_ascii_is_utf8;

verus! {

/// Why an image name could not be decoded from a record's buffer.
#[derive(Clone, Copy, Debug, PartialEq, Eq, Structural)]
pub enum DecodeError {
    /// No terminating null byte anywhere within the buffer's capacity:
    /// a malformed record.
    MissingTerminator,
    /// The bytes before the terminator are not valid text.
    InvalidText,
}

/// The bytes of the graphical shell's executable image name,
/// `explorer.exe`.
pub open spec fn shell_image_name() -> Seq<u8> {
    seq![101u8, 120, 112, 108, 111, 114, 101, 114, 46, 101, 120, 101]
}

/// Some byte of `buf` is a null terminator.
pub open spec fn has_terminator(buf: Seq<u8>) -> bool {
    exists|i: int| 0 <= i < buf.len() && (#[trigger] buf[i]) == 0
}

/// Position `t` holds the first null byte of `buf`.
pub open spec fn terminator_at(buf: Seq<u8>, t: int) -> bool {
    &&& 0 <= t < buf.len()
    &&& buf[t] == 0
    &&& forall|j: int| 0 <= j < t ==> (#[trigger] buf[j]) != 0
}

/// At most one position holds the first null byte.
pub proof fn lemma_terminator_unique(buf: Seq<u8>, t: int, u: int)
    requires
        terminator_at(buf, t),
        terminator_at(buf, u),
    ensures
        t == u,
{
}

/// The record's buffer decodes to exactly the shell's image name: it has a
/// terminator, and the bytes before it are the shell name. (Those bytes are
/// all below 0x80, so they are necessarily valid text.)
pub open spec fn entry_name_is_shell(e: ProcessEntry) -> bool {
    exists|t: int|
        #[trigger] terminator_at(e.image_name@, t) && e.image_name@.subrange(0, t)
            == shell_image_name()
}

/// Interprets the record's fixed-capacity name buffer: locates the first
/// null terminator — failing on a record without one — and checks that the
/// bytes before it decode as text, returning them on success.
pub fn image_name_of(entry: &ProcessEntry) -> (r: Result<Vec<u8>, DecodeError>)
    ensures
        match r {
            Ok(name) => exists|t: int|
                #[trigger] terminator_at(entry.image_name@, t) && name@ == entry.image_name@
                    .subrange(0, t) && is_utf8(name@),
            Err(DecodeError::MissingTerminator) => !has_terminator(entry.image_name@),
            Err(DecodeError::InvalidText) => exists|t: int|
                #[trigger] terminator_at(entry.image_name@, t) && !is_utf8(
                    entry.image_name@.subrange(0, t),
                ),
        },
{
    let buf = &entry.image_name;
    let n = buf.len();
    let t = match find_terminator(buf) {
        Some(t) => t,
        None => {
            return Err(DecodeError::MissingTerminator);
        },
    };
    let mut name: Vec<u8> = Vec::new();
    let mut j: usize = 0;
    while j < t
        invariant
            t < n,
            n == buf@.len(),
            j <= t,
            name@ == buf@.subrange(0, j as int),
        decreases t - j,
    {
        name.push(buf[j]);
        proof {
            assert(name@ =~= buf@.subrange(0, j + 1 as int));
        }
        j = j + 1;
    }
    if is_valid_text(&name) {
        Ok(name)
    } else {
        Err(DecodeError::InvalidText)
    }
}

/// Scans a name buffer in order for its first null byte.
fn find_terminator(buf: &Vec<u8>) -> (r: Option<usize>)
    ensures
        match r {
            Some(t) => terminator_at(buf@, t as int),
            None => !has_terminator(buf@),
        },
{
    let mut t: usize = 0;
    while t < buf.len()
        invariant
            t <= buf@.len(),
            forall|j: int| 0 <= j < t ==> (#[trigger] buf@[j]) != 0,
        decreases buf@.len() - t,
    {
        if buf[t] == 0 {
            return Some(t);
        }
        t = t + 1;
    }
    None
}

/// Compares a decoded image name byte for byte against the shell's
/// executable name: equal exactly, or not the shell.
pub fn is_shell_image_name(name: &Vec<u8>) -> (r: bool)
    ensures
        r == (name@ == shell_image_name()),
{
    let expected = shell_name_bytes();
    if name.len() != expected.len() {
        return false;
    }
    let mut i: usize = 0;
    while i < expected.len()
        invariant
            expected@ == shell_image_name(),
            name@.len() == expected@.len(),
            i <= expected@.len(),
            forall|j: int| 0 <= j < i ==> (#[trigger] name@[j]) == expected@[j],
        decreases expected@.len() - i,
    {
        if name[i] != expected[i] {
            return false;
        }
        i = i + 1;
    }
    proof {
        assert(name@ =~= shell_image_name());
    }
    true
}

/// One scan of a snapshot, taken to look the parent process up, shows that
/// the parent is the graphical shell: the scan succeeded, a record for
/// `parent_pid` is present, and the first such record decodes to exactly
/// the shell's image name.
pub open spec fn parent_scan_shows_shell(scan: ScanOutcome, parent_pid: u32) -> bool {
    match scan {
        Ok(entries) => exists|k: int|
            #[trigger] first_match_at(entries@, parent_pid, k) && entry_name_is_shell(
                entries@[k],
            ),
        Err(_) => false,
    }
}

/// The whole two-hop query on the outcomes of its two snapshot scans: the
/// first scan must succeed and hold a record for the calling process, and
/// the second must show that the recorded parent is the graphical shell.
/// Every failure along the way makes the answer false.
pub open spec fn launched_by_shell(
    own_pid: u32,
    own_scan: ScanOutcome,
    parent_scan: ScanOutcome,
) -> bool {
    match own_scan {
        Ok(entries) => exists|i: int|
            #[trigger] first_match_at(entries@, own_pid, i) && parent_scan_shows_shell(
                parent_scan,
                entries@[i].parent_pid,
            ),
        Err(_) => false,
    }
}

/// Second hop of the query: decides from one snapshot scan whether the
/// process identified by `parent_pid` is the graphical shell. A failed
/// scan, a missing record, an undecodable name, and a name other than the
/// shell's all yield false.
pub fn resolve_shell_launch(scan: &ScanOutcome, parent_pid: u32) -> (r: bool)
    ensures
        r == parent_scan_shows_shell(*scan, parent_pid),
{
    match scan {
        Ok(entries) => {
            match find_entry(entries, parent_pid) {
                Ok(e) => {
                    let ghost gi = choose|i: int|
                        first_match_at(entries@, parent_pid, i) && *e == entries@[i];
                    let shell = match image_name_of(e) {
                        Ok(name) => is_shell_image_name(&name),
                        Err(_) => false,
                    };
                    proof {
                        lemma_entry_name_decides(*e, shell);
                        assert(parent_scan_shows_shell(*scan, parent_pid) == shell) by {
                            if shell {
                                assert(first_match_at(entries@, parent_pid, gi)
                                    && entry_name_is_shell(entries@[gi]));
                            }
                            if parent_scan_shows_shell(*scan, parent_pid) {
                                let k = choose|k: int|
                                    #[trigger] first_match_at(entries@, parent_pid, k)
                                        && entry_name_is_shell(entries@[k]);
                                lemma_first_match_unique(entries@, parent_pid, k, gi);
                            }
                        }
                    }
                    shell
                },
                Err(_) => {
                    proof {
                        assert forall|k: int| !first_match_at(entries@, parent_pid, k) by {
                            if first_match_at(entries@, parent_pid, k) {
                                assert(has_entry(entries@, parent_pid));
                            }
                        }
                    }
                    false
                },
            }
        },
        Err(_) => false,
    }
}

/// The decision of the whole query, taken over the outcomes of its two
/// snapshot scans. The answer is true exactly when both scans succeeded,
/// the first held a record for the calling process, and the second showed
/// the recorded parent to be the graphical shell; it is total — any
/// outcome of the scans is acceptable, and no failure escapes it.
pub fn query_decision(own_pid: u32, own_scan: &ScanOutcome, parent_scan: &ScanOutcome) -> (r:
    bool)
    ensures
        r == launched_by_shell(own_pid, *own_scan, *parent_scan),
{
    match parent_of(own_scan, own_pid) {
        Ok(p) => {
            let r = resolve_shell_launch(parent_scan, p);
            proof {
                let entries = own_scan->Ok_0;
                let gi = choose|i: int|
                    #[trigger] first_match_at(entries@, own_pid, i) && p == entries@[
                        i
                    ].parent_pid;
                assert(launched_by_shell(own_pid, *own_scan, *parent_scan)
                    == parent_scan_shows_shell(*parent_scan, p)) by {
                    if parent_scan_shows_shell(*parent_scan, p) {
                        assert(first_match_at(entries@, own_pid, gi) && parent_scan_shows_shell(
                            *parent_scan,
                            entries@[gi].parent_pid,
                        ));
                    }
                    if launched_by_shell(own_pid, *own_scan, *parent_scan) {
                        let i = choose|i: int|
                            #[trigger] first_match_at(entries@, own_pid, i)
                                && parent_scan_shows_shell(
                                *parent_scan,
                                entries@[i].parent_pid,
                            );
                        lemma_first_match_unique(entries@, own_pid, i, gi);
                    }
                }
            }
            r
        },
        Err(_) => {
            proof {
                if *own_scan is Ok {
                    let entries = own_scan->Ok_0;
                    assert forall|i: int| !first_match_at(entries@, own_pid, i) by {
                        if first_match_at(entries@, own_pid, i) {
                            assert(has_entry(entries@, own_pid));
                        }
                    }
                }
            }
            false
        },
    }
}

/// Fail-closed: a snapshot scan that failed on either hop, a calling
/// process whose record is missing from the first scan, and a parent scan
/// none of whose records decodes to the shell's name, each force the
/// query's answer to be false.
pub proof fn lemma_fail_closed(own_pid: u32, own_scan: ScanOutcome, parent_scan: ScanOutcome)
    ensures
        own_scan is Err ==> !launched_by_shell(own_pid, own_scan, parent_scan),
        parent_scan is Err ==> !launched_by_shell(own_pid, own_scan, parent_scan),
        (own_scan matches Ok(entries) && !has_entry(entries@, own_pid)) ==> !launched_by_shell(
            own_pid,
            own_scan,
            parent_scan,
        ),
        (parent_scan matches Ok(entries) && (forall|k: int|
            0 <= k < entries@.len() ==> !entry_name_is_shell(#[trigger] entries@[k])))
            ==> !launched_by_shell(own_pid, own_scan, parent_scan),
{
    if own_scan is Ok {
        let entries = own_scan->Ok_0;
        if !has_entry(entries@, own_pid) {
            assert forall|i: int| !first_match_at(entries@, own_pid, i) by {
                if first_match_at(entries@, own_pid, i) {
                    assert(has_entry(entries@, own_pid));
                }
            }
        }
    }
    if parent_scan is Ok {
        let entries = parent_scan->Ok_0;
        if forall|k: int| 0 <= k < entries@.len() ==> !entry_name_is_shell(#[trigger] entries@[k]) {
            assert forall|pid: u32, k: int| !(#[trigger] first_match_at(entries@, pid, k)
                && entry_name_is_shell(entries@[k])) by {
                if first_match_at(entries@, pid, k) {
                    assert(!entry_name_is_shell(entries@[k]));
                }
            }
        }
    }
}

/// A record whose buffer holds no terminator, or whose terminated bytes
/// are not valid text, never passes for the shell.
pub proof fn lemma_undecodable_name_is_not_shell(e: ProcessEntry)
    ensures
        !has_terminator(e.image_name@) ==> !entry_name_is_shell(e),
        forall|t: int|
            #[trigger] terminator_at(e.image_name@, t) && !is_utf8(e.image_name@.subrange(0, t))
                ==> !entry_name_is_shell(e),
{
    if !has_terminator(e.image_name@) {
        if entry_name_is_shell(e) {
            let u = choose|u: int|
                #[trigger] terminator_at(e.image_name@, u) && e.image_name@.subrange(0, u)
                    == shell_image_name();
            assert(has_terminator(e.image_name@));
        }
    }
    assert forall|t: int|
        #[trigger] terminator_at(e.image_name@, t) && !is_utf8(
            e.image_name@.subrange(0, t),
        ) implies !entry_name_is_shell(e) by {
        if entry_name_is_shell(e) {
            let u = choose|u: int|
                #[trigger] terminator_at(e.image_name@, u) && e.image_name@.subrange(0, u)
                    == shell_image_name();
            lemma_terminator_unique(e.image_name@, t, u);
            lemma_shell_name_is_utf8();
        }
    }
}

/// The shell's image name is itself valid text: all of its bytes are below
/// 0x80.
pub proof fn lemma_shell_name_is_utf8()
    ensures
        is_utf8(shell_image_name()),
{
    assert(forall|j: int|
        0 <= j < shell_image_name().len() ==> (#[trigger] shell_image_name()[j]) < 0x80);
    lemma_ascii_is_utf8(shell_image_name(), 0);
}

/// Connects the decode-and-compare path to [`entry_name_is_shell`]: the
/// boolean computed from `image_name_of` and `is_shell_image_name` — false
/// whenever decoding fails — agrees with the predicate exactly when it
/// reports whether the record's decoded name is the shell's.
proof fn lemma_entry_name_decides(e: ProcessEntry, shell: bool)
    requires
        ({
            ||| (exists|t: int|
                #[trigger] terminator_at(e.image_name@, t) && shell == (e.image_name@.subrange(
                    0,
                    t,
                ) == shell_image_name()))
            ||| (!shell && !has_terminator(e.image_name@))
            ||| (!shell && exists|t: int|
                #[trigger] terminator_at(e.image_name@, t) && !is_utf8(
                    e.image_name@.subrange(0, t),
                ))
        }),
    ensures
        shell == entry_name_is_shell(e),
{
    if exists|t: int|
        #[trigger] terminator_at(e.image_name@, t) && shell == (e.image_name@.subrange(0, t)
            == shell_image_name()) {
        let t = choose|t: int|
            #[trigger] terminator_at(e.image_name@, t) && shell == (e.image_name@.subrange(0, t)
                == shell_image_name());
        if shell {
            assert(entry_name_is_shell(e));
        } else if entry_name_is_shell(e) {
            let u = choose|u: int|
                #[trigger] terminator_at(e.image_name@, u) && e.image_name@.subrange(0, u)
                    == shell_image_name();
            lemma_terminator_unique(e.image_name@, t, u);
        }
    } else if !has_terminator(e.image_name@) {
        if entry_name_is_shell(e) {
            let u = choose|u: int|
                #[trigger] terminator_at(e.image_name@, u) && e.image_name@.subrange(0, u)
                    == shell_image_name();
            assert(has_terminator(e.image_name@));
        }
    } else {
        let t = choose|t: int|
            #[trigger] terminator_at(e.image_name@, t) && !is_utf8(e.image_name@.subrange(0, t));
        if entry_name_is_shell(e) {
            let u = choose|u: int|
                #[trigger] terminator_at(e.image_name@, u) && e.image_name@.subrange(0, u)
                    == shell_image_name();
            lemma_terminator_unique(e.image_name@, t, u);
            lemma_shell_name_is_utf8();
        }
    }
}

/// Builds the shell's executable image name as bytes.
fn shell_name_bytes() -> (v: Vec<u8>)
    ensures
        v@ == shell_image_name(),
{
    let mut v: Vec<u8> = Vec::new();
    v.push(101);
    v.push(120);
    v.push(112);
    v.push(108);
    v.push(111);
    v.push(114);
    v.push(101);
    v.push(114);
    v.push(46);
    v.push(101);
    v.push(120);
    v.push(101);
    proof {
        assert(v@ =~= shell_image_name());
    }
    v
}

} // verus!

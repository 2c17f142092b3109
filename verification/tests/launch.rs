use launch_check::DecodeError;
use launch_check::LookupError;
use launch_check::ProcessEntry;
use launch_check::ScanOutcome;
use launch_check::find_entry;
use launch_check::image_name_of;
use launch_check::is_shell_image_name;
use launch_check::parent_of;
use launch_check::query_decision;
use launch_check::resolve_shell_launch;
use launch_check::started_by_explorer;

/// Capacity of the fixed image-name buffer in a snapshot record.
const BUFFER_CAPACITY: usize = 260;

/// A name buffer as the platform delivers it: the name, a terminating
/// null, and zeroed leftover capacity.
fn buffer_with(name: &[u8]) -> Vec<u8> {
    let mut buf = name.to_vec();
    buf.push(0);
    while buf.len() < BUFFER_CAPACITY {
        buf.push(0);
    }
    buf
}

fn entry(pid: u32, parent_pid: u32, name: &[u8]) -> ProcessEntry {
    ProcessEntry { pid, parent_pid, image_name: buffer_with(name) }
}

#[test]
fn test_started_by_explorer() {
    assert!(!started_by_explorer());
}

#[test]
fn scenario_parent_is_explorer() {
    let own: ScanOutcome = Ok(vec![
        entry(9, 200, b"svchost.exe"),
        entry(42, 7, b"app.exe"),
    ]);
    let parent: ScanOutcome = Ok(vec![
        entry(9, 200, b"svchost.exe"),
        entry(7, 1, b"explorer.exe"),
    ]);
    assert!(query_decision(42, &own, &parent));
}

#[test]
fn scenario_parent_is_cmd() {
    let own: ScanOutcome = Ok(vec![entry(42, 7, b"app.exe")]);
    let parent: ScanOutcome = Ok(vec![entry(7, 1, b"cmd.exe")]);
    assert!(!query_decision(42, &own, &parent));
}

#[test]
fn scenario_parent_vanished() {
    let own: ScanOutcome = Ok(vec![entry(42, 7, b"app.exe")]);
    let parent: ScanOutcome = Ok(vec![entry(9, 200, b"svchost.exe")]);
    assert!(!query_decision(42, &own, &parent));
}

#[test]
fn scenario_snapshot_unavailable() {
    let failed: ScanOutcome = Err(LookupError::SnapshotUnavailable);
    let healthy: ScanOutcome = Ok(vec![entry(7, 1, b"explorer.exe")]);
    assert!(!query_decision(42, &failed, &healthy));
    let own: ScanOutcome = Ok(vec![entry(42, 7, b"app.exe")]);
    assert!(!query_decision(42, &own, &failed));
}

#[test]
fn own_entry_missing_fails_closed() {
    let own: ScanOutcome = Ok(vec![entry(9, 200, b"svchost.exe")]);
    let parent: ScanOutcome = Ok(vec![entry(7, 1, b"explorer.exe")]);
    assert!(!query_decision(42, &own, &parent));
}

#[test]
fn name_match_is_exact() {
    assert!(is_shell_image_name(&b"explorer.exe".to_vec()));
    assert!(!is_shell_image_name(&b"explorer.ex".to_vec()));
    assert!(!is_shell_image_name(&b"xplorer.exe".to_vec()));
    assert!(!is_shell_image_name(&b"explorer.exee".to_vec()));
    assert!(!is_shell_image_name(&b"Explorer.exe".to_vec()));
    assert!(!is_shell_image_name(&b"EXPLORER.EXE".to_vec()));
    assert!(!is_shell_image_name(&b"".to_vec()));
}

#[test]
fn case_variant_parent_name_is_rejected() {
    let own: ScanOutcome = Ok(vec![entry(42, 7, b"app.exe")]);
    let parent: ScanOutcome = Ok(vec![entry(7, 1, b"Explorer.exe")]);
    assert!(!query_decision(42, &own, &parent));
}

#[test]
fn missing_terminator_is_malformed() {
    let e = ProcessEntry { pid: 7, parent_pid: 1, image_name: vec![0xAA; BUFFER_CAPACITY] };
    assert_eq!(image_name_of(&e), Err(DecodeError::MissingTerminator));
    let own: ScanOutcome = Ok(vec![entry(42, 7, b"app.exe")]);
    let parent: ScanOutcome = Ok(vec![e]);
    assert!(!query_decision(42, &own, &parent));
}

#[test]
fn non_text_name_is_rejected() {
    let e = entry(7, 1, &[0xFF, 0xFE, 0xFD]);
    assert_eq!(image_name_of(&e), Err(DecodeError::InvalidText));
    let own: ScanOutcome = Ok(vec![entry(42, 7, b"app.exe")]);
    let parent: ScanOutcome = Ok(vec![e]);
    assert!(!query_decision(42, &own, &parent));
}

#[test]
fn image_name_stops_at_first_null() {
    let mut buf = b"cmd.exe".to_vec();
    buf.push(0);
    buf.extend_from_slice(b"leftover junk");
    buf.push(0);
    while buf.len() < BUFFER_CAPACITY {
        buf.push(0xAA);
    }
    let e = ProcessEntry { pid: 7, parent_pid: 1, image_name: buf };
    assert_eq!(image_name_of(&e), Ok(b"cmd.exe".to_vec()));
}

#[test]
fn empty_name_is_decodable_but_not_shell() {
    let e = entry(7, 1, b"");
    let name = image_name_of(&e).expect("empty name should decode");
    assert_eq!(name, Vec::<u8>::new());
    assert!(!is_shell_image_name(&name));
}

#[test]
fn find_entry_returns_first_match() {
    let entries = vec![
        entry(9, 200, b"svchost.exe"),
        entry(7, 1, b"explorer.exe"),
        entry(7, 999, b"cmd.exe"),
    ];
    let found = find_entry(&entries, 7).expect("pid 7 is present");
    assert_eq!(found.parent_pid, 1);
    assert!(find_entry(&entries, 8).is_err());
}

#[test]
fn parent_of_resolves_and_fails_exactly() {
    let scan: ScanOutcome = Ok(vec![entry(42, 7, b"app.exe")]);
    assert_eq!(parent_of(&scan, 42), Ok(7));
    assert_eq!(parent_of(&scan, 5), Err(LookupError::NotFound));
    let empty: ScanOutcome = Ok(Vec::new());
    assert_eq!(parent_of(&empty, 42), Err(LookupError::NotFound));
    let failed: ScanOutcome = Err(LookupError::EnumerationError);
    assert_eq!(parent_of(&failed, 42), Err(LookupError::EnumerationError));
}

#[test]
fn resolve_shell_launch_decides() {
    let scan: ScanOutcome = Ok(vec![entry(7, 1, b"explorer.exe")]);
    assert!(resolve_shell_launch(&scan, 7));
    assert!(!resolve_shell_launch(&scan, 8));
    let failed: ScanOutcome = Err(LookupError::SnapshotUnavailable);
    assert!(!resolve_shell_launch(&failed, 7));
}

use aranya_afc::streams::{advance_scan, Probe, Scan, ScanStep, StreamTable};

#[test]
fn empty_table_scan_is_idle() {
    let t = StreamTable::new();
    assert_eq!(t.len(), 0);
    assert_eq!(t.begin_scan().1, ScanStep::Idle);
    let (scan, step) = t.begin_scan_at(7);
    assert_eq!(step, ScanStep::Idle);
    assert_eq!(scan.left, 0);
    assert!(t.get_index(0).is_none());
    assert_eq!(t.find_open(&Vec::new()), None);
}

#[test]
fn not_ready_moves_round_robin() {
    let s = Scan { start: 2, idx: 2, left: 3 };
    let s = advance_scan(s, 3, Probe::NotReady);
    assert_eq!(s, Scan { start: 2, idx: 0, left: 2 });
    let s = advance_scan(s, 3, Probe::NotReady);
    assert_eq!(s, Scan { start: 2, idx: 1, left: 1 });
    let s = advance_scan(s, 3, Probe::NotReady);
    assert_eq!(s.left, 0);
}

#[test]
fn failed_probe_reprobes_swapped_entry() {
    // Position 0 is evicted; the last entry moves there and is not yet visited.
    let s = advance_scan(Scan { start: 0, idx: 0, left: 3 }, 3, Probe::Failed);
    assert_eq!(s, Scan { start: 0, idx: 0, left: 2 });
}

#[test]
fn failed_probe_at_end_wraps() {
    let s = advance_scan(Scan { start: 1, idx: 2, left: 2 }, 3, Probe::Failed);
    assert_eq!(s, Scan { start: 1, idx: 0, left: 1 });
}

#[test]
fn failed_probe_after_wrap_skips_visited() {
    // Started at 2, wrapped to 0: the entry swapped in from the end was
    // already probed, so the scan moves on.
    let s = advance_scan(Scan { start: 2, idx: 0, left: 2 }, 4, Probe::Failed);
    assert_eq!(s, Scan { start: 2, idx: 1, left: 1 });
}

#[test]
fn last_stream_failing_ends_scan() {
    let s = advance_scan(Scan { start: 0, idx: 0, left: 1 }, 1, Probe::Failed);
    assert_eq!(s, Scan { start: 0, idx: 0, left: 0 });
}

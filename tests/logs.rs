use atomic_store::append_log::{format_index_file_pattern, AppendLog, INDEX_RESOURCE_SIZE, INDEX_SLOTS_PER_FILE};
use atomic_store::fixed_append_log::{
    check_index_format, compute_location, load_existing_index, FixedAppendLog, IndexContents,
    SlotAddress, BYTE_DISORDER, BYTE_ORDER,
};
use atomic_store::rolling_log::{scan_segment, RollingLog, SegmentRepair, DEFAULT_RETAINED_ENTRIES};
use atomic_store::segment::{plan_segment_recovery, SegmentBackup, SegmentRecovery};
use atomic_store::storage_location::StorageLocation;
use atomic_store::version_sync::VersionSyncHandle;
use atomic_store::PersistenceError;

fn header(chunk_size: u32, file_size: u32, commit_index: u32) -> IndexContents {
    IndexContents { byte_order: BYTE_ORDER, chunk_size, file_size, commit_index }
}

#[test]
fn location_bytes_round_trip() {
    let loc = StorageLocation { store_start: 0x0102_0304_0506_0708, store_length: 77, file_counter: 9 };
    let bytes = loc.to_bytes();
    assert_eq!(bytes, vec![8, 7, 6, 5, 4, 3, 2, 1, 77, 0, 0, 0, 9, 0, 0, 0]);
    assert_eq!(StorageLocation::from_bytes(&bytes), Some(loc));
    assert_eq!(StorageLocation::from_bytes(&bytes[..15]), None);
}

#[test]
fn location_text_form() {
    let loc = StorageLocation { store_start: 16, store_length: 8, file_counter: 3 };
    assert_eq!(loc.to_string(), "@3{16+8}");
}

#[test]
fn index_header_encoding() {
    let h = header(16, 1024, 5);
    let bytes = h.to_bytes();
    assert_eq!(bytes, vec![0xFF, 0xFE, 0x01, 0x80, 16, 0, 0, 0, 0, 4, 0, 0, 5, 0, 0, 0]);
    assert_eq!(load_existing_index(&bytes, "p_index").unwrap(), h);
}

#[test]
fn index_header_too_short() {
    let bytes = header(16, 1024, 5).to_bytes();
    assert!(matches!(
        load_existing_index(&bytes[..12], "p_index"),
        Err(PersistenceError::InvalidFileContents { .. })
    ));
}

#[test]
fn index_header_foreign_byte_order() {
    let mut h = header(16, 1024, 5);
    h.byte_order = BYTE_DISORDER;
    assert!(matches!(
        load_existing_index(&h.to_bytes(), "p_index"),
        Err(PersistenceError::FeatureNotYetImplemented { .. })
    ));
}

#[test]
fn index_header_bad_marker() {
    let mut h = header(16, 1024, 5);
    h.byte_order = 7;
    assert!(matches!(
        load_existing_index(&h.to_bytes(), "p_index"),
        Err(PersistenceError::InvalidFileContents { .. })
    ));
}

#[test]
fn compute_location_of_header() {
    let loc = compute_location(&header(16, 4, 6));
    assert_eq!(loc, StorageLocation { store_start: 16, store_length: 16, file_counter: 1 });
    let first = compute_location(&header(16, 4, 0));
    assert_eq!(first, StorageLocation { store_start: 0, store_length: 16, file_counter: 0 });
}

#[test]
fn reopen_with_other_chunk_size_is_refused() {
    let mut log = FixedAppendLog::open_impl(None, "things", 16, 1024).unwrap();
    log.store_resource().unwrap();
    let stored = log.commit_version();
    let reread = load_existing_index(&stored.to_bytes(), "things_index").unwrap();
    assert!(matches!(
        FixedAppendLog::open_impl(Some(reread), "things", 32, 1024),
        Err(PersistenceError::ResourceFormatInconsistent { .. })
    ));
    assert!(matches!(
        FixedAppendLog::open_impl(Some(reread), "things", 16, 512),
        Err(PersistenceError::ResourceFormatInconsistent { .. })
    ));
    let same = FixedAppendLog::open_impl(Some(reread), "things", 16, 1024).unwrap();
    assert_eq!(same.commit_index(), 1);
    assert_eq!(same.write_index(), 1);
    assert!(check_index_format(&reread, 16, 1024, "things").is_ok());
}

#[test]
fn fixed_append_log_empty_iterator() {
    let mut log = FixedAppendLog::open_impl(None, "fixed_append_thing", 16, 1024).unwrap();
    assert!(log.iter().next().is_none());
    let _location = log.store_resource().unwrap();
    assert!(log.iter().next().is_none());
    log.revert_version();
    assert!(log.iter().next().is_none());
}

#[test]
fn append_log_empty_iterator() {
    let index_pattern = format_index_file_pattern("append_thing");
    assert_eq!(index_pattern, "append_thing_index");
    let mut index =
        FixedAppendLog::open_impl(None, &index_pattern, INDEX_RESOURCE_SIZE, INDEX_SLOTS_PER_FILE)
            .unwrap();
    let mut log = AppendLog::open_impl(None, "append_thing", 1024).unwrap();
    assert!(index.iter().next().is_none());
    let (location, _) = log.store_resource(16).unwrap();
    index.store_resource().unwrap();
    assert_eq!(location, StorageLocation { store_start: 0, store_length: 16, file_counter: 0 });
    assert!(index.iter().next().is_none());
    index.revert_version();
    log.revert_version();
    assert!(index.iter().next().is_none());
    assert_eq!(log.write_target(), (0, 0));
}

#[test]
fn fixed_slot_locations_round_trip() {
    let mut log = FixedAppendLog::open_impl(None, "slots", 16, 4).unwrap();
    for i in 0..6u64 {
        let loc = log.store_resource().unwrap();
        assert_eq!(log.location_to_index(&loc).unwrap(), i);
        assert_eq!(loc, log.index_to_location(i));
    }
    let loc = log.index_to_location(5);
    assert_eq!(loc, StorageLocation { store_start: 16, store_length: 16, file_counter: 1 });
    assert_eq!(
        log.slot_address(5),
        SlotAddress { range_begin: 4, range_end: 8, offset: 16, length: 16 }
    );
    let bad = StorageLocation { store_start: 8, store_length: 16, file_counter: 0 };
    assert!(matches!(
        log.location_to_index(&bad),
        Err(PersistenceError::ResourceFormatInconsistent { .. })
    ));
}

#[test]
fn fixed_log_visibility_and_revert() {
    let mut log = FixedAppendLog::open_impl(None, "vis", 16, 4).unwrap();
    let mut handle = VersionSyncHandle::new("vis", None);
    for _ in 0..3 {
        let loc = log.store_resource().unwrap();
        handle.advance_next(Some(loc));
    }
    log.commit_version();
    assert!(handle.update_version());
    let committed = *handle.last_location();
    assert_eq!(log.iter().len(), 3);
    for _ in 0..2 {
        let loc = log.store_resource().unwrap();
        handle.advance_next(Some(loc));
    }
    assert_eq!(log.iter().len(), 3);
    assert_eq!(*handle.last_location(), committed);
    log.revert_version();
    handle.revert_version();
    assert_eq!(*handle.next_location(), committed);
    assert_eq!(log.write_index(), 3);
    let mut it = log.iter();
    let mut count = 0;
    while it.next().is_some() {
        count += 1;
    }
    assert_eq!(count, 3);
    assert_eq!(log.load_latest(committed).unwrap(), 2);
}

#[test]
fn fixed_iter_nth() {
    let mut log = FixedAppendLog::open_impl(None, "nth", 8, 2).unwrap();
    for _ in 0..5 {
        log.store_resource().unwrap();
    }
    log.commit_version();
    let mut it = log.iter();
    assert_eq!(it.nth(2), Some(SlotAddress { range_begin: 2, range_end: 4, offset: 0, length: 8 }));
    assert_eq!(it.len(), 2);
    assert_eq!(it.nth(5), None);
    assert_eq!(it.len(), 0);
}

#[test]
fn load_latest_before_any_commit() {
    let log = FixedAppendLog::open_impl(None, "none", 16, 4).unwrap();
    assert!(matches!(
        log.load_latest(None),
        Err(PersistenceError::FailedToFindExpectedResource { .. })
    ));
    let alog = AppendLog::open_impl(None, "none", 64).unwrap();
    assert!(matches!(
        alog.load_latest(None),
        Err(PersistenceError::FailedToFindExpectedResource { .. })
    ));
}

#[test]
fn append_log_rolls_segments() {
    let mut log = AppendLog::open_impl(None, "roll", 40).unwrap();
    assert_eq!(log.store_resource(16).unwrap(), (StorageLocation { store_start: 0, store_length: 16, file_counter: 0 }, false));
    assert_eq!(log.store_resource(16).unwrap(), (StorageLocation { store_start: 16, store_length: 16, file_counter: 0 }, false));
    assert_eq!(log.store_resource(16).unwrap(), (StorageLocation { store_start: 32, store_length: 16, file_counter: 0 }, true));
    assert_eq!(log.write_target(), (1, 0));
}

#[test]
fn append_log_resumes_after_location() {
    let mid = StorageLocation { store_start: 32, store_length: 16, file_counter: 2 };
    let log = AppendLog::open_impl(Some(mid), "resume", 1024).unwrap();
    assert_eq!(log.write_target(), (2, 48));
    let full = AppendLog::open_impl(Some(mid), "resume", 48).unwrap();
    assert_eq!(full.write_target(), (3, 0));
    let last = StorageLocation { store_start: 0, store_length: 48, file_counter: u32::MAX };
    assert!(matches!(
        AppendLog::open_impl(Some(last), "resume", 48),
        Err(PersistenceError::ResourceFormatInconsistent { .. })
    ));
}

#[test]
fn ten_records_then_reopen() {
    let mut log = AppendLog::open_impl(None, "ten", 1024).unwrap();
    let mut index = FixedAppendLog::open_impl(None, "ten_index", 16, 256).unwrap();
    let mut handle = VersionSyncHandle::new("ten", None);
    let mut locations = Vec::new();
    for _ in 0..10 {
        let (loc, rolled) = log.store_resource(16).unwrap();
        assert!(!rolled);
        index.store_resource().unwrap();
        handle.advance_next(Some(loc));
        locations.push(loc);
    }
    log.commit_version();
    let stored_header = index.commit_version();
    handle.update_version();
    let (eleventh, _) = log.store_resource(16).unwrap();
    index.store_resource().unwrap();
    handle.advance_next(Some(eleventh));
    // Reopen from what is durable: the confirmed location and the index header.
    let confirmed = *handle.last_location();
    assert_eq!(confirmed, Some(locations[9]));
    assert_eq!(locations[9], StorageLocation { store_start: 144, store_length: 16, file_counter: 0 });
    let reopened = AppendLog::open_impl(confirmed, "ten", 1024).unwrap();
    assert_eq!(reopened.load_latest(confirmed).unwrap(), locations[9]);
    assert_eq!(reopened.write_target(), (0, 160));
    let reindex = FixedAppendLog::open_impl(Some(stored_header), "ten_index", 16, 256).unwrap();
    assert_eq!(reindex.iter().len(), 10);
    let handle = VersionSyncHandle::new("ten", confirmed);
    assert_eq!(*handle.last_location(), Some(locations[9]));
}

#[test]
fn segment_recovery_plans() {
    assert_eq!(
        plan_segment_recovery(None, 0, "s").unwrap(),
        SegmentRecovery { backup: SegmentBackup::Keep, resize: false }
    );
    assert_eq!(
        plan_segment_recovery(Some((true, 100)), 40, "s").unwrap(),
        SegmentRecovery { backup: SegmentBackup::Copy, resize: true }
    );
    assert_eq!(
        plan_segment_recovery(Some((true, 100)), 0, "s").unwrap(),
        SegmentRecovery { backup: SegmentBackup::Rename, resize: false }
    );
    assert_eq!(
        plan_segment_recovery(Some((true, 20)), 40, "s").unwrap(),
        SegmentRecovery { backup: SegmentBackup::Keep, resize: true }
    );
    assert_eq!(
        plan_segment_recovery(Some((true, 40)), 40, "s").unwrap(),
        SegmentRecovery { backup: SegmentBackup::Keep, resize: false }
    );
    assert!(matches!(
        plan_segment_recovery(Some((false, 0)), 40, "s"),
        Err(PersistenceError::InvalidPathToFile { .. })
    ));
}

fn framed(entries: &[&[u8]], header: u32) -> Vec<u8> {
    let mut out = header.to_le_bytes().to_vec();
    for e in entries {
        out.extend_from_slice(&(e.len() as u32).to_le_bytes());
        out.extend_from_slice(e);
    }
    out
}

#[test]
fn rolling_segment_scan() {
    assert_eq!(
        scan_segment(&[], 4, "r").unwrap(),
        SegmentRepair { entries: 0, header: Some(0), truncate: false }
    );
    let good = framed(&[b"abc", b"defgh"], 2);
    assert_eq!(good.len(), 20);
    assert_eq!(
        scan_segment(&good, 20, "r").unwrap(),
        SegmentRepair { entries: 2, header: None, truncate: false }
    );
    let stale = framed(&[b"abc", b"defgh"], 1);
    assert_eq!(
        scan_segment(&stale, 20, "r").unwrap(),
        SegmentRepair { entries: 2, header: Some(2), truncate: false }
    );
    assert_eq!(
        scan_segment(&good, 11, "r").unwrap(),
        SegmentRepair { entries: 1, header: Some(1), truncate: true }
    );
    assert!(matches!(
        scan_segment(&good, 30, "r"),
        Err(PersistenceError::InvalidFileContents { .. })
    ));
    assert!(matches!(
        scan_segment(&good, 13, "r"),
        Err(PersistenceError::InvalidFileContents { .. })
    ));
}

#[test]
fn rolling_log_frames_and_rolls() {
    let mut log = RollingLog::open_impl(None, "rl", 24, DEFAULT_RETAINED_ENTRIES).unwrap();
    assert_eq!(log.write_target(), (0, 4));
    let (a, seal_a) = log.store_resource(5).unwrap();
    assert_eq!(a, StorageLocation { store_start: 8, store_length: 5, file_counter: 0 });
    assert_eq!(seal_a, None);
    let (b, seal_b) = log.store_resource(7).unwrap();
    assert_eq!(b, StorageLocation { store_start: 17, store_length: 7, file_counter: 0 });
    assert_eq!(seal_b, Some(2));
    assert_eq!(log.write_target(), (1, 4));
    assert_eq!(log.commit_version(), vec![0, 0, 0, 0]);
}

#[test]
fn rolling_log_revert_returns_to_commit() {
    let mut log = RollingLog::open_impl(None, "rv", 1000, DEFAULT_RETAINED_ENTRIES).unwrap();
    log.store_resource(10).unwrap();
    log.commit_version();
    log.store_resource(10).unwrap();
    assert_eq!(log.write_target(), (0, 32));
    log.revert_version();
    assert_eq!(log.write_target(), (0, 18));
}

#[test]
fn rolling_log_reopen_counts_entries() {
    let last = StorageLocation { store_start: 8, store_length: 3, file_counter: 0 };
    let mut log = RollingLog::open_impl(Some(last), "ro", 100, DEFAULT_RETAINED_ENTRIES).unwrap();
    assert_eq!(log.write_target(), (0, 11));
    let contents = framed(&[b"abc", b"xyz"], 2);
    let repair = log.open_write_file(&contents, ".ro_0").unwrap();
    assert_eq!(repair, SegmentRepair { entries: 1, header: Some(1), truncate: true });
    assert_eq!(log.commit_version(), vec![1, 0, 0, 0]);
}

#[test]
fn prune_file_entries() {
    let loader_tag = "test_key";
    let value_tag = format!("{}_type", loader_tag);
    let mut log = RollingLog::open_impl(None, &value_tag, 1, DEFAULT_RETAINED_ENTRIES).unwrap();
    let mut handle = VersionSyncHandle::new(&value_tag, None);
    let (first, seal) = log.store_resource(8).unwrap();
    assert_eq!(seal, Some(1));
    handle.advance_next(Some(first));
    let (second, seal) = log.store_resource(8).unwrap();
    assert_eq!(seal, Some(1));
    handle.advance_next(Some(second));
    log.commit_version();
    handle.update_version();
    assert_eq!(second.file_counter, 1);
    // Segment 1 holds one entry, segment 0 one entry.
    let counts = vec![Some(1), Some(1)];
    assert!(log.prune_file_entries(*handle.last_location(), &counts).is_empty());
    log.set_retained_entries(1);
    assert_eq!(log.prune_file_entries(*handle.last_location(), &counts), vec![0]);
}

#[test]
fn prune_keeps_budget_and_stops_at_missing_file() {
    let log = RollingLog::open_impl(None, "pk", 100, 5).unwrap();
    let last = Some(StorageLocation { store_start: 4, store_length: 1, file_counter: 5 });
    // Segments 5, 4, 3, 2, 1, 0 hold 2, 2, 2, 2, 2, 2 entries.
    let counts = vec![Some(2), Some(2), Some(2), Some(2), Some(2), Some(2)];
    assert_eq!(log.prune_file_entries(last, &counts), vec![2, 1, 0]);
    let gap = vec![Some(2), Some(2), Some(2), None, Some(2), Some(2)];
    assert_eq!(log.prune_file_entries(last, &gap), vec![]);
    assert!(log.prune_file_entries(None, &counts).is_empty());
}

#[test]
fn exhausted_positions_fail_to_write() {
    let full = header(16, 4, u32::MAX);
    let mut fixed = FixedAppendLog::open_impl(Some(full), "full", 16, 4).unwrap();
    assert!(matches!(fixed.store_resource(), Err(PersistenceError::FailedToWriteToFile { .. })));
    assert_eq!(fixed.write_index(), u32::MAX as u64);

    let near_end = StorageLocation { store_start: u64::MAX - 10, store_length: 5, file_counter: 0 };
    let mut append = AppendLog::open_impl(Some(near_end), "end", u64::MAX).unwrap();
    assert_eq!(append.write_target(), (0, u64::MAX - 5));
    assert!(matches!(append.store_resource(16), Err(PersistenceError::FailedToWriteToFile { .. })));
    assert_eq!(append.write_target(), (0, u64::MAX - 5));

    let mut rolling = RollingLog::open_impl(Some(near_end), "end", u64::MAX, 1).unwrap();
    assert!(matches!(rolling.store_resource(16), Err(PersistenceError::FailedToWriteToFile { .. })));
}

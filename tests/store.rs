use atomic_store::atomic_store::{
    archive_file_exists, find_newest_archive, prune_archives, AtomicStore, AtomicStoreLoader,
    DEFAULT_COMMIT_TIMEOUT_NANOS,
};
use atomic_store::names::{
    archive_number, format_archived_file_name, format_backup_file_name,
    format_backup_index_file_name, format_index_file_name, format_latest_file_name,
    format_nth_file_name, format_range_file_name, format_segment_stem, format_working_file_name,
    format_working_index_file_name, parse_u32,
};
use atomic_store::storage_location::StorageLocation;
use atomic_store::toc::{TableOfContents, TocEntry};
use atomic_store::version_sync::VersionSyncHandle;
use atomic_store::PersistenceError;

/// A directory held in memory: names and contents.
struct Dir {
    files: Vec<(String, Vec<u8>)>,
}

impl Dir {
    fn new() -> Dir {
        Dir { files: Vec::new() }
    }
    fn get(&self, name: &str) -> Option<Vec<u8>> {
        self.files.iter().find(|(n, _)| n == name).map(|(_, c)| c.clone())
    }
    fn put(&mut self, name: String, contents: Vec<u8>) {
        self.remove(&name);
        self.files.push((name, contents));
    }
    fn remove(&mut self, name: &str) {
        self.files.retain(|(n, _)| n != name);
    }
    fn rename(&mut self, from: &str, to: String) {
        let contents = self.get(from).unwrap();
        self.remove(from);
        self.put(to, contents);
    }
    fn names(&self) -> Vec<String> {
        self.files.iter().map(|(n, _)| n.clone()).collect()
    }
}

fn load(dir: &Dir, pattern: &str) -> AtomicStoreLoader {
    let stored = match dir.get(&format_latest_file_name(pattern)) {
        Some(b) => Some(b),
        None => {
            let names = dir.names();
            find_newest_archive(pattern, &names).map(|(i, _)| dir.get(&names[i]).unwrap())
        }
    };
    AtomicStoreLoader::load(pattern, stored.as_deref()).unwrap()
}

fn open(loader: AtomicStoreLoader, dir: &mut Dir) -> AtomicStore {
    if let Some(floor) = loader.startup_prune_floor() {
        let names = dir.names();
        for i in prune_archives(loader.file_pattern(), &names, floor) {
            dir.remove(&names[i]);
        }
    }
    AtomicStore::open(loader, false).unwrap()
}

fn commit(
    store: &mut AtomicStore,
    handles: &mut Vec<VersionSyncHandle>,
    dir: &mut Dir,
) -> Result<(), PersistenceError> {
    let plan = store.commit_version(handles)?;
    let pattern = store.file_pattern().to_string();
    let working = format_working_file_name(&pattern);
    let latest = format_latest_file_name(&pattern);
    dir.put(working.clone(), plan.contents);
    if let Some(old) = dir.get(&latest) {
        let previous = match plan.previous_counter {
            Some(c) => c,
            None => TableOfContents::from_bytes(&old).unwrap().file_counter,
        };
        dir.rename(&latest, format_archived_file_name(&pattern, previous));
    }
    dir.rename(&working, latest);
    if let Some(n) = plan.prune {
        dir.remove(&format_archived_file_name(&pattern, n));
    }
    store.complete_commit();
    Ok(())
}

fn list_archives(dir: &Dir, pattern: &str) -> Vec<u32> {
    let mut versions: Vec<u32> =
        dir.names().iter().filter_map(|n| archive_number(pattern, n)).collect();
    versions.sort();
    versions
}

#[test]
fn test_archive_pruning() {
    let mut dir = Dir::new();
    let file_pattern = "test_archive_pruning";
    {
        let loader = AtomicStoreLoader::create(file_pattern);
        let mut store = open(loader, &mut dir);
        for _ in 0..5 {
            commit(&mut store, &mut Vec::new(), &mut dir).expect("Could not commit store");
        }
        assert_eq!(list_archives(&dir, file_pattern), vec![0, 1, 2, 3]);
    }
    {
        let mut loader = load(&dir, file_pattern);
        loader.retain_archives(2);
        let mut store = open(loader, &mut dir);
        assert_eq!(list_archives(&dir, file_pattern), vec![2, 3]);
        for i in 5..10 {
            commit(&mut store, &mut Vec::new(), &mut dir).expect("Could not commit store");
            assert_eq!(list_archives(&dir, file_pattern), vec![i - 2, i - 1]);
        }
    }
    {
        let latest = format_latest_file_name(file_pattern);
        assert!(dir.get(&latest).is_some());
        dir.remove(&latest);
        let loader = load(&dir, file_pattern);
        let store = open(loader, &mut dir);
        assert_eq!(store.file_counter(), 9);
    }
}

#[test]
fn test_atomic_store_log_timeout() {
    let prefix = "test_atomic_store_log_timeout";
    let mut dir = Dir::new();
    let mut loader = load(&dir, prefix);
    loader.add_sync_handle(prefix).expect("Could not create appendlog");
    let mut store = open(loader, &mut dir);
    let mut handles = vec![VersionSyncHandle::new(prefix, None)];
    match commit(&mut store, &mut handles, &mut dir) {
        Err(PersistenceError::TimedOut) => {}
        _ => panic!("Atomic store should've timed out"),
    }
    handles[0].update_version();
    commit(&mut store, &mut handles, &mut dir).expect("Could not commit store");
    assert!(!handles[0].is_ready());
}

#[test]
fn cross_resource_commit_is_all_or_nothing() {
    let mut dir = Dir::new();
    let mut store = open(AtomicStoreLoader::create("pair"), &mut dir);
    let loc_a = StorageLocation { store_start: 0, store_length: 8, file_counter: 0 };
    let loc_b = StorageLocation { store_start: 16, store_length: 4, file_counter: 1 };
    let mut handles = vec![VersionSyncHandle::new("a", None), VersionSyncHandle::new("b", None)];
    handles[0].advance_next(Some(loc_a));
    handles[1].advance_next(Some(loc_b));
    handles[0].update_version();
    store.set_commit_timeout(1_000_000);
    assert!(matches!(commit(&mut store, &mut handles, &mut dir), Err(PersistenceError::TimedOut)));
    assert!(dir.get(&format_latest_file_name("pair")).is_none());
    assert!(handles[0].is_ready());
    handles[1].update_version();
    commit(&mut store, &mut handles, &mut dir).unwrap();
    let loader = load(&dir, "pair");
    assert_eq!(loader.look_up_resource("a"), Some(loc_a));
    assert_eq!(loader.look_up_resource("b"), Some(loc_b));
}

#[test]
fn crash_keeps_committed_version() {
    let mut dir = Dir::new();
    let mut store = open(AtomicStoreLoader::create("crash"), &mut dir);
    let v1 = StorageLocation { store_start: 0, store_length: 10, file_counter: 0 };
    let v2 = StorageLocation { store_start: 10, store_length: 10, file_counter: 0 };
    let mut handles = vec![VersionSyncHandle::new("log", None)];
    handles[0].advance_next(Some(v1));
    handles[0].update_version();
    commit(&mut store, &mut handles, &mut dir).unwrap();
    handles[0].advance_next(Some(v2));
    handles[0].update_version();
    drop(store);
    let loader = load(&dir, "crash");
    let found = loader.look_up_resource("log");
    assert_eq!(found, Some(v1));
    let reopened = VersionSyncHandle::new("log", found);
    assert_eq!(*reopened.last_location(), Some(v1));
}

#[test]
fn store_open_counters() {
    let fresh = AtomicStore::open(AtomicStoreLoader::create("c"), false).unwrap();
    assert_eq!(fresh.file_counter(), 0);
    assert_eq!(fresh.commit_timeout(), DEFAULT_COMMIT_TIMEOUT_NANOS);
    let unbounded = AtomicStore::open(AtomicStoreLoader::create("c"), true).unwrap();
    assert_eq!(unbounded.commit_timeout(), u64::MAX);
    let table = TableOfContents { file_counter: u32::MAX, resource_files: Vec::new() };
    let loader = AtomicStoreLoader::load("c", Some(&table.to_bytes())).unwrap();
    assert!(matches!(
        AtomicStore::open(loader, false),
        Err(PersistenceError::ResourceFormatInconsistent { .. })
    ));
}

#[test]
fn table_of_contents_round_trip() {
    let table = TableOfContents {
        file_counter: 7,
        resource_files: vec![
            TocEntry {
                key: b"ab".to_vec(),
                location: StorageLocation { store_start: 1, store_length: 2, file_counter: 3 },
            },
            TocEntry {
                key: b"c".to_vec(),
                location: StorageLocation { store_start: 4, store_length: 5, file_counter: 6 },
            },
        ],
    };
    let bytes = table.to_bytes();
    assert_eq!(&bytes[..12], &[7, 0, 0, 0, 2, 0, 0, 0, 0, 0, 0, 0]);
    assert_eq!(&bytes[12..22], &[2, 0, 0, 0, 0, 0, 0, 0, b'a', b'b']);
    assert_eq!(bytes.len(), 12 + 26 + 25);
    let back = TableOfContents::from_bytes(&bytes).unwrap();
    assert_eq!(back.file_counter, 7);
    assert_eq!(back.resource_files.len(), 2);
    assert_eq!(back.resource_files[1].key, b"c".to_vec());
    assert_eq!(back.resource_files[1].location.store_length, 5);
    assert!(TableOfContents::from_bytes(&bytes[..bytes.len() - 1]).is_none());
    assert!(matches!(
        AtomicStoreLoader::load("t", Some(&bytes[..20])),
        Err(PersistenceError::BincodeDe { .. })
    ));
}

#[test]
fn duplicate_resource_key() {
    let mut loader = AtomicStoreLoader::create("dup");
    loader.add_sync_handle("a").unwrap();
    loader.add_sync_handle("b").unwrap();
    assert!(matches!(
        loader.add_sync_handle("a"),
        Err(PersistenceError::DuplicateResourceKey { .. })
    ));
    assert_eq!(loader.look_up_resource("a"), None);
}

#[test]
fn file_names() {
    assert_eq!(format_latest_file_name("p"), "p_latest");
    assert_eq!(format_archived_file_name("p", 120), "p_archived_120");
    assert_eq!(format_working_file_name("p"), ".p_working");
    assert_eq!(format_nth_file_name("p", 0), ".p_0");
    assert_eq!(format_segment_stem("p", 42), "p_42");
    assert_eq!(format_index_file_name("p"), "p_index");
    assert_eq!(format_backup_index_file_name("p"), ".p_index_backup");
    assert_eq!(format_working_index_file_name("p"), ".p_index_working");
    assert_eq!(format_range_file_name("p", 256, 512), "p_256_512");
    assert_eq!(format_backup_file_name("p_3", 1700000000), "p_3.bak.1700000000");
    assert_eq!(format_backup_file_name("p_3", -5), "p_3.bak.-5");
}

#[test]
fn archive_names_are_recognized() {
    assert_eq!(archive_number("p", "p_archived_12"), Some(12));
    assert_eq!(archive_number("p", "p_archived_007"), Some(7));
    assert_eq!(archive_number("p", "p_archived_"), None);
    assert_eq!(archive_number("p", "p_archived_1x"), None);
    assert_eq!(archive_number("p", "q_archived_1"), None);
    assert_eq!(archive_number("p", "p_archived_4294967296"), None);
    assert_eq!(archive_number("p", "p_archived_4294967295"), Some(u32::MAX));
    assert_eq!(archive_number("a.b", "aXb_archived_1"), None);
    assert_eq!(archive_number("a.b", "a.b_archived_1"), Some(1));
    assert_eq!(parse_u32("0"), Some(0));
    assert_eq!(parse_u32(""), None);
    assert_eq!(parse_u32("+1"), None);
    let names = vec![
        "p_latest".to_string(),
        "p_archived_3".to_string(),
        "p_archived_10".to_string(),
        "p_archived_9".to_string(),
    ];
    assert_eq!(find_newest_archive("p", &names), Some((2, 10)));
    assert!(archive_file_exists("p", &names));
    assert!(!archive_file_exists("q", &names));
    assert_eq!(prune_archives("p", &names, 10), vec![1, 3]);
}

#[test]
fn version_handle_state_machine() {
    let start = StorageLocation { store_start: 0, store_length: 4, file_counter: 0 };
    let next = StorageLocation { store_start: 4, store_length: 4, file_counter: 0 };
    let mut h = VersionSyncHandle::new("k", Some(start));
    assert_eq!(h.resource_key(), b"k");
    assert!(!h.is_ready());
    h.advance_next(Some(next));
    assert_eq!(*h.last_location(), Some(start));
    assert!(h.update_version());
    assert_eq!(*h.last_location(), Some(next));
    assert!(!h.update_version());
    assert!(!h.skip_version());
    h.start_version();
    assert!(h.skip_version());
    assert_eq!(*h.last_location(), Some(next));
    h.start_version();
    h.advance_next(None);
    h.revert_version();
    assert_eq!(*h.next_location(), Some(next));
}

#[test]
fn bounded_wait_decisions() {
    let mut h = VersionSyncHandle::new("w", None);
    assert_eq!(h.wait_for_version_with_timeout(30, 100).unwrap(), Some(70));
    assert!(matches!(h.wait_for_version_with_timeout(100, 100), Err(PersistenceError::TimedOut)));
    h.skip_version();
    assert_eq!(h.wait_for_version_with_timeout(500, 100).unwrap(), None);
}

#[test]
fn startup_prune_floor_follows_retention() {
    let table = TableOfContents { file_counter: 4, resource_files: Vec::new() };
    let mut loader = AtomicStoreLoader::load("f", Some(&table.to_bytes())).unwrap();
    assert_eq!(loader.startup_prune_floor(), None);
    loader.retain_archives(2);
    assert_eq!(loader.startup_prune_floor(), Some(2));
    loader.retain_archives(10);
    assert_eq!(loader.startup_prune_floor(), Some(0));
    let mut fresh = AtomicStoreLoader::create("f");
    fresh.retain_archives(2);
    assert_eq!(fresh.startup_prune_floor(), None);
}

#[test]
fn last_version_counter_cannot_commit() {
    let table = TableOfContents { file_counter: u32::MAX - 1, resource_files: Vec::new() };
    let loader = AtomicStoreLoader::load("last", Some(&table.to_bytes())).unwrap();
    let store = AtomicStore::open(loader, false).unwrap();
    assert_eq!(store.file_counter(), u32::MAX);
    let mut handles: Vec<VersionSyncHandle> = Vec::new();
    assert!(matches!(
        store.commit_version(&mut handles),
        Err(PersistenceError::FailedToWriteToFile { .. })
    ));
}

#[test]
fn commit_plan_names_archive_and_prune() {
    let table = TableOfContents { file_counter: 6, resource_files: Vec::new() };
    let mut loader = AtomicStoreLoader::load("plan", Some(&table.to_bytes())).unwrap();
    loader.retain_archives(3);
    let mut store = AtomicStore::open(loader, false).unwrap();
    let mut handles = vec![VersionSyncHandle::new("r", None)];
    handles[0].skip_version();
    let plan = store.commit_version(&mut handles).unwrap();
    assert_eq!(plan.previous_counter, Some(6));
    assert_eq!(plan.prune, Some(3));
    let written = TableOfContents::from_bytes(&plan.contents).unwrap();
    assert_eq!(written.file_counter, 7);
    assert!(written.resource_files.is_empty());
    assert!(!handles[0].is_ready());
    store.complete_commit();
    assert_eq!(store.file_counter(), 8);
}

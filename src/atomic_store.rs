//! The coordinator: gathers every resource's confirmed location into a new table
//! of contents once all of them finished or skipped the current version.
//!
//! The caller does the file work: it writes the encoded table to the working
//! file, archives the previous one under its counter, renames the working file
//! into place and deletes the archive that fell out of the retention window.
use vstd::prelude::*;

use vstd::string::StringSliceAdditionalSpecFns;

use crate::encoding::bytes_equal;
use crate::error::PersistenceError;
use crate::names::{archive_number, archive_spec};
use crate::storage_location::StorageLocation;
use crate::toc::{entries_view, lookup_spec, parse_toc, toc_bytes, TableOfContents, TocEntry};
use crate::version_sync::{SyncState, VersionSyncHandle};

verus! {

/// How long `commit_version` waits for a resource unless told otherwise: 100 ms.
pub const DEFAULT_COMMIT_TIMEOUT_NANOS: u64 = 100_000_000;

/// Whether any of `names` carries an archive number of `file_pattern`.
pub open spec fn any_archive(file_pattern: Seq<char>, names: Seq<String>) -> bool {
    exists|i: int| 0 <= i < names.len() && (#[trigger] archive_spec(file_pattern, names[i]@)) is Some
}

/// Among directory entries `names`, the one that carries the greatest archive
/// number of `file_pattern`, with that number.
pub fn find_newest_archive(file_pattern: &str, names: &Vec<String>) -> (r: Option<(usize, u32)>)
    requires
        file_pattern@.len() <= 255,
    ensures
        r is None <==> !any_archive(file_pattern@, names@),
        r matches Some((i, n)) ==> i < names@.len() && archive_spec(file_pattern@, names@[i as int]@)
            == Some(n) && forall|j: int|
            0 <= j < names@.len() ==> (#[trigger] archive_spec(file_pattern@, names@[j]@) matches Some(
                m,
            ) ==> m <= n),
{
    let mut best: Option<(usize, u32)> = None;
    let mut i: usize = 0;
    while i < names.len()
        invariant
            file_pattern@.len() <= 255,
            i <= names@.len(),
            best is None <==> forall|j: int|
                0 <= j < i ==> (#[trigger] archive_spec(file_pattern@, names@[j]@)) is None,
            best matches Some((b, n)) ==> b < i && archive_spec(file_pattern@, names@[b as int]@)
                == Some(n) && forall|j: int|
                0 <= j < i ==> (#[trigger] archive_spec(file_pattern@, names@[j]@) matches Some(m)
                    ==> m <= n),
        decreases names@.len() - i,
    {
        let found = archive_number(file_pattern, names[i].as_str());
        match found {
            Some(n) => {
                let better = match best {
                    None => true,
                    Some((_, m)) => n > m,
                };
                if better {
                    best = Some((i, n));
                }
            },
            None => {},
        }
        i = i + 1;
    }
    proof {
        if best is None {
            assert forall|j: int| 0 <= j < names@.len() implies (#[trigger] archive_spec(
                file_pattern@,
                names@[j]@,
            )) is None by {}
        } else {
            let b = best->Some_0.0;
            assert(any_archive(file_pattern@, names@)) by {
                assert(archive_spec(file_pattern@, names@[b as int]@) is Some);
            }
        }
    }
    best
}

/// Whether any of the directory entries `names` is an archive of `file_pattern`.
pub fn archive_file_exists(file_pattern: &str, names: &Vec<String>) -> (r: bool)
    requires
        file_pattern@.len() <= 255,
    ensures
        r == any_archive(file_pattern@, names@),
{
    find_newest_archive(file_pattern, names).is_some()
}

/// The positions of the entries of `names` that are archives of `file_pattern`
/// numbered below `below`: the archives that fall outside a retention window.
pub fn prune_archives(file_pattern: &str, names: &Vec<String>, below: u32) -> (r: Vec<usize>)
    requires
        file_pattern@.len() <= 255,
    ensures
        forall|k: int| 0 <= k < r@.len() ==> (#[trigger] r@[k]) < names@.len(),
        forall|j: int|
            0 <= j < names@.len() ==> (r@.contains(j as usize) <==> (#[trigger] archive_spec(
                file_pattern@,
                names@[j]@,
            ) matches Some(n) && n < below)),
{
    let mut out: Vec<usize> = Vec::new();
    let mut i: usize = 0;
    while i < names.len()
        invariant
            file_pattern@.len() <= 255,
            i <= names@.len(),
            forall|k: int| 0 <= k < out@.len() ==> (#[trigger] out@[k]) < i,
            forall|j: int|
                0 <= j < i ==> (out@.contains(j as usize) <==> (#[trigger] archive_spec(
                    file_pattern@,
                    names@[j]@,
                ) matches Some(n) && n < below)),
        decreases names@.len() - i,
    {
        let ghost before = out@;
        match archive_number(file_pattern, names[i].as_str()) {
            Some(n) => {
                if n < below {
                    out.push(i);
                }
            },
            None => {},
        }
        assert forall|j: int| 0 <= j < i + 1 implies (out@.contains(j as usize) <==> (
        #[trigger] archive_spec(file_pattern@, names@[j]@) matches Some(n) && n < below)) by {
            if j < i {
                if before.contains(j as usize) {
                    let k = choose|k: int| 0 <= k < before.len() && before[k] == j as usize;
                    assert(out@[k] == j as usize);
                }
                if out@.contains(j as usize) {
                    let k = choose|k: int| 0 <= k < out@.len() && out@[k] == j as usize;
                    if k < before.len() {
                        assert(before[k] == j as usize);
                    }
                }
            } else {
                if out@.len() > before.len() {
                    assert(out@[before.len() as int] == i);
                }
                if out@.contains(j as usize) {
                    let k = choose|k: int| 0 <= k < out@.len() && out@[k] == j as usize;
                    if k < before.len() {
                        assert(before[k] < i);
                    }
                }
            }
        }
        i = i + 1;
    }
    out
}

/// The abstract state of an [`AtomicStoreLoader`].
pub struct LoaderView {
    pub pattern: Seq<char>,
    pub file_counter: nat,
    pub initial_run: bool,
    pub resource_files: Seq<(Seq<u8>, StorageLocation)>,
    pub resources: Seq<Seq<u8>>,
    pub retained_archives: Option<u32>,
}

/// Collects what the logs need before the store opens: the loaded table of
/// contents and the keys of the resources registered so far.
#[derive(Debug)]
pub struct AtomicStoreLoader {
    file_pattern: String,
    file_counter: u32,
    initial_run: bool,
    resource_files: Vec<TocEntry>,
    resources: Vec<Vec<u8>>,
    retained_archives: Option<u32>,
}

impl View for AtomicStoreLoader {
    type V = LoaderView;

    closed spec fn view(&self) -> LoaderView {
        LoaderView {
            pattern: self.file_pattern@,
            file_counter: self.file_counter as nat,
            initial_run: self.initial_run,
            resource_files: entries_view(self.resource_files@),
            resources: self.resources@.map_values(|k: Vec<u8>| k@),
            retained_archives: self.retained_archives,
        }
    }
}

impl AtomicStoreLoader {
    /// A loader from the stored table of contents `stored` (the contents of the
    /// latest file, or else of the newest archive), or a fresh one when there is
    /// none. A truncated table is `BincodeDe`.
    pub fn load(file_pattern: &str, stored: Option<&[u8]>) -> (r: Result<
        AtomicStoreLoader,
        PersistenceError,
    >)
        ensures
            stored is None ==> (r matches Ok(l) && l@ == (LoaderView {
                pattern: file_pattern@,
                file_counter: 0,
                initial_run: true,
                resource_files: Seq::empty(),
                resources: Seq::empty(),
                retained_archives: None,
            })),
            stored matches Some(b) ==> match parse_toc(b@) {
                Some((counter, es)) => r matches Ok(l) && l@ == (LoaderView {
                    pattern: file_pattern@,
                    file_counter: counter as nat,
                    initial_run: false,
                    resource_files: es,
                    resources: Seq::empty(),
                    retained_archives: None,
                }),
                None => r matches Err(PersistenceError::BincodeDe { .. }),
            },
    {
        match stored {
            None => Ok(AtomicStoreLoader::create(file_pattern)),
            Some(b) => match TableOfContents::from_bytes(b) {
                None => Err(
                    PersistenceError::BincodeDe {
                        description: "table of contents ends before its last entry".to_string(),
                    },
                ),
                Some(t) => {
                    let loader = AtomicStoreLoader {
                        file_pattern: file_pattern.to_string(),
                        file_counter: t.file_counter,
                        initial_run: false,
                        resource_files: t.resource_files,
                        resources: Vec::new(),
                        retained_archives: None,
                    };
                    assert(loader@.resources =~= Seq::<Seq<u8>>::empty());
                    Ok(loader)
                },
            },
        }
    }

    /// A fresh loader: no version was committed yet.
    pub fn create(file_pattern: &str) -> (r: AtomicStoreLoader)
        ensures
            r@ == (LoaderView {
                pattern: file_pattern@,
                file_counter: 0,
                initial_run: true,
                resource_files: Seq::empty(),
                resources: Seq::empty(),
                retained_archives: None,
            }),
    {
        let loader = AtomicStoreLoader {
            file_pattern: file_pattern.to_string(),
            file_counter: 0,
            initial_run: true,
            resource_files: Vec::new(),
            resources: Vec::new(),
            retained_archives: None,
        };
        assert(loader@.resources =~= Seq::<Seq<u8>>::empty());
        assert(loader@.resource_files =~= Seq::<(Seq<u8>, StorageLocation)>::empty());
        loader
    }

    /// Keeps only the `retained_archives` newest archives from now on.
    pub fn retain_archives(&mut self, retained_archives: u32)
        ensures
            final(self)@ == (LoaderView {
                retained_archives: Some(retained_archives),
                ..old(self)@
            }),
    {
        self.retained_archives = Some(retained_archives);
    }

    pub fn file_pattern(&self) -> (r: &str)
        ensures
            r@ == self@.pattern,
    {
        self.file_pattern.as_str()
    }

    /// The floor below which archives are deleted when the store opens, when a
    /// retention is set and a version was loaded.
    pub fn startup_prune_floor(&self) -> (r: Option<u32>)
        ensures
            r == (if !self@.initial_run && self@.retained_archives is Some {
                let k = self@.retained_archives->Some_0;
                Some(
                    (if self@.file_counter >= k {
                        (self@.file_counter - k) as u32
                    } else {
                        0u32
                    }),
                )
            } else {
                None
            }),
    {
        match self.retained_archives {
            Some(k) => if !self.initial_run {
                Some(self.file_counter.saturating_sub(k))
            } else {
                None
            },
            None => None,
        }
    }

    /// The last committed location of the resource `key`, if the loaded table has one.
    pub fn look_up_resource(&self, key: &str) -> (r: Option<StorageLocation>)
        ensures
            r == lookup_spec(self@.resource_files, key.spec_bytes()),
    {
        let k = key.as_bytes();
        let ghost es = self@.resource_files;
        let mut i: usize = self.resource_files.len();
        assert(es.take(i as int) =~= es);
        while i > 0
            invariant
                i <= self.resource_files@.len(),
                es == entries_view(self.resource_files@),
                k@ == key.spec_bytes(),
                lookup_spec(es, k@) == lookup_spec(es.take(i as int), k@),
            decreases i,
        {
            let e = &self.resource_files[i - 1];
            let ghost t = es.take(i as int);
            assert(t.drop_last() =~= es.take(i - 1));
            assert(t.last() == (e.key@, e.location));
            if bytes_equal(e.key.as_slice(), k) {
                return Some(e.location);
            }
            i = i - 1;
        }
        assert(es.take(0) =~= Seq::<(Seq<u8>, StorageLocation)>::empty());
        None
    }

    /// Registers the resource `key`; a key registered before is `DuplicateResourceKey`.
    pub fn add_sync_handle(&mut self, key: &str) -> (r: Result<(), PersistenceError>)
        ensures
            old(self)@.resources.contains(key.spec_bytes()) ==> (r matches Err(
                PersistenceError::DuplicateResourceKey { .. },
            ) && final(self)@ == old(self)@),
            !old(self)@.resources.contains(key.spec_bytes()) ==> (r is Ok && final(self)@ == (
            LoaderView { resources: old(self)@.resources.push(key.spec_bytes()), ..old(self)@ })),
    {
        let k = key.as_bytes();
        let ghost keys = old(self)@.resources;
        let mut i: usize = 0;
        while i < self.resources.len()
            invariant
                self@ == old(self)@,
                keys == self@.resources,
                k@ == key.spec_bytes(),
                i <= self.resources@.len(),
                forall|j: int| 0 <= j < i ==> keys[j] != k@,
            decreases self.resources@.len() - i,
        {
            if bytes_equal(self.resources[i].as_slice(), k) {
                assert(keys[i as int] == k@);
                return Err(PersistenceError::DuplicateResourceKey { key: key.to_string() });
            }
            i = i + 1;
        }
        assert(!keys.contains(k@)) by {
            if keys.contains(k@) {
                let j = choose|j: int| 0 <= j < keys.len() && keys[j] == k@;
                assert(keys[j] != k@);
            }
        }
        let owned = vstd::slice::slice_to_vec(k);
        self.resources.push(owned);
        assert(self@.resources =~= keys.push(k@));
        Ok(())
    }
}

/// The entries of the table that the handles `hs` make: one for each handle
/// with a confirmed location, in order.
pub open spec fn collected(hs: Seq<VersionSyncHandle>) -> Seq<(Seq<u8>, StorageLocation)>
    decreases hs.len(),
{
    if hs.len() == 0 {
        Seq::empty()
    } else {
        let rest = collected(hs.drop_last());
        match hs.last()@.last {
            Some(l) => rest.push((hs.last().key(), l)),
            None => rest,
        }
    }
}

/// Whether every handle's version is ready.
pub open spec fn all_ready(hs: Seq<VersionSyncHandle>) -> bool {
    forall|i: int| 0 <= i < hs.len() ==> (#[trigger] hs[i])@.ready
}

/// The handles as `start_version` leaves them: not ready, locations and keys kept.
pub open spec fn restarted(before: Seq<VersionSyncHandle>, after: Seq<VersionSyncHandle>) -> bool {
    &&& after.len() == before.len()
    &&& forall|i: int|
        0 <= i < before.len() ==> (#[trigger] after[i])@ == (SyncState {
            ready: false,
            ..before[i]@
        }) && after[i].key() == before[i].key()
}

/// What the caller writes and renames for one committed version.
#[derive(Debug)]
pub struct CommitPlan {
    /// The encoded table of contents of the new version.
    pub contents: Vec<u8>,
    /// The counter under which the previous latest table is archived; `None` when
    /// the store does not know it (it is then read from that table).
    pub previous_counter: Option<u32>,
    /// The archive that falls out of the retention window, if any.
    pub prune: Option<u32>,
}

/// The abstract state of an [`AtomicStore`].
pub struct StoreView {
    pub pattern: Seq<char>,
    pub file_counter: nat,
    pub last_counter: Option<u32>,
    pub commit_timeout: nat,
    pub retained_archives: Option<u32>,
}

/// The coordinator of versions across resources.
#[derive(Debug)]
pub struct AtomicStore {
    file_pattern: String,
    file_counter: u32,
    last_counter: Option<u32>,
    commit_timeout: u64,
    retained_archives: Option<u32>,
}

impl View for AtomicStore {
    type V = StoreView;

    closed spec fn view(&self) -> StoreView {
        StoreView {
            pattern: self.file_pattern@,
            file_counter: self.file_counter as nat,
            last_counter: self.last_counter,
            commit_timeout: self.commit_timeout as nat,
            retained_archives: self.retained_archives,
        }
    }
}

/// The archive that a commit at counter `counter` pushes out of a window of
/// `retained` archives.
pub open spec fn prune_target(counter: nat, retained: Option<u32>) -> Option<u32> {
    match retained {
        Some(k) => if counter >= k + 1 {
            Some((counter - (k + 1)) as u32)
        } else {
            None
        },
        None => None,
    }
}

impl AtomicStore {
    /// Opens the coordinator from a loader. The next version is numbered after the
    /// loaded one; with `no_timeout` a commit waits without bound.
    /// `ResourceFormatInconsistent` when the loaded counter is the last one.
    pub fn open(load_info: AtomicStoreLoader, no_timeout: bool) -> (r: Result<
        AtomicStore,
        PersistenceError,
    >)
        ensures
            (load_info@.initial_run || load_info@.file_counter < u32::MAX) ==> (r matches Ok(s)
                && s@ == (StoreView {
                pattern: load_info@.pattern,
                file_counter: if load_info@.initial_run {
                    load_info@.file_counter
                } else {
                    load_info@.file_counter + 1
                },
                last_counter: if load_info@.initial_run {
                    None
                } else {
                    Some(load_info@.file_counter as u32)
                },
                commit_timeout: if no_timeout {
                    u64::MAX as nat
                } else {
                    DEFAULT_COMMIT_TIMEOUT_NANOS as nat
                },
                retained_archives: load_info@.retained_archives,
            })),
            !(load_info@.initial_run || load_info@.file_counter < u32::MAX) ==> (r matches Err(
                PersistenceError::ResourceFormatInconsistent { .. },
            )),
    {
        if !load_info.initial_run && load_info.file_counter == u32::MAX {
            return Err(PersistenceError::ResourceFormatInconsistent { key: load_info.file_pattern });
        }
        Ok(
            AtomicStore {
                file_pattern: load_info.file_pattern,
                file_counter: if load_info.initial_run {
                    load_info.file_counter
                } else {
                    load_info.file_counter + 1
                },
                last_counter: if load_info.initial_run {
                    None
                } else {
                    Some(load_info.file_counter)
                },
                commit_timeout: if no_timeout {
                    u64::MAX
                } else {
                    DEFAULT_COMMIT_TIMEOUT_NANOS
                },
                retained_archives: load_info.retained_archives,
            },
        )
    }

    /// Sets how many nanoseconds a commit waits for each resource.
    pub fn set_commit_timeout(&mut self, timeout: u64)
        ensures
            final(self)@ == (StoreView { commit_timeout: timeout as nat, ..old(self)@ }),
    {
        self.commit_timeout = timeout;
    }

    pub fn commit_timeout(&self) -> (r: u64)
        ensures
            r == self@.commit_timeout,
    {
        self.commit_timeout
    }

    pub fn file_counter(&self) -> (r: u32)
        ensures
            r == self@.file_counter,
    {
        self.file_counter
    }

    pub fn file_pattern(&self) -> (r: &str)
        ensures
            r@ == self@.pattern,
    {
        self.file_pattern.as_str()
    }

    /// Gathers the version: when every handle is ready, restarts them all and
    /// returns the new table of contents (the confirmed location of each handle
    /// that has one) with what to archive and prune. A handle that is not ready
    /// makes it `TimedOut`, and then nothing changes.
    pub fn commit_version(&self, handles: &mut Vec<VersionSyncHandle>) -> (r: Result<
        CommitPlan,
        PersistenceError,
    >)
        ensures
            !all_ready(old(handles)@) ==> (r matches Err(PersistenceError::TimedOut)
                && final(handles)@ == old(handles)@),
            all_ready(old(handles)@) && self@.file_counter == u32::MAX ==> (r matches Err(
                PersistenceError::FailedToWriteToFile { .. },
            ) && final(handles)@ == old(handles)@),
            all_ready(old(handles)@) && self@.file_counter < u32::MAX ==> (r matches Ok(plan)
                && plan.contents@ == toc_bytes(
                self@.file_counter as u32,
                collected(old(handles)@),
            ) && plan.previous_counter == self@.last_counter && plan.prune == prune_target(
                self@.file_counter,
                self@.retained_archives,
            ) && restarted(old(handles)@, final(handles)@)),
    {
        let n = handles.len();
        let mut i: usize = 0;
        while i < n
            invariant
                n == handles@.len(),
                i <= n,
                forall|j: int| 0 <= j < i ==> (#[trigger] handles@[j])@.ready,
            decreases n - i,
        {
            if !handles[i].is_ready() {
                return Err(PersistenceError::TimedOut);
            }
            i = i + 1;
        }
        if self.file_counter == u32::MAX {
            return Err(
                PersistenceError::FailedToWriteToFile {
                    filename: self.file_pattern.clone(),
                    position: self.file_counter as u64,
                },
            );
        }
        let ghost before = handles@;
        let mut entries: Vec<TocEntry> = Vec::new();
        let mut i: usize = 0;
        while i < n
            invariant
                n == handles@.len(),
                n == before.len(),
                i <= n,
                entries_view(entries@) == collected(before.take(i as int)),
                forall|j: int| i <= j < n ==> (#[trigger] handles@[j]) == before[j],
                forall|j: int|
                    0 <= j < i ==> (#[trigger] handles@[j])@ == (SyncState {
                        ready: false,
                        ..before[j]@
                    }) && handles@[j].key() == before[j].key(),
            decreases n - i,
        {
            let ghost t = before.take(i + 1);
            assert(t.drop_last() =~= before.take(i as int));
            assert(t.last() == before[i as int]);
            let last = *handles[i].last_location();
            match last {
                Some(location) => {
                    let key = vstd::slice::slice_to_vec(handles[i].resource_key());
                    entries.push(TocEntry { key, location });
                    assert(entries_view(entries@) =~= collected(before.take(i as int)).push(
                        (before[i as int].key(), location),
                    ));
                },
                None => {},
            }
            let mut h = handles.remove(i);
            h.start_version();
            handles.insert(i, h);
            i = i + 1;
        }
        assert(before.take(n as int) =~= before);
        let table = TableOfContents { file_counter: self.file_counter, resource_files: entries };
        let contents = table.to_bytes();
        let prune = match self.retained_archives {
            Some(k) => if k < u32::MAX && self.file_counter >= k + 1 {
                Some(self.file_counter - (k + 1))
            } else {
                None
            },
            None => None,
        };
        Ok(CommitPlan { contents, previous_counter: self.last_counter, prune })
    }

    /// Records that the version planned by `commit_version` is now the latest.
    pub fn complete_commit(&mut self)
        requires
            old(self)@.file_counter < u32::MAX,
        ensures
            final(self)@ == (StoreView {
                file_counter: old(self)@.file_counter + 1,
                last_counter: Some(old(self)@.file_counter as u32),
                ..old(self)@
            }),
    {
        self.last_counter = Some(self.file_counter);
        self.file_counter = self.file_counter + 1;
    }
}

} // verus!

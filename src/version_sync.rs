//! The per-resource handshake between a log and the coordinator.
//!
//! A handle is either waiting for its log (`ready == false`) or holds a version
//! that the log finished or skipped (`ready == true`). The lock and condition
//! variable that share a handle between threads belong to the caller; these
//! methods are the state changes made while holding that lock.
use vstd::prelude::*;

use vstd::string::StringSliceAdditionalSpecFns;

use crate::error::PersistenceError;
use crate::storage_location::StorageLocation;

verus! {

/// The abstract state of a [`VersionSyncHandle`].
pub struct SyncState {
    pub last: Option<StorageLocation>,
    pub next: Option<StorageLocation>,
    pub ready: bool,
}

impl SyncState {
    /// After `start_version`.
    pub open spec fn started(self) -> SyncState {
        SyncState { ready: false, ..self }
    }

    /// After `advance_next(next)`.
    pub open spec fn advanced(self, next: Option<StorageLocation>) -> SyncState {
        SyncState { next: next, ..self }
    }

    /// After `update_version`: the pending location is confirmed unless the
    /// version was already ready.
    pub open spec fn updated(self) -> SyncState {
        if self.ready {
            self
        } else {
            SyncState { last: self.next, next: self.next, ready: true }
        }
    }

    /// After `skip_version`.
    pub open spec fn skipped(self) -> SyncState {
        SyncState { ready: true, ..self }
    }

    /// After `revert_version`.
    pub open spec fn reverted(self) -> SyncState {
        SyncState { next: self.last, ..self }
    }
}

#[derive(Debug)]
pub struct VersionSyncHandle {
    last_version_location: Option<StorageLocation>,
    next_version_location: Option<StorageLocation>,
    version_ready: bool,
    resource_key: Vec<u8>,
}

impl View for VersionSyncHandle {
    type V = SyncState;

    closed spec fn view(&self) -> SyncState {
        SyncState {
            last: self.last_version_location,
            next: self.next_version_location,
            ready: self.version_ready,
        }
    }
}

impl VersionSyncHandle {
    /// The key (its UTF-8 bytes) of the resource that owns the handle.
    pub closed spec fn key(&self) -> Seq<u8> {
        self.resource_key@
    }

    /// The key (its UTF-8 bytes) of the resource that owns the handle.
    pub fn resource_key(&self) -> (r: &[u8])
        ensures
            r@ == self.key(),
    {
        self.resource_key.as_slice()
    }

    /// A handle whose last confirmed and pending locations are both `last_version_location`.
    pub fn new(key: &str, last_version_location: Option<StorageLocation>) -> (r: VersionSyncHandle)
        ensures
            r@.last == last_version_location,
            r@.next == last_version_location,
            !r@.ready,
            r.key() == key.spec_bytes(),
    {
        VersionSyncHandle {
            last_version_location,
            next_version_location: last_version_location,
            version_ready: false,
            resource_key: vstd::slice::slice_to_vec(key.as_bytes()),
        }
    }

    /// The location of the last confirmed version.
    pub fn last_location(&self) -> (r: &Option<StorageLocation>)
        ensures
            *r == self@.last,
    {
        &self.last_version_location
    }

    /// The location that becomes confirmed if the pending version commits.
    pub fn next_location(&self) -> (r: &Option<StorageLocation>)
        ensures
            *r == self@.next,
    {
        &self.next_version_location
    }

    /// Whether the current version was finished or skipped.
    pub fn is_ready(&self) -> (r: bool)
        ensures
            r == self@.ready,
    {
        self.version_ready
    }

    /// Clears the ready flag for the next round.
    pub fn start_version(&mut self)
        ensures
            final(self)@ == old(self)@.started(),
            final(self).key() == old(self).key(),
    {
        self.version_ready = false;
    }

    /// Records where the pending version's newest record lies.
    pub fn advance_next(&mut self, next_version_location: Option<StorageLocation>)
        ensures
            final(self)@ == old(self)@.advanced(next_version_location),
            final(self).key() == old(self).key(),
    {
        self.next_version_location = next_version_location;
    }

    /// Confirms the pending version; a second call before `start_version` changes nothing.
    /// Returns whether a waiter is to be woken.
    pub fn update_version(&mut self) -> (r: bool)
        ensures
            r == !old(self)@.ready,
            final(self)@ == old(self)@.updated(),
            final(self).key() == old(self).key(),
    {
        if !self.version_ready {
            self.last_version_location = self.next_version_location;
            self.version_ready = true;
            true
        } else {
            false
        }
    }

    /// Marks the version ready without confirming anything new.
    /// Returns whether a waiter is to be woken.
    pub fn skip_version(&mut self) -> (r: bool)
        ensures
            r == !old(self)@.ready,
            final(self)@ == old(self)@.skipped(),
            final(self).key() == old(self).key(),
    {
        if !self.version_ready {
            self.version_ready = true;
            true
        } else {
            false
        }
    }

    /// Drops the pending location: it goes back to the last confirmed one.
    pub fn revert_version(&mut self)
        ensures
            final(self)@ == old(self)@.reverted(),
            final(self).key() == old(self).key(),
    {
        self.next_version_location = self.last_version_location;
    }

    /// One decision of a bounded wait, `elapsed` nanoseconds after it began:
    /// `Ok(None)` once the version is ready, `Ok(Some(rest))` to wait up to `rest`
    /// more nanoseconds, `TimedOut` once `timeout` has passed.
    pub fn wait_for_version_with_timeout(&self, elapsed: u64, timeout: u64) -> (r: Result<
        Option<u64>,
        PersistenceError,
    >)
        ensures
            self@.ready ==> r == Ok::<Option<u64>, PersistenceError>(None),
            !self@.ready && elapsed >= timeout ==> r matches Err(PersistenceError::TimedOut),
            !self@.ready && elapsed < timeout ==> r == Ok::<Option<u64>, PersistenceError>(
                Some((timeout - elapsed) as u64),
            ),
    {
        if self.version_ready {
            Ok(None)
        } else if elapsed >= timeout {
            Err(PersistenceError::TimedOut)
        } else {
            Ok(Some(timeout - elapsed))
        }
    }
}

} // verus!

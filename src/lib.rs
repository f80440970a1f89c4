//! Crash-consistent, versioned persistence across several independent logs.
//!
//! Each log keeps its records in numbered segment files and its own write
//! cursor; a coordinator publishes, per version, one table of contents that names
//! the last confirmed record of every log. The table is replaced by one atomic
//! rename, so a restart sees either the previous version or the new one for all
//! logs together.
//!
//! The types here hold the decisions and the binary layouts: cursors, headers,
//! the table of contents, the version handshake, recovery and pruning plans.
//! Reading and writing the files is left to the caller.
use vstd::prelude::*;

pub mod append_log;
pub mod atomic_store;
pub mod encoding;
pub mod error;
pub mod fixed_append_log;
pub mod guarantees;
pub mod load_store;
pub mod names;
pub mod rolling_log;
pub mod segment;
pub mod storage_location;
pub mod toc;
pub mod version_sync;

pub use crate::append_log::AppendLog;
pub use crate::atomic_store::{AtomicStore, AtomicStoreLoader};
pub use crate::error::PersistenceError;
pub use crate::fixed_append_log::FixedAppendLog;
pub use crate::rolling_log::RollingLog;
pub use crate::storage_location::StorageLocation;
pub use crate::version_sync::VersionSyncHandle;

verus! {

} // verus!

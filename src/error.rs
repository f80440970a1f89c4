//! The error type of every fallible operation of the library.
use vstd::prelude::*;

use crate::storage_location::StorageLocation;

verus! {

/// What went wrong; I/O and codec failures carry the underlying error's description.
#[derive(Debug)]
pub enum PersistenceError {
    /// The storage root cannot be resolved.
    FailedToResolvePath { path: String },
    /// Nothing was committed yet for the resource, or it was pruned away.
    FailedToFindExpectedResource { key: String },
    /// The path cannot be used for a file.
    InvalidPathToFile { path: String },
    /// The file does not hold valid data.
    InvalidFileContents { note: String, path: String },
    /// Writing a resource failed.
    FailedToWriteToFile { filename: String, position: u64 },
    /// Two resources were registered under one key.
    DuplicateResourceKey { key: String },
    /// The stored layout differs from the one asked for at startup.
    ResourceFormatInconsistent { key: String },
    /// The data needs a feature that is not implemented.
    FeatureNotYetImplemented { description: String },
    /// A directory operation failed.
    StdIoDirOps { description: String },
    /// Opening a file failed.
    StdIoOpen { description: String },
    /// Seeking in a file failed.
    StdIoSeek { description: String },
    /// Writing to a file failed.
    StdIoWrite { description: String },
    /// Reading from a file failed.
    StdIoRead { description: String },
    /// Encoding a value with bincode failed.
    BincodeSer { description: String },
    /// Decoding a value with bincode failed.
    BincodeDe { description: String },
    /// Encoding a value with canonical serialization failed.
    ArkSer { description: String },
    /// Decoding a value with canonical serialization failed.
    ArkDe { description: String },
    /// Another codec failed to encode.
    OtherStore { description: String },
    /// Another codec failed to decode.
    OtherLoad { description: String },
    /// A lock was poisoned by a panicking thread.
    SyncPoison { description: String },
    /// The coordinator waited too long for a resource's version.
    TimedOut,
    /// A log's location is older than the one in the table of contents.
    LocationOutOfDate { stored_location: StorageLocation, expected_location: StorageLocation },
}

} // verus!

//! What to do with a segment file found on disk before writing resumes in it.
use vstd::prelude::*;

use crate::error::PersistenceError;

verus! {

/// How the tail of a segment that is longer than the write position is kept aside.
#[derive(Debug, Copy, Clone, PartialEq, Eq, Structural)]
pub enum SegmentBackup {
    /// Nothing is past the write position.
    Keep,
    /// A valid prefix stays: copy the whole file to a backup, then cut it.
    Copy,
    /// Nothing of the file is valid: move it to the backup name.
    Rename,
}

/// The steps that bring a segment file to exactly `write_pos` bytes.
#[derive(Debug, Copy, Clone, PartialEq, Eq, Structural)]
pub struct SegmentRecovery {
    pub backup: SegmentBackup,
    /// Whether the file's length is then set to the write position.
    pub resize: bool,
}

/// The recovery for a segment about to be written at `write_pos`, where `existing`
/// is `None` when no entry has its name, else whether it is a regular file and its length.
pub open spec fn recovery_spec(existing: Option<(bool, u64)>, write_pos: u64) -> Option<
    SegmentRecovery,
> {
    match existing {
        None => Some(SegmentRecovery { backup: SegmentBackup::Keep, resize: write_pos != 0 }),
        Some((is_file, len)) => if !is_file {
            None
        } else if len > write_pos {
            if write_pos > 0 {
                Some(SegmentRecovery { backup: SegmentBackup::Copy, resize: true })
            } else {
                Some(SegmentRecovery { backup: SegmentBackup::Rename, resize: false })
            }
        } else {
            Some(SegmentRecovery { backup: SegmentBackup::Keep, resize: len != write_pos })
        },
    }
}

/// Plans the recovery of the segment at `path`; an entry that is not a regular
/// file is `InvalidPathToFile`.
pub fn plan_segment_recovery(existing: Option<(bool, u64)>, write_pos: u64, path: &str) -> (r:
    Result<SegmentRecovery, PersistenceError>)
    ensures
        recovery_spec(existing, write_pos) matches Some(p) ==> r == Ok::<
            SegmentRecovery,
            PersistenceError,
        >(p),
        recovery_spec(existing, write_pos) is None ==> (r matches Err(
            PersistenceError::InvalidPathToFile { .. },
        )),
{
    match existing {
        None => Ok(SegmentRecovery { backup: SegmentBackup::Keep, resize: write_pos != 0 }),
        Some((is_file, len)) => {
            if !is_file {
                Err(PersistenceError::InvalidPathToFile { path: path.to_string() })
            } else if len > write_pos {
                if write_pos > 0 {
                    Ok(SegmentRecovery { backup: SegmentBackup::Copy, resize: true })
                } else {
                    Ok(SegmentRecovery { backup: SegmentBackup::Rename, resize: false })
                }
            } else {
                Ok(SegmentRecovery { backup: SegmentBackup::Keep, resize: len != write_pos })
            }
        },
    }
}

} // verus!

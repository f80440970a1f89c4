//! The append log: variable-length records appended to numbered segments of a
//! configured fill size. A companion fixed-slot log (see `fixed_append_log`)
//! records each record's location, so that committed records can be replayed in
//! order.
use vstd::prelude::*;

use crate::error::PersistenceError;
use crate::storage_location::StorageLocation;

verus! {

/// Slot size of the companion index log: one encoded location.
pub const INDEX_RESOURCE_SIZE: u64 = 16;

/// Slots per segment of the companion index log.
pub const INDEX_SLOTS_PER_FILE: u64 = 256;

/// The abstract state of an [`AppendLog`].
pub struct AppendLogView {
    pub pattern: Seq<char>,
    pub fill_size: nat,
    pub write_pos: nat,
    pub write_counter: nat,
    pub commit_pos: nat,
    pub commit_counter: nat,
}

/// Where writing resumes after the record at `location`: just past it, or at the
/// start of the next segment once the segment reached `fill_size` bytes.
pub open spec fn append_resume(location: Option<StorageLocation>, fill_size: nat) -> Option<(nat, nat)> {
    match location {
        None => Some((0, 0)),
        Some(l) => if l.end_spec() < fill_size {
            Some((l.end_spec(), l.file_counter as nat))
        } else if l.file_counter < u32::MAX {
            Some((0, (l.file_counter + 1) as nat))
        } else {
            None
        },
    }
}

/// The write cursor of an append log (the files belong to the caller).
#[derive(Debug)]
pub struct AppendLog {
    file_pattern: String,
    file_fill_size: u64,
    write_pos: u64,
    write_file_counter: u32,
    commit_pos: u64,
    commit_file_counter: u32,
}

impl View for AppendLog {
    type V = AppendLogView;

    closed spec fn view(&self) -> AppendLogView {
        AppendLogView {
            pattern: self.file_pattern@,
            fill_size: self.file_fill_size as nat,
            write_pos: self.write_pos as nat,
            write_counter: self.write_file_counter as nat,
            commit_pos: self.commit_pos as nat,
            commit_counter: self.commit_file_counter as nat,
        }
    }
}

/// The name of the companion index log of the log named `file_pattern`.
pub fn format_index_file_pattern(file_pattern: &str) -> (r: String)
    ensures
        r@ == file_pattern@ + "_index"@,
{
    let mut r = file_pattern.to_string();
    r.append("_index");
    r
}

impl AppendLog {
    /// Opens the cursor after the last committed record `location`, if any.
    /// `ResourceFormatInconsistent` when no record can follow it.
    pub fn open_impl(location: Option<StorageLocation>, file_pattern: &str, file_fill_size: u64) -> (r:
        Result<AppendLog, PersistenceError>)
        ensures
            append_resume(location, file_fill_size as nat) matches Some((pos, counter)) ==> (r matches Ok(log) && log@ == (AppendLogView {
                pattern: file_pattern@,
                fill_size: file_fill_size as nat,
                write_pos: pos,
                write_counter: counter,
                commit_pos: pos,
                commit_counter: counter,
            })),
            append_resume(location, file_fill_size as nat) is None ==> (r matches Err(
                PersistenceError::ResourceFormatInconsistent { .. },
            )),
    {
        let (write_pos, counter): (u64, u32) = match location {
            None => (0, 0),
            Some(l) => {
                if l.store_start <= u64::MAX - l.store_length as u64 && l.store_start
                    + (l.store_length as u64) < file_fill_size {
                    (l.store_start + l.store_length as u64, l.file_counter)
                } else if l.file_counter < u32::MAX {
                    (0, l.file_counter + 1)
                } else {
                    return Err(
                        PersistenceError::ResourceFormatInconsistent { key: file_pattern.to_string() },
                    );
                }
            },
        };
        Ok(
            AppendLog {
                file_pattern: file_pattern.to_string(),
                file_fill_size,
                write_pos,
                write_file_counter: counter,
                commit_pos: write_pos,
                commit_file_counter: counter,
            },
        )
    }

    pub fn file_pattern(&self) -> (r: &str)
        ensures
            r@ == self@.pattern,
    {
        self.file_pattern.as_str()
    }

    /// The segment being written and the byte at which writing resumes.
    pub fn write_target(&self) -> (r: (u32, u64))
        ensures
            r.0 == self@.write_counter,
            r.1 == self@.write_pos,
    {
        (self.write_file_counter, self.write_pos)
    }

    /// Accounts for a record of `length` bytes written at the write position; the
    /// result holds its location and whether the segment is now full and closed.
    pub fn store_resource(&mut self, length: u32) -> (r: Result<(StorageLocation, bool), PersistenceError>)
        ensures
            ({
                let v = old(self)@;
                let end = v.write_pos + length;
                let fits = end <= u64::MAX && (end < v.fill_size || v.write_counter < u32::MAX);
                &&& fits ==> (r matches Ok((loc, rolled)) && loc == (StorageLocation {
                    file_counter: v.write_counter as u32,
                    store_start: v.write_pos as u64,
                    store_length: length,
                }) && rolled == (end >= v.fill_size) && if end < v.fill_size {
                    final(self)@ == (AppendLogView { write_pos: end as nat, ..v })
                } else {
                    final(self)@ == (AppendLogView {
                        write_pos: 0,
                        write_counter: v.write_counter + 1,
                        ..v
                    })
                })
                &&& !fits ==> (r matches Err(PersistenceError::FailedToWriteToFile { .. })
                    && final(self)@ == v)
            }),
    {
        if self.write_pos > u64::MAX - length as u64 {
            return Err(
                PersistenceError::FailedToWriteToFile {
                    filename: self.file_pattern.clone(),
                    position: self.write_pos,
                },
            );
        }
        let end = self.write_pos + length as u64;
        if end >= self.file_fill_size && self.write_file_counter == u32::MAX {
            return Err(
                PersistenceError::FailedToWriteToFile {
                    filename: self.file_pattern.clone(),
                    position: self.write_pos,
                },
            );
        }
        let location = StorageLocation {
            file_counter: self.write_file_counter,
            store_start: self.write_pos,
            store_length: length,
        };
        if end >= self.file_fill_size {
            self.write_pos = 0;
            self.write_file_counter = self.write_file_counter + 1;
            Ok((location, true))
        } else {
            self.write_pos = end;
            Ok((location, false))
        }
    }

    /// Confirms the records written so far.
    pub fn commit_version(&mut self)
        ensures
            final(self)@ == (AppendLogView {
                commit_pos: old(self)@.write_pos,
                commit_counter: old(self)@.write_counter,
                ..old(self)@
            }),
    {
        self.commit_pos = self.write_pos;
        self.commit_file_counter = self.write_file_counter;
    }

    /// Moves the write position back to the last commit; the segment is cut back
    /// there when it is next opened.
    pub fn revert_version(&mut self)
        ensures
            final(self)@ == (AppendLogView {
                write_pos: old(self)@.commit_pos,
                write_counter: old(self)@.commit_counter,
                ..old(self)@
            }),
    {
        self.write_pos = self.commit_pos;
        self.write_file_counter = self.commit_file_counter;
    }

    /// The location of the latest confirmed record, given the handle's last location.
    pub fn load_latest(&self, last: Option<StorageLocation>) -> (r: Result<
        StorageLocation,
        PersistenceError,
    >)
        ensures
            last matches Some(l) ==> r == Ok::<StorageLocation, PersistenceError>(l),
            last is None ==> (r matches Err(PersistenceError::FailedToFindExpectedResource { .. })),
    {
        match last {
            Some(l) => Ok(l),
            None => Err(
                PersistenceError::FailedToFindExpectedResource { key: self.file_pattern.clone() },
            ),
        }
    }
}

} // verus!

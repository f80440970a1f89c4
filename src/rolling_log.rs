//! The rolling log: segments that start with a 4-byte entry count, followed by
//! records framed as a 4-byte little-endian length and the payload. Old segments
//! can be pruned once enough newer entries are kept.
use vstd::prelude::*;

use crate::encoding::{
    le_bytes,
    le_value,
    lemma_le_value_bound,
    lemma_pow256_values,
    pow256,
    push_le,
    read_le,
};
use crate::error::PersistenceError;
use crate::storage_location::StorageLocation;

verus! {

/// Entries kept by pruning unless configured otherwise.
pub const DEFAULT_RETAINED_ENTRIES: u32 = 128;

/// Walks the framed records of `s` from `pos` while `pos < write_pos`: the number of
/// records passed and where the walk stops, or `None` when a length prefix runs
/// past the end of `s`.
pub open spec fn walk_entries(s: Seq<u8>, pos: nat, write_pos: nat) -> Option<(nat, nat)>
    decreases (if pos < write_pos {
        write_pos - pos
    } else {
        0
    }),
{
    if pos >= write_pos {
        Some((0, pos))
    } else if pos + 4 > s.len() {
        None
    } else {
        let size = le_value(s.subrange(pos as int, pos + 4 as int));
        match walk_entries(s, pos + 4 + size, write_pos) {
            Some((n, end)) => Some((n + 1, end)),
            None => None,
        }
    }
}

/// What reopening a segment for writing at `write_pos` finds and repairs.
#[derive(Debug, Copy, Clone, PartialEq, Eq, Structural)]
pub struct SegmentRepair {
    /// Records before the write position.
    pub entries: u32,
    /// The entry count to write at offset 0, when the stored one is missing or wrong.
    pub header: Option<u32>,
    /// Whether the file is then cut to the write position.
    pub truncate: bool,
}

/// The segment as it stands once an empty file got its zero entry count.
pub open spec fn effective_contents(s: Seq<u8>) -> Seq<u8> {
    if s.len() == 0 {
        seq![0u8, 0u8, 0u8, 0u8]
    } else {
        s
    }
}

/// The repair for a segment holding `s`, or `None` when its contents are invalid.
pub open spec fn scan_spec(s: Seq<u8>, write_pos: nat) -> Option<SegmentRepair> {
    let e = effective_contents(s);
    if e.len() < write_pos {
        None
    } else if e.len() <= 4 {
        Some(
            SegmentRepair {
                entries: 0,
                header: if s.len() == 0 {
                    Some(0u32)
                } else {
                    None
                },
                truncate: e.len() > write_pos,
            },
        )
    } else {
        match walk_entries(e, 4, write_pos) {
            None => None,
            Some((n, end)) => if end > write_pos || n > u32::MAX {
                None
            } else {
                Some(
                    SegmentRepair {
                        entries: n as u32,
                        header: if n != le_value(e.subrange(0, 4)) {
                            Some(n as u32)
                        } else {
                            None
                        },
                        truncate: e.len() > write_pos,
                    },
                )
            },
        }
    }
}

/// Checks the segment read from `path` (its whole contents) against the write
/// position and counts its records; `InvalidFileContents` when the file is too
/// short or its framing does not end exactly at the write position.
pub fn scan_segment(contents: &[u8], write_pos: u64, path: &str) -> (r: Result<
    SegmentRepair,
    PersistenceError,
>)
    requires
        write_pos >= 4,
    ensures
        scan_spec(contents@, write_pos as nat) matches Some(p) ==> r == Ok::<
            SegmentRepair,
            PersistenceError,
        >(p),
        scan_spec(contents@, write_pos as nat) is None ==> (r matches Err(
            PersistenceError::InvalidFileContents { .. },
        )),
{
    let clen: usize = contents.len();
    let empty = clen == 0;
    let len: u64 = if empty {
        4
    } else {
        clen as u64
    };
    let ghost e = effective_contents(contents@);
    if len < write_pos {
        return Err(
            PersistenceError::InvalidFileContents {
                note: "file too small for last recorded entry".to_string(),
                path: path.to_string(),
            },
        );
    }
    if len <= 4 {
        return Ok(
            SegmentRepair {
                entries: 0,
                header: if empty {
                    Some(0u32)
                } else {
                    None
                },
                truncate: len > write_pos,
            },
        );
    }
    proof {
        lemma_pow256_values();
    }
    let mut pos: u64 = 4;
    let mut count: u64 = 0;
    while pos < write_pos
        invariant
            !empty,
            e == contents@,
            len == contents@.len(),
            len == clen,
            4 <= pos,
            count <= pos,
            write_pos <= len,
            pow256(4) == 0x1_0000_0000,
            walk_entries(e, 4, write_pos as nat) == match walk_entries(
                e,
                pos as nat,
                write_pos as nat,
            ) {
                Some((n, end)) => Some(((n + count) as nat, end)),
                None => None,
            },
        decreases (if pos < write_pos {
            write_pos - pos
        } else {
            0
        }),
    {
        if pos > len - 4 {
            return Err(
                PersistenceError::InvalidFileContents {
                    note: "entry length runs past the end of the file".to_string(),
                    path: path.to_string(),
                },
            );
        }
        proof {
            lemma_le_value_bound(contents@.subrange(pos as int, pos + 4));
        }
        let size = read_le(contents, pos as usize, 4);
        proof {
            let p = pos as nat;
            let w = write_pos as nat;
            assert(size as nat == le_value(e.subrange(p as int, p + 4 as int)));
            assert(walk_entries(e, p, w) == match walk_entries(e, p + 4 + size as nat, w) {
                Some((n, end)) => Some(((n + 1) as nat, end)),
                None => None,
            });
        }
        if size > u64::MAX - (pos + 4) {
            proof {
                let next = (pos + 4 + size) as nat;
                assert(walk_entries(e, next, write_pos as nat) == Some((0nat, next)));
            }
            return Err(
                PersistenceError::InvalidFileContents {
                    note: "file stream mismatch for last recorded entry".to_string(),
                    path: path.to_string(),
                },
            );
        }
        pos = pos + 4 + size;
        count = count + 1;
    }
    if pos > write_pos || count > 0xFFFF_FFFFu64 {
        return Err(
            PersistenceError::InvalidFileContents {
                note: "file stream mismatch for last recorded entry".to_string(),
                path: path.to_string(),
            },
        );
    }
    proof {
        lemma_le_value_bound(contents@.subrange(0, 4));
    }
    let remembered = read_le(contents, 0, 4);
    Ok(
        SegmentRepair {
            entries: count as u32,
            header: if count != remembered {
                Some(count as u32)
            } else {
                None
            },
            truncate: len > write_pos,
        },
    )
}

/// Subtraction that stops at zero.
pub open spec fn sat_sub(a: nat, b: nat) -> nat {
    if a >= b {
        (a - b) as nat
    } else {
        0
    }
}

/// Walks segments `top - k, top - k - 1, ..` given their entry counts
/// (`counts[k]`, `None` for a missing file, which ends the walk) with `budget`
/// entries still to keep: once the budget is spent every further segment is listed
/// for deletion.
pub open spec fn prune_walk(budget: nat, counts: Seq<Option<u32>>, top: nat, k: nat) -> Seq<u32>
    decreases counts.len() - k,
{
    if k >= counts.len() || k > top {
        Seq::empty()
    } else {
        match counts[k as int] {
            None => Seq::empty(),
            Some(c) => if budget == 0 {
                seq![(top - k) as u32] + prune_walk(0, counts, top, k + 1)
            } else {
                prune_walk(sat_sub(budget, c as nat), counts, top, k + 1)
            },
        }
    }
}

/// The segments that pruning deletes: the walk starts below the segment of the
/// last committed record, with the retention budget less that segment's entries.
pub open spec fn prune_spec(last: Option<StorageLocation>, retained: u32, counts: Seq<Option<u32>>) -> Seq<u32> {
    match last {
        None => Seq::empty(),
        Some(l) => {
            let own: nat = if counts.len() > 0 && counts[0] is Some {
                counts[0]->Some_0 as nat
            } else {
                0
            };
            prune_walk(sat_sub(retained as nat, own), counts, l.file_counter as nat, 1)
        },
    }
}

/// The abstract state of a [`RollingLog`].
pub struct RollingLogView {
    pub pattern: Seq<char>,
    pub fill_size: nat,
    pub write_pos: nat,
    pub file_entries: nat,
    pub write_counter: nat,
    pub commit_pos: nat,
    pub commit_counter: nat,
    pub retained_entries: nat,
}

impl RollingLogView {
    pub open spec fn wf(self) -> bool {
        &&& self.write_pos >= 4
        &&& self.commit_pos >= 4
        &&& self.write_pos <= u64::MAX
        &&& self.commit_pos <= u64::MAX
        &&& self.write_counter <= u32::MAX
        &&& self.commit_counter <= u32::MAX
        &&& self.file_entries <= u32::MAX
        &&& self.retained_entries <= u32::MAX
    }
}

/// Where writing resumes after the record at `location`: just past it, or at the
/// start of the next segment once the segment reached `fill_size` bytes.
pub open spec fn rolling_resume(location: Option<StorageLocation>, fill_size: nat) -> Option<(nat, nat)> {
    match location {
        None => Some((4, 0)),
        Some(l) => if l.end_spec() < fill_size {
            if l.end_spec() >= 4 {
                Some((l.end_spec(), l.file_counter as nat))
            } else {
                None
            }
        } else if l.file_counter < u32::MAX {
            Some((4, (l.file_counter + 1) as nat))
        } else {
            None
        },
    }
}

/// The write cursor of a rolling log (the files belong to the caller).
#[derive(Debug)]
pub struct RollingLog {
    file_pattern: String,
    file_fill_size: u64,
    write_pos: u64,
    file_entries: u32,
    write_file_counter: u32,
    commit_pos: u64,
    commit_file_counter: u32,
    retained_entries: u32,
}

impl View for RollingLog {
    type V = RollingLogView;

    closed spec fn view(&self) -> RollingLogView {
        RollingLogView {
            pattern: self.file_pattern@,
            fill_size: self.file_fill_size as nat,
            write_pos: self.write_pos as nat,
            file_entries: self.file_entries as nat,
            write_counter: self.write_file_counter as nat,
            commit_pos: self.commit_pos as nat,
            commit_counter: self.commit_file_counter as nat,
            retained_entries: self.retained_entries as nat,
        }
    }
}

impl RollingLog {
    /// Opens the cursor after the last committed record `location`, if any.
    /// `ResourceFormatInconsistent` when the location cannot be followed by another.
    pub fn open_impl(
        location: Option<StorageLocation>,
        file_pattern: &str,
        file_fill_size: u64,
        retained_entries: u32,
    ) -> (r: Result<RollingLog, PersistenceError>)
        ensures
            rolling_resume(location, file_fill_size as nat) matches Some((pos, counter)) ==> (r matches Ok(log) && log@ == (RollingLogView {
                pattern: file_pattern@,
                fill_size: file_fill_size as nat,
                write_pos: pos,
                file_entries: 0,
                write_counter: counter,
                commit_pos: pos,
                commit_counter: counter,
                retained_entries: retained_entries as nat,
            })),
            rolling_resume(location, file_fill_size as nat) is None ==> (r matches Err(
                PersistenceError::ResourceFormatInconsistent { .. },
            )),
            r matches Ok(log) ==> log@.wf(),
    {
        let (write_pos, counter): (u64, u32) = match location {
            None => (4, 0),
            Some(l) => {
                if l.store_start <= u64::MAX - l.store_length as u64 && l.store_start
                    + l.store_length as u64 >= 4 && l.store_start + (l.store_length as u64)
                    < file_fill_size {
                    (l.store_start + l.store_length as u64, l.file_counter)
                } else if l.store_start <= u64::MAX - l.store_length as u64 && l.store_start
                    + (l.store_length as u64) < file_fill_size {
                    return Err(
                        PersistenceError::ResourceFormatInconsistent { key: file_pattern.to_string() },
                    );
                } else if l.file_counter < u32::MAX {
                    (4, l.file_counter + 1)
                } else {
                    return Err(
                        PersistenceError::ResourceFormatInconsistent { key: file_pattern.to_string() },
                    );
                }
            },
        };
        Ok(
            RollingLog {
                file_pattern: file_pattern.to_string(),
                file_fill_size,
                write_pos,
                file_entries: 0,
                write_file_counter: counter,
                commit_pos: write_pos,
                commit_file_counter: counter,
                retained_entries,
            },
        )
    }

    pub fn file_pattern(&self) -> (r: &str)
        ensures
            r@ == self@.pattern,
    {
        self.file_pattern.as_str()
    }

    /// The segment being written and the byte at which writing resumes.
    pub fn write_target(&self) -> (r: (u32, u64))
        ensures
            r.0 == self@.write_counter,
            r.1 == self@.write_pos,
    {
        (self.write_file_counter, self.write_pos)
    }

    /// Reopens the current segment, whose whole contents are `contents`: checks it,
    /// and takes its record count as the count of the segment being written.
    pub fn open_write_file(&mut self, contents: &[u8], path: &str) -> (r: Result<
        SegmentRepair,
        PersistenceError,
    >)
        requires
            old(self)@.wf(),
        ensures
            final(self)@.wf(),
            r matches Ok(p) ==> final(self)@ == (RollingLogView {
                file_entries: p.entries as nat,
                ..old(self)@
            }),
            r is Err ==> final(self)@ == old(self)@,
            scan_spec(contents@, old(self)@.write_pos) matches Some(p) ==> r == Ok::<
                SegmentRepair,
                PersistenceError,
            >(p),
            scan_spec(contents@, old(self)@.write_pos) is None ==> (r matches Err(
                PersistenceError::InvalidFileContents { .. },
            )),
    {
        let repair = scan_segment(contents, self.write_pos, path)?;
        self.file_entries = repair.entries;
        Ok(repair)
    }

    /// Accounts for a record of `length` bytes framed at the write position; the
    /// result holds its location and, when the segment is full and is closed, the
    /// entry count to write at its start.
    pub fn store_resource(&mut self, length: u32) -> (r: Result<
        (StorageLocation, Option<u32>),
        PersistenceError,
    >)
        requires
            old(self)@.wf(),
        ensures
            final(self)@.wf(),
            ({
                let v = old(self)@;
                let end = v.write_pos + 4 + length;
                let fits = end <= u64::MAX && v.file_entries < u32::MAX && (end < v.fill_size
                    || v.write_counter < u32::MAX);
                &&& fits ==> (r matches Ok((loc, seal)) && loc == (StorageLocation {
                    file_counter: v.write_counter as u32,
                    store_start: (v.write_pos + 4) as u64,
                    store_length: length,
                }) && if end < v.fill_size {
                    seal is None && final(self)@ == (RollingLogView {
                        write_pos: end as nat,
                        file_entries: v.file_entries + 1,
                        ..v
                    })
                } else {
                    seal == Some((v.file_entries + 1) as u32) && final(self)@ == (RollingLogView {
                        write_pos: 4,
                        file_entries: 0,
                        write_counter: v.write_counter + 1,
                        ..v
                    })
                })
                &&& !fits ==> (r matches Err(PersistenceError::FailedToWriteToFile { .. })
                    && final(self)@ == v)
            }),
    {
        if self.write_pos > u64::MAX - 4 - length as u64 || self.file_entries == u32::MAX {
            return Err(
                PersistenceError::FailedToWriteToFile {
                    filename: self.file_pattern.clone(),
                    position: self.write_pos,
                },
            );
        }
        let end = self.write_pos + 4 + length as u64;
        if end >= self.file_fill_size && self.write_file_counter == u32::MAX {
            return Err(
                PersistenceError::FailedToWriteToFile {
                    filename: self.file_pattern.clone(),
                    position: self.write_pos,
                },
            );
        }
        let location = StorageLocation {
            file_counter: self.write_file_counter,
            store_start: self.write_pos + 4,
            store_length: length,
        };
        self.file_entries = self.file_entries + 1;
        if end >= self.file_fill_size {
            let sealed = self.file_entries;
            self.write_pos = 4;
            self.file_entries = 0;
            self.write_file_counter = self.write_file_counter + 1;
            Ok((location, Some(sealed)))
        } else {
            self.write_pos = end;
            Ok((location, None))
        }
    }

    /// Confirms the records written so far; returns the entry count of the segment
    /// being written, to store at its start.
    pub fn commit_version(&mut self) -> (r: Vec<u8>)
        requires
            old(self)@.wf(),
        ensures
            final(self)@.wf(),
            r@ == le_bytes(old(self)@.file_entries, 4),
            final(self)@ == (RollingLogView {
                commit_pos: old(self)@.write_pos,
                commit_counter: old(self)@.write_counter,
                ..old(self)@
            }),
    {
        self.commit_pos = self.write_pos;
        self.commit_file_counter = self.write_file_counter;
        let mut out: Vec<u8> = Vec::new();
        push_le(&mut out, self.file_entries as u64, 4);
        out
    }

    /// Moves the write position back to the last commit; the segment is cut back
    /// there when it is next opened.
    pub fn revert_version(&mut self)
        requires
            old(self)@.wf(),
        ensures
            final(self)@.wf(),
            final(self)@ == (RollingLogView {
                write_pos: old(self)@.commit_pos,
                write_counter: old(self)@.commit_counter,
                ..old(self)@
            }),
    {
        self.write_pos = self.commit_pos;
        self.write_file_counter = self.commit_file_counter;
    }

    /// The location of the latest confirmed record, given the handle's last location.
    pub fn load_latest(&self, last: Option<StorageLocation>) -> (r: Result<
        StorageLocation,
        PersistenceError,
    >)
        ensures
            last matches Some(l) ==> r == Ok::<StorageLocation, PersistenceError>(l),
            last is None ==> (r matches Err(PersistenceError::FailedToFindExpectedResource { .. })),
    {
        match last {
            Some(l) => Ok(l),
            None => Err(
                PersistenceError::FailedToFindExpectedResource { key: self.file_pattern.clone() },
            ),
        }
    }

    pub fn set_retained_entries(&mut self, retained_entries: u32)
        requires
            old(self)@.wf(),
        ensures
            final(self)@.wf(),
            final(self)@ == (RollingLogView {
                retained_entries: retained_entries as nat,
                ..old(self)@
            }),
    {
        self.retained_entries = retained_entries;
    }

    /// The segments to delete so that about `retained_entries` committed entries
    /// stay. `last` is the handle's last location; `counts[k]` is the entry count
    /// stored in segment `last.file_counter - k`, `None` where that file is missing.
    pub fn prune_file_entries(&self, last: Option<StorageLocation>, counts: &Vec<Option<u32>>) -> (r: Vec<u32>)
        ensures
            r@ == prune_spec(last, self@.retained_entries as u32, counts@),
    {
        let l = match last {
            None => return Vec::new(),
            Some(l) => l,
        };
        let own: u32 = if counts.len() > 0 {
            match counts[0] {
                Some(c) => c,
                None => 0,
            }
        } else {
            0
        };
        let mut budget: u32 = if self.retained_entries >= own {
            self.retained_entries - own
        } else {
            0
        };
        let top = l.file_counter as u64;
        let mut out: Vec<u32> = Vec::new();
        let mut k: usize = 1;
        let ghost whole = prune_spec(last, self@.retained_entries as u32, counts@);
        assert(whole == prune_walk(budget as nat, counts@, top as nat, 1));
        while k < counts.len() && (k as u64) <= top
            invariant
                1 <= k,
                top <= u32::MAX,
                out@ + prune_walk(budget as nat, counts@, top as nat, k as nat) == whole,
                whole == prune_spec(last, self@.retained_entries as u32, counts@),
            decreases counts.len() - k,
        {
            match counts[k] {
                None => {
                    assert(prune_walk(budget as nat, counts@, top as nat, k as nat) == Seq::<u32>::empty());
                    assert(out@ + Seq::<u32>::empty() =~= out@);
                    return out;
                },
                Some(c) => {
                    if budget == 0 {
                        let ghost before = out@;
                        out.push((top - k as u64) as u32);
                        assert(out@ + prune_walk(0, counts@, top as nat, (k + 1) as nat) =~= before
                            + prune_walk(budget as nat, counts@, top as nat, k as nat));
                    } else {
                        budget = if budget >= c {
                            budget - c
                        } else {
                            0
                        };
                    }
                },
            }
            k = k + 1;
        }
        assert(prune_walk(budget as nat, counts@, top as nat, k as nat) == Seq::<u32>::empty());
        assert(out@ + Seq::<u32>::empty() =~= out@);
        out
    }
}

} // verus!

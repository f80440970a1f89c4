//! The fixed-slot log: records of one size, addressed by slot index, with the
//! commit index kept in a 16-byte header file.
//!
//! Slot `i` lives in the segment that holds slots `[i - i % file_size, .. + file_size)`
//! at byte `(i % file_size) * resource_size`. The commit index points one past the
//! last committed slot.
use vstd::prelude::*;

use crate::encoding::{
    le_bytes,
    le_value,
    lemma_le_bytes_len,
    lemma_le_round_trip,
    lemma_le_value_bound,
    lemma_pow256_values,
    push_le,
    read_le,
};
use crate::error::PersistenceError;
use crate::storage_location::StorageLocation;

verus! {

/// Byte-order marker of a header written in this machine's order.
pub const BYTE_ORDER: u32 = 0x8001FEFFu32;

/// Byte-order marker of a header written in the opposite order.
pub const BYTE_DISORDER: u32 = 0xFFFE0180u32;

/// The header of a fixed-slot log.
#[derive(Debug, Copy, Clone, PartialEq, Eq, Structural)]
pub struct IndexContents {
    pub byte_order: u32,
    pub chunk_size: u32,
    pub file_size: u32,
    pub commit_index: u32,
}

/// The 16 bytes of a header: its four fields, each little-endian.
pub open spec fn index_bytes(c: IndexContents) -> Seq<u8> {
    le_bytes(c.byte_order as nat, 4) + le_bytes(c.chunk_size as nat, 4) + le_bytes(
        c.file_size as nat,
        4,
    ) + le_bytes(c.commit_index as nat, 4)
}

/// The header that the first 16 bytes of `s` hold.
pub open spec fn parse_index_fields(s: Seq<u8>) -> IndexContents
    recommends
        s.len() >= 16,
{
    IndexContents {
        byte_order: le_value(s.subrange(0, 4)) as u32,
        chunk_size: le_value(s.subrange(4, 8)) as u32,
        file_size: le_value(s.subrange(8, 12)) as u32,
        commit_index: le_value(s.subrange(12, 16)) as u32,
    }
}

/// What reading a header file holding `s` gives.
pub open spec fn index_result(s: Seq<u8>) -> Option<IndexContents> {
    if s.len() < 16 {
        None
    } else {
        Some(parse_index_fields(s))
    }
}

/// Decoding the bytes of a header gives the same header.
pub proof fn lemma_index_round_trip(c: IndexContents)
    ensures
        index_bytes(c).len() == 16,
        index_result(index_bytes(c)) == Some(c),
{
    let s = index_bytes(c);
    lemma_le_bytes_len(c.byte_order as nat, 4);
    lemma_le_bytes_len(c.chunk_size as nat, 4);
    lemma_le_bytes_len(c.file_size as nat, 4);
    lemma_le_bytes_len(c.commit_index as nat, 4);
    lemma_pow256_values();
    lemma_le_round_trip(c.byte_order as nat, 4);
    lemma_le_round_trip(c.chunk_size as nat, 4);
    lemma_le_round_trip(c.file_size as nat, 4);
    lemma_le_round_trip(c.commit_index as nat, 4);
    assert(s.subrange(0, 4) =~= le_bytes(c.byte_order as nat, 4));
    assert(s.subrange(4, 8) =~= le_bytes(c.chunk_size as nat, 4));
    assert(s.subrange(8, 12) =~= le_bytes(c.file_size as nat, 4));
    assert(s.subrange(12, 16) =~= le_bytes(c.commit_index as nat, 4));
}

impl IndexContents {
    /// Encodes the header in its 16-byte form.
    pub fn to_bytes(&self) -> (r: Vec<u8>)
        ensures
            r@ == index_bytes(*self),
    {
        let mut out: Vec<u8> = Vec::new();
        push_le(&mut out, self.byte_order as u64, 4);
        push_le(&mut out, self.chunk_size as u64, 4);
        push_le(&mut out, self.file_size as u64, 4);
        push_le(&mut out, self.commit_index as u64, 4);
        assert(out@ =~= index_bytes(*self));
        out
    }
}

/// Checks and decodes the contents of a header file read from `index_file_path`:
/// too short or with an unknown marker is `InvalidFileContents`, a header in the
/// opposite byte order is `FeatureNotYetImplemented`.
pub fn load_existing_index(contents: &[u8], index_file_path: &str) -> (r: Result<
    IndexContents,
    PersistenceError,
>)
    ensures
        contents@.len() < 16 ==> r matches Err(PersistenceError::InvalidFileContents { .. }),
        contents@.len() >= 16 ==> {
            let c = parse_index_fields(contents@);
            &&& c.byte_order == BYTE_DISORDER ==> (r matches Err(
                PersistenceError::FeatureNotYetImplemented { .. },
            ))
            &&& (c.byte_order != BYTE_DISORDER && c.byte_order != BYTE_ORDER) ==> (r matches Err(
                PersistenceError::InvalidFileContents { .. },
            ))
            &&& c.byte_order == BYTE_ORDER ==> r == Ok::<IndexContents, PersistenceError>(c)
        },
{
    if contents.len() < 16 {
        return Err(
            PersistenceError::InvalidFileContents {
                note: "file doesn't contain a minimal IndexContents".to_string(),
                path: index_file_path.to_string(),
            },
        );
    }
    proof {
        lemma_pow256_values();
        lemma_le_value_bound(contents@.subrange(0, 4));
        lemma_le_value_bound(contents@.subrange(4, 8));
        lemma_le_value_bound(contents@.subrange(8, 12));
        lemma_le_value_bound(contents@.subrange(12, 16));
    }
    let c = IndexContents {
        byte_order: read_le(contents, 0, 4) as u32,
        chunk_size: read_le(contents, 4, 4) as u32,
        file_size: read_le(contents, 8, 4) as u32,
        commit_index: read_le(contents, 12, 4) as u32,
    };
    if c.byte_order == BYTE_DISORDER {
        Err(
            PersistenceError::FeatureNotYetImplemented {
                description: "byte order reordering".to_string(),
            },
        )
    } else if c.byte_order != BYTE_ORDER {
        Err(
            PersistenceError::InvalidFileContents {
                note: "invalid index byte order mark".to_string(),
                path: index_file_path.to_string(),
            },
        )
    } else {
        Ok(c)
    }
}

/// The location of the last committed slot that a header records (slot 0 when none is).
pub fn compute_location(from_index: &IndexContents) -> (r: StorageLocation)
    requires
        from_index.file_size > 0,
    ensures
        ({
            let start: nat = if from_index.commit_index == 0 {
                0
            } else {
                (from_index.commit_index - 1) as nat
            };
            &&& r.store_start as nat == (start % from_index.file_size as nat)
                * from_index.chunk_size as nat
            &&& r.store_length == from_index.chunk_size
            &&& r.file_counter as nat == start / from_index.file_size as nat
        }),
{
    let commit_start = if from_index.commit_index == 0 {
        0
    } else {
        from_index.commit_index - 1
    };
    let slot = (commit_start % from_index.file_size) as u64;
    assert(slot * (from_index.chunk_size as u64) <= 0xFFFF_FFFF * 0xFFFF_FFFF) by (nonlinear_arith)
        requires
            slot < 0x1_0000_0000,
            from_index.chunk_size < 0x1_0000_0000,
    ;
    StorageLocation {
        store_start: slot * from_index.chunk_size as u64,
        store_length: from_index.chunk_size,
        file_counter: commit_start / from_index.file_size,
    }
}

/// Where a slot's bytes lie: its segment, identified by the first and one-past-last
/// slot it holds, and the byte offset and length inside that segment.
#[derive(Debug, Copy, Clone, PartialEq, Eq, Structural)]
pub struct SlotAddress {
    pub range_begin: u64,
    pub range_end: u64,
    pub offset: u64,
    pub length: u64,
}

/// The abstract state of a [`FixedAppendLog`].
pub struct FixedLogView {
    pub pattern: Seq<char>,
    pub resource_size: nat,
    pub file_size: nat,
    pub commit_index: nat,
    pub write_index: nat,
}

impl FixedLogView {
    /// Slot sizes fit the header's fields, a segment's bytes fit a `u64`, and the
    /// write index never lags the commit index nor leaves the header's range.
    pub open spec fn wf(self) -> bool {
        &&& 0 < self.resource_size <= u32::MAX
        &&& 0 < self.file_size <= u32::MAX
        &&& self.resource_size * self.file_size <= u64::MAX
        &&& self.commit_index <= self.write_index <= u32::MAX
    }

    /// After `store_resource` took a slot.
    pub open spec fn stored(self) -> FixedLogView {
        FixedLogView { write_index: self.write_index + 1, ..self }
    }

    /// After `commit_version`.
    pub open spec fn committed(self) -> FixedLogView {
        FixedLogView { commit_index: self.write_index, ..self }
    }

    /// After `revert_version`.
    pub open spec fn reverted(self) -> FixedLogView {
        FixedLogView { write_index: self.commit_index, ..self }
    }

    /// The header that `commit_version` returns.
    pub open spec fn header(self) -> IndexContents {
        IndexContents {
            byte_order: BYTE_ORDER,
            chunk_size: self.resource_size as u32,
            file_size: self.file_size as u32,
            commit_index: self.write_index as u32,
        }
    }

    /// The address of slot `index`.
    pub open spec fn slot_address(self, index: nat) -> SlotAddress {
        let first = index - index % self.file_size;
        SlotAddress {
            range_begin: first as u64,
            range_end: (first + self.file_size) as u64,
            offset: ((index % self.file_size) * self.resource_size) as u64,
            length: self.resource_size as u64,
        }
    }

    /// The location of slot `index`.
    pub open spec fn location_of(self, index: nat) -> StorageLocation {
        StorageLocation {
            store_start: ((index % self.file_size) * self.resource_size) as u64,
            store_length: self.resource_size as u32,
            file_counter: (index / self.file_size) as u32,
        }
    }
}

/// The committed-slot cursor of a fixed-slot log (the files belong to the caller).
#[derive(Debug)]
pub struct FixedAppendLog {
    file_pattern: String,
    resource_size: u64,
    file_size: u64,
    commit_index: u64,
    write_index: u64,
}

impl View for FixedAppendLog {
    type V = FixedLogView;

    closed spec fn view(&self) -> FixedLogView {
        FixedLogView {
            pattern: self.file_pattern@,
            resource_size: self.resource_size as nat,
            file_size: self.file_size as nat,
            commit_index: self.commit_index as nat,
            write_index: self.write_index as nat,
        }
    }
}

/// Whether a stored header was written for slots of `resource_size` bytes,
/// `file_size` to a segment.
pub open spec fn header_matches(c: IndexContents, resource_size: nat, file_size: nat) -> bool {
    c.file_size as nat == file_size && c.chunk_size as nat == resource_size
}

/// Rejects a stored header whose slot size or slots per segment differ from the
/// configuration.
pub fn check_index_format(
    contents: &IndexContents,
    resource_size: u64,
    file_size: u64,
    file_pattern: &str,
) -> (r: Result<(), PersistenceError>)
    ensures
        header_matches(*contents, resource_size as nat, file_size as nat) ==> r is Ok,
        !header_matches(*contents, resource_size as nat, file_size as nat) ==> r matches Err(
            PersistenceError::ResourceFormatInconsistent { .. },
        ),
{
    if contents.file_size as u64 != file_size || contents.chunk_size as u64 != resource_size {
        Err(PersistenceError::ResourceFormatInconsistent { key: file_pattern.to_string() })
    } else {
        Ok(())
    }
}

impl FixedAppendLog {
    /// Opens the cursor of a log of `resource_size`-byte slots, `file_size` to a
    /// segment. With no stored header the log starts empty; with one, it must
    /// record the same sizes and the log resumes at its commit index.
    pub fn open_impl(
        stored: Option<IndexContents>,
        file_pattern: &str,
        resource_size: u64,
        file_size: u64,
    ) -> (r: Result<FixedAppendLog, PersistenceError>)
        requires
            0 < resource_size <= u32::MAX,
            0 < file_size <= u32::MAX,
            resource_size * file_size <= u64::MAX,
        ensures
            stored is None ==> (r matches Ok(log) && log@ == (FixedLogView {
                pattern: file_pattern@,
                resource_size: resource_size as nat,
                file_size: file_size as nat,
                commit_index: 0,
                write_index: 0,
            })),
            stored matches Some(c) ==> {
                &&& header_matches(c, resource_size as nat, file_size as nat) ==> (r matches Ok(
                    log,
                ) && log@ == (FixedLogView {
                    pattern: file_pattern@,
                    resource_size: resource_size as nat,
                    file_size: file_size as nat,
                    commit_index: c.commit_index as nat,
                    write_index: c.commit_index as nat,
                }))
                &&& !header_matches(c, resource_size as nat, file_size as nat) ==> (r matches Err(
                    PersistenceError::ResourceFormatInconsistent { .. },
                ))
            },
            r matches Ok(log) ==> log@.wf(),
    {
        let commit_index: u64 = match stored {
            Some(contents) => {
                check_index_format(&contents, resource_size, file_size, file_pattern)?;
                contents.commit_index as u64
            },
            None => 0,
        };
        Ok(
            FixedAppendLog {
                file_pattern: file_pattern.to_string(),
                resource_size,
                file_size,
                commit_index,
                write_index: commit_index,
            },
        )
    }

    pub fn file_pattern(&self) -> (r: &str)
        ensures
            r@ == self@.pattern,
    {
        self.file_pattern.as_str()
    }

    pub fn resource_size(&self) -> (r: u64)
        ensures
            r == self@.resource_size,
    {
        self.resource_size
    }

    pub fn commit_index(&self) -> (r: u64)
        ensures
            r == self@.commit_index,
    {
        self.commit_index
    }

    pub fn write_index(&self) -> (r: u64)
        ensures
            r == self@.write_index,
    {
        self.write_index
    }

    /// The slot index that `location` addresses, or `ResourceFormatInconsistent`
    /// when it is not the start of a slot of this log.
    pub fn location_to_index(&self, location: &StorageLocation) -> (r: Result<u64, PersistenceError>)
        requires
            self@.wf(),
        ensures
            ({
                let v = self@;
                let st = location.store_start as nat;
                let fc = location.file_counter as nat;
                let ok = location.store_length as nat == v.resource_size && st % v.resource_size
                    == 0 && st / v.resource_size < v.file_size;
                let index = fc * v.file_size + st / v.resource_size;
                &&& ok ==> r == Ok::<u64, PersistenceError>(index as u64)
                &&& !ok ==> (r matches Err(PersistenceError::ResourceFormatInconsistent { .. }))
                &&& ok ==> v.location_of(index) == *location && index <= u64::MAX
                &&& r matches Ok(i) ==> v.location_of(i as nat) == *location
            }),
    {
        if location.store_length as u64 != self.resource_size || location.store_start
            % self.resource_size != 0 || location.store_start / self.resource_size
            >= self.file_size {
            return Err(PersistenceError::ResourceFormatInconsistent { key: self.file_pattern.clone() });
        }
        let slot = location.store_start / self.resource_size;
        let fc = location.file_counter as u64;
        let fs = self.file_size;
        assert(fc * fs + slot < (fc + 1) * fs) by (nonlinear_arith)
            requires
                slot < fs,
        ;
        assert((fc + 1) * fs <= 0x1_0000_0000 * 0xFFFF_FFFF) by (nonlinear_arith)
            requires
                fc < 0x1_0000_0000,
                fs <= 0xFFFF_FFFF,
        ;
        let index = fc * fs + slot;
        proof {
            let rs = self.resource_size as int;
            let st = location.store_start as int;
            assert(index as int % (fs as int) == slot as int && index as int / (fs as int)
                == fc as int) by (nonlinear_arith)
                requires
                    index == fc * fs + slot,
                    slot < fs,
                    fs > 0,
            ;
            assert(slot * rs == st) by (nonlinear_arith)
                requires
                    slot == st / rs,
                    st % rs == 0,
                    rs > 0,
            ;
        }
        Ok(index)
    }

    /// The location of slot `index`.
    pub fn index_to_location(&self, index: u64) -> (r: StorageLocation)
        requires
            self@.wf(),
            index <= u32::MAX,
        ensures
            r == self@.location_of(index as nat),
    {
        let slot = index % self.file_size;
        assert(slot * self.resource_size <= u64::MAX && slot <= index) by (nonlinear_arith)
            requires
                slot == index % self.file_size,
                self.file_size > 0,
                slot < self.file_size,
                self.resource_size * self.file_size <= u64::MAX,
        ;
        assert(index / self.file_size <= index) by (nonlinear_arith)
            requires
                self.file_size > 0,
        ;
        StorageLocation {
            store_start: slot * self.resource_size,
            store_length: self.resource_size as u32,
            file_counter: (index / self.file_size) as u32,
        }
    }

    /// Where slot `index` lies on disk.
    pub fn slot_address(&self, index: u64) -> (r: SlotAddress)
        requires
            self@.wf(),
            index <= u32::MAX,
        ensures
            r == self@.slot_address(index as nat),
    {
        let slot = index % self.file_size;
        assert(slot * self.resource_size <= u64::MAX && slot <= index) by (nonlinear_arith)
            requires
                slot == index % self.file_size,
                self.file_size > 0,
                slot < self.file_size,
                self.resource_size * self.file_size <= u64::MAX,
        ;
        let range_begin = index - slot;
        SlotAddress {
            range_begin,
            range_end: range_begin + self.file_size,
            offset: slot * self.resource_size,
            length: self.resource_size,
        }
    }

    /// Where the next slot is written: its segment and the byte at which writing resumes.
    pub fn write_target(&self) -> (r: SlotAddress)
        requires
            self@.wf(),
        ensures
            r == self@.slot_address(self@.write_index),
    {
        self.slot_address(self.write_index)
    }

    /// Whether the next write starts a new segment (the previous one is full).
    pub fn at_segment_start(&self) -> (r: bool)
        requires
            self@.wf(),
        ensures
            r == (self@.write_index % self@.file_size == 0),
    {
        self.write_index % self.file_size == 0
    }

    /// Takes the next slot for a record that the caller writes at the returned
    /// location; `FailedToWriteToFile` once the header could not count it.
    pub fn store_resource(&mut self) -> (r: Result<StorageLocation, PersistenceError>)
        requires
            old(self)@.wf(),
        ensures
            final(self)@.wf(),
            old(self)@.write_index < u32::MAX ==> r == Ok::<StorageLocation, PersistenceError>(
                old(self)@.location_of(old(self)@.write_index),
            ) && final(self)@ == old(self)@.stored(),
            old(self)@.write_index >= u32::MAX ==> (r matches Err(
                PersistenceError::FailedToWriteToFile { .. },
            ) && final(self)@ == old(self)@),
    {
        if self.write_index >= 0xFFFF_FFFFu64 {
            return Err(
                PersistenceError::FailedToWriteToFile {
                    filename: self.file_pattern.clone(),
                    position: self.write_index,
                },
            );
        }
        let location = self.index_to_location(self.write_index);
        self.write_index = self.write_index + 1;
        Ok(location)
    }

    /// Commits every slot written so far; returns the header to persist.
    pub fn commit_version(&mut self) -> (r: IndexContents)
        requires
            old(self)@.wf(),
        ensures
            final(self)@.wf(),
            final(self)@ == old(self)@.committed(),
            r == old(self)@.header(),
    {
        self.commit_index = self.write_index;
        IndexContents {
            byte_order: BYTE_ORDER,
            chunk_size: self.resource_size as u32,
            file_size: self.file_size as u32,
            commit_index: self.commit_index as u32,
        }
    }

    /// Forgets the slots written since the last commit.
    pub fn revert_version(&mut self)
        requires
            old(self)@.wf(),
        ensures
            final(self)@.wf(),
            final(self)@ == old(self)@.reverted(),
    {
        self.write_index = self.commit_index;
    }

    /// The slot of the last confirmed record, given the handle's last location.
    pub fn load_latest(&self, last: Option<StorageLocation>) -> (r: Result<u64, PersistenceError>)
        requires
            self@.wf(),
        ensures
            last is None ==> r matches Err(PersistenceError::FailedToFindExpectedResource { .. }),
            last matches Some(l) ==> (r matches Ok(i) ==> self@.location_of(i as nat) == l
                && i as nat == (l.file_counter as nat) * self@.file_size + (l.store_start as nat)
                / self@.resource_size),
            last matches Some(l) ==> (r is Ok <==> (l.store_length as nat == self@.resource_size
                && (l.store_start as nat) % self@.resource_size == 0 && (l.store_start as nat)
                / self@.resource_size < self@.file_size)),
    {
        match last {
            Some(location) => self.location_to_index(&location),
            None => Err(
                PersistenceError::FailedToFindExpectedResource { key: self.file_pattern.clone() },
            ),
        }
    }

    /// A walk over the committed slots, from the first.
    pub fn iter(&self) -> (r: Iter)
        requires
            self@.wf(),
        ensures
            r@ == (IterView {
                from_index: 0,
                end_index: self@.commit_index,
                log: FixedLogView { write_index: self@.commit_index, ..self@ },
            }),
            r@.wf(),
    {
        Iter {
            file_pattern: self.file_pattern.clone(),
            resource_size: self.resource_size,
            file_size: self.file_size,
            from_index: 0,
            end_index: self.commit_index,
        }
    }
}

/// The abstract state of an [`Iter`].
pub struct IterView {
    pub from_index: nat,
    pub end_index: nat,
    pub log: FixedLogView,
}

/// A walk over slots `from_index..end_index` of a fixed-slot log.
#[derive(Debug)]
pub struct Iter {
    file_pattern: String,
    resource_size: u64,
    file_size: u64,
    from_index: u64,
    end_index: u64,
}

impl View for Iter {
    type V = IterView;

    closed spec fn view(&self) -> IterView {
        IterView {
            from_index: self.from_index as nat,
            end_index: self.end_index as nat,
            log: FixedLogView {
                pattern: self.file_pattern@,
                resource_size: self.resource_size as nat,
                file_size: self.file_size as nat,
                commit_index: self.end_index as nat,
                write_index: self.end_index as nat,
            },
        }
    }
}

impl IterView {
    pub open spec fn wf(self) -> bool {
        &&& self.from_index <= self.end_index
        &&& FixedLogView { commit_index: self.end_index, write_index: self.end_index, ..self.log }.wf()
    }
}

impl Iter {
    /// The address of the next slot, or `None` once the walk is over.
    pub fn next(&mut self) -> (r: Option<SlotAddress>)
        requires
            old(self)@.wf(),
        ensures
            final(self)@.wf(),
            final(self)@.end_index == old(self)@.end_index,
            old(self)@.from_index < old(self)@.end_index ==> r == Some(
                old(self)@.log.slot_address(old(self)@.from_index),
            ) && final(self)@.from_index == old(self)@.from_index + 1,
            old(self)@.from_index >= old(self)@.end_index ==> r is None && final(self)@
                == old(self)@,
    {
        if self.from_index >= self.end_index {
            return None;
        }
        let slot = self.from_index % self.file_size;
        let index = self.from_index;
        assert(slot * self.resource_size <= u64::MAX && slot <= index) by (nonlinear_arith)
            requires
                slot == index % self.file_size,
                self.file_size > 0,
                slot < self.file_size,
                self.resource_size * self.file_size <= u64::MAX,
        ;
        let range_begin = self.from_index - slot;
        let address = SlotAddress {
            range_begin,
            range_end: range_begin + self.file_size,
            offset: slot * self.resource_size,
            length: self.resource_size,
        };
        self.from_index = self.from_index + 1;
        Some(address)
    }

    /// Skips `n` slots, then yields the next as `next` does.
    pub fn nth(&mut self, n: u64) -> (r: Option<SlotAddress>)
        requires
            old(self)@.wf(),
        ensures
            final(self)@.wf(),
            final(self)@.end_index == old(self)@.end_index,
            old(self)@.from_index + n < old(self)@.end_index ==> r == Some(
                old(self)@.log.slot_address((old(self)@.from_index + n) as nat),
            ) && final(self)@.from_index == old(self)@.from_index + n + 1,
            old(self)@.from_index + n >= old(self)@.end_index ==> r is None
                && final(self)@.from_index == old(self)@.end_index,
    {
        if n >= self.end_index - self.from_index {
            self.from_index = self.end_index;
            return None;
        }
        self.from_index = self.from_index + n;
        self.next()
    }

    /// How many slots are left.
    pub fn len(&self) -> (r: u64)
        requires
            self@.wf(),
        ensures
            r == self@.end_index - self@.from_index,
    {
        self.end_index - self.from_index
    }
}

} // verus!

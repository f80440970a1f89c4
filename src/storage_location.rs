//! The address of one stored record: segment file, byte offset and length.
use vstd::prelude::*;

use crate::encoding::{
    le_bytes,
    le_value,
    lemma_le_bytes_len,
    lemma_le_round_trip,
    lemma_pow256_values,
    push_le,
    read_le,
};
use crate::names::{decimal, push_decimal};

verus! {

/// Size in bytes of the fixed encoding of a [`StorageLocation`].
pub const STORAGE_LOCATION_SERIALIZED_SIZE: u64 = 16;

#[derive(Debug, Copy, Clone, Default, PartialEq, Eq, Structural)]
pub struct StorageLocation {
    pub store_start: u64,
    pub store_length: u32,
    pub file_counter: u32,
}

/// The 16 bytes that stand for `l`: start, length, file counter, each little-endian.
pub open spec fn location_bytes(l: StorageLocation) -> Seq<u8> {
    le_bytes(l.store_start as nat, 8) + le_bytes(l.store_length as nat, 4) + le_bytes(
        l.file_counter as nat,
        4,
    )
}

/// The location that the first 16 bytes of `s` stand for; trailing bytes are ignored.
pub open spec fn parse_location(s: Seq<u8>) -> Option<StorageLocation> {
    if s.len() < 16 {
        None
    } else {
        Some(
            StorageLocation {
                store_start: le_value(s.subrange(0, 8)) as u64,
                store_length: le_value(s.subrange(8, 12)) as u32,
                file_counter: le_value(s.subrange(12, 16)) as u32,
            },
        )
    }
}

/// Decoding the bytes of a location gives the same location.
pub proof fn lemma_location_round_trip(l: StorageLocation)
    ensures
        location_bytes(l).len() == 16,
        parse_location(location_bytes(l)) == Some(l),
{
    let s = location_bytes(l);
    lemma_le_bytes_len(l.store_start as nat, 8);
    lemma_le_bytes_len(l.store_length as nat, 4);
    lemma_le_bytes_len(l.file_counter as nat, 4);
    lemma_pow256_values();
    lemma_le_round_trip(l.store_start as nat, 8);
    lemma_le_round_trip(l.store_length as nat, 4);
    lemma_le_round_trip(l.file_counter as nat, 4);
    assert(s.subrange(0, 8) =~= le_bytes(l.store_start as nat, 8));
    assert(s.subrange(8, 12) =~= le_bytes(l.store_length as nat, 4));
    assert(s.subrange(12, 16) =~= le_bytes(l.file_counter as nat, 4));
}

impl StorageLocation {
    /// The text form `@{file_counter}{{store_start}+{store_length}}`.
    pub fn to_string(&self) -> (r: String)
        ensures
            r@ == "@"@ + decimal(self.file_counter as nat) + "{"@ + decimal(self.store_start as nat)
                + "+"@ + decimal(self.store_length as nat) + "}"@,
    {
        let mut r = "@".to_string();
        push_decimal(&mut r, self.file_counter as u64);
        r.append("{");
        push_decimal(&mut r, self.store_start);
        r.append("+");
        push_decimal(&mut r, self.store_length as u64);
        r.append("}");
        r
    }

    /// The byte just past the record.
    pub open spec fn end_spec(self) -> nat {
        self.store_start as nat + self.store_length as nat
    }

    /// Encodes the location in its fixed 16-byte form.
    pub fn to_bytes(&self) -> (r: Vec<u8>)
        ensures
            r@ == location_bytes(*self),
            r@.len() == 16,
    {
        let mut out: Vec<u8> = Vec::new();
        push_le(&mut out, self.store_start, 8);
        push_le(&mut out, self.store_length as u64, 4);
        push_le(&mut out, self.file_counter as u64, 4);
        proof {
            assert(out@ =~= location_bytes(*self));
            lemma_location_round_trip(*self);
        }
        out
    }

    /// Decodes a location from the first 16 bytes of `b`; `None` when `b` is shorter.
    pub fn from_bytes(b: &[u8]) -> (r: Option<StorageLocation>)
        ensures
            r == parse_location(b@),
    {
        if b.len() < 16 {
            return None;
        }
        proof {
            lemma_pow256_values();
            crate::encoding::lemma_le_value_bound(b@.subrange(8, 12));
            crate::encoding::lemma_le_value_bound(b@.subrange(12, 16));
        }
        let store_start = read_le(b, 0, 8);
        let store_length = read_le(b, 8, 4);
        let file_counter = read_le(b, 12, 4);
        Some(
            StorageLocation {
                store_start,
                store_length: store_length as u32,
                file_counter: file_counter as u32,
            },
        )
    }
}

} // verus!

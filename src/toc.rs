//! The table of contents: the last committed location of every resource, tagged
//! with the version counter, and its binary form.
//!
//! Layout: the counter (4 bytes), the number of entries (8 bytes), then for each
//! entry the key's length (8 bytes), the key's bytes and the 16-byte location;
//! every integer little-endian.
use vstd::prelude::*;

use crate::encoding::{
    copy_range,
    le_bytes,
    le_value,
    lemma_le_bytes_len,
    lemma_le_round_trip,
    lemma_le_value_bound,
    lemma_pow256_values,
    pow256,
    push_bytes,
    push_le,
    read_le,
};
use crate::storage_location::{location_bytes, lemma_location_round_trip, parse_location, StorageLocation};

verus! {

/// One resource's entry: its key (UTF-8 bytes) and its last committed location.
#[derive(Debug)]
pub struct TocEntry {
    pub key: Vec<u8>,
    pub location: StorageLocation,
}

/// A version of the table of contents.
#[derive(Debug)]
pub struct TableOfContents {
    pub file_counter: u32,
    pub resource_files: Vec<TocEntry>,
}

/// Entries as plain values.
pub open spec fn entries_view(es: Seq<TocEntry>) -> Seq<(Seq<u8>, StorageLocation)> {
    es.map_values(|e: TocEntry| (e.key@, e.location))
}

pub open spec fn entry_bytes(e: (Seq<u8>, StorageLocation)) -> Seq<u8> {
    le_bytes(e.0.len(), 8) + e.0 + location_bytes(e.1)
}

pub open spec fn entries_bytes(es: Seq<(Seq<u8>, StorageLocation)>) -> Seq<u8>
    decreases es.len(),
{
    if es.len() == 0 {
        Seq::empty()
    } else {
        entry_bytes(es[0]) + entries_bytes(es.drop_first())
    }
}

/// The bytes of a table of contents with counter `counter` and entries `es`.
pub open spec fn toc_bytes(counter: u32, es: Seq<(Seq<u8>, StorageLocation)>) -> Seq<u8> {
    le_bytes(counter as nat, 4) + le_bytes(es.len(), 8) + entries_bytes(es)
}

/// Reads `n` entries of `s` from `pos`: the entries and where they end, or `None`
/// when `s` ends first.
pub open spec fn parse_entries(s: Seq<u8>, pos: nat, n: nat) -> Option<
    (Seq<(Seq<u8>, StorageLocation)>, nat),
>
    decreases n,
{
    if n == 0 {
        Some((Seq::empty(), pos))
    } else if pos + 8 > s.len() {
        None
    } else {
        let kl = le_value(s.subrange(pos as int, (pos + 8) as int));
        if pos + 8 + kl + 16 > s.len() {
            None
        } else {
            let key = s.subrange((pos + 8) as int, (pos + 8 + kl) as int);
            let loc = parse_location(s.subrange((pos + 8 + kl) as int, (pos + 8 + kl + 16) as int))->Some_0;
            match parse_entries(s, (pos + 8 + kl + 16) as nat, (n - 1) as nat) {
                Some((rest, end)) => Some((seq![(key, loc)] + rest, end)),
                None => None,
            }
        }
    }
}

/// The table of contents that `s` starts with, as counter and entries.
pub open spec fn parse_toc(s: Seq<u8>) -> Option<(u32, Seq<(Seq<u8>, StorageLocation)>)> {
    if s.len() < 12 {
        None
    } else {
        match parse_entries(s, 12, le_value(s.subrange(4, 12))) {
            Some((es, _)) => Some((le_value(s.subrange(0, 4)) as u32, es)),
            None => None,
        }
    }
}

proof fn lemma_entries_bytes_snoc(es: Seq<(Seq<u8>, StorageLocation)>, i: int)
    requires
        0 <= i < es.len(),
    ensures
        entries_bytes(es.take(i + 1)) == entries_bytes(es.take(i)) + entry_bytes(es[i]),
    decreases i,
{
    if i == 0 {
        let t = es.take(1);
        assert(t.drop_first() =~= Seq::<(Seq<u8>, StorageLocation)>::empty());
        assert(t[0] == es[0]);
        assert(entries_bytes(t.drop_first()) == Seq::<u8>::empty());
        assert(entries_bytes(t) =~= entry_bytes(es[0]));
        assert(es.take(0) =~= Seq::<(Seq<u8>, StorageLocation)>::empty());
    } else {
        let t = es.drop_first();
        lemma_entries_bytes_snoc(t, i - 1);
        assert(es.take(i + 1).drop_first() =~= t.take(i));
        assert(es.take(i).drop_first() =~= t.take(i - 1));
        assert(es.take(i + 1)[0] == es[0]);
        assert(es.take(i)[0] == es[0]);
        assert(t[i - 1] == es[i]);
        assert(entries_bytes(es.take(i + 1)) =~= entry_bytes(es[0]) + entries_bytes(t.take(i)));
        assert(entries_bytes(es.take(i)) =~= entry_bytes(es[0]) + entries_bytes(t.take(i - 1)));
    }
}

/// Reading the bytes of entries back, wherever they stand, gives the entries.
proof fn lemma_parse_entries(s: Seq<u8>, pos: nat, es: Seq<(Seq<u8>, StorageLocation)>)
    requires
        pos + entries_bytes(es).len() <= s.len(),
        s.subrange(pos as int, (pos + entries_bytes(es).len()) as int) == entries_bytes(es),
        forall|i: int| 0 <= i < es.len() ==> (#[trigger] es[i]).0.len() < pow256(8),
    ensures
        parse_entries(s, pos, es.len()) == Some((es, pos + entries_bytes(es).len())),
    decreases es.len(),
{
    if es.len() > 0 {
        let e = es[0];
        let kl = e.0.len();
        lemma_pow256_values();
        lemma_le_bytes_len(kl, 8);
        lemma_location_round_trip(e.1);
        let eb = entry_bytes(e);
        let rest = es.drop_first();
        let all = entries_bytes(es);
        assert(all == eb + entries_bytes(rest));
        assert(eb.len() == 8 + kl + 16);
        let whole = s.subrange(pos as int, (pos + all.len()) as int);
        assert(s.subrange(pos as int, (pos + 8) as int) =~= whole.subrange(0, 8));
        assert(whole.subrange(0, 8) =~= le_bytes(kl, 8));
        lemma_le_round_trip(kl, 8);
        assert(whole == all);
        assert(all.subrange(0, eb.len() as int) =~= eb);
        assert(eb.subrange(8, (8 + kl) as int) =~= e.0);
        assert(eb.subrange((8 + kl) as int, (8 + kl + 16) as int) =~= location_bytes(e.1));
        assert(s.subrange((pos + 8) as int, (pos + 8 + kl) as int) =~= whole.subrange(8, (8 + kl) as int));
        assert(s.subrange((pos + 8) as int, (pos + 8 + kl) as int) =~= e.0);
        assert(s.subrange((pos + 8 + kl) as int, (pos + 8 + kl + 16) as int) =~= whole.subrange((8 + kl) as int, (8 + kl + 16) as int));
        assert(s.subrange((pos + 8 + kl) as int, (pos + 8 + kl + 16) as int) =~= location_bytes(e.1));
        assert forall|i: int| 0 <= i < rest.len() implies (#[trigger] rest[i]).0.len() < pow256(8) by {
            assert(rest[i] == es[i + 1]);
        }
        assert(all.subrange(eb.len() as int, all.len() as int) =~= entries_bytes(rest));
        assert(s.subrange((pos + eb.len()) as int, (pos + eb.len() + entries_bytes(rest).len()) as int)
            =~= whole.subrange(eb.len() as int, all.len() as int));
        assert(s.subrange((pos + eb.len()) as int, (pos + eb.len() + entries_bytes(rest).len()) as int)
            =~= entries_bytes(rest));
        lemma_parse_entries(s, pos + eb.len(), rest);
        assert(seq![e] + rest =~= es);
    }
}

/// Decoding the encoding of a table of contents gives it back.
pub proof fn lemma_toc_round_trip(counter: u32, es: Seq<(Seq<u8>, StorageLocation)>)
    requires
        es.len() < pow256(8),
        forall|i: int| 0 <= i < es.len() ==> (#[trigger] es[i]).0.len() < pow256(8),
    ensures
        parse_toc(toc_bytes(counter, es)) == Some((counter, es)),
{
    let s = toc_bytes(counter, es);
    lemma_pow256_values();
    lemma_le_bytes_len(counter as nat, 4);
    lemma_le_bytes_len(es.len(), 8);
    lemma_le_round_trip(counter as nat, 4);
    lemma_le_round_trip(es.len(), 8);
    assert(s.subrange(0, 4) =~= le_bytes(counter as nat, 4));
    assert(s.subrange(4, 12) =~= le_bytes(es.len(), 8));
    assert(s.subrange(12, (12 + entries_bytes(es).len()) as int) =~= entries_bytes(es));
    lemma_parse_entries(s, 12, es);
}

impl TableOfContents {
    /// Encodes the table of contents.
    pub fn to_bytes(&self) -> (r: Vec<u8>)
        ensures
            r@ == toc_bytes(self.file_counter, entries_view(self.resource_files@)),
    {
        let mut out: Vec<u8> = Vec::new();
        push_le(&mut out, self.file_counter as u64, 4);
        push_le(&mut out, self.resource_files.len() as u64, 8);
        let ghost es = entries_view(self.resource_files@);
        let ghost head = out@;
        let n = self.resource_files.len();
        let mut i: usize = 0;
        assert(es.take(0) =~= Seq::<(Seq<u8>, StorageLocation)>::empty());
        while i < n
            invariant
                n == self.resource_files@.len(),
                es == entries_view(self.resource_files@),
                i <= n,
                out@ == head + entries_bytes(es.take(i as int)),
            decreases n - i,
        {
            let e = &self.resource_files[i];
            let ghost before = out@;
            push_le(&mut out, e.key.len() as u64, 8);
            push_bytes(&mut out, e.key.as_slice());
            let loc = e.location.to_bytes();
            push_bytes(&mut out, loc.as_slice());
            proof {
                lemma_entries_bytes_snoc(es, i as int);
                assert(es[i as int] == (e.key@, e.location));
                assert(out@ =~= before + entry_bytes(es[i as int]));
            }
            i = i + 1;
        }
        assert(es.take(n as int) =~= es);
        proof {
            assert(es.len() == n);
        }
        out
    }

    /// Decodes a table of contents from the start of `b`; `None` when `b` ends first.
    pub fn from_bytes(b: &[u8]) -> (r: Option<TableOfContents>)
        ensures
            r is Some <==> parse_toc(b@) is Some,
            r matches Some(t) ==> parse_toc(b@) == Some(
                (t.file_counter, entries_view(t.resource_files@)),
            ),
    {
        let len: usize = b.len();
        if len < 12 {
            return None;
        }
        proof {
            lemma_pow256_values();
            lemma_le_value_bound(b@.subrange(0, 4));
        }
        let counter = read_le(b, 0, 4) as u32;
        let n = read_le(b, 4, 8);
        let ghost s = b@;
        let mut out: Vec<TocEntry> = Vec::new();
        let mut pos: usize = 12;
        let mut i: u64 = 0;
        while i < n
            invariant
                s == b@,
                len == s.len(),
                pos <= len,
                i <= n,
                n == le_value(s.subrange(4, 12)),
                pow256(8) == 0x1_0000_0000_0000_0000,
                pow256(4) == 0x1_0000_0000,
                parse_entries(s, 12, n as nat) == match parse_entries(
                    s,
                    pos as nat,
                    (n - i) as nat,
                ) {
                    Some((rest, end)) => Some((entries_view(out@) + rest, end)),
                    None => None,
                },
            decreases n - i,
        {
            if len - pos < 8 {
                return None;
            }
            proof {
                lemma_le_value_bound(s.subrange(pos as int, (pos + 8) as int));
            }
            let kl = read_le(b, pos, 8);
            if kl > (len - pos - 8) as u64 || (len - pos - 8) as u64 - kl < 16 {
                return None;
            }
            let key = copy_range(b, pos + 8, kl as usize);
            let q: usize = pos + 8 + kl as usize;
            proof {
                lemma_le_value_bound(s.subrange(q + 8, q + 12));
                lemma_le_value_bound(s.subrange(q + 12, q + 16));
            }
            let location = StorageLocation {
                store_start: read_le(b, q, 8),
                store_length: read_le(b, q + 8, 4) as u32,
                file_counter: read_le(b, q + 12, 4) as u32,
            };
            proof {
                let ls = s.subrange(q as int, q + 16);
                assert(ls.subrange(0, 8) =~= s.subrange(q as int, q + 8));
                assert(ls.subrange(8, 12) =~= s.subrange(q + 8, q + 12));
                assert(ls.subrange(12, 16) =~= s.subrange(q + 12, q + 16));
                assert(parse_location(ls) == Some(location));
                let e = TocEntry { key: key, location };
                assert(entries_view(out@.push(e)) =~= entries_view(out@) + seq![(key@, location)]);
            }
            out.push(TocEntry { key, location });
            pos = q + 16;
            i = i + 1;
        }
        proof {
            assert(entries_view(out@) + Seq::<(Seq<u8>, StorageLocation)>::empty() =~= entries_view(out@));
        }
        Some(TableOfContents { file_counter: counter, resource_files: out })
    }
}

/// The location recorded for `key`; of two entries for one key the later one counts.
pub open spec fn lookup_spec(es: Seq<(Seq<u8>, StorageLocation)>, key: Seq<u8>) -> Option<StorageLocation>
    decreases es.len(),
{
    if es.len() == 0 {
        None
    } else if es.last().0 == key {
        Some(es.last().1)
    } else {
        lookup_spec(es.drop_last(), key)
    }
}

} // verus!

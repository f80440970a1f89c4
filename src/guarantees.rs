//! What the logs and the coordinator promise across calls, stated over the same
//! spec functions that the operations' contracts use.
use vstd::prelude::*;

use crate::atomic_store::{all_ready, collected, prune_target};
use crate::encoding::pow256;
use crate::fixed_append_log::{
    header_matches,
    index_bytes,
    index_result,
    lemma_index_round_trip,
    FixedLogView,
    BYTE_ORDER,
};
use crate::storage_location::StorageLocation;
use crate::toc::{lemma_toc_round_trip, lookup_spec, parse_toc, toc_bytes};
use crate::version_sync::{SyncState, VersionSyncHandle};

verus! {

/// The location that `store_resource` hands out for slot `index` leads
/// `load_specified` back to that very slot: it passes the slot checks and
/// converts back to `index`, so the bytes read are the bytes written.
pub proof fn lemma_slot_round_trip(log: FixedLogView, index: nat)
    requires
        log.wf(),
        index <= u32::MAX,
    ensures
        ({
            let l = log.location_of(index);
            let rs = log.resource_size;
            let fs = log.file_size;
            &&& l.store_length as nat == rs
            &&& (l.store_start as nat) % rs == 0
            &&& (l.store_start as nat) / rs < fs
            &&& (l.file_counter as nat) * fs + (l.store_start as nat) / rs == index
        }),
{
    let rs = log.resource_size;
    let fs = log.file_size;
    let slot = index % fs;
    assert(slot < fs && slot * rs <= fs * rs && (slot * rs) % rs == 0 && (slot * rs) / rs == slot)
        by (nonlinear_arith)
        requires
            slot == index % fs,
            fs > 0,
            rs > 0,
    ;
    assert(index / fs <= index && (index / fs) * fs + slot == index) by (nonlinear_arith)
        requires
            slot == index % fs,
            fs > 0,
    ;
    assert(rs * fs == fs * rs) by (nonlinear_arith);
}

/// A record that is written but not committed stays out of sight: the committed
/// walk ends before its slot and the handle's confirmed location (what
/// `load_latest` reads) is unchanged. Once the log commits and confirms the
/// version, the walk covers the slot and the confirmed location is the record's.
pub proof fn lemma_visibility_gating(log: FixedLogView, h: SyncState)
    requires
        log.wf(),
        log.write_index < u32::MAX,
        !h.ready,
    ensures
        ({
            let loc = log.location_of(log.write_index);
            let written = log.stored();
            let pending = h.advanced(Some(loc));
            &&& written.commit_index <= log.write_index
            &&& pending.last == h.last
            &&& written.committed().commit_index == log.write_index + 1
            &&& pending.updated().last == Some(loc)
        }),
{
}

/// The log after `n` calls of `store_resource`.
pub open spec fn stored_times(log: FixedLogView, n: nat) -> FixedLogView
    decreases n,
{
    if n == 0 {
        log
    } else {
        stored_times(log, (n - 1) as nat).stored()
    }
}

/// The handle after `advance_next` with each of `locs` in turn.
pub open spec fn advanced_all(h: SyncState, locs: Seq<Option<StorageLocation>>) -> SyncState
    decreases locs.len(),
{
    if locs.len() == 0 {
        h
    } else {
        advanced_all(h, locs.drop_last()).advanced(locs.last())
    }
}

/// Reverting after any number of uncommitted writes puts the log back where its
/// last commit left it, so the committed walk yields exactly the records committed
/// before; the handle keeps its confirmed location and its pending one returns to it.
pub proof fn lemma_revert_restores(log: FixedLogView, h: SyncState, locs: Seq<Option<StorageLocation>>)
    requires
        log.wf(),
        log.write_index == log.commit_index,
        log.write_index + locs.len() <= u32::MAX,
    ensures
        stored_times(log, locs.len()).commit_index == log.commit_index,
        stored_times(log, locs.len()).reverted() == log,
        advanced_all(h, locs).last == h.last,
        advanced_all(h, locs).reverted() == (SyncState { next: h.last, ..h }),
    decreases locs.len(),
{
    if locs.len() > 0 {
        lemma_revert_restores(log, h, locs.drop_last());
        lemma_stored_times(log, locs.len());
    }
}

proof fn lemma_stored_times(log: FixedLogView, n: nat)
    ensures
        stored_times(log, n) == (FixedLogView { write_index: log.write_index + n, ..log }),
    decreases n,
{
    if n > 0 {
        lemma_stored_times(log, (n - 1) as nat);
    }
}

/// With two resources of which only the first finished its version, the
/// coordinator's commit cannot proceed (`commit_version` then fails with
/// `TimedOut` and writes nothing); once the second one commits as well, the new
/// table holds both confirmed locations.
pub proof fn lemma_cross_resource_atomicity(
    a: VersionSyncHandle,
    b: VersionSyncHandle,
    b_committed: VersionSyncHandle,
)
    requires
        a@.ready,
        a@.last is Some,
        !b@.ready,
        b@.next is Some,
        b_committed@ == b@.updated(),
        b_committed.key() == b.key(),
    ensures
        !all_ready(seq![a, b]),
        all_ready(seq![a, b_committed]),
        collected(seq![a, b_committed]) == seq![
            (a.key(), a@.last->Some_0),
            (b.key(), b@.next->Some_0),
        ],
{
    let hs = seq![a, b_committed];
    assert(!seq![a, b][1]@.ready);
    assert(hs.drop_last() =~= seq![a]);
    assert(seq![a].drop_last() =~= Seq::<VersionSyncHandle>::empty());
    assert(seq![a].last() == a);
    assert(collected(Seq::<VersionSyncHandle>::empty()) == Seq::<(Seq<u8>, StorageLocation)>::empty());
    assert(collected(seq![a]) =~= seq![(a.key(), a@.last->Some_0)]);
    assert(hs.last() == b_committed);
    assert(collected(hs) =~= seq![(a.key(), a@.last->Some_0), (b.key(), b@.next->Some_0)]);
}

/// Whether no two of `hs` belong to the same resource.
pub open spec fn distinct_keys(hs: Seq<VersionSyncHandle>) -> bool {
    forall|i: int, j: int| 0 <= i < j < hs.len() ==> hs[i].key() != hs[j].key()
}

proof fn lemma_lookup_collected(hs: Seq<VersionSyncHandle>, i: int)
    requires
        distinct_keys(hs),
        0 <= i < hs.len(),
        hs[i]@.last is Some,
    ensures
        lookup_spec(collected(hs), hs[i].key()) == hs[i]@.last,
    decreases hs.len(),
{
    let n = hs.len() - 1;
    let rest = hs.drop_last();
    if i == n {
        assert(collected(hs) == collected(rest).push((hs[n].key(), hs[n]@.last->Some_0)));
    } else {
        assert(rest[i] == hs[i]);
        assert(distinct_keys(rest)) by {
            assert forall|p: int, q: int| 0 <= p < q < rest.len() implies rest[p].key()
                != rest[q].key() by {
                assert(rest[p] == hs[p] && rest[q] == hs[q]);
            }
        }
        lemma_lookup_collected(rest, i);
        assert(hs[i].key() != hs[n].key());
        match hs.last()@.last {
            Some(l) => {
                assert(collected(hs) == collected(rest).push((hs[n].key(), l)));
                assert(collected(hs).drop_last() =~= collected(rest));
            },
            None => {},
        }
    }
}

/// Keys of at most `2^64 - 1` bytes (any key held in memory).
pub open spec fn keys_fit(hs: Seq<VersionSyncHandle>) -> bool {
    forall|i: int| 0 <= i < hs.len() ==> (#[trigger] hs[i]).key().len() < pow256(8)
}

proof fn lemma_collected_bounds(hs: Seq<VersionSyncHandle>)
    requires
        keys_fit(hs),
    ensures
        collected(hs).len() <= hs.len(),
        forall|j: int|
            0 <= j < collected(hs).len() ==> (#[trigger] collected(hs)[j]).0.len() < pow256(8),
    decreases hs.len(),
{
    if hs.len() > 0 {
        let rest = hs.drop_last();
        assert(keys_fit(rest)) by {
            assert forall|i: int| 0 <= i < rest.len() implies (#[trigger] rest[i]).key().len()
                < pow256(8) by {
                assert(rest[i] == hs[i]);
            }
        }
        lemma_collected_bounds(rest);
        assert(hs.last() == hs[hs.len() - 1]);
    }
}

/// After a crash, reloading the table of contents that the last successful
/// commit wrote gives each resource the location confirmed at that commit,
/// whatever was written since: later writes only move the pending location.
pub proof fn lemma_crash_recovery(counter: u32, hs: Seq<VersionSyncHandle>, i: int)
    requires
        distinct_keys(hs),
        keys_fit(hs),
        hs.len() < pow256(8),
        0 <= i < hs.len(),
        hs[i]@.last is Some,
    ensures
        parse_toc(toc_bytes(counter, collected(hs))) == Some((counter, collected(hs))),
        lookup_spec(collected(hs), hs[i].key()) == hs[i]@.last,
{
    lemma_collected_bounds(hs);
    lemma_toc_round_trip(counter, collected(hs));
    lemma_lookup_collected(hs, i);
}

/// The archives kept by a retention of `k`: the `k` newest before `top`.
pub open spec fn retention_window(top: nat, k: nat) -> Set<nat> {
    Set::new(|n: nat| n < top && n + k >= top)
}

/// With `k` archives retained, a commit at counter `c` archives `c - 1` and
/// deletes the one `prune_target` names: a window of the `k` newest archives
/// stays exactly that window.
pub proof fn lemma_commit_keeps_window(c: nat, k: u32, archives: Set<nat>)
    requires
        1 <= c <= u32::MAX,
        archives == retention_window((c - 1) as nat, k as nat),
    ensures
        (match prune_target(c, Some(k)) {
            Some(p) => archives.insert((c - 1) as nat).remove(p as nat),
            None => archives.insert((c - 1) as nat),
        }) == retention_window(c, k as nat),
{
    match prune_target(c, Some(k)) {
        Some(p) => {
            assert(archives.insert((c - 1) as nat).remove(p as nat) =~= retention_window(
                c,
                k as nat,
            ));
        },
        None => {
            assert(archives.insert((c - 1) as nat) =~= retention_window(c, k as nat));
        },
    }
}

/// Opening a store whose latest version is `latest`, with every older version
/// archived, and deleting the archives below the startup floor
/// (`startup_prune_floor`) leaves exactly the `k` newest archives.
pub proof fn lemma_startup_keeps_window(latest: nat, k: u32)
    ensures
        Set::new(|n: nat| n < latest).filter(
            |n: nat|
                n >= (if latest >= k {
                    (latest - k) as nat
                } else {
                    0
                }),
        ) == retention_window(latest, k as nat),
{
    assert(Set::new(|n: nat| n < latest).filter(
        |n: nat|
            n >= (if latest >= k {
                (latest - k) as nat
            } else {
                0
            }),
    ) =~= retention_window(latest, k as nat));
}

/// A fixed-slot log reopened with another slot size or another number of slots
/// per segment than the header that its last commit wrote is refused
/// (`open_impl` then fails with `ResourceFormatInconsistent`): that header
/// reads back as written and does not match the new configuration.
pub proof fn lemma_format_mismatch_detected(log: FixedLogView, resource_size: nat, file_size: nat)
    requires
        log.wf(),
        resource_size != log.resource_size || file_size != log.file_size,
    ensures
        index_result(index_bytes(log.header())) == Some(log.header()),
        log.header().byte_order == BYTE_ORDER,
        header_matches(log.header(), log.resource_size, log.file_size),
        !header_matches(log.header(), resource_size, file_size),
{
    lemma_index_round_trip(log.header());
}

} // verus!

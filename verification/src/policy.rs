//! The eviction policy of a bounded byte queue, as a function on sequences.

use vstd::prelude::*;

verus! {

/// Which end of an over-full buffer loses bytes.
#[derive(Clone, Copy, Debug, PartialEq, Eq, Structural)]
pub enum TruncateSide {
    /// The oldest bytes are dropped.
    Front,
    /// The newest bytes are dropped.
    Back,
}

/// How many bytes a buffer of length `len` holds beyond `capacity`.
pub open spec fn excess(len: nat, capacity: nat) -> nat {
    if len > capacity {
        (len - capacity) as nat
    } else {
        0
    }
}

/// What is left of `bytes` once it has been cut down to `capacity` from the given side.
pub open spec fn evict(bytes: Seq<u8>, capacity: nat, side: TruncateSide) -> Seq<u8> {
    match side {
        TruncateSide::Front => bytes.skip(excess(bytes.len(), capacity) as int),
        TruncateSide::Back => bytes.take(bytes.len() - excess(bytes.len(), capacity)),
    }
}

/// The bytes that `evict` discards.
pub open spec fn evicted(bytes: Seq<u8>, capacity: nat, side: TruncateSide) -> Seq<u8> {
    match side {
        TruncateSide::Front => bytes.take(excess(bytes.len(), capacity) as int),
        TruncateSide::Back => bytes.skip(bytes.len() - excess(bytes.len(), capacity)),
    }
}

/// After eviction a buffer never holds more than its capacity, and what it keeps
/// and what it drops make up the buffer as it was: dropped bytes first and kept
/// bytes after them under `Front`, the other way round under `Back`.
pub proof fn lemma_evict_bounded(bytes: Seq<u8>, capacity: nat, side: TruncateSide)
    ensures
        evict(bytes, capacity, side).len() <= capacity,
        bytes.len() <= capacity ==> evict(bytes, capacity, side) == bytes,
        evict(bytes, capacity, side).len() + evicted(bytes, capacity, side).len() == bytes.len(),
        side == TruncateSide::Front ==> bytes == evicted(bytes, capacity, side) + evict(
            bytes,
            capacity,
            side,
        ),
        side == TruncateSide::Back ==> bytes == evict(bytes, capacity, side) + evicted(
            bytes,
            capacity,
            side,
        ),
{
    let cut = excess(bytes.len(), capacity) as int;
    match side {
        TruncateSide::Front => {
            assert(bytes =~= bytes.take(cut) + bytes.skip(cut));
            if bytes.len() <= capacity {
                assert(bytes.skip(0) =~= bytes);
            }
        },
        TruncateSide::Back => {
            let keep = bytes.len() - cut;
            assert(bytes =~= bytes.take(keep) + bytes.skip(keep));
            if bytes.len() <= capacity {
                assert(bytes.take(bytes.len() as int) =~= bytes);
            }
        },
    }
}

} // verus!

//! The bounded byte queue that a producer fills and readers drain.

use crate::policy::{evict, excess, lemma_evict_bounded, TruncateSide};
use crate::search::{
    find_byte, find_first, first_match, lemma_first_match_is, lemma_first_match_none,
};
use std::collections::VecDeque;
use vstd::prelude::*;

verus! {

/// A queue of bytes with a fixed capacity. Bytes enter at the back and leave at
/// the front; an append that would overfill it drops bytes from the side that
/// its policy names, at once.
pub struct RingBuffer {
    data: VecDeque<u8>,
    capacity: usize,
    side: TruncateSide,
}

impl View for RingBuffer {
    type V = Seq<u8>;

    /// The buffered bytes, oldest first.
    closed spec fn view(&self) -> Seq<u8> {
        self.data@
    }
}

impl RingBuffer {
    /// The capacity the buffer was made with.
    pub closed spec fn limit(&self) -> usize {
        self.capacity
    }

    /// The side from which the buffer evicts.
    pub closed spec fn policy(&self) -> TruncateSide {
        self.side
    }

    /// The buffer holds no more than its capacity. This holds of every buffer.
    #[verifier::type_invariant]
    pub open spec fn within_capacity(&self) -> bool {
        self@.len() <= self.limit()
    }

    /// An empty buffer.
    pub fn new(capacity: usize, side: TruncateSide) -> (buffer: Self)
        ensures
            buffer@ == Seq::<u8>::empty(),
            buffer.limit() == capacity,
            buffer.policy() == side,
            buffer.within_capacity(),
    {
        RingBuffer { data: VecDeque::with_capacity(capacity), capacity, side }
    }

    /// The configured capacity.
    pub fn capacity(&self) -> (capacity: usize)
        ensures
            capacity == self.limit(),
    {
        self.capacity
    }

    /// The eviction policy.
    pub fn truncate_side(&self) -> (side: TruncateSide)
        ensures
            side == self.policy(),
    {
        self.side
    }

    /// How many bytes are buffered: never more than the capacity.
    pub fn len(&self) -> (len: usize)
        ensures
            len == self@.len(),
            len <= self.limit(),
    {
        proof {
            use_type_invariant(self);
        }
        self.data.len()
    }

    /// Whether nothing is buffered.
    pub fn is_empty(&self) -> (empty: bool)
        ensures
            empty == (self@.len() == 0),
    {
        self.data.len() == 0
    }

    /// Puts `chunk` behind the buffered bytes and evicts whatever then exceeds
    /// the capacity: the oldest bytes under `Front`, the newest under `Back`.
    pub fn append(&mut self, chunk: &[u8])
        ensures
            final(self)@ == evict(
                old(self)@ + chunk@,
                old(self).limit() as nat,
                old(self).policy(),
            ),
            final(self).limit() == old(self).limit(),
            final(self).policy() == old(self).policy(),
            final(self).within_capacity(),
    {
        // the bytes are taken out while they may exceed the capacity
        let mut data: VecDeque<u8> = VecDeque::new();
        core::mem::swap(&mut self.data, &mut data);
        let mut fed: usize = 0;
        while fed < chunk.len()
            invariant
                fed <= chunk@.len(),
                data@ == old(self).data@ + chunk@.take(fed as int),
            decreases chunk@.len() - fed,
        {
            data.push_back(chunk[fed]);
            fed += 1;
            assert(chunk@.take(fed as int) =~= chunk@.take(fed - 1).push(chunk@[fed - 1]));
            assert(data@ =~= old(self).data@ + chunk@.take(fed as int));
        }
        assert(chunk@.take(fed as int) =~= chunk@);
        let ghost full = data@;
        let len: usize = data.len();
        if len >= self.capacity {
            let extra: usize = len - self.capacity;
            match self.side {
                TruncateSide::Front => {
                    let mut dropped: usize = 0;
                    while dropped < extra
                        invariant
                            dropped <= extra <= full.len(),
                            data@ == full.skip(dropped as int),
                        decreases extra - dropped,
                    {
                        let _ = data.pop_front();
                        dropped += 1;
                        assert(data@ =~= full.skip(dropped as int));
                    }
                },
                TruncateSide::Back => {
                    data.truncate(self.capacity);
                    assert(data@ =~= full.take(full.len() - extra));
                },
            }
            assert(extra == excess(full.len(), self.capacity as nat));
        } else {
            assert(full.skip(0) =~= full);
            assert(full.take(full.len() as int) =~= full);
        }
        proof {
            lemma_evict_bounded(full, self.capacity as nat, self.side);
        }
        self.data = data;
    }

    /// Removes the `count` oldest bytes and returns them in order.
    pub fn drain_front(&mut self, count: usize) -> (taken: Vec<u8>)
        requires
            count <= old(self)@.len(),
        ensures
            taken@ == old(self)@.take(count as int),
            final(self)@ == old(self)@.skip(count as int),
            final(self).limit() == old(self).limit(),
            final(self).policy() == old(self).policy(),
            final(self).within_capacity(),
    {
        proof {
            use_type_invariant(&*self);
        }
        let mut data: VecDeque<u8> = VecDeque::new();
        core::mem::swap(&mut self.data, &mut data);
        let mut taken: Vec<u8> = Vec::with_capacity(count);
        while taken.len() < count
            invariant
                taken@.len() <= count <= old(self).data@.len(),
                taken@ == old(self).data@.take(taken@.len() as int),
                data@ == old(self).data@.skip(taken@.len() as int),
            decreases count - taken@.len(),
        {
            let ghost before = taken@.len() as int;
            if let Some(byte) = data.pop_front() {
                taken.push(byte);
            }
            assert(taken@ =~= old(self).data@.take(before + 1));
            assert(data@ =~= old(self).data@.skip(before + 1));
        }
        self.data = data;
        taken
    }

    /// Removes every buffered byte and returns them in order.
    pub fn drain_all(&mut self) -> (taken: Vec<u8>)
        ensures
            taken@ == old(self)@,
            final(self)@ == Seq::<u8>::empty(),
            final(self).limit() == old(self).limit(),
            final(self).policy() == old(self).policy(),
            final(self).within_capacity(),
    {
        let count: usize = self.data.len();
        let taken = self.drain_front(count);
        assert(old(self)@.take(count as int) =~= old(self)@);
        assert(old(self)@.skip(count as int) =~= Seq::<u8>::empty());
        taken
    }

    /// The byte at `index`, counted from the oldest.
    pub fn byte_at(&self, index: usize) -> (byte: u8)
        requires
            index < self@.len(),
        ensures
            byte == self@[index as int],
    {
        self.data[index]
    }

    /// Where `term` first stands among the buffered bytes.
    pub fn find(&self, term: &[u8]) -> (found: Option<usize>)
        ensures
            match found {
                Some(at) => first_match(self@, term@) == Some(at as int),
                None => first_match(self@, term@) is None,
            },
    {
        find_first(&self.data, term)
    }

    /// Where `byte` first stands among the buffered bytes.
    pub fn find_byte(&self, byte: u8) -> (found: Option<usize>)
        ensures
            match found {
                Some(at) => first_match(self@, seq![byte]) == Some(at as int),
                None => first_match(self@, seq![byte]) is None,
            },
    {
        let found = find_byte(&self.data, byte);
        proof {
            match found {
                Some(at) => lemma_first_match_is(self@, seq![byte], at as int),
                None => lemma_first_match_none(self@, seq![byte]),
            }
        }
        found
    }
}

} // verus!

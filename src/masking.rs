use vstd::prelude::*;

use crate::capacity::{Capacity, MaskingCapacity, is_pow2, lemma_mask_is_mod, lemma_pow2_double_fits};
use crate::ring::{displaced, enqueued, dequeued, front, ring_view, ring_wf, wrap_pos, lemma_pop, lemma_push, lemma_wrap};
use crate::storage::{ArrayStorage, PartialStorage};

verus! {

/// A [`MaskingRingBuffer`] backed by [`ArrayStorage`].
pub type MaskingArrayRingBuffer<T, const N: usize> = MaskingRingBuffer<
    ArrayStorage<T, MaskingCapacity, N>,
>;

/// A ring buffer that wraps its indices by masking, over power-of-two storage.
pub struct MaskingRingBuffer<S: PartialStorage<Capacity = MaskingCapacity>> {
    /// The start of the buffer in the storage (`0..capacity`).
    index: usize,
    /// The number of items in the buffer (`0..=capacity`).
    len: usize,
    /// The underlying storage.
    storage: S,
}

impl<S: PartialStorage<Capacity = MaskingCapacity>> MaskingRingBuffer<S> {
    /// The buffer's capacity: that of its storage.
    pub closed spec fn spec_capacity(&self) -> nat {
        self.storage.spec_capacity().value()
    }

    /// The buffer's elements, oldest first.
    pub closed spec fn view(&self) -> Seq<S::Item> {
        ring_view(self.storage.slots(), self.index as int, self.len as int)
    }

    /// The buffer's internal consistency.
    pub closed spec fn wf(&self) -> bool {
        &&& is_pow2(self.spec_capacity())
        &&& self.storage.slots().len() == self.spec_capacity()
        &&& ring_wf(self.storage.slots(), self.index as int, self.len as int)
    }

    /// Facts that hold of every consistent buffer.
    pub proof fn lemma_wf(&self)
        requires
            self.wf(),
        ensures
            self@.len() <= self.spec_capacity(),
            self.spec_capacity() > 0,
    {
    }

    /// Make an empty ring buffer over `storage`; what the storage held is disregarded.
    pub fn from_empty(storage: S) -> (r: Self)
        ensures
            r.wf(),
            r@ == Seq::<S::Item>::empty(),
            r.spec_capacity() == storage.spec_capacity().value(),
    {
        // These calls bring in what the storage guarantees of its slots and capacity.
        let _ = storage.slot_count();
        let _ = storage.capacity().mask();
        let r = MaskingRingBuffer { index: 0, len: 0, storage };
        assert(r@ =~= Seq::<S::Item>::empty());
        r
    }

    /// Returns whether the ring buffer is full.
    ///
    /// A ring buffer is full when its length equals its capacity. If an item is enqueued
    /// while the ring buffer is full, [`MaskingRingBuffer::enqueue`] removes and returns the
    /// oldest item to make room for it.
    pub fn is_full(&self) -> (r: bool)
        requires
            self.wf(),
        ensures
            r == (self@.len() == self.spec_capacity()),
    {
        self.len == self.capacity()
    }

    /// Returns whether the ring buffer is empty.
    pub fn is_empty(&self) -> (r: bool)
        requires
            self.wf(),
        ensures
            r == (self@.len() == 0),
    {
        self.len == 0
    }

    /// The capacity of the underlying storage: the most items the buffer can hold.
    pub fn capacity(&self) -> (r: usize)
        requires
            self.wf(),
        ensures
            r as nat == self.spec_capacity(),
    {
        self.storage.capacity().get()
    }

    /// Add an item at the end of the ring buffer.
    ///
    /// If the ring buffer is full, its oldest item is removed and returned.
    pub fn enqueue(&mut self, item: S::Item) -> (r: Option<S::Item>)
        requires
            old(self).wf(),
        ensures
            final(self).wf(),
            final(self).spec_capacity() == old(self).spec_capacity(),
            r == displaced(old(self)@, old(self).spec_capacity()),
            final(self)@ == enqueued(old(self)@, old(self).spec_capacity(), item),
    {
        let mask = self.storage.capacity().mask();
        proof {
            lemma_pow2_double_fits((mask + 1) as usize);
            lemma_mask_is_mod((self.index + self.len) as usize, (mask + 1) as usize);
            lemma_wrap(self.index + self.len, mask + 1);
        }
        let pos = mask & (self.index + self.len);
        if self.is_full() {
            let ghost slots = self.storage.slots();
            let ghost p = slots.len() as int;
            let ghost off2 = wrap_pos(self.index as int, 1, p);
            proof {
                lemma_pop(slots, self.index as int, self.len as int);
                lemma_push(slots.update(self.index as int, None), off2, self.len - 1, item);
                lemma_wrap(off2 + p - 1, p);
                assert(slots.update(self.index as int, Some(item)) =~= slots.update(
                    self.index as int,
                    None,
                ).update(wrap_pos(off2, p - 1, p), Some(item)));
                lemma_mask_is_mod((self.index + 1) as usize, (mask + 1) as usize);
            }
            let old_item = self.storage.replace_slot(pos, Some(item));
            self.index = mask & (self.index + 1);
            old_item
        } else {
            proof {
                lemma_push(self.storage.slots(), self.index as int, self.len as int, item);
            }
            let _ = self.storage.replace_slot(pos, Some(item));
            self.len = self.len + 1;
            None
        }
    }

    /// Remove the oldest item from the ring buffer, if there is one.
    pub fn dequeue(&mut self) -> (r: Option<S::Item>)
        requires
            old(self).wf(),
        ensures
            final(self).wf(),
            final(self).spec_capacity() == old(self).spec_capacity(),
            r == front(old(self)@),
            final(self)@ == dequeued(old(self)@),
            old(self)@.len() == 0 ==> *final(self) == *old(self),
    {
        if self.is_empty() {
            return None;
        }
        let ghost slots = self.storage.slots();
        let ghost p = slots.len() as int;
        proof {
            lemma_pop(slots, self.index as int, self.len as int);
        }
        let item = self.storage.replace_slot(self.index, None);
        let mask = self.storage.capacity().mask();
        proof {
            assert(mask + 1 == p);
            lemma_mask_is_mod((self.index + 1) as usize, (mask + 1) as usize);
        }
        self.index = mask & (self.index + 1);
        self.len = self.len - 1;
        item
    }
}

impl<T, const N: usize> MaskingRingBuffer<ArrayStorage<T, MaskingCapacity, N>> {
    /// An empty ring buffer over a fresh block of `N` slots.
    pub fn new() -> (r: Self)
        requires
            is_pow2(N as nat),
        ensures
            r.wf(),
            r@ == Seq::<T>::empty(),
            r.spec_capacity() == N as nat,
    {
        Self::from_empty(ArrayStorage::new())
    }
}

} // verus!

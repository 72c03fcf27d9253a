use vstd::prelude::*;

use crate::capacity::{
    Capacity,
    MaskingCapacity,
    NonZeroCapacity,
    is_pow2,
    lemma_mask_is_mod,
    lemma_pow2_double_fits,
};
use crate::ring::{displaced, enqueued, dequeued, front, ring_view, ring_wf, lemma_pop, lemma_push};
use crate::storage::{ArrayStorage, PartialStorage};

verus! {

/// A [`SparseMaskingRingBuffer`] backed by [`ArrayStorage`].
pub type SparseMaskingArrayRingBuffer<T, const N: usize> = SparseMaskingRingBuffer<
    ArrayStorage<T, MaskingCapacity, N>,
>;

/// A sparse ring buffer based on masking.
///
/// Masking wraps indices cheaply but needs a power-of-two capacity. This buffer allows any
/// non-zero capacity while still masking, by always leaving the excess of its power-of-two
/// storage empty.
pub struct SparseMaskingRingBuffer<S: PartialStorage<Capacity = MaskingCapacity>> {
    /// The slot of the oldest item; less than the storage capacity.
    off: usize,
    /// The number of items in storage; at most the artificial capacity.
    len: usize,
    /// The artificial capacity; at most the storage capacity.
    cap: NonZeroCapacity,
    /// Storage for the buffer's items.
    storage: S,
}

impl<S: PartialStorage<Capacity = MaskingCapacity>> SparseMaskingRingBuffer<S> {
    /// The buffer's (artificial) capacity.
    pub closed spec fn spec_capacity(&self) -> nat {
        self.cap.value()
    }

    /// The capacity of the storage beneath the buffer.
    pub closed spec fn storage_capacity(&self) -> nat {
        self.storage.spec_capacity().value()
    }

    /// The buffer's elements, oldest first.
    pub closed spec fn view(&self) -> Seq<S::Item> {
        ring_view(self.storage.slots(), self.off as int, self.len as int)
    }

    /// The buffer's internal consistency.
    pub closed spec fn wf(&self) -> bool {
        &&& is_pow2(self.storage_capacity())
        &&& self.storage.slots().len() == self.storage_capacity()
        &&& 0 < self.spec_capacity() <= self.storage_capacity()
        &&& self.len <= self.spec_capacity()
        &&& ring_wf(self.storage.slots(), self.off as int, self.len as int)
    }

    /// Facts that hold of every consistent buffer.
    pub proof fn lemma_wf(&self)
        requires
            self.wf(),
        ensures
            self@.len() <= self.spec_capacity(),
            0 < self.spec_capacity() <= self.storage_capacity(),
            is_pow2(self.storage_capacity()),
    {
    }

    /// Whether the ring buffer is full: it holds as many elements as its
    /// [`capacity()`](Self::capacity), and [`enqueue()`](Self::enqueue) displaces the oldest.
    pub fn is_full(&self) -> (r: bool)
        requires
            self.wf(),
        ensures
            r == (self@.len() == self.spec_capacity()),
    {
        self.len == self.capacity()
    }

    /// Whether the ring buffer is empty.
    pub fn is_empty(&self) -> (r: bool)
        requires
            self.wf(),
        ensures
            r == (self@.len() == 0),
    {
        self.len == 0
    }

    /// The ring buffer's capacity: the most elements it can ever hold.
    ///
    /// The storage beneath may have a larger capacity.
    pub fn capacity(&self) -> (r: usize)
        requires
            self.wf(),
        ensures
            r as nat == self.spec_capacity(),
    {
        self.cap.get()
    }

    /// Append an element to the ring buffer.
    ///
    /// If the ring buffer is full, its oldest element is removed and returned.
    pub fn enqueue(&mut self, item: S::Item) -> (r: Option<S::Item>)
        requires
            old(self).wf(),
        ensures
            final(self).wf(),
            final(self).spec_capacity() == old(self).spec_capacity(),
            final(self).storage_capacity() == old(self).storage_capacity(),
            r == displaced(old(self)@, old(self).spec_capacity()),
            final(self)@ == enqueued(old(self)@, old(self).spec_capacity(), item),
    {
        let mask = self.storage.capacity().mask();
        proof {
            lemma_pow2_double_fits((mask + 1) as usize);
        }
        if self.is_full() {
            // Take the oldest element out, then write the new one after the rest.
            proof {
                lemma_pop(self.storage.slots(), self.off as int, self.len as int);
                lemma_mask_is_mod((self.off + 1) as usize, (mask + 1) as usize);
            }
            let oldest = self.storage.replace_slot(self.off, None);
            self.off = (self.off + 1) & mask;
            self.len = self.len - 1;
            proof {
                lemma_mask_is_mod((self.off + self.len) as usize, (mask + 1) as usize);
                lemma_push(self.storage.slots(), self.off as int, self.len as int, item);
            }
            let pos = (self.off + self.len) & mask;
            let _ = self.storage.replace_slot(pos, Some(item));
            self.len = self.len + 1;
            oldest
        } else {
            proof {
                lemma_mask_is_mod((self.off + self.len) as usize, (mask + 1) as usize);
                lemma_push(self.storage.slots(), self.off as int, self.len as int, item);
            }
            let pos = (self.off + self.len) & mask;
            let _ = self.storage.replace_slot(pos, Some(item));
            self.len = self.len + 1;
            None
        }
    }

    /// Remove the oldest element from the ring buffer, if there is one.
    pub fn dequeue(&mut self) -> (r: Option<S::Item>)
        requires
            old(self).wf(),
        ensures
            final(self).wf(),
            final(self).spec_capacity() == old(self).spec_capacity(),
            final(self).storage_capacity() == old(self).storage_capacity(),
            r == front(old(self)@),
            final(self)@ == dequeued(old(self)@),
            old(self)@.len() == 0 ==> *final(self) == *old(self),
    {
        if self.len == 0 {
            return None;
        }
        let mask = self.storage.capacity().mask();
        proof {
            lemma_pop(self.storage.slots(), self.off as int, self.len as int);
            lemma_mask_is_mod((self.off + 1) as usize, (mask + 1) as usize);
        }
        let item = self.storage.replace_slot(self.off, None);
        self.off = (self.off + 1) & mask;
        self.len = self.len - 1;
        item
    }

    /// Construct an empty ring buffer with artificial capacity `capacity` over `storage`;
    /// what the storage held is disregarded.
    ///
    /// The capacity must not exceed the storage's.
    pub fn with_storage(capacity: NonZeroCapacity, storage: S) -> (r: Self)
        requires
            capacity.value() <= storage.spec_capacity().value(),
        ensures
            r.wf(),
            r@ == Seq::<S::Item>::empty(),
            r.spec_capacity() == capacity.value(),
            r.storage_capacity() == storage.spec_capacity().value(),
    {
        // These calls bring in what the storage guarantees of its slots and capacity.
        let _ = storage.slot_count();
        let _ = storage.capacity().mask();
        let _ = capacity.get();
        let r = SparseMaskingRingBuffer { off: 0, len: 0, cap: capacity, storage };
        assert(r@ =~= Seq::<S::Item>::empty());
        r
    }
}

} // verus!

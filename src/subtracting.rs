use vstd::prelude::*;

use crate::capacity::{Capacity, NonZeroCapacity};
use crate::ring::{displaced, enqueued, dequeued, front, ring_view, ring_wf, wrap_pos, lemma_pop, lemma_push, lemma_wrap};
use crate::storage::{ArrayStorage, PartialStorage};

verus! {

/// A [`SubtractingRingBuffer`] backed by [`ArrayStorage`].
pub type SubtractingArrayRingBuffer<T, const N: usize> = SubtractingRingBuffer<
    ArrayStorage<T, NonZeroCapacity, N>,
>;

/// A ring buffer based on conditional subtraction.
///
/// In order to bring indices into range, this ring buffer conditionally subtracts the
/// capacity from them. Unlike [`MaskingRingBuffer`](crate::masking::MaskingRingBuffer),
/// it supports capacities that are not powers of two, and leaves no storage unused.
pub struct SubtractingRingBuffer<S: PartialStorage<Capacity = NonZeroCapacity>> {
    /// The slot of the oldest item; less than the storage capacity.
    off: usize,
    /// The number of items in storage; at most the storage capacity.
    len: usize,
    /// Storage for the buffer's items.
    storage: S,
}

impl<S: PartialStorage<Capacity = NonZeroCapacity>> SubtractingRingBuffer<S> {
    /// The buffer's capacity: that of its storage.
    pub closed spec fn spec_capacity(&self) -> nat {
        self.storage.spec_capacity().value()
    }

    /// The buffer's elements, oldest first.
    pub closed spec fn view(&self) -> Seq<S::Item> {
        ring_view(self.storage.slots(), self.off as int, self.len as int)
    }

    /// The buffer's internal consistency.
    pub closed spec fn wf(&self) -> bool {
        &&& self.storage.slots().len() == self.spec_capacity()
        &&& self.spec_capacity() <= usize::MAX
        &&& ring_wf(self.storage.slots(), self.off as int, self.len as int)
    }

    /// Facts that hold of every consistent buffer.
    pub proof fn lemma_wf(&self)
        requires
            self.wf(),
        ensures
            self@.len() <= self.spec_capacity(),
            self.spec_capacity() > 0,
    {
    }

    /// Construct an empty ring buffer over `storage`; what the storage held is disregarded.
    pub fn with_storage(storage: S) -> (r: Self)
        ensures
            r.wf(),
            r@ == Seq::<S::Item>::empty(),
            r.spec_capacity() == storage.spec_capacity().value(),
    {
        // These calls bring in what the storage guarantees of its slots and capacity.
        let _ = storage.slot_count();
        let _ = storage.capacity().get();
        let r = SubtractingRingBuffer { off: 0, len: 0, storage };
        assert(r@ =~= Seq::<S::Item>::empty());
        r
    }

    /// Whether the ring buffer is full, so that [`enqueue()`](Self::enqueue) displaces
    /// its oldest element.
    pub fn is_full(&self) -> (r: bool)
        requires
            self.wf(),
        ensures
            r == (self@.len() == self.spec_capacity()),
    {
        self.len == self.capacity()
    }

    /// Whether the ring buffer is empty.
    pub fn is_empty(&self) -> (r: bool)
        requires
            self.wf(),
        ensures
            r == (self@.len() == 0),
    {
        self.len == 0
    }

    /// The ring buffer's capacity: the most elements it can ever hold.
    pub fn capacity(&self) -> (r: usize)
        requires
            self.wf(),
        ensures
            r as nat == self.spec_capacity(),
    {
        self.storage.capacity().get()
    }

    /// The slot after `off`, wrapping to the start past the last one.
    fn advance(off: usize, cap: usize) -> (r: usize)
        requires
            off < cap,
        ensures
            r as int == wrap_pos(off as int, 1, cap as int),
            r < cap,
    {
        proof {
            lemma_wrap(off + 1, cap as int);
        }
        if off + 1 == cap {
            off + 1 - cap
        } else {
            off + 1
        }
    }

    /// Append an element to the ring buffer.
    ///
    /// If the ring buffer is full, its oldest element is removed and returned.
    pub fn enqueue(&mut self, item: S::Item) -> (r: Option<S::Item>)
        requires
            old(self).wf(),
        ensures
            final(self).wf(),
            final(self).spec_capacity() == old(self).spec_capacity(),
            r == displaced(old(self)@, old(self).spec_capacity()),
            final(self)@ == enqueued(old(self)@, old(self).spec_capacity(), item),
    {
        let off = self.off;
        let len = self.len;
        let cap = self.capacity();
        let ghost slots = self.storage.slots();
        let ghost p = cap as int;
        proof {
            lemma_wrap(off + len, p);
        }
        let pos = if len == cap {
            off
        } else {
            // `off + len >= cap`, written so that the sum cannot overflow.
            if off >= cap - len {
                off - (cap - len)
            } else {
                off + len
            }
        };
        if len == cap {
            let ghost off2 = wrap_pos(off as int, 1, p);
            proof {
                lemma_pop(slots, off as int, len as int);
                lemma_push(slots.update(off as int, None), off2, len - 1, item);
                lemma_wrap(off2 + p - 1, p);
                assert(slots.update(off as int, Some(item)) =~= slots.update(off as int, None).update(
                    wrap_pos(off2, p - 1, p),
                    Some(item),
                ));
            }
            let old_item = self.storage.replace_slot(pos, Some(item));
            self.off = Self::advance(off, cap);
            old_item
        } else {
            proof {
                lemma_push(slots, off as int, len as int, item);
            }
            let _ = self.storage.replace_slot(pos, Some(item));
            self.len = len + 1;
            None
        }
    }

    /// Remove the oldest element from the ring buffer, if there is one.
    pub fn dequeue(&mut self) -> (r: Option<S::Item>)
        requires
            old(self).wf(),
        ensures
            final(self).wf(),
            final(self).spec_capacity() == old(self).spec_capacity(),
            r == front(old(self)@),
            final(self)@ == dequeued(old(self)@),
            old(self)@.len() == 0 ==> *final(self) == *old(self),
    {
        let off = self.off;
        let len = self.len;
        let cap = self.capacity();
        if len == 0 {
            return None;
        }
        proof {
            lemma_pop(self.storage.slots(), off as int, len as int);
        }
        let item = self.storage.replace_slot(off, None);
        self.off = Self::advance(off, cap);
        self.len = len - 1;
        item
    }
}

impl<T, const N: usize> SubtractingRingBuffer<ArrayStorage<T, NonZeroCapacity, N>> {
    /// An empty ring buffer over a fresh block of `N` slots.
    pub fn new() -> (r: Self)
        requires
            N > 0,
        ensures
            r.wf(),
            r@ == Seq::<T>::empty(),
            r.spec_capacity() == N as nat,
    {
        Self::with_storage(ArrayStorage::new())
    }
}

} // verus!

use vstd::prelude::*;

use crate::capacity::Capacity;

verus! {

/// A generic backing storage for ring buffers.
pub trait Storage {
    /// The type of the items held by this storage.
    type Item;

    /// The type of this storage's capacity.
    type Capacity: Capacity;

    /// The capacity of this storage.
    spec fn spec_capacity(&self) -> Self::Capacity;

    /// Get the capacity of this storage.
    fn capacity(&self) -> (r: Self::Capacity)
        ensures
            r == self.spec_capacity(),
    ;
}

/// Ring buffer storage whose slots need not all hold an element.
///
/// The storage never inspects which slots are in use: that is tracked by its user.
pub trait PartialStorage: Storage {
    /// The slots of the storage, in order; `None` marks a slot that holds nothing.
    spec fn slots(&self) -> Seq<Option<Self::Item>>;

    /// The number of slots, which is the storage's capacity.
    fn slot_count(&self) -> (r: usize)
        ensures
            r as nat == self.slots().len(),
            r as nat == self.spec_capacity().value(),
    ;

    /// Put `value` into slot `i` and return what the slot held before.
    fn replace_slot(&mut self, i: usize, value: Option<Self::Item>) -> (r: Option<Self::Item>)
        requires
            i < old(self).slots().len(),
        ensures
            r == old(self).slots()[i as int],
            final(self).slots() == old(self).slots().update(i as int, value),
            final(self).spec_capacity() == old(self).spec_capacity(),
    ;
}

/// Ring buffer storage whose slots can also be read through a shared reference.
pub trait IndirectPartialStorage: PartialStorage {
    /// Borrow slot `i`.
    fn slot(&self, i: usize) -> (r: &Option<Self::Item>)
        requires
            i < self.slots().len(),
        ensures
            *r == self.slots()[i as int],
    ;
}

/// Ring buffer storage whose slots always hold an element.
pub trait FullStorage: Storage {
    /// The elements of the storage, in order.
    spec fn items(&self) -> Seq<Self::Item>;

    /// Borrow element `i`.
    fn get(&self, i: usize) -> (r: &Self::Item)
        requires
            i < self.items().len(),
        ensures
            *r == self.items()[i as int],
    ;

    /// Put `value` in place of element `i` and return the element it replaces.
    fn set(&mut self, i: usize, value: Self::Item) -> (r: Self::Item)
        requires
            i < old(self).items().len(),
        ensures
            r == old(self).items()[i as int],
            final(self).items() == old(self).items().update(i as int, value),
            final(self).spec_capacity() == old(self).spec_capacity(),
    ;
}

/// A fixed number of slots, each either empty or holding one element.
pub struct Slots<T> {
    v: Vec<Option<T>>,
}

impl<T> Slots<T> {
    /// The slots, in order.
    pub closed spec fn view(&self) -> Seq<Option<T>> {
        self.v@
    }

    /// A block of `n` empty slots.
    pub fn empty(n: usize) -> (r: Self)
        ensures
            r@.len() == n as nat,
            forall|i: int| 0 <= i < n ==> r@[i] is None,
    {
        let mut v: Vec<Option<T>> = Vec::with_capacity(n);
        let mut k: usize = 0;
        while k < n
            invariant
                k <= n,
                v@.len() == k as nat,
                forall|i: int| 0 <= i < k ==> v@[i] is None,
            decreases n - k,
        {
            v.push(None);
            k = k + 1;
        }
        Slots { v }
    }

    /// The number of slots.
    pub fn len(&self) -> (r: usize)
        ensures
            r as nat == self@.len(),
    {
        self.v.len()
    }

    /// Borrow slot `i`.
    pub fn slot(&self, i: usize) -> (r: &Option<T>)
        requires
            i < self@.len(),
        ensures
            *r == self@[i as int],
    {
        &self.v[i]
    }

    /// Put `value` into slot `i` and return what the slot held before.
    pub fn replace(&mut self, i: usize, value: Option<T>) -> (r: Option<T>)
        requires
            i < old(self)@.len(),
        ensures
            r == old(self)@[i as int],
            final(self)@ == old(self)@.update(i as int, value),
        no_unwind
    {
        let mut value = value;
        std::mem::swap(&mut self.v[i], &mut value);
        value
    }
}

/// Ring buffer storage in a block of `N` slots, `N` being fixed by the type.
pub struct ArrayStorage<T, C: Capacity, const N: usize> {
    slots: Slots<T>,
    cap: C,
}

impl<T, C: Capacity, const N: usize> ArrayStorage<T, C, N> {
    #[verifier::type_invariant]
    spec fn inv(self) -> bool {
        self.slots@.len() == self.cap.value() && self.cap.value() == N as nat
    }

    /// Create the storage, with every slot empty.
    pub fn new() -> (r: Self)
        requires
            C::admits(N as nat),
        ensures
            r.spec_capacity().value() == N as nat,
            r.slots().len() == N as nat,
            forall|i: int| 0 <= i < N ==> r.slots()[i] is None,
    {
        let cap = C::from_ct::<N>();
        ArrayStorage { slots: Slots::empty(N), cap }
    }
}

impl<T, C: Capacity, const N: usize> Storage for ArrayStorage<T, C, N> {
    type Item = T;

    type Capacity = C;

    closed spec fn spec_capacity(&self) -> C {
        self.cap
    }

    fn capacity(&self) -> (r: C) {
        self.cap
    }
}

impl<T, C: Capacity, const N: usize> PartialStorage for ArrayStorage<T, C, N> {
    closed spec fn slots(&self) -> Seq<Option<T>> {
        self.slots@
    }

    fn slot_count(&self) -> (r: usize) {
        proof {
            use_type_invariant(self);
        }
        self.slots.len()
    }

    fn replace_slot(&mut self, i: usize, value: Option<T>) -> (r: Option<T>) {
        proof {
            use_type_invariant(&*self);
        }
        self.slots.replace(i, value)
    }
}

impl<T, C: Capacity, const N: usize> IndirectPartialStorage for ArrayStorage<T, C, N> {
    fn slot(&self, i: usize) -> (r: &Option<T>) {
        self.slots.slot(i)
    }
}

/// Ring buffer storage in a block allocated once, at construction, for a capacity
/// chosen at run time.
pub struct AllocStorage<T, C: Capacity> {
    slots: Slots<T>,
    cap: C,
}

impl<T, C: Capacity> AllocStorage<T, C> {
    #[verifier::type_invariant]
    spec fn inv(self) -> bool {
        self.slots@.len() == self.cap.value()
    }

    /// Allocate storage for `capacity` elements, with every slot empty.
    pub fn new(capacity: C) -> (r: Self)
        ensures
            r.spec_capacity() == capacity,
            r.slots().len() == capacity.value(),
            forall|i: int| 0 <= i < capacity.value() ==> r.slots()[i] is None,
    {
        AllocStorage { slots: Slots::empty(capacity.get()), cap: capacity }
    }
}

impl<T, C: Capacity> Storage for AllocStorage<T, C> {
    type Item = T;

    type Capacity = C;

    closed spec fn spec_capacity(&self) -> C {
        self.cap
    }

    fn capacity(&self) -> (r: C) {
        self.cap
    }
}

impl<T, C: Capacity> PartialStorage for AllocStorage<T, C> {
    closed spec fn slots(&self) -> Seq<Option<T>> {
        self.slots@
    }

    fn slot_count(&self) -> (r: usize) {
        proof {
            use_type_invariant(self);
        }
        self.slots.len()
    }

    fn replace_slot(&mut self, i: usize, value: Option<T>) -> (r: Option<T>) {
        proof {
            use_type_invariant(&*self);
        }
        self.slots.replace(i, value)
    }
}

impl<T, C: Capacity> IndirectPartialStorage for AllocStorage<T, C> {
    fn slot(&self, i: usize) -> (r: &Option<T>) {
        self.slots.slot(i)
    }
}

impl<'a, S: Storage> Storage for &'a mut S {
    type Item = S::Item;

    type Capacity = S::Capacity;

    open spec fn spec_capacity(&self) -> S::Capacity {
        (**self).spec_capacity()
    }

    fn capacity(&self) -> (r: S::Capacity) {
        (**self).capacity()
    }
}

impl<'a, S: PartialStorage> PartialStorage for &'a mut S {
    open spec fn slots(&self) -> Seq<Option<S::Item>> {
        (**self).slots()
    }

    fn slot_count(&self) -> (r: usize) {
        (**self).slot_count()
    }

    fn replace_slot(&mut self, i: usize, value: Option<S::Item>) -> (r: Option<S::Item>) {
        (**self).replace_slot(i, value)
    }
}

impl<'a, S: IndirectPartialStorage> IndirectPartialStorage for &'a mut S {
    fn slot(&self, i: usize) -> (r: &Option<S::Item>) {
        (**self).slot(i)
    }
}

impl<'a, S: FullStorage> FullStorage for &'a mut S {
    open spec fn items(&self) -> Seq<S::Item> {
        (**self).items()
    }

    fn get(&self, i: usize) -> (r: &S::Item) {
        (**self).get(i)
    }

    fn set(&mut self, i: usize, value: S::Item) -> (r: S::Item) {
        (**self).set(i, value)
    }
}

} // verus!

use vstd::prelude::*;

use vstd::arithmetic::div_mod::{lemma_small_mod, lemma_mod_sub_multiples_vanish};

verus! {

/// The slot that holds the element `i` places after `off`, in a block of `p` slots.
pub open spec fn wrap_pos(off: int, i: int, p: int) -> int {
    (off + i) % p
}

/// The elements of a ring that starts at slot `off` and holds `len` elements, oldest first.
pub open spec fn ring_view<T>(slots: Seq<Option<T>>, off: int, len: int) -> Seq<T> {
    Seq::new(len as nat, |i: int| slots[wrap_pos(off, i, slots.len() as int)]->Some_0)
}

/// Whether a ring that starts at slot `off` and holds `len` elements lies within `slots`
/// with every one of its elements present.
pub open spec fn ring_wf<T>(slots: Seq<Option<T>>, off: int, len: int) -> bool {
    &&& slots.len() > 0
    &&& 0 <= off < slots.len()
    &&& 0 <= len <= slots.len()
    &&& forall|i: int|
        0 <= i < len ==> (#[trigger] slots[wrap_pos(off, i, slots.len() as int)]) is Some
}

/// Reducing a value below `2 * p` modulo `p` subtracts `p` at most once.
pub proof fn lemma_wrap(x: int, p: int)
    requires
        0 < p,
        0 <= x < 2 * p,
    ensures
        x % p == if x < p { x } else { x - p },
{
    if x < p {
        lemma_small_mod(x as nat, p as nat);
    } else {
        lemma_mod_sub_multiples_vanish(x, p);
        lemma_small_mod((x - p) as nat, p as nat);
    }
}

/// Writing an element into the slot after the last one appends it to the ring.
pub proof fn lemma_push<T>(slots: Seq<Option<T>>, off: int, len: int, x: T)
    requires
        ring_wf(slots, off, len),
        len < slots.len(),
    ensures
        ({
            let s2 = slots.update(wrap_pos(off, len, slots.len() as int), Some(x));
            &&& ring_wf(s2, off, len + 1)
            &&& ring_view(s2, off, len + 1) == ring_view(slots, off, len).push(x)
        }),
{
    let p = slots.len() as int;
    let pos = wrap_pos(off, len, p);
    let s2 = slots.update(pos, Some(x));
    lemma_wrap(off + len, p);
    assert forall|i: int| 0 <= i < len implies wrap_pos(off, i, p) != pos by {
        lemma_wrap(off + i, p);
    }
    assert forall|i: int| 0 <= i < len + 1 implies (#[trigger] s2[wrap_pos(off, i, p)]) is Some by {
        lemma_wrap(off + i, p);
    }
    assert(ring_view(s2, off, len + 1) =~= ring_view(slots, off, len).push(x));
}

/// Emptying the first slot of a non-empty ring removes its oldest element.
pub proof fn lemma_pop<T>(slots: Seq<Option<T>>, off: int, len: int)
    requires
        ring_wf(slots, off, len),
        len > 0,
    ensures
        slots[off] == Some(ring_view(slots, off, len)[0]),
        ({
            let p = slots.len() as int;
            let s2 = slots.update(off, None);
            let off2 = wrap_pos(off, 1, p);
            &&& 0 <= off2 < p
            &&& off2 == if off + 1 == p { 0 } else { off + 1 }
            &&& ring_wf(s2, off2, len - 1)
            &&& ring_view(s2, off2, len - 1) == ring_view(slots, off, len).drop_first()
        }),
{
    let p = slots.len() as int;
    let s2 = slots.update(off, None);
    let off2 = wrap_pos(off, 1, p);
    lemma_wrap(off, p);
    lemma_wrap(off + 1, p);
    assert(slots[wrap_pos(off, 0, p)] is Some);
    assert forall|i: int| 0 <= i < len - 1 implies wrap_pos(off2, i, p) == wrap_pos(off, i + 1, p)
        && wrap_pos(off2, i, p) != off by {
        lemma_wrap(off2 + i, p);
        lemma_wrap(off + i + 1, p);
    }
    assert forall|i: int| 0 <= i < len - 1 implies (#[trigger] s2[wrap_pos(off2, i, p)]) is Some by {
        assert(slots[wrap_pos(off, i + 1, p)] is Some);
    }
    assert(ring_view(s2, off2, len - 1) =~= ring_view(slots, off, len).drop_first());
}

/// The contents of a ring buffer of capacity `cap` holding `v` after `x` is enqueued:
/// when full, the oldest element makes room for `x`.
pub open spec fn enqueued<T>(v: Seq<T>, cap: nat, x: T) -> Seq<T> {
    if v.len() >= cap {
        v.drop_first().push(x)
    } else {
        v.push(x)
    }
}

/// What enqueuing into a ring buffer of capacity `cap` holding `v` returns.
pub open spec fn displaced<T>(v: Seq<T>, cap: nat) -> Option<T> {
    if v.len() >= cap {
        Some(v[0])
    } else {
        None
    }
}

/// The contents of a ring buffer holding `v` after one dequeue.
pub open spec fn dequeued<T>(v: Seq<T>) -> Seq<T> {
    if v.len() == 0 {
        v
    } else {
        v.drop_first()
    }
}

/// What dequeuing from a ring buffer holding `v` returns.
pub open spec fn front<T>(v: Seq<T>) -> Option<T> {
    if v.len() == 0 {
        None
    } else {
        Some(v[0])
    }
}

/// The contents after a run of operations: `Some(x)` enqueues `x`, `None` dequeues.
pub open spec fn run<T>(v: Seq<T>, cap: nat, ops: Seq<Option<T>>) -> Seq<T>
    decreases ops.len(),
{
    if ops.len() == 0 {
        v
    } else {
        let next = match ops[0] {
            Some(x) => enqueued(v, cap, x),
            None => dequeued(v),
        };
        run(next, cap, ops.drop_first())
    }
}

/// The contents after enqueuing each of `xs` in turn.
pub open spec fn enqueue_all<T>(v: Seq<T>, cap: nat, xs: Seq<T>) -> Seq<T>
    decreases xs.len(),
{
    if xs.len() == 0 {
        v
    } else {
        enqueue_all(enqueued(v, cap, xs[0]), cap, xs.drop_first())
    }
}

/// What `k` dequeues in a row return, in order, leaving out those that find the buffer empty.
pub open spec fn dequeue_outputs<T>(v: Seq<T>, k: nat) -> Seq<T>
    decreases k,
{
    if k == 0 || v.len() == 0 {
        Seq::empty()
    } else {
        seq![v[0]].add(dequeue_outputs(v.drop_first(), (k - 1) as nat))
    }
}

/// No run of enqueues and dequeues takes a buffer past its capacity.
pub proof fn lemma_run_bounded<T>(v: Seq<T>, cap: nat, ops: Seq<Option<T>>)
    requires
        cap > 0,
        v.len() <= cap,
    ensures
        run(v, cap, ops).len() <= cap,
    decreases ops.len(),
{
    if ops.len() > 0 {
        let next = match ops[0] {
            Some(x) => enqueued(v, cap, x),
            None => dequeued(v),
        };
        lemma_run_bounded(next, cap, ops.drop_first());
    }
}

/// Enqueuing elements that fit appends them, in order.
pub proof fn lemma_enqueue_all_fits<T>(v: Seq<T>, cap: nat, xs: Seq<T>)
    requires
        v.len() + xs.len() <= cap,
    ensures
        enqueue_all(v, cap, xs) == v + xs,
    decreases xs.len(),
{
    if xs.len() > 0 {
        lemma_enqueue_all_fits(v.push(xs[0]), cap, xs.drop_first());
        assert(v.push(xs[0]) + xs.drop_first() =~= v + xs);
    }
}

/// Dequeuing as many times as there are elements returns all of them, oldest first.
pub proof fn lemma_dequeue_outputs_all<T>(v: Seq<T>)
    ensures
        dequeue_outputs(v, v.len()) == v,
    decreases v.len(),
{
    if v.len() > 0 {
        lemma_dequeue_outputs_all(v.drop_first());
        assert(seq![v[0]].add(v.drop_first()) =~= v);
    }
}

/// First in, first out: elements enqueued into an empty buffer without overflowing it
/// come back out of as many dequeues in the order they went in.
pub proof fn lemma_fifo<T>(cap: nat, xs: Seq<T>)
    requires
        xs.len() <= cap,
    ensures
        enqueue_all(Seq::empty(), cap, xs) == xs,
        dequeue_outputs(enqueue_all(Seq::empty(), cap, xs), xs.len()) == xs,
{
    lemma_enqueue_all_fits(Seq::<T>::empty(), cap, xs);
    assert(Seq::<T>::empty() + xs =~= xs);
    lemma_dequeue_outputs_all(xs);
}

/// Enqueuing into a full buffer returns its oldest element and leaves the others, followed
/// by the new one, in order.
pub proof fn lemma_overwrite_on_full<T>(v: Seq<T>, cap: nat, x: T)
    requires
        cap > 0,
        v.len() == cap,
    ensures
        displaced(v, cap) == Some(v[0]),
        enqueued(v, cap, x) == v.drop_first().push(x),
        enqueued(v, cap, x).len() == cap,
        forall|i: int| 0 <= i < cap - 1 ==> #[trigger] enqueued(v, cap, x)[i] == v[i + 1],
        enqueued(v, cap, x)[cap - 1] == x,
{
}

/// Dequeuing from an empty buffer returns nothing and changes nothing.
pub proof fn lemma_dequeue_empty<T>(v: Seq<T>)
    requires
        v.len() == 0,
    ensures
        front(v) is None,
        dequeued(v) == v,
{
}

/// One element enqueued into an empty buffer comes back out of the next dequeue, which
/// leaves the buffer empty.
pub proof fn lemma_round_trip<T>(cap: nat, x: T)
    requires
        cap >= 1,
    ensures
        displaced(Seq::<T>::empty(), cap) is None,
        front(enqueued(Seq::<T>::empty(), cap, x)) == Some(x),
        dequeued(enqueued(Seq::<T>::empty(), cap, x)).len() == 0,
{
}

} // verus!

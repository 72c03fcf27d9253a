use ring_buffers::capacity::{
    Capacity, MaskingCapacity, NonZeroCapacity, NonZeroCapacityError, PowerOfTwoCapacity,
    PowerOfTwoCapacityError,
};
use ring_buffers::masking::{MaskingArrayRingBuffer, MaskingRingBuffer};
use ring_buffers::sparse_masking::{SparseMaskingArrayRingBuffer, SparseMaskingRingBuffer};
use ring_buffers::storage::{
    AllocStorage, ArrayStorage, IndirectPartialStorage, PartialStorage, Storage,
};
use ring_buffers::subtracting::{SubtractingArrayRingBuffer, SubtractingRingBuffer};

fn masking4() -> MaskingArrayRingBuffer<i32, 4> {
    MaskingArrayRingBuffer::new()
}

#[test]
fn enqueue_and_dequeue_once() {
    let mut buf = masking4();
    buf.enqueue(1);
    assert_eq!(buf.dequeue(), Some(1));
    assert_eq!(buf.dequeue(), None);
}

#[test]
fn fill_buffer_up_before_dequeue() {
    let mut buf = masking4();

    assert_eq!(None, buf.enqueue(1));
    assert_eq!(None, buf.enqueue(2));
    assert_eq!(None, buf.enqueue(3));
    assert_eq!(None, buf.enqueue(4));

    assert!(buf.is_full());
    assert_eq!(Some(1), buf.enqueue(5));
    assert!(buf.is_full());

    assert_eq!(Some(2), buf.dequeue());
    assert_eq!(Some(3), buf.dequeue());
    assert_eq!(Some(4), buf.dequeue());
    assert_eq!(Some(5), buf.dequeue());
}

#[test]
fn wrap_many_times() {
    let mut buf = masking4();

    let mut total = 0;
    for i in 1..=40 {
        if let Some(n) = buf.enqueue(i) {
            total += n;
        }
    }

    while let Some(n) = buf.dequeue() {
        total += n;
    }

    assert_eq!(820, total);
}

#[test]
fn subtracting_fill_then_overwrite() {
    let mut buf = SubtractingArrayRingBuffer::<i32, 4>::new();
    for i in 1..=4 {
        assert_eq!(None, buf.enqueue(i));
    }
    assert!(buf.is_full());
    assert_eq!(Some(1), buf.enqueue(5));
    assert_eq!(Some(2), buf.dequeue());
    assert_eq!(Some(3), buf.dequeue());
    assert_eq!(Some(4), buf.dequeue());
    assert_eq!(Some(5), buf.dequeue());
    assert!(buf.is_empty());
    assert_eq!(None, buf.dequeue());
}

#[test]
fn subtracting_wrap_many_times() {
    let mut buf: SubtractingArrayRingBuffer<i32, 4> =
        SubtractingRingBuffer::with_storage(ArrayStorage::new());
    let mut total = 0;
    for i in 1..=40 {
        if let Some(n) = buf.enqueue(i) {
            total += n;
        }
    }
    while let Some(n) = buf.dequeue() {
        total += n;
    }
    assert_eq!(820, total);
}

#[test]
fn subtracting_non_power_of_two_capacities() {
    let mut three: SubtractingArrayRingBuffer<u8, 3> =
        SubtractingRingBuffer::with_storage(ArrayStorage::new());
    assert_eq!(3, three.capacity());
    for i in 0..7u8 {
        three.enqueue(i);
    }
    assert!(three.is_full());
    assert_eq!(Some(4), three.dequeue());
    assert_eq!(Some(5), three.dequeue());
    assert_eq!(Some(6), three.dequeue());
    assert_eq!(None, three.dequeue());

    let cap = NonZeroCapacity::try_from(5).unwrap();
    let mut five = SubtractingRingBuffer::with_storage(AllocStorage::new(cap));
    assert_eq!(5, five.capacity());
    for i in 10..16u32 {
        five.enqueue(i);
    }
    assert_eq!(Some(11), five.dequeue());
    assert_eq!(Some(12), five.dequeue());
    assert_eq!(Some(13), five.dequeue());
    assert_eq!(Some(14), five.dequeue());
    assert_eq!(Some(15), five.dequeue());
    assert!(five.is_empty());
}

#[test]
fn masking_rejects_non_power_of_two() {
    assert_eq!(Err(PowerOfTwoCapacityError), MaskingCapacity::try_from(3));
    assert_eq!(Err(PowerOfTwoCapacityError), MaskingCapacity::try_from(5));
    assert_eq!(Err(PowerOfTwoCapacityError), MaskingCapacity::try_from(0));
    assert_eq!(Err(PowerOfTwoCapacityError), PowerOfTwoCapacity::try_from(6));
    assert_eq!(Err(PowerOfTwoCapacityError), PowerOfTwoCapacity::try_from(0));
    assert_eq!(Err(NonZeroCapacityError), NonZeroCapacity::try_from(0));
}

#[test]
fn capacities_round_trip() {
    assert_eq!(7, NonZeroCapacity::try_from(7).unwrap().get());
    assert_eq!(8, PowerOfTwoCapacity::try_from(8).unwrap().get());
    assert_eq!(1, PowerOfTwoCapacity::try_from(1).unwrap().get());
    let m = MaskingCapacity::try_from(16).unwrap();
    assert_eq!(15, m.mask());
    assert_eq!(16, m.get());
    assert_eq!(0, MaskingCapacity::try_from(1).unwrap().mask());
    assert_eq!(4, NonZeroCapacity::from_ct::<4>().get());
    assert_eq!(3, NonZeroCapacity::new_unchecked(3).get());
    assert_eq!(31, MaskingCapacity::new_unchecked(32).mask());
    assert_eq!(
        "The given capacity must be non-zero!",
        NonZeroCapacityError.message()
    );
    assert_eq!(
        "The given capacity must be a power of two!",
        PowerOfTwoCapacityError.message()
    );
}

#[test]
fn sparse_full_at_artificial_capacity() {
    let cap = NonZeroCapacity::try_from(3).unwrap();
    let mut buf: SparseMaskingArrayRingBuffer<i32, 4> =
        SparseMaskingRingBuffer::with_storage(cap, ArrayStorage::new());
    assert_eq!(3, buf.capacity());
    assert_eq!(None, buf.enqueue(1));
    assert!(!buf.is_full());
    assert_eq!(None, buf.enqueue(2));
    assert!(!buf.is_full());
    assert_eq!(None, buf.enqueue(3));
    assert!(buf.is_full());
    assert_eq!(Some(1), buf.enqueue(4));
    assert_eq!(Some(2), buf.enqueue(5));
    assert!(buf.is_full());
    assert_eq!(Some(3), buf.dequeue());
    assert_eq!(Some(4), buf.dequeue());
    assert_eq!(Some(5), buf.dequeue());
    assert_eq!(None, buf.dequeue());
    assert!(buf.is_empty());
}

#[test]
fn sparse_wrap_many_times() {
    let cap = NonZeroCapacity::try_from(4).unwrap();
    let mut buf: SparseMaskingArrayRingBuffer<i32, 8> =
        SparseMaskingRingBuffer::with_storage(cap, ArrayStorage::new());
    let mut total = 0;
    for i in 1..=40 {
        if let Some(n) = buf.enqueue(i) {
            total += n;
        }
    }
    let mut drained = Vec::new();
    while let Some(n) = buf.dequeue() {
        drained.push(n);
        total += n;
    }
    assert_eq!(vec![37, 38, 39, 40], drained);
    assert_eq!(820, total);
}

#[test]
fn dequeue_on_empty_changes_nothing() {
    let mut buf = masking4();
    assert_eq!(None, buf.dequeue());
    assert!(buf.is_empty());
    assert!(!buf.is_full());
    assert_eq!(None, buf.enqueue(9));
    assert_eq!(Some(9), buf.dequeue());
    assert_eq!(None, buf.dequeue());
    assert!(buf.is_empty());
}

#[test]
fn fifo_order_without_overflow() {
    let cap = MaskingCapacity::try_from(8).unwrap();
    let mut buf = MaskingRingBuffer::from_empty(AllocStorage::new(cap));
    assert_eq!(8, buf.capacity());
    for s in ["a", "b", "c", "d", "e"] {
        assert_eq!(None, buf.enqueue(s.to_string()));
    }
    for s in ["a", "b", "c", "d", "e"] {
        assert_eq!(Some(s.to_string()), buf.dequeue());
    }
    assert_eq!(None, buf.dequeue());
}

#[test]
fn masking_over_array_storage() {
    let mut buf: MaskingRingBuffer<ArrayStorage<u64, MaskingCapacity, 2>> =
        MaskingRingBuffer::from_empty(ArrayStorage::new());
    assert_eq!(2, buf.capacity());
    assert_eq!(None, buf.enqueue(7));
    assert_eq!(None, buf.enqueue(8));
    assert_eq!(Some(7), buf.enqueue(9));
    assert_eq!(Some(8), buf.enqueue(10));
    assert_eq!(Some(9), buf.dequeue());
    assert!(!buf.is_full());
}

#[test]
fn borrowed_storage() {
    let mut storage: ArrayStorage<i32, NonZeroCapacity, 3> = ArrayStorage::new();
    {
        let mut buf = SubtractingRingBuffer::with_storage(&mut storage);
        assert_eq!(None, buf.enqueue(1));
        assert_eq!(None, buf.enqueue(2));
        assert_eq!(Some(1), buf.dequeue());
    }
    assert_eq!(3, storage.capacity().get());
    assert_eq!(3, storage.slot_count());
    assert_eq!(&Some(2), storage.slot(1));
}

#[test]
fn storage_slots() {
    let cap = PowerOfTwoCapacity::try_from(2).unwrap();
    let mut storage: AllocStorage<char, PowerOfTwoCapacity> = AllocStorage::new(cap);
    assert_eq!(2, storage.slot_count());
    assert_eq!(&None, storage.slot(0));
    assert_eq!(None, storage.replace_slot(1, Some('x')));
    assert_eq!(Some('x'), storage.replace_slot(1, Some('y')));
    assert_eq!(&Some('y'), storage.slot(1));
    assert_eq!(2, storage.capacity().get());
}

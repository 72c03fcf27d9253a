use vstd::prelude::*;
use vstd::arithmetic::div_mod::lemma_mod_breakdown;
use vstd::arithmetic::power2::{pow2, lemma2_to64, lemma_pow2_pos, lemma_pow2_unfold};

verus! {

/// Whether `n` is a power of two.
pub open spec fn is_pow2(n: nat) -> bool
    decreases n,
{
    if n == 0 {
        false
    } else if n == 1 {
        true
    } else {
        n % 2 == 0 && is_pow2(n / 2)
    }
}

/// The capacity of a ring buffer: a validated, strictly positive size.
pub trait Capacity: Sized + Copy {
    /// The size that this capacity stands for.
    spec fn value(&self) -> nat;

    /// Whether `n` is a valid size for this kind of capacity.
    spec fn admits(n: nat) -> bool;

    /// The size, as a plain integer.
    fn get(&self) -> (r: usize)
        ensures
            r as nat == self.value(),
            r > 0,
            Self::admits(r as nat),
    ;

    /// Construct a capacity from a size fixed at build time.
    fn from_ct<const N: usize>() -> (r: Self)
        requires
            Self::admits(N as nat),
        ensures
            r.value() == N as nat,
    ;
}

/// A non-zero capacity.
#[derive(Copy, Clone, Debug, PartialEq, Eq, Structural)]
pub struct NonZeroCapacity {
    inner: usize,
}

impl NonZeroCapacity {
    #[verifier::type_invariant]
    spec fn inv(self) -> bool {
        self.inner > 0
    }

    /// Construct a new [`NonZeroCapacity`], given a value known to be non-zero.
    pub fn new_unchecked(value: usize) -> (r: Self)
        requires
            value > 0,
        ensures
            r.value() == value as nat,
    {
        NonZeroCapacity { inner: value }
    }

    /// Construct a new [`NonZeroCapacity`], failing when `value` is zero.
    pub fn try_from(value: usize) -> (r: Result<Self, NonZeroCapacityError>)
        ensures
            value != 0 <==> r is Ok,
            r matches Ok(c) ==> c.value() == value as nat,
    {
        if value != 0 {
            Ok(NonZeroCapacity { inner: value })
        } else {
            Err(NonZeroCapacityError)
        }
    }
}

impl Capacity for NonZeroCapacity {
    closed spec fn value(&self) -> nat {
        self.inner as nat
    }

    open spec fn admits(n: nat) -> bool {
        n > 0
    }

    fn get(&self) -> (r: usize) {
        proof {
            use_type_invariant(self);
        }
        self.inner
    }

    fn from_ct<const N: usize>() -> (r: Self) {
        NonZeroCapacity { inner: N }
    }
}

/// The error returned when a [`NonZeroCapacity`] is requested for zero.
#[derive(Copy, Clone, Debug, PartialEq, Eq, Structural)]
pub struct NonZeroCapacityError;

impl NonZeroCapacityError {
    /// A description of the error.
    pub fn message(&self) -> (r: &'static str) {
        "The given capacity must be non-zero!"
    }
}

/// A power-of-two capacity.
#[derive(Copy, Clone, Debug, PartialEq, Eq, Structural)]
pub struct PowerOfTwoCapacity {
    inner: usize,
}

/// Tests whether `value` is a power of two, by halving while even.
pub fn check_pow2(value: usize) -> (r: bool)
    ensures
        r == is_pow2(value as nat),
{
    if value == 0 {
        return false;
    }
    let mut v: usize = value;
    while v % 2 == 0
        invariant
            v > 0,
            is_pow2(v as nat) == is_pow2(value as nat),
        decreases v,
    {
        v = v / 2;
    }
    v == 1
}

impl PowerOfTwoCapacity {
    #[verifier::type_invariant]
    spec fn inv(self) -> bool {
        is_pow2(self.inner as nat)
    }

    /// Construct a new [`PowerOfTwoCapacity`], given a value known to be a power of two.
    pub fn new_unchecked(value: usize) -> (r: Self)
        requires
            is_pow2(value as nat),
        ensures
            r.value() == value as nat,
    {
        PowerOfTwoCapacity { inner: value }
    }

    /// Construct a new [`PowerOfTwoCapacity`], failing when `value` is not a power of two.
    pub fn try_from(value: usize) -> (r: Result<Self, PowerOfTwoCapacityError>)
        ensures
            is_pow2(value as nat) <==> r is Ok,
            r matches Ok(c) ==> c.value() == value as nat,
    {
        if check_pow2(value) {
            Ok(PowerOfTwoCapacity { inner: value })
        } else {
            Err(PowerOfTwoCapacityError)
        }
    }
}

impl Capacity for PowerOfTwoCapacity {
    closed spec fn value(&self) -> nat {
        self.inner as nat
    }

    open spec fn admits(n: nat) -> bool {
        is_pow2(n)
    }

    fn get(&self) -> (r: usize) {
        proof {
            use_type_invariant(self);
        }
        self.inner
    }

    fn from_ct<const N: usize>() -> (r: Self) {
        PowerOfTwoCapacity { inner: N }
    }
}

/// The error returned when a power-of-two capacity is requested for another value.
#[derive(Copy, Clone, Debug, PartialEq, Eq, Structural)]
pub struct PowerOfTwoCapacityError;

impl PowerOfTwoCapacityError {
    /// A description of the error.
    pub fn message(&self) -> (r: &'static str) {
        "The given capacity must be a power of two!"
    }
}

/// Splits the low bit off a bitwise AND with `2 * q - 1`.
proof fn lemma_and_split(x: usize, q: usize)
    requires
        q >= 1,
        q <= usize::MAX / 2,
    ensures
        x & ((2 * q - 1) as usize) == 2 * ((x / 2) & ((q - 1) as usize)) + x % 2,
{
    assert(x & ((2 * q - 1) as usize) == 2 * ((x / 2) & ((q - 1) as usize)) + x % 2) by (bit_vector)
        requires
            q >= 1,
    ;
}

/// Masking with `p - 1` wraps an index exactly as `% p` does, for a power of two `p`.
pub proof fn lemma_mask_is_mod(x: usize, p: usize)
    requires
        is_pow2(p as nat),
    ensures
        x & ((p - 1) as usize) == x % p,
        ((p - 1) as usize) & x == x % p,
    decreases p,
{
    let m = (p - 1) as usize;
    assert(x & m == m & x) by (bit_vector);
    if p == 1 {
        assert(x & 0usize == 0) by (bit_vector);
    } else {
        let q: usize = p / 2;
        lemma_and_split(x, q);
        lemma_mask_is_mod(x / 2, q);
        lemma_mod_breakdown(x as int, 2, q as int);
    }
}

/// A power of two below another power of two is at most half of it.
pub proof fn lemma_pow2_half(p: nat, m: nat)
    requires
        is_pow2(p),
        is_pow2(m),
        p < m,
    ensures
        2 * p <= m,
    decreases p,
{
    if p > 1 {
        lemma_pow2_half(p / 2, m / 2);
    }
}

/// Every `pow2(k)` is a power of two.
proof fn lemma_is_pow2_pow2(k: nat)
    ensures
        is_pow2(pow2(k)),
    decreases k,
{
    if k == 0 {
        lemma2_to64();
    } else {
        lemma_is_pow2_pow2((k - 1) as nat);
        lemma_pow2_unfold(k);
        lemma_pow2_pos((k - 1) as nat);
    }
}

/// Doubling a power of two in `usize` minus one stays within `usize`.
pub proof fn lemma_pow2_double_fits(p: usize)
    requires
        is_pow2(p as nat),
    ensures
        2 * (p as nat) - 1 <= usize::MAX,
{
    lemma2_to64();
    lemma_is_pow2_pow2(32);
    lemma_is_pow2_pow2(64);
    assert(usize::MAX == 0xffff_ffff || usize::MAX == 0xffff_ffff_ffff_ffff);
    lemma_pow2_half(p as nat, usize::MAX as nat + 1);
}

/// A power-of-two capacity, held as its mask (the capacity minus one).
#[derive(Copy, Clone, Debug, PartialEq, Eq, Structural)]
pub struct MaskingCapacity {
    inner: usize,
}

impl MaskingCapacity {
    #[verifier::type_invariant]
    spec fn inv(self) -> bool {
        self.inner < usize::MAX && is_pow2(self.inner as nat + 1)
    }

    /// Construct a new [`MaskingCapacity`], given a value known to be a power of two.
    pub fn new_unchecked(value: usize) -> (r: Self)
        requires
            is_pow2(value as nat),
        ensures
            r.value() == value as nat,
    {
        MaskingCapacity { inner: value - 1 }
    }

    /// Construct a new [`MaskingCapacity`], failing when `value` is not a power of two.
    pub fn try_from(value: usize) -> (r: Result<Self, PowerOfTwoCapacityError>)
        ensures
            is_pow2(value as nat) <==> r is Ok,
            r matches Ok(c) ==> c.value() == value as nat,
    {
        if check_pow2(value) {
            Ok(MaskingCapacity { inner: value - 1 })
        } else {
            Err(PowerOfTwoCapacityError)
        }
    }

    /// The capacity mask: `mask & i` wraps any index `i` into `0..capacity`.
    pub fn mask(&self) -> (r: usize)
        ensures
            r as nat + 1 == self.value(),
            r < usize::MAX,
            is_pow2(self.value()),
    {
        proof {
            use_type_invariant(self);
        }
        self.inner
    }
}

impl Capacity for MaskingCapacity {
    closed spec fn value(&self) -> nat {
        self.inner as nat + 1
    }

    open spec fn admits(n: nat) -> bool {
        is_pow2(n)
    }

    fn get(&self) -> (r: usize) {
        proof {
            use_type_invariant(self);
        }
        self.inner + 1
    }

    fn from_ct<const N: usize>() -> (r: Self) {
        MaskingCapacity { inner: N - 1 }
    }
}

} // verus!

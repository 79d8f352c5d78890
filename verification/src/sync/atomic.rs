//! Atomic primitives.
//!
//! The types describe what an operation does to the value of an atomic, one operation after the
//! other. Operations take the memory ordering that they are carried out with.

use vstd::prelude::*;

pub mod ordering;

pub use ordering::{Acquire, Full, Relaxed, Release};
use ordering::{AcquireOrRelaxed, All, ReleaseOrRelaxed, RelaxedOnly};

verus! {

/// `word` is the number `sum`, or what is left of it in a word with `modulus` values.
pub open spec fn wraps_to(word: int, sum: int, modulus: int) -> bool {
    word == sum || word == sum + modulus || word == sum - modulus
}

/// A word that the machine can access atomically.
pub trait AtomicRepr: Copy {
    /// Number of values of the word.
    spec fn modulus() -> int;

    /// The word as a number.
    spec fn number(self) -> int;

    /// Whether two words are the same.
    fn same(self, other: Self) -> (r: bool)
        ensures
            r == (self == other),
    ;

    /// The sum of two words, without the bits that leave the word.
    fn wrapping_plus(self, other: Self) -> (r: Self)
        ensures
            wraps_to(r.number(), self.number() + other.number(), Self::modulus()),
    ;
}

impl AtomicRepr for i32 {
    open spec fn modulus() -> int {
        0x1_0000_0000
    }

    open spec fn number(self) -> int {
        self as int
    }

    fn same(self, other: Self) -> (r: bool) {
        self == other
    }

    fn wrapping_plus(self, other: Self) -> (r: Self) {
        self.wrapping_add(other)
    }
}

impl AtomicRepr for i64 {
    open spec fn modulus() -> int {
        0x1_0000_0000_0000_0000
    }

    open spec fn number(self) -> int {
        self as int
    }

    fn same(self, other: Self) -> (r: bool) {
        self == other
    }

    fn wrapping_plus(self, other: Self) -> (r: Self) {
        self.wrapping_add(other)
    }
}

impl AtomicRepr for isize {
    open spec fn modulus() -> int {
        usize::MAX + 1
    }

    open spec fn number(self) -> int {
        self as int
    }

    fn same(self, other: Self) -> (r: bool) {
        self == other
    }

    fn wrapping_plus(self, other: Self) -> (r: Self) {
        proof {
            lemma_word_size();
        }
        self.wrapping_add(other)
    }
}

/// Types that can be stored in an [`Atomic`], as a word of the same size.
pub trait AllowAtomic: Sized + Copy {
    /// The word.
    type Repr: AtomicRepr;

    /// The word that a value is stored as.
    spec fn stored(self) -> Self::Repr;

    /// Converts a value into a word.
    fn into_repr(self) -> (r: Self::Repr)
        ensures
            r == self.stored(),
    ;

    /// Converts a word into the value that is stored as it.
    fn from_repr(repr: Self::Repr) -> (r: Self)
        ensures
            forall|value: Self| #[trigger] value.stored() == repr ==> r == value,
    ;
}

/// Types that can be stored in an [`Atomic`] and added to.
pub trait AllowAtomicArithmetic: AllowAtomic {
    /// What can be added.
    type Delta;

    /// The word that is added for a delta.
    spec fn delta_stored(d: Self::Delta) -> Self::Repr;

    /// The value after a delta was added to it, without the bits that leave the word.
    spec fn plus(self, d: Self::Delta) -> Self;

    /// The sum of words is the word of the sum.
    proof fn lemma_plus(self, d: Self::Delta, sum: Self::Repr)
        requires
            wraps_to(
                sum.number(),
                self.stored().number() + Self::delta_stored(d).number(),
                Self::Repr::modulus(),
            ),
        ensures
            sum == self.plus(d).stored(),
    ;

    /// Converts a delta into a word.
    fn delta_into_repr(d: Self::Delta) -> (r: Self::Repr)
        ensures
            r == Self::delta_stored(d),
    ;
}

impl AllowAtomic for u64 {
    type Repr = i64;

    open spec fn stored(self) -> i64 {
        self as i64
    }

    fn into_repr(self) -> (r: Self::Repr) {
        self as i64
    }

    fn from_repr(repr: Self::Repr) -> (r: Self) {
        let r = repr as u64;
        assert forall|value: Self| #[trigger] value.stored() == repr implies r == value by {
            assert((value as i64) as u64 == value) by (bit_vector);
        }
        r
    }
}

impl AllowAtomicArithmetic for u64 {
    type Delta = u64;

    open spec fn delta_stored(d: Self::Delta) -> Self::Repr {
        d as i64
    }

    open spec fn plus(self, d: Self::Delta) -> Self {
        self.wrapping_add(d)
    }

    proof fn lemma_plus(self, d: Self::Delta, sum: Self::Repr) {
        lemma_u64_words(self);
        lemma_u64_words(d);
        lemma_u64_words(self.plus(d));
    }

    fn delta_into_repr(d: Self::Delta) -> (r: Self::Repr) {
        d as i64
    }
}

proof fn lemma_u64_words(value: u64)
    ensures
        (value as i64) as int == (if value < 0x8000_0000_0000_0000 {
            value as int
        } else {
            value - 0x1_0000_0000_0000_0000
        }),
{
    assert(value >= 0x8000_0000_0000_0000 ==> (value as i64) == value - 0x1_0000_0000_0000_0000) by (bit_vector);
}

impl AllowAtomic for u32 {
    type Repr = i32;

    open spec fn stored(self) -> i32 {
        self as i32
    }

    fn into_repr(self) -> (r: Self::Repr) {
        self as i32
    }

    fn from_repr(repr: Self::Repr) -> (r: Self) {
        let r = repr as u32;
        assert forall|value: Self| #[trigger] value.stored() == repr implies r == value by {
            assert((value as i32) as u32 == value) by (bit_vector);
        }
        r
    }
}

impl AllowAtomicArithmetic for u32 {
    type Delta = u32;

    open spec fn delta_stored(d: Self::Delta) -> Self::Repr {
        d as i32
    }

    open spec fn plus(self, d: Self::Delta) -> Self {
        self.wrapping_add(d)
    }

    proof fn lemma_plus(self, d: Self::Delta, sum: Self::Repr) {
        lemma_u32_words(self);
        lemma_u32_words(d);
        lemma_u32_words(self.plus(d));
    }

    fn delta_into_repr(d: Self::Delta) -> (r: Self::Repr) {
        d as i32
    }
}

proof fn lemma_u32_words(value: u32)
    ensures
        (value as i32) as int == (if value < 0x8000_0000 {
            value as int
        } else {
            value - 0x1_0000_0000
        }),
{
    assert(value >= 0x8000_0000 ==> (value as i32) == value - 0x1_0000_0000) by (bit_vector);
}

impl AllowAtomic for usize {
    type Repr = isize;

    open spec fn stored(self) -> isize {
        self as isize
    }

    fn into_repr(self) -> (r: Self::Repr) {
        self as isize
    }

    fn from_repr(repr: Self::Repr) -> (r: Self) {
        let r = repr as usize;
        assert forall|value: Self| #[trigger] value.stored() == repr implies r == value by {
            assert((value as isize) as usize == value) by (bit_vector);
        }
        r
    }
}

impl AllowAtomicArithmetic for usize {
    type Delta = usize;

    open spec fn delta_stored(d: Self::Delta) -> Self::Repr {
        d as isize
    }

    open spec fn plus(self, d: Self::Delta) -> Self {
        self.wrapping_add(d)
    }

    proof fn lemma_plus(self, d: Self::Delta, sum: Self::Repr) {
        lemma_usize_words(self);
        lemma_usize_words(d);
        lemma_usize_words(self.plus(d));
        lemma_word_size();
    }

    fn delta_into_repr(d: Self::Delta) -> (r: Self::Repr) {
        d as isize
    }
}

proof fn lemma_usize_words(value: usize)
    ensures
        (value as isize) as int == (if value <= isize::MAX {
            value as int
        } else {
            value - usize::MAX - 1
        }),
{
    assert(usize::BITS == 32 && value >= 0x8000_0000 ==> (value as isize) == value - 0x1_0000_0000)
        by (bit_vector);
    assert(usize::BITS == 64 && value >= 0x8000_0000_0000_0000 ==> (value as isize) == value
        - 0x1_0000_0000_0000_0000) by (bit_vector);
}

impl AllowAtomic for isize {
    type Repr = isize;

    open spec fn stored(self) -> isize {
        self as isize
    }

    fn into_repr(self) -> (r: Self::Repr) {
        self as isize
    }

    fn from_repr(repr: Self::Repr) -> (r: Self) {
        repr
    }
}

impl AllowAtomicArithmetic for isize {
    type Delta = isize;

    open spec fn delta_stored(d: Self::Delta) -> Self::Repr {
        d as isize
    }

    open spec fn plus(self, d: Self::Delta) -> Self {
        self.wrapping_add(d)
    }

    proof fn lemma_plus(self, d: Self::Delta, sum: Self::Repr) {
        lemma_word_size();
    }

    fn delta_into_repr(d: Self::Delta) -> (r: Self::Repr) {
        d as isize
    }
}

impl AllowAtomic for i64 {
    type Repr = i64;

    open spec fn stored(self) -> i64 {
        self as i64
    }

    fn into_repr(self) -> (r: Self::Repr) {
        self as i64
    }

    fn from_repr(repr: Self::Repr) -> (r: Self) {
        repr
    }
}

impl AllowAtomicArithmetic for i64 {
    type Delta = i64;

    open spec fn delta_stored(d: Self::Delta) -> Self::Repr {
        d as i64
    }

    open spec fn plus(self, d: Self::Delta) -> Self {
        self.wrapping_add(d)
    }

    proof fn lemma_plus(self, d: Self::Delta, sum: Self::Repr) {
    }

    fn delta_into_repr(d: Self::Delta) -> (r: Self::Repr) {
        d as i64
    }
}

impl AllowAtomic for i32 {
    type Repr = i32;

    open spec fn stored(self) -> i32 {
        self as i32
    }

    fn into_repr(self) -> (r: Self::Repr) {
        self as i32
    }

    fn from_repr(repr: Self::Repr) -> (r: Self) {
        repr
    }
}

impl AllowAtomicArithmetic for i32 {
    type Delta = i32;

    open spec fn delta_stored(d: Self::Delta) -> Self::Repr {
        d as i32
    }

    open spec fn plus(self, d: Self::Delta) -> Self {
        self.wrapping_add(d)
    }

    proof fn lemma_plus(self, d: Self::Delta, sum: Self::Repr) {
    }

    fn delta_into_repr(d: Self::Delta) -> (r: Self::Repr) {
        d as i32
    }
}

/// The numbers of a machine word, which has 32 or 64 bits.
proof fn lemma_word_size()
    ensures
        usize::MAX == 0xffff_ffff && isize::MAX == 0x7fff_ffff && isize::MIN == -0x8000_0000
            || usize::MAX == 0xffff_ffff_ffff_ffff && isize::MAX == 0x7fff_ffff_ffff_ffff
            && isize::MIN == -0x8000_0000_0000_0000,
{
}

/// A value that is accessed atomically.
#[derive(Debug)]
pub struct Atomic<T: AllowAtomic> {
    word: T::Repr,
}

impl<T: AllowAtomic> Atomic<T> {
    /// The value that is stored.
    pub closed spec fn holds(&self, value: T) -> bool {
        self.word == value.stored()
    }

    /// Creates a new atomic.
    pub fn new(value: T) -> (r: Self)
        ensures
            r.holds(value),
    {
        Atomic { word: value.into_repr() }
    }

    /// Loads the value.
    pub fn load<O: AcquireOrRelaxed>(&self, _order: O) -> (r: T)
        ensures
            forall|value: T| #[trigger] self.holds(value) ==> r == value,
    {
        T::from_repr(self.word)
    }

    /// Stores a value.
    pub fn store<O: ReleaseOrRelaxed>(&mut self, value: T, _order: O)
        ensures
            final(self).holds(value),
    {
        self.word = value.into_repr();
    }

    /// Stores a value and returns the value before.
    pub fn xchg<O: All>(&mut self, new: T, _order: O) -> (r: T)
        ensures
            forall|value: T| #[trigger] old(self).holds(value) ==> r == value,
            final(self).holds(new),
    {
        let before = T::from_repr(self.word);
        self.word = new.into_repr();
        before
    }

    /// Stores a value where the value before is `expected`. Returns the value before, as an error
    /// where nothing was stored.
    pub fn cmpxchg<O: All>(&mut self, expected: T, new: T, _order: O) -> (r: Result<T, T>)
        ensures
            forall|value: T| #[trigger]
                old(self).holds(value) ==> r == (if old(self).holds(expected) {
                    Ok::<T, T>(value)
                } else {
                    Err(value)
                }),
            if old(self).holds(expected) {
                final(self).holds(new)
            } else {
                *final(self) == *old(self)
            },
    {
        let before = T::from_repr(self.word);
        if self.word.same(expected.into_repr()) {
            self.word = new.into_repr();
            Ok(before)
        } else {
            Err(before)
        }
    }
}

impl<T: AllowAtomicArithmetic> Atomic<T> {
    /// Adds to the value.
    pub fn add<O: RelaxedOnly>(&mut self, delta: T::Delta, _order: O)
        ensures
            forall|value: T| #[trigger]
                old(self).holds(value) ==> final(self).holds(value.plus(delta)),
    {
        self.word = self.word.wrapping_plus(T::delta_into_repr(delta));
        proof {
            let sum = self.word;
            assert forall|value: T| #[trigger] old(self).holds(value) implies self.holds(
                value.plus(delta),
            ) by {
                value.lemma_plus(delta, sum);
            }
        }
    }

    /// Adds to the value and returns the value before.
    pub fn fetch_add<O: All>(&mut self, delta: T::Delta, _order: O) -> (r: T)
        ensures
            forall|value: T| #[trigger]
                old(self).holds(value) ==> r == value && final(self).holds(value.plus(delta)),
    {
        let before = T::from_repr(self.word);
        self.word = self.word.wrapping_plus(T::delta_into_repr(delta));
        proof {
            let sum = self.word;
            assert forall|value: T| #[trigger] old(self).holds(value) implies self.holds(
                value.plus(delta),
            ) by {
                value.lemma_plus(delta, sum);
            }
        }
        before
    }
}

} // verus!

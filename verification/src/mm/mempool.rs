//! Memory pools.
//!
//! Memory pools are used for guaranteed, deadlock-free memory allocations during extreme memory
//! pressure. A pool pre-allocates a minimum number of elements at creation time. When the regular
//! allocator cannot satisfy a request, the pool falls back to its pre-allocated reserve, ensuring
//! that allocations that may sleep will always succeed.

use crate::error::{to_result, Errno, Result, EINVAL, ENOMEM};
use core::marker::PhantomData;
use vstd::prelude::*;

verus! {

/// How memory is allocated.
#[derive(Debug, Clone, Copy, PartialEq, Eq, Structural)]
pub enum AllocFlags {
    /// The allocation does not sleep.
    Atomic,
    /// The allocation can sleep until there is memory.
    Kernel,
}

/// Types of which all zeroes are a value.
pub trait Zeroable: Sized {
    /// All bits are zero.
    spec fn is_zero(self) -> bool;

    /// The value of which all bits are zero.
    fn init_zeroed() -> (r: Self)
        ensures
            r.is_zero(),
    ;
}

impl Zeroable for u8 {
    open spec fn is_zero(self) -> bool {
        self == 0
    }

    fn init_zeroed() -> (r: Self) {
        0
    }
}

impl Zeroable for u32 {
    open spec fn is_zero(self) -> bool {
        self == 0
    }

    fn init_zeroed() -> (r: Self) {
        0
    }
}

impl Zeroable for u64 {
    open spec fn is_zero(self) -> bool {
        self == 0
    }

    fn init_zeroed() -> (r: Self) {
        0
    }
}

impl Zeroable for [u8; 64] {
    open spec fn is_zero(self) -> bool {
        forall|i: int| 0 <= i < 64 ==> #[trigger] self@[i] == 0
    }

    fn init_zeroed() -> (r: Self) {
        [0u8; 64]
    }
}

impl Zeroable for [u32; 4] {
    open spec fn is_zero(self) -> bool {
        forall|i: int| 0 <= i < 4 ==> #[trigger] self@[i] == 0
    }

    fn init_zeroed() -> (r: Self) {
        [0u32; 4]
    }
}

/// A memory pool for guaranteed allocations.
///
/// It pre-allocates a minimum number of elements so that allocations from the pool can succeed even
/// when the system is under extreme memory pressure.
#[derive(Debug)]
pub struct MemPool<T> {
    minimum: usize,
    reserve: usize,
    _p: PhantomData<T>,
}

/// Number of elements that a pool keeps in reserve: at least one.
pub open spec fn reserved(min_elements: int) -> int {
    if min_elements == 0 {
        1
    } else {
        min_elements
    }
}

/// An allocation succeeds: there is memory, or a reserve, or time to wait for memory.
pub open spec fn granted(reserve: int, has_memory: bool, flags: AllocFlags) -> bool {
    has_memory || reserve > 0 || flags == AllocFlags::Kernel
}

/// The reserve after an allocation.
pub open spec fn reserve_after(reserve: int, has_memory: bool) -> int {
    if has_memory || reserve == 0 {
        reserve
    } else {
        reserve - 1
    }
}

/// The reserve after allocations, where `answers` tells of each whether there was memory.
pub open spec fn reserve_after_all(reserve: int, answers: Seq<bool>) -> int
    decreases answers.len(),
{
    if answers.len() == 0 {
        reserve
    } else {
        reserve_after(reserve_after_all(reserve, answers.drop_last()), answers.last())
    }
}

/// A pool guarantees its minimum number of allocations, whatever memory there is: after fewer
/// allocations than that the next one succeeds.
pub proof fn lemma_guaranteed(min_elements: int, answers: Seq<bool>, has_memory: bool, flags: AllocFlags)
    requires
        min_elements >= 0,
        answers.len() < reserved(min_elements),
    ensures
        granted(reserve_after_all(reserved(min_elements), answers), has_memory, flags),
{
    lemma_reserve_left(reserved(min_elements), answers);
}

proof fn lemma_reserve_left(reserve: int, answers: Seq<bool>)
    requires
        answers.len() <= reserve,
    ensures
        reserve_after_all(reserve, answers) >= reserve - answers.len(),
    decreases answers.len(),
{
    if answers.len() > 0 {
        lemma_reserve_left(reserve, answers.drop_last());
    }
}

/// An element that is given back after it was taken from the reserve restores the reserve.
pub proof fn lemma_alloc_then_free<T>(pool: MemPool<T>)
    requires
        0 < pool.in_reserve() <= pool.capacity(),
    ensures
        pool.reserve_with(reserve_after(pool.in_reserve() as int, false)) == pool.in_reserve(),
{
}

impl<T> MemPool<T> {
    #[verifier::type_invariant]
    spec fn within_capacity(self) -> bool {
        self.reserve <= self.minimum
    }

    /// Number of elements that are kept in reserve where all are given back.
    pub closed spec fn capacity(&self) -> usize {
        self.minimum
    }

    /// Number of elements in reserve.
    pub closed spec fn in_reserve(&self) -> usize {
        self.reserve
    }

    /// The reserve with an element given back.
    pub open spec fn reserve_with(&self, reserve: int) -> int {
        if reserve < self.capacity() {
            reserve + 1
        } else {
            reserve
        }
    }

    /// Create a new memory pool with `min_elements` pre-allocated elements. `status` is the answer
    /// of the host, which allocates them.
    ///
    /// The pool guarantees that at least `min_elements` allocations can succeed without accessing
    /// the global allocator. When `min_elements` is zero, the pool still pre-allocates a single
    /// element internally.
    pub fn new(min_elements: usize, status: i32) -> (r: Result<Self>)
        ensures
            match r {
                Ok(pool) => {
                    &&& min_elements <= i32::MAX && status >= 0
                    &&& pool.capacity() == reserved(min_elements as int)
                    &&& pool.in_reserve() == reserved(min_elements as int)
                },
                Err(e) => if min_elements > i32::MAX {
                    e == Errno(EINVAL)
                } else {
                    crate::block::mq::gen_disk::refused(status, e)
                },
            },
    {
        if min_elements > i32::MAX as usize {
            return Err(Errno(EINVAL));
        }
        match to_result(status) {
            Ok(()) => {},
            Err(e) => {
                return Err(e);
            },
        }
        let minimum: usize = if min_elements == 0 {
            1
        } else {
            min_elements
        };
        Ok(MemPool { minimum, reserve: minimum, _p: PhantomData })
    }

    /// Takes the memory of an element: from the allocator where it has memory, else from the
    /// reserve, else by waiting for memory.
    fn take(&mut self, flags: AllocFlags, has_memory: bool) -> (r: Result<()>)
        ensures
            final(self).capacity() == old(self).capacity(),
            final(self).in_reserve() == reserve_after(old(self).in_reserve() as int, has_memory),
            r is Ok <==> granted(old(self).in_reserve() as int, has_memory, flags),
            r matches Err(e) ==> e == Errno(ENOMEM),
    {
        proof {
            use_type_invariant(&*self);
        }
        if has_memory {
            return Ok(());
        }
        if self.reserve > 0 {
            self.reserve = self.reserve - 1;
            return Ok(());
        }
        match flags {
            AllocFlags::Kernel => Ok(()),
            AllocFlags::Atomic => Err(Errno(ENOMEM)),
        }
    }

    /// Allocate an element from the pool and initialize it with `init`. `has_memory` tells whether
    /// the allocator of the host has memory.
    ///
    /// If the allocator has no memory and the pool has pre-allocated reserve elements, one of those
    /// is used instead. When the allocation can sleep, this function is guaranteed to succeed.
    /// Otherwise, the allocation fails if both the allocator and the reserve are exhausted.
    pub fn alloc_with(&mut self, init: T, flags: AllocFlags, has_memory: bool) -> (r: Result<
        MemPoolBox<T>,
    >)
        ensures
            final(self).capacity() == old(self).capacity(),
            final(self).in_reserve() == reserve_after(old(self).in_reserve() as int, has_memory),
            match r {
                Ok(element) => granted(old(self).in_reserve() as int, has_memory, flags)
                    && element.value() == init,
                Err(e) => !granted(old(self).in_reserve() as int, has_memory, flags) && e == Errno(
                    ENOMEM,
                ),
            },
    {
        match self.take(flags, has_memory) {
            Ok(()) => Ok(MemPoolBox { data: init }),
            Err(e) => Err(e),
        }
    }

    /// Gives the memory of an element back: to the reserve where it is not full, else to the
    /// allocator. Returns the value of the element.
    pub fn free(&mut self, element: MemPoolBox<T>) -> (r: T)
        ensures
            r == element.value(),
            final(self).capacity() == old(self).capacity(),
            final(self).in_reserve() == old(self).reserve_with(old(self).in_reserve() as int),
    {
        proof {
            use_type_invariant(&*self);
        }
        if self.reserve < self.minimum {
            self.reserve = self.reserve + 1;
        }
        element.data
    }
}

impl<T: Zeroable> MemPool<T> {
    /// Allocate a zeroed element from the pool.
    ///
    /// This is a convenience wrapper around [`MemPool::alloc_with`] that zero-initializes the
    /// allocated element. See [`MemPool::alloc_with`] for details on allocation semantics.
    pub fn alloc_zeroed(&mut self, flags: AllocFlags, has_memory: bool) -> (r: Result<
        MemPoolBox<T>,
    >)
        ensures
            final(self).capacity() == old(self).capacity(),
            final(self).in_reserve() == reserve_after(old(self).in_reserve() as int, has_memory),
            match r {
                Ok(element) => granted(old(self).in_reserve() as int, has_memory, flags)
                    && element.value().is_zero(),
                Err(e) => !granted(old(self).in_reserve() as int, has_memory, flags) && e == Errno(
                    ENOMEM,
                ),
            },
    {
        match self.take(flags, has_memory) {
            Ok(()) => Ok(MemPoolBox { data: T::init_zeroed() }),
            Err(e) => Err(e),
        }
    }
}

/// An owned allocation from a [`MemPool`], which is given back with [`MemPool::free`].
#[derive(Debug)]
pub struct MemPoolBox<T> {
    data: T,
}

impl<T> MemPoolBox<T> {
    /// The value of the element.
    pub closed spec fn value(self) -> T {
        self.data
    }

    /// Borrows the value.
    pub fn get(&self) -> (r: &T)
        ensures
            *r == self.value(),
    {
        &self.data
    }

    /// Borrows the value to modify it.
    pub fn get_mut(&mut self) -> (r: &mut T)
        ensures
            *r == old(self).value(),
            final(self).value() == *final(r),
    {
        &mut self.data
    }
}

} // verus!

//! Slab allocator sheaves.
//!
//! Sheaves are array-based caching layers for the slab allocator. They provide a mechanism for
//! pre-allocating objects that can later be retrieved without risking allocation failure, making
//! them useful in contexts where memory allocation must be guaranteed to succeed.

use crate::error::{to_result, Errno, Result, EINVAL, ENOMEM};
use crate::mm::mempool::Zeroable;
use crate::types::ownable::{Ownable, OwnableMut};
use core::marker::PhantomData;
use vstd::prelude::*;

verus! {

/// Trait for types that can be initialized in a slab cache.
///
/// The initializer is called when objects are allocated from a sheaf via [`Sheaf::alloc_object`].
pub trait KMemCacheInit: Sized {
    /// What a new object is like.
    spec fn is_initial(self) -> bool;

    /// Returns a new object.
    fn init() -> (r: Self)
        ensures
            r.is_initial(),
    ;
}

/// Objects that start as zeroes.
impl<T: Zeroable> KMemCacheInit for T {
    open spec fn is_initial(self) -> bool {
        self.is_zero()
    }

    fn init() -> (r: Self) {
        T::init_zeroed()
    }
}

/// A slab cache, known by its number.
#[derive(Debug, Clone, Copy, PartialEq, Eq, Structural)]
pub struct CacheId {
    /// Number of the cache.
    pub id: usize,
}

/// A slab cache with sheaf support that exists for the lifetime of the system.
#[derive(Debug)]
pub struct KMemCache<T: KMemCacheInit> {
    cache: CacheId,
    _p: PhantomData<T>,
}

/// A slab cache with sheaf support that was created at run time.
#[derive(Debug)]
pub struct KMemCacheHandle<T: KMemCacheInit> {
    cache: CacheId,
    capacity: u32,
    _p: PhantomData<T>,
}

/// Marker type for sheaves from caches that always exist.
#[derive(Debug)]
pub struct Static;

/// Marker type for sheaves from caches that were created at run time.
#[derive(Debug)]
pub struct Dynamic;

/// A sheaf from a static cache.
pub type StaticSheaf<T> = Sheaf<T, Static>;

/// A sheaf from a dynamic cache.
pub type DynamicSheaf<T> = Sheaf<T, Dynamic>;

/// A pre-filled container of slab objects.
///
/// Allocations from a sheaf are guaranteed to succeed until the sheaf is depleted.
#[derive(Debug)]
pub struct Sheaf<T: KMemCacheInit, A> {
    objects: usize,
    cache: CacheId,
    _p: PhantomData<(T, A)>,
}

/// The outcome of filling a sheaf with `size` objects; `filled` is the answer of the host, the
/// number of objects in the sheaf where there is one.
pub open spec fn prefilled<T: KMemCacheInit, A>(
    cache: CacheId,
    size: usize,
    filled: Option<usize>,
    r: Result<Sheaf<T, A>>,
) -> bool {
    match r {
        Ok(sheaf) => size <= u32::MAX && sheaf.origin() == cache && filled == Some(sheaf.left()),
        Err(e) => if size > u32::MAX {
            e == Errno(EINVAL)
        } else {
            filled is None && e == Errno(ENOMEM)
        },
    }
}

/// Creates a sheaf.
fn prefill<T: KMemCacheInit, A>(cache: CacheId, size: usize, filled: Option<usize>) -> (r: Result<
    Sheaf<T, A>,
>)
    requires
        filled matches Some(objects) ==> objects >= size,
    ensures
        prefilled(cache, size, filled, r),
        r matches Ok(sheaf) ==> sheaf.left() >= size,
{
    if size > u32::MAX as usize {
        return Err(Errno(EINVAL));
    }
    match filled {
        Some(objects) => Ok(Sheaf { objects, cache, _p: PhantomData }),
        None => Err(Errno(ENOMEM)),
    }
}

impl<T: KMemCacheInit> KMemCache<T> {
    /// The cache.
    pub closed spec fn id(&self) -> CacheId {
        self.cache
    }

    /// The cache with a number.
    pub fn from_raw(cache: CacheId) -> (r: Self)
        ensures
            r.id() == cache,
    {
        KMemCache { cache, _p: PhantomData }
    }

    /// Creates a pre-filled sheaf from this cache.
    ///
    /// Once created, allocations from the sheaf are guaranteed to succeed until the sheaf is
    /// depleted. The host allocates the sheaf with at least `size` objects (`filled`).
    pub fn sheaf(&self, size: usize, filled: Option<usize>) -> (r: Result<StaticSheaf<T>>)
        requires
            filled matches Some(objects) ==> objects >= size,
        ensures
            prefilled(self.id(), size, filled, r),
            r matches Ok(sheaf) ==> sheaf.left() >= size,
    {
        prefill(self.cache, size, filled)
    }
}

impl<T: KMemCacheInit> KMemCacheHandle<T> {
    /// The cache.
    pub closed spec fn id(&self) -> CacheId {
        self.cache
    }

    /// Number of objects that a sheaf of the cache can hold.
    pub closed spec fn capacity(&self) -> u32 {
        self.capacity
    }

    /// Creates a new slab cache with sheaf support, for objects of `object_size` bytes. The host
    /// creates the cache (`created`).
    pub fn new(object_size: usize, sheaf_capacity: u32, created: Option<CacheId>) -> (r: Result<
        Self,
    >)
        ensures
            match r {
                Ok(handle) => {
                    &&& object_size <= u32::MAX
                    &&& created == Some(handle.id())
                    &&& handle.capacity() == sheaf_capacity
                },
                Err(e) => if object_size > u32::MAX {
                    e == Errno(EINVAL)
                } else {
                    created is None && e == Errno(ENOMEM)
                },
            },
    {
        if object_size > u32::MAX as usize {
            return Err(Errno(EINVAL));
        }
        match created {
            Some(cache) => Ok(
                KMemCacheHandle { cache, capacity: sheaf_capacity, _p: PhantomData },
            ),
            None => Err(Errno(ENOMEM)),
        }
    }

    /// Creates a pre-filled sheaf from this cache.
    ///
    /// Once created, allocations from the sheaf are guaranteed to succeed until the sheaf is
    /// depleted. The host allocates the sheaf with at least `size` objects (`filled`).
    pub fn sheaf(&self, size: usize, filled: Option<usize>) -> (r: Result<DynamicSheaf<T>>)
        requires
            filled matches Some(objects) ==> objects >= size,
        ensures
            prefilled(self.id(), size, filled, r),
            r matches Ok(sheaf) ==> sheaf.left() >= size,
    {
        prefill(self.cache, size, filled)
    }
}

impl<T: KMemCacheInit, A> Sheaf<T, A> {
    /// Number of objects in the sheaf.
    pub closed spec fn left(&self) -> usize {
        self.objects
    }

    /// The cache from which the sheaf was created.
    pub closed spec fn origin(&self) -> CacheId {
        self.cache
    }

    /// Return the sheaf to its cache. Returns the cache, with the number of objects that the host
    /// keeps or frees.
    pub fn return_refill(self) -> (r: (CacheId, usize))
        ensures
            r == (self.origin(), self.left()),
    {
        (self.cache, self.objects)
    }

    /// Refills the sheaf to at least the specified size. `status` is the answer of the host,
    /// `refilled` the number of objects where it succeeded.
    ///
    /// If the sheaf already contains `size` or more objects, this is a no-op. If refilling fails,
    /// the existing sheaf is left intact.
    pub fn refill(&mut self, size: usize, status: i32, refilled: usize) -> (r: Result<()>)
        requires
            refilled >= size && refilled >= old(self).left(),
        ensures
            final(self).origin() == old(self).origin(),
            if size > u32::MAX {
                r == Err::<(), Errno>(Errno(EINVAL)) && final(self).left() == old(self).left()
            } else {
                match r {
                    Ok(_) => {
                        &&& status >= 0
                        &&& final(self).left() == (if old(self).left() >= size {
                            old(self).left()
                        } else {
                            refilled
                        })
                        &&& final(self).left() >= size
                    },
                    Err(e) => crate::block::mq::gen_disk::refused(status, e) && final(self).left()
                        == old(self).left(),
                }
            },
    {
        if size > u32::MAX as usize {
            return Err(Errno(EINVAL));
        }
        match to_result(status) {
            Ok(()) => {
                if self.objects < size {
                    self.objects = refilled;
                }
                Ok(())
            },
            Err(e) => Err(e),
        }
    }

    /// Allocates an object from the sheaf.
    ///
    /// Returns a new [`SBox`] containing an initialized object, or [`None`] if the sheaf is
    /// depleted.
    pub fn alloc_object(&mut self) -> (r: Option<SBox<T>>)
        ensures
            final(self).origin() == old(self).origin(),
            match r {
                Some(object) => {
                    &&& old(self).left() > 0
                    &&& final(self).left() == old(self).left() - 1
                    &&& object.value().is_initial()
                    &&& object.origin() == old(self).origin()
                },
                None => old(self).left() == 0 && final(self).left() == 0,
            },
    {
        if self.objects == 0 {
            return None;
        }
        self.objects = self.objects - 1;
        Some(SBox { value: T::init(), cache: self.cache })
    }
}

/// An owned allocation from a cache sheaf.
#[derive(Debug)]
pub struct SBox<T: KMemCacheInit> {
    value: T,
    cache: CacheId,
}

impl<T: KMemCacheInit> SBox<T> {
    /// The object.
    pub closed spec fn value(self) -> T {
        self.value
    }

    /// The cache from which the object was allocated.
    pub closed spec fn origin(self) -> CacheId {
        self.cache
    }

    /// Consumes the `SBox` and returns the contained value.
    ///
    /// The caller becomes responsible for freeing the memory. Use [`SBox::static_from_ptr`] to
    /// reconstruct an `SBox`.
    pub fn into_ptr(self) -> (r: T)
        ensures
            r == self.value(),
    {
        self.value
    }

    /// Reconstructs an `SBox` from a value and its cache.
    pub fn static_from_ptr(cache: CacheId, value: T) -> (r: Self)
        ensures
            r.value() == value,
            r.origin() == cache,
    {
        SBox { value, cache }
    }

    /// Borrows the object.
    pub fn get(&self) -> (r: &T)
        ensures
            *r == self.value(),
    {
        &self.value
    }

    /// Borrows the object to modify it.
    pub fn get_mut(&mut self) -> (r: &mut T)
        ensures
            *r == old(self).value(),
            final(self).value() == *final(r),
            final(self).origin() == old(self).origin(),
    {
        &mut self.value
    }

}

impl<T: KMemCacheInit> Ownable for SBox<T> {
    type Released = (CacheId, T);

    open spec fn released(self) -> (CacheId, T) {
        (self.origin(), self.value())
    }

    /// Gives the memory of the object back to its cache. Returns the cache and the object.
    fn release(this: Self) -> (r: (CacheId, T)) {
        (this.cache, this.value)
    }
}

impl<T: KMemCacheInit> OwnableMut for SBox<T> {

}

/// An object that is taken apart and put together again with its cache is the same object.
pub proof fn lemma_ptr_round_trip<T: KMemCacheInit>(object: SBox<T>, again: SBox<T>)
    requires
        again.value() == object.value(),
        again.origin() == object.origin(),
    ensures
        again == object,
{
}

} // verus!

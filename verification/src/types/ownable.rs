//! Owned objects that are released in their own way.

use vstd::prelude::*;

verus! {

/// An object that can be owned, and that is released when it is no longer owned.
pub trait Ownable: Sized {
    /// What is left of the object when it was released.
    type Released;

    /// What is left of the object.
    spec fn released(self) -> Self::Released;

    /// Releases the object (frees it or returns it to foreign ownership).
    fn release(this: Self) -> (r: Self::Released)
        ensures
            r == this.released(),
    ;
}

/// An object that can be owned and modified by its owner.
pub trait OwnableMut: Ownable {

}

/// An owned object.
///
/// The object is released with [`Owned::release`].
#[derive(Debug)]
pub struct Owned<T: Ownable> {
    value: T,
}

impl<T: Ownable> Owned<T> {
    /// The object.
    pub closed spec fn object(self) -> T {
        self.value
    }

    /// Creates a new instance of [`Owned`].
    ///
    /// It takes over ownership of the underlying object.
    pub fn from_raw(value: T) -> (r: Self)
        ensures
            r.object() == value,
    {
        Owned { value }
    }

    /// Consumes the [`Owned`], returning the object.
    ///
    /// The object is not released: after calling this function, the caller is responsible for it.
    pub fn into_raw(me: Self) -> (r: T)
        ensures
            r == me.object(),
    {
        me.value
    }

    /// Borrows the object.
    pub fn get(&self) -> (r: &T)
        ensures
            *r == self.object(),
    {
        &self.value
    }

    /// Gives up ownership.
    pub fn release(self) -> (r: T::Released)
        ensures
            r == self.object().released(),
    {
        T::release(self.value)
    }
}

impl<T: OwnableMut> Owned<T> {
    /// Borrows the object to modify it.
    pub fn get_mut(&mut self) -> (r: &mut T)
        ensures
            *r == old(self).object(),
            final(self).object() == *final(r),
    {
        &mut self.value
    }
}

/// Taking ownership and giving it up again hands back the same object.
pub proof fn lemma_raw_round_trip<T: Ownable>(owned: Owned<T>, again: Owned<T>)
    requires
        again.object() == owned.object(),
    ensures
        again == owned,
{
}

} // verus!

//! A container that can be initialized at most once.

use vstd::prelude::*;

verus! {

/// A container that can be populated at most once.
///
/// Once an [`OnceLock`] is populated, it remains populated by the same object for the lifetime of
/// `Self`. The state is zero where the container is empty, one where it is being populated and two
/// where it is populated; it never decreases.
#[derive(Debug)]
pub struct OnceLock<T> {
    init: u32,
    value: Option<T>,
}

impl<T> OnceLock<T> {
    #[verifier::type_invariant]
    spec fn well_formed(self) -> bool {
        (self.init == 0 && self.value is None) || (self.init == 2 && self.value is Some)
    }

    /// The object, where there is one.
    pub closed spec fn content(self) -> Option<T> {
        self.value
    }

    /// Create a new [`OnceLock`].
    ///
    /// The returned instance will be empty.
    pub fn new() -> (r: Self)
        ensures
            r.content() is None,
    {
        OnceLock { init: 0, value: None }
    }

    /// Get a reference to the contained object.
    ///
    /// Returns [`None`] if this [`OnceLock`] is empty.
    pub fn as_ref(&self) -> (r: Option<&T>)
        ensures
            match r {
                Some(value) => self.content() == Some(*value),
                None => self.content() is None,
            },
    {
        proof {
            use_type_invariant(self);
        }
        if self.init == 2 {
            match &self.value {
                Some(value) => Some(value),
                None => None,
            }
        } else {
            None
        }
    }

    /// Populate the [`OnceLock`].
    ///
    /// Returns `true` if the [`OnceLock`] was successfully populated.
    pub fn populate(&mut self, value: T) -> (r: bool)
        ensures
            r == (old(self).content() is None),
            final(self).content() == (if r {
                Some(value)
            } else {
                old(self).content()
            }),
    {
        proof {
            use_type_invariant(&*self);
        }
        if self.init == 0 {
            *self = OnceLock { init: 2, value: Some(value) };
            true
        } else {
            false
        }
    }

    /// Get a copy of the contained object.
    ///
    /// Returns [`None`] if the [`OnceLock`] is empty.
    pub fn copy(&self) -> (r: Option<T>) where T: Copy
        ensures
            r == self.content(),
    {
        match self.as_ref() {
            Some(value) => Some(*value),
            None => None,
        }
    }
}

impl<T> Default for OnceLock<T> {
    fn default() -> (r: Self)
        ensures
            r.content() is None,
    {
        Self::new()
    }
}

} // verus!

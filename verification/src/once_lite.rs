//! A one-time only execution primitive.
//!
//! This primitive is meant to be used to execute code only once. An example use case would be to
//! print a message only the first time.

use vstd::prelude::*;

verus! {

/// A low-level synchronization primitive for one-time execution.
#[derive(Debug, Clone, Copy, PartialEq, Eq, Structural)]
pub struct OnceLite(bool, bool);

impl OnceLite {
    /// A routine was started.
    pub closed spec fn started(self) -> bool {
        self.0
    }

    /// A call has completed.
    pub closed spec fn completed(self) -> bool {
        self.1
    }

    /// Creates a new `OnceLite` value.
    pub fn new() -> (r: Self)
        ensures
            !r.started(),
            !r.completed(),
    {
        OnceLite(false, false)
    }

    /// Performs an initialization routine once and only once. The given closure will be executed
    /// if this is the first time `call_once` has been called, and otherwise the routine will not be
    /// invoked. Returns what the routine returned.
    pub fn call_once<T, F: FnOnce() -> T>(&mut self, f: F) -> (r: Option<T>)
        requires
            !old(self).started() ==> call_requires(f, ()),
        ensures
            final(self).started(),
            final(self).completed(),
            match r {
                Some(value) => !old(self).started() && call_ensures(f, (), value),
                None => old(self).started(),
            },
    {
        let mut r: Option<T> = None;
        if !self.0 {
            self.0 = true;
            r = Some(f());
        }
        self.1 = true;
        r
    }

    /// Returns `true` if some `call_once` call has completed successfully. Specifically,
    /// `is_completed` will return `false` where `call_once()` was not called at all, or was called
    /// but has not yet completed.
    pub fn is_completed(&self) -> (r: bool)
        ensures
            r == self.completed(),
    {
        self.1
    }
}

} // verus!

//! Memory orderings.
//!
//! - [`Acquire`] and [`Release`] are similar to their counterpart in the Rust memory model.
//! - [`Full`] means "fully-ordered", that is:
//!   - It provides ordering between all the preceding memory accesses and the annotated operation.
//!   - It provides ordering between the annotated operation and all the following memory accesses.
//!   - It provides ordering between all the preceding memory accesses and all the following memory
//!     accesses.
//! - [`Relaxed`] is similar to the counterpart in the Rust memory model, except that dependency
//!   orderings are also honored.

use vstd::prelude::*;

verus! {

/// The annotation type for relaxed memory ordering.
#[derive(Debug, Clone, Copy)]
pub struct Relaxed;

/// The annotation type for acquire memory ordering.
#[derive(Debug, Clone, Copy)]
pub struct Acquire;

/// The annotation type for release memory ordering.
#[derive(Debug, Clone, Copy)]
pub struct Release;

/// The annotation type for fully-order memory ordering.
#[derive(Debug, Clone, Copy)]
pub struct Full;

/// Describes the exact memory ordering.
#[derive(Debug, Clone, Copy, PartialEq, Eq, Structural)]
pub enum OrderingType {
    /// Relaxed ordering.
    Relaxed,
    /// Acquire ordering.
    Acquire,
    /// Release ordering.
    Release,
    /// Fully-ordered.
    Full,
}

/// Unit types for ordering annotation.
pub trait OrderingUnit {
    /// Describes the exact memory ordering.
    spec fn kind_spec() -> OrderingType;

    /// Describes the exact memory ordering.
    fn kind() -> (r: OrderingType)
        ensures
            r == Self::kind_spec(),
    ;
}

impl OrderingUnit for Relaxed {
    open spec fn kind_spec() -> OrderingType {
        OrderingType::Relaxed
    }

    fn kind() -> (r: OrderingType) {
        OrderingType::Relaxed
    }
}

impl OrderingUnit for Acquire {
    open spec fn kind_spec() -> OrderingType {
        OrderingType::Acquire
    }

    fn kind() -> (r: OrderingType) {
        OrderingType::Acquire
    }
}

impl OrderingUnit for Release {
    open spec fn kind_spec() -> OrderingType {
        OrderingType::Release
    }

    fn kind() -> (r: OrderingType) {
        OrderingType::Release
    }
}

impl OrderingUnit for Full {
    open spec fn kind_spec() -> OrderingType {
        OrderingType::Full
    }

    fn kind() -> (r: OrderingType) {
        OrderingType::Full
    }
}

/// The trait bound for annotating operations that should support all orderings.
pub trait All: OrderingUnit {

}

impl All for Relaxed {

}

impl All for Acquire {

}

impl All for Release {

}

impl All for Full {

}

/// The trait bound for operations that only support acquire or relaxed ordering.
pub trait AcquireOrRelaxed: All {
    /// Describes whether an ordering is relaxed or not.
    fn is_relaxed() -> (r: bool)
        ensures
            r == (Self::kind_spec() == OrderingType::Relaxed),
            !r ==> Self::kind_spec() == OrderingType::Acquire,
    ;
}

impl AcquireOrRelaxed for Acquire {
    fn is_relaxed() -> (r: bool) {
        false
    }
}

impl AcquireOrRelaxed for Relaxed {
    fn is_relaxed() -> (r: bool) {
        true
    }
}

/// The trait bound for operations that only support release or relaxed ordering.
pub trait ReleaseOrRelaxed: All {
    /// Describes whether an ordering is relaxed or not.
    fn is_relaxed() -> (r: bool)
        ensures
            r == (Self::kind_spec() == OrderingType::Relaxed),
            !r ==> Self::kind_spec() == OrderingType::Release,
    ;
}

impl ReleaseOrRelaxed for Release {
    fn is_relaxed() -> (r: bool) {
        false
    }
}

impl ReleaseOrRelaxed for Relaxed {
    fn is_relaxed() -> (r: bool) {
        true
    }
}

/// The trait bound for operations that only support relaxed ordering.
pub trait RelaxedOnly: AcquireOrRelaxed + ReleaseOrRelaxed + All {

}

impl RelaxedOnly for Relaxed {

}

} // verus!

//! Atomics, containers that are populated once, references.

use rblk::once_lite::OnceLite;
use rblk::mm::sheaf::{CacheId, SBox};
use rblk::sync::aref::{ARef, Counted, Heap};
use rblk::sync::atomic::ordering::{
    AcquireOrRelaxed, OrderingType, OrderingUnit, ReleaseOrRelaxed,
};
use rblk::sync::atomic::{Acquire, Atomic, Full, Relaxed, Release};
use rblk::sync::once_lock::OnceLock;
use rblk::types::ownable::Owned;

#[test]
fn atomic_basic_tests() {
    assert_eq!(42i32, Atomic::new(42i32).load(Relaxed));
    assert_eq!(42i64, Atomic::new(42i64).load(Relaxed));
    assert_eq!(42u32, Atomic::new(42u32).load(Relaxed));
    assert_eq!(42u64, Atomic::new(42u64).load(Relaxed));
    assert_eq!(42isize, Atomic::new(42isize).load(Relaxed));
    assert_eq!(42usize, Atomic::new(42usize).load(Relaxed));
}

#[test]
fn atomic_xchg_tests() {
    let mut x = Atomic::new(42i32);
    assert_eq!(42, x.xchg(43, Full));
    assert_eq!(43, x.load(Relaxed));
    let mut x = Atomic::new(42i64);
    assert_eq!(42, x.xchg(43, Full));
    assert_eq!(43, x.load(Relaxed));
    let mut x = Atomic::new(42u32);
    assert_eq!(42, x.xchg(43, Full));
    assert_eq!(43, x.load(Relaxed));
    let mut x = Atomic::new(42u64);
    assert_eq!(42, x.xchg(43, Full));
    assert_eq!(43, x.load(Relaxed));
    let mut x = Atomic::new(42isize);
    assert_eq!(42, x.xchg(43, Full));
    assert_eq!(43, x.load(Relaxed));
    let mut x = Atomic::new(42usize);
    assert_eq!(42, x.xchg(43, Full));
    assert_eq!(43, x.load(Relaxed));
}

#[test]
fn atomic_cmpxchg_tests() {
    let mut x = Atomic::new(42i32);
    assert_eq!(Err(42), x.cmpxchg(43, 43, Full));
    assert_eq!(42, x.load(Relaxed));
    assert_eq!(Ok(42), x.cmpxchg(42, 43, Relaxed));
    assert_eq!(43, x.load(Relaxed));
    let mut x = Atomic::new(42i64);
    assert_eq!(Err(42), x.cmpxchg(43, 43, Full));
    assert_eq!(42, x.load(Relaxed));
    assert_eq!(Ok(42), x.cmpxchg(42, 43, Relaxed));
    assert_eq!(43, x.load(Relaxed));
    let mut x = Atomic::new(42u32);
    assert_eq!(Err(42), x.cmpxchg(43, 43, Full));
    assert_eq!(42, x.load(Relaxed));
    assert_eq!(Ok(42), x.cmpxchg(42, 43, Relaxed));
    assert_eq!(43, x.load(Relaxed));
    let mut x = Atomic::new(42u64);
    assert_eq!(Err(42), x.cmpxchg(43, 43, Full));
    assert_eq!(42, x.load(Relaxed));
    assert_eq!(Ok(42), x.cmpxchg(42, 43, Relaxed));
    assert_eq!(43, x.load(Relaxed));
    let mut x = Atomic::new(42isize);
    assert_eq!(Err(42), x.cmpxchg(43, 43, Full));
    assert_eq!(42, x.load(Relaxed));
    assert_eq!(Ok(42), x.cmpxchg(42, 43, Relaxed));
    assert_eq!(43, x.load(Relaxed));
    let mut x = Atomic::new(42usize);
    assert_eq!(Err(42), x.cmpxchg(43, 43, Full));
    assert_eq!(42, x.load(Relaxed));
    assert_eq!(Ok(42), x.cmpxchg(42, 43, Relaxed));
    assert_eq!(43, x.load(Relaxed));
}

#[test]
fn atomic_arithmetic_tests() {
    let mut x = Atomic::new(42i32);
    assert_eq!(42, x.fetch_add(12, Full));
    assert_eq!(54, x.load(Relaxed));
    x.add(13, Relaxed);
    assert_eq!(67, x.load(Relaxed));
    let mut x = Atomic::new(42i64);
    assert_eq!(42, x.fetch_add(12, Full));
    assert_eq!(54, x.load(Relaxed));
    x.add(13, Relaxed);
    assert_eq!(67, x.load(Relaxed));
    let mut x = Atomic::new(42u32);
    assert_eq!(42, x.fetch_add(12, Full));
    assert_eq!(54, x.load(Relaxed));
    x.add(13, Relaxed);
    assert_eq!(67, x.load(Relaxed));
    let mut x = Atomic::new(42u64);
    assert_eq!(42, x.fetch_add(12, Full));
    assert_eq!(54, x.load(Relaxed));
    x.add(13, Relaxed);
    assert_eq!(67, x.load(Relaxed));
    let mut x = Atomic::new(42isize);
    assert_eq!(42, x.fetch_add(12, Full));
    assert_eq!(54, x.load(Relaxed));
    x.add(13, Relaxed);
    assert_eq!(67, x.load(Relaxed));
    let mut x = Atomic::new(42usize);
    assert_eq!(42, x.fetch_add(12, Full));
    assert_eq!(54, x.load(Relaxed));
    x.add(13, Relaxed);
    assert_eq!(67, x.load(Relaxed));
}

#[test]
fn atomic_values_at_the_ends_of_their_words() {
    assert_eq!(u64::MAX, Atomic::new(u64::MAX).load(Acquire));
    assert_eq!(1u32 << 31, Atomic::new(1u32 << 31).load(Acquire));
    assert_eq!(usize::MAX, Atomic::new(usize::MAX).load(Acquire));
    assert_eq!(i32::MIN, Atomic::new(i32::MIN).load(Acquire));
    let mut x = Atomic::new(u64::MAX);
    assert_eq!(u64::MAX, x.fetch_add(2, Full));
    assert_eq!(1, x.load(Relaxed));
    let mut x = Atomic::new(i32::MAX);
    assert_eq!(i32::MAX, x.fetch_add(1, Full));
    assert_eq!(i32::MIN, x.load(Relaxed));
    let mut x = Atomic::new(usize::MAX);
    x.add(5, Relaxed);
    assert_eq!(4, x.load(Relaxed));
    let mut x = Atomic::new(7u32);
    x.store(u32::MAX, Release);
    assert_eq!(u32::MAX, x.load(Acquire));
}

#[test]
fn orderings_name_themselves() {
    assert_eq!(<Relaxed as OrderingUnit>::kind(), OrderingType::Relaxed);
    assert_eq!(<Acquire as OrderingUnit>::kind(), OrderingType::Acquire);
    assert_eq!(<Release as OrderingUnit>::kind(), OrderingType::Release);
    assert_eq!(<Full as OrderingUnit>::kind(), OrderingType::Full);
    assert!(<Relaxed as AcquireOrRelaxed>::is_relaxed());
    assert!(!<Acquire as AcquireOrRelaxed>::is_relaxed());
    assert!(<Relaxed as ReleaseOrRelaxed>::is_relaxed());
    assert!(!<Release as ReleaseOrRelaxed>::is_relaxed());
}

#[test]
fn once_lock_is_populated_once() {
    let mut value = OnceLock::new();
    assert_eq!(None, value.as_ref());

    let status = value.populate(42u8);
    assert_eq!(true, status);
    assert_eq!(Some(&42u8), value.as_ref());
    assert_eq!(Some(42u8), value.copy());

    let status = value.populate(101u8);
    assert_eq!(false, status);
    assert_eq!(Some(&42u8), value.as_ref());
    assert_eq!(Some(42u8), value.copy());
}

#[test]
fn once_lite_runs_its_first_routine_only() {
    let mut start = OnceLite::new();
    assert_eq!(start.is_completed(), false);
    assert_eq!(start.call_once(|| 42), Some(42));
    assert_eq!(start.is_completed(), true);
    assert_eq!(start.call_once(|| 43), None);
    assert_eq!(start.is_completed(), true);
}

#[test]
fn references_are_counted() {
    let mut heap = Heap { objects: vec![Some(Counted { references: 1, value: "disk" })] };
    let first = ARef::<Counted<&str>>::from_raw(0);
    let second = first.clone_ref(&mut heap);
    assert_eq!(second.get(&heap).references, 2);
    let third = ARef::<Counted<&str>>::from(0, &mut heap);
    assert_eq!(first.get(&heap).references, 3);
    assert_eq!(ARef::into_raw(third), 0);
    assert_eq!(first.get(&heap).references, 3);
    assert!(ARef::<Counted<&str>>::from_raw(0).release(&mut heap).is_none());
    assert!(second.release(&mut heap).is_none());
    let freed = first.release(&mut heap).unwrap();
    assert_eq!(freed.value, "disk");
    assert_eq!(freed.references, 0);
    assert!(heap.objects[0].is_none());
}

#[test]
fn owned_objects_are_released_in_their_own_way() {
    let cache = CacheId { id: 3 };
    let mut owned = Owned::from_raw(SBox::static_from_ptr(cache, 7u32));
    assert_eq!(*owned.get().get(), 7);
    *owned.get_mut().get_mut() = 8;
    assert_eq!(*Owned::into_raw(owned).get(), 8);
    assert_eq!(Owned::from_raw(SBox::static_from_ptr(cache, 9u32)).release(), (cache, 9));
}

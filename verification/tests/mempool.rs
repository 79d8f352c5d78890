//! Memory pools.

use rblk::error::{Errno, EINVAL, ENOMEM};
use rblk::mm::mempool::{AllocFlags, MemPool};
use std::cell::RefCell;
use std::rc::Rc;

const ATOMIC: AllocFlags = AllocFlags::Atomic;

#[test]
fn test_mempool_create() {
    let _pool = MemPool::<u64>::new(4, 0).unwrap();
}

#[test]
fn test_mempool_alloc() {
    let mut pool = MemPool::<u64>::new(4, 0).unwrap();
    let _item = pool.alloc_zeroed(ATOMIC, true).unwrap();
}

#[test]
fn test_mempool_alloc_is_zeroed() {
    let mut pool = MemPool::<u64>::new(4, 0).unwrap();
    let item = pool.alloc_zeroed(ATOMIC, true).unwrap();
    assert_eq!(*item.get(), 0u64);
}

#[test]
fn test_mempool_alloc_zeroed_array() {
    let mut pool = MemPool::<[u8; 64]>::new(4, 0).unwrap();
    let item = pool.alloc_zeroed(ATOMIC, true).unwrap();
    assert_eq!(*item.get(), [0u8; 64]);
}

#[test]
fn test_mempool_multiple_alloc() {
    let mut pool = MemPool::<u32>::new(8, 0).unwrap();
    let a = pool.alloc_zeroed(ATOMIC, true).unwrap();
    let b = pool.alloc_zeroed(ATOMIC, true).unwrap();
    let c = pool.alloc_zeroed(ATOMIC, true).unwrap();
    assert_eq!(*a.get(), 0u32);
    assert_eq!(*b.get(), 0u32);
    assert_eq!(*c.get(), 0u32);
}

#[test]
fn test_mempool_deref() {
    let mut pool = MemPool::<[u32; 4]>::new(2, 0).unwrap();
    let item = pool.alloc_zeroed(ATOMIC, true).unwrap();
    let val: &[u32; 4] = item.get();
    assert_eq!(val[0], 0);
    assert_eq!(val[3], 0);
}

#[test]
fn test_mempool_alloc_drop_realloc() {
    let mut pool = MemPool::<u64>::new(2, 0).unwrap();
    let item = pool.alloc_zeroed(ATOMIC, true).unwrap();
    assert_eq!(*item.get(), 0u64);
    assert_eq!(pool.free(item), 0u64);
    let item2 = pool.alloc_zeroed(ATOMIC, true).unwrap();
    assert_eq!(*item2.get(), 0u64);
}

#[test]
fn test_mempool_clone_shares_pool() {
    let pool = Rc::new(RefCell::new(MemPool::<u64>::new(4, 0).unwrap()));
    let pool2 = pool.clone();
    let a = pool.borrow_mut().alloc_zeroed(ATOMIC, true).unwrap();
    let b = pool2.borrow_mut().alloc_zeroed(ATOMIC, true).unwrap();
    assert_eq!(*a.get(), 0u64);
    assert_eq!(*b.get(), 0u64);
}

#[test]
fn test_mempool_outlives_pool() {
    let item;
    {
        let mut pool = MemPool::<u64>::new(2, 0).unwrap();
        item = pool.alloc_zeroed(ATOMIC, true).unwrap();
    }
    assert_eq!(*item.get(), 0u64);
}

#[test]
fn test_mempool_min_elements_zero() {
    let mut pool = MemPool::<u8>::new(0, 0).unwrap();
    let item = pool.alloc_zeroed(ATOMIC, true).unwrap();
    assert_eq!(*item.get(), 0u8);
}

struct Pair {
    key: u32,
    value: u64,
}

#[test]
fn test_mempool_alloc_with_init() {
    let mut pool = MemPool::<Pair>::new(4, 0).unwrap();
    let item = pool.alloc_with(Pair { key: 7, value: 42 }, ATOMIC, true).unwrap();
    assert_eq!(item.get().key, 7);
    assert_eq!(item.get().value, 42);
}

#[test]
fn test_mempool_alloc_multiple_with_init() {
    let mut pool = MemPool::<Pair>::new(4, 0).unwrap();
    let a = pool.alloc_with(Pair { key: 1, value: 10 }, ATOMIC, true).unwrap();
    let b = pool.alloc_with(Pair { key: 2, value: 20 }, ATOMIC, true).unwrap();
    assert_eq!(a.get().key, 1);
    assert_eq!(a.get().value, 10);
    assert_eq!(b.get().key, 2);
    assert_eq!(b.get().value, 20);
}

#[test]
fn test_mempool_alloc_init_deref_mut() {
    let mut pool = MemPool::<Pair>::new(2, 0).unwrap();
    let mut item = pool.alloc_with(Pair { key: 0, value: 0 }, ATOMIC, true).unwrap();
    item.get_mut().key = 99;
    item.get_mut().value = 1000;
    assert_eq!(item.get().key, 99);
    assert_eq!(item.get().value, 1000);
}

#[test]
fn test_mempool_alloc_init_drop_realloc() {
    let mut pool = MemPool::<Pair>::new(2, 0).unwrap();
    let item = pool.alloc_with(Pair { key: 1, value: 2 }, ATOMIC, true).unwrap();
    assert_eq!(item.get().key, 1);
    pool.free(item);
    let item2 = pool.alloc_with(Pair { key: 3, value: 4 }, ATOMIC, true).unwrap();
    assert_eq!(item2.get().key, 3);
    assert_eq!(item2.get().value, 4);
}

#[test]
fn test_mempool_alloc_init_beyond_min() {
    let mut pool = MemPool::<Pair>::new(2, 0).unwrap();
    let a = pool.alloc_with(Pair { key: 1, value: 1 }, ATOMIC, true).unwrap();
    let b = pool.alloc_with(Pair { key: 2, value: 2 }, ATOMIC, true).unwrap();
    let c = pool.alloc_with(Pair { key: 3, value: 3 }, ATOMIC, true).unwrap();
    assert_eq!(a.get().key, 1);
    assert_eq!(b.get().key, 2);
    assert_eq!(c.get().key, 3);
}

#[test]
fn pool_guarantees_its_minimum_without_memory() {
    let mut pool = MemPool::<u64>::new(3, 0).unwrap();
    for i in 0..3u64 {
        assert_eq!(*pool.alloc_with(i, ATOMIC, false).unwrap().get(), i);
    }
    assert_eq!(pool.alloc_with(9, ATOMIC, false).unwrap_err(), Errno(ENOMEM));
    assert_eq!(*pool.alloc_with(9, AllocFlags::Kernel, false).unwrap().get(), 9);
}

#[test]
fn pool_of_zero_elements_keeps_one_in_reserve() {
    let mut pool = MemPool::<u64>::new(0, 0).unwrap();
    let item = pool.alloc_with(1, ATOMIC, false).unwrap();
    assert!(pool.alloc_with(2, ATOMIC, false).is_err());
    pool.free(item);
    assert!(pool.alloc_with(3, ATOMIC, false).is_ok());
}

#[test]
fn pool_creation_errors() {
    assert_eq!(MemPool::<u64>::new(1 << 31, 0).unwrap_err(), Errno(EINVAL));
    assert_eq!(MemPool::<u64>::new(4, -12).unwrap_err(), Errno(ENOMEM));
    assert_eq!(MemPool::<u64>::new(4, -5000).unwrap_err(), Errno(EINVAL));
}

//! Sparse arrays.

use rblk::error::{Errno, EBUSY, ENOMEM};
use rblk::xarray::preload::{levels, XArrayPreloadBuffer, XArrayPreloadNode};
use rblk::xarray::{AllocKind, Entry, XArray};

fn filled(indexes: &[usize]) -> XArray<u32> {
    let mut xa = XArray::new(AllocKind::Alloc);
    let guard = xa.lock();
    for i in indexes {
        assert!(guard.store(*i, *i as u32 * 10, 0).unwrap().is_none());
    }
    xa
}

#[test]
fn stored_values_are_found() {
    let mut xa = filled(&[5, 2, 9]);
    let guard = xa.lock();
    assert_eq!(guard.get(2), Some(&20));
    assert_eq!(guard.get(3), None);
    assert!(guard.contains_index(9));
    assert!(!guard.contains_index(8));
    *guard.get_mut(5).unwrap() = 7;
    assert_eq!(guard.get(5), Some(&7));
    assert_eq!(guard.store(5, 8, 0).unwrap(), Some(7));
    assert_eq!(guard.remove(5), Some(8));
    assert_eq!(guard.remove(5), None);
    assert_eq!(xa.read().get(2), Some(&20));
}

#[test]
fn stores_that_fail_hand_the_value_back() {
    let mut xa = filled(&[1]);
    let guard = xa.lock();
    let error = guard.store(4, 44, -12).unwrap_err();
    assert_eq!(error.value, 44);
    assert_eq!(error.error, Errno(ENOMEM));
    assert_eq!(Errno::from(error), Errno(ENOMEM));
    assert_eq!(guard.get(4), None);
    assert_eq!(guard.get(1), Some(&10));
}

#[test]
fn the_next_value_is_found() {
    let mut xa = filled(&[5, 2, 9]);
    let guard = xa.lock();
    assert_eq!(guard.find_next(0), Some((2, &20)));
    assert_eq!(guard.find_next(2), Some((2, &20)));
    assert_eq!(guard.find_next(3), Some((5, &50)));
    assert_eq!(guard.find_next(10), None);
    let (index, value) = guard.find_next_mut(6).unwrap();
    assert_eq!(index, 9);
    *value = 1;
    assert_eq!(guard.get(9), Some(&1));
    assert_eq!(guard.find_next_entry(4).unwrap().index(), 5);
    assert!(guard.find_next_entry(10).is_none());
}

#[test]
fn the_search_wraps_around() {
    let mut xa = filled(&[5, 2]);
    let guard = xa.lock();
    assert_eq!(guard.find_next_entry_circular(3).unwrap().index(), 5);
    assert_eq!(guard.find_next_entry_circular(6).unwrap().index(), 2);
    assert_eq!(guard.find_next_entry_circular(usize::MAX).unwrap().index(), 2);
    let mut empty = XArray::<u32>::new(AllocKind::Alloc1);
    assert!(empty.lock().find_next_entry_circular(0).is_none());
}

#[test]
fn entries_are_filled_and_emptied() {
    let mut xa = filled(&[5]);
    let guard = xa.lock();
    match guard.entry(7) {
        Entry::Vacant(entry) => {
            assert_eq!(entry.index(), 7);
            *entry.insert(70, Ok(())).unwrap() += 1;
        }
        Entry::Occupied(_) => panic!("nothing was stored"),
    }
    assert_eq!(guard.get(7), Some(&71));
    match guard.entry(8) {
        Entry::Vacant(entry) => {
            let error = entry.insert(80, Err(Errno(EBUSY))).unwrap_err();
            assert_eq!((error.value, error.error), (80, Errno(EBUSY)));
        }
        Entry::Occupied(_) => panic!("nothing was stored"),
    }
    assert!(!guard.contains_index(8));
    match guard.entry(5) {
        Entry::Vacant(_) => panic!("a value was stored"),
        Entry::Occupied(entry) => {
            assert_eq!(*entry.get(), 50);
            assert_eq!(entry.insert(51), 50);
        }
    }
    match guard.entry(5) {
        Entry::Vacant(_) => panic!("a value was stored"),
        Entry::Occupied(entry) => *entry.into_mut() += 1,
    }
    match guard.entry(5) {
        Entry::Vacant(_) => panic!("a value was stored"),
        Entry::Occupied(entry) => assert_eq!(entry.remove(), 52),
    }
    assert!(!guard.contains_index(5));
}

#[test]
fn the_lock_may_be_taken() {
    let mut xa = filled(&[5]);
    assert!(xa.try_lock(0).is_none());
    assert_eq!(xa.try_lock(1).unwrap().get(5), Some(&50));
}

#[test]
fn preload_buffers_hold_nodes_for_their_entries() {
    let per_entry = levels();
    assert_eq!(per_entry, if usize::BITS == 64 { 11 } else { 6 });
    let mut buffer = XArrayPreloadBuffer::new(2).unwrap();
    assert_eq!(buffer.free_count(), 2 * per_entry);
    assert!(!buffer.full());
    assert!(buffer.take_one().is_none());
    let answers: Vec<usize> = (1..=2 * per_entry).collect();
    assert_eq!(buffer.preload(&answers), Ok(()));
    assert!(buffer.full());
    assert_eq!(buffer.free_count(), 0);
    assert_eq!(buffer.take_one().unwrap().into_raw(), 1);
    assert_eq!(buffer.take_one().unwrap().into_raw(), 2);
    assert_eq!(buffer.free_count(), 2);
    let mut nodes = vec![XArrayPreloadNode::from_raw(7), XArrayPreloadNode::from_raw(8)];
    assert_eq!(buffer.preload_with(&mut nodes), Ok(()));
    assert!(nodes.is_empty());
    assert!(buffer.full());
}

#[test]
fn preloading_stops_where_there_is_no_memory() {
    let mut buffer = XArrayPreloadBuffer::new(1).unwrap();
    let all = buffer.free_count();
    let mut answers = vec![0; all];
    answers[0] = 100;
    assert_eq!(buffer.preload(&answers), Err(Errno(ENOMEM)));
    assert_eq!(buffer.free_count(), all - 1);
    assert_eq!(XArrayPreloadNode::new(0), Err(Errno(ENOMEM)));
    assert_eq!(buffer.take_one().unwrap().into_raw(), 100);
}

//! An array which maps sparse integer indices to owned objects.

use crate::error::{Errno, Result};
use vstd::prelude::*;

pub mod preload;

verus! {

/// Configures the allocation tracking of an [`XArray`].
#[derive(Clone, Copy, Debug, PartialEq, Eq, Structural)]
pub enum AllocKind {
    /// Consider the first element to be at index 0.
    Alloc,
    /// Consider the first element to be at index 1.
    Alloc1,
}

/// Entries ordered by strictly increasing index.
pub open spec fn ordered<T>(entries: Seq<(usize, T)>) -> bool {
    forall|i: int, j: int| 0 <= i < j < entries.len() ==> entries[i].0 < entries[j].0
}

/// The position of an entry with index `index`.
pub open spec fn position_of<T>(entries: Seq<(usize, T)>, index: usize) -> int {
    choose|i: int| 0 <= i < entries.len() && entries[i].0 == index
}

/// The map that a sequence of entries stands for.
pub open spec fn entry_map<T>(entries: Seq<(usize, T)>) -> Map<usize, T> {
    Map::new(
        |index: usize| exists|i: int| 0 <= i < entries.len() && #[trigger] entries[i].0 == index,
        |index: usize| entries[position_of(entries, index)].1,
    )
}

/// `found` is the first index of `map` that is not below `index`, if there is any.
pub open spec fn is_next<T>(map: Map<usize, T>, index: usize, found: Option<usize>) -> bool {
    match found {
        Some(next) => {
            &&& index <= next
            &&& map.contains_key(next)
            &&& forall|k: usize| index <= k < next ==> !#[trigger] map.contains_key(k)
        },
        None => forall|k: usize| index <= k ==> !#[trigger] map.contains_key(k),
    }
}

/// `found` is the first index of `map` that is not below `index`; where there is none, it is the
/// first index of all.
pub open spec fn is_next_circular<T>(map: Map<usize, T>, index: usize, found: Option<usize>) -> bool {
    ||| found is Some && is_next(map, index, found)
    ||| is_next(map, index, None) && is_next(map, 0, found)
}

/// Content of an [`XArray`] while it is locked for exclusive access.
pub struct Guard<T> {
    entries: Vec<(usize, T)>,
}

/// An array which efficiently maps sparse integer indices to owned objects.
pub struct XArray<T> {
    kind: AllocKind,
    guard: Guard<T>,
}

proof fn lemma_entry<T>(entries: Seq<(usize, T)>, i: int)
    requires
        ordered(entries),
        0 <= i < entries.len(),
    ensures
        entry_map(entries).contains_key(entries[i].0),
        entry_map(entries)[entries[i].0] == entries[i].1,
{
    let p: int = position_of(entries, entries[i].0);
    assert(0 <= p < entries.len() && entries[p].0 == entries[i].0);
    assert(p == i);
}

proof fn lemma_absent<T>(entries: Seq<(usize, T)>, pos: int, index: usize)
    requires
        ordered(entries),
        0 <= pos <= entries.len(),
        forall|i: int| 0 <= i < pos ==> entries[i].0 < index,
        forall|i: int| pos <= i < entries.len() ==> index < entries[i].0,
    ensures
        !entry_map(entries).contains_key(index),
{
}

proof fn lemma_update<T>(before: Seq<(usize, T)>, pos: int)
    requires
        ordered(before),
        0 <= pos < before.len(),
    ensures
        forall|v: T|
            ordered(#[trigger] before.update(pos, (before[pos].0, v))) && entry_map(
                before.update(pos, (before[pos].0, v)),
            ) == entry_map(before).insert(before[pos].0, v),
{
    let index = before[pos].0;
    assert forall|v: T|
        ordered(#[trigger] before.update(pos, (index, v))) && entry_map(
            before.update(pos, (index, v)),
        ) == entry_map(before).insert(index, v) by {
        let after = before.update(pos, (index, v));
        assert forall|i: int| 0 <= i < after.len() implies #[trigger] after[i].0 == before[i].0 by {}
        assert forall|k: usize|
            entry_map(after).contains_key(k) <==> #[trigger] entry_map(before).insert(
                index,
                v,
            ).contains_key(k) by {
            if entry_map(after).contains_key(k) {
                let i: int = position_of(after, k);
                assert(0 <= i < after.len() && after[i].0 == k);
                assert(before[i].0 == k);
            }
            if k == index {
                assert(after[pos].0 == k);
            } else if entry_map(before).contains_key(k) {
                let i: int = position_of(before, k);
                assert(0 <= i < before.len() && before[i].0 == k);
                assert(after[i].0 == k);
            }
        }
        assert forall|k: usize| entry_map(after).contains_key(k) implies entry_map(after)[k]
            == #[trigger] entry_map(before).insert(index, v)[k] by {
            let i: int = position_of(after, k);
            assert(0 <= i < after.len() && after[i].0 == k);
            assert(before[i].0 == k);
            lemma_entry(before, i);
            lemma_entry(after, i);
        }
        assert(entry_map(after) =~= entry_map(before).insert(index, v));
    }
}

proof fn lemma_insert<T>(before: Seq<(usize, T)>, pos: int, index: usize, v: T)
    requires
        ordered(before),
        0 <= pos <= before.len(),
        forall|i: int| 0 <= i < pos ==> before[i].0 < index,
        forall|i: int| pos <= i < before.len() ==> index < before[i].0,
    ensures
        ordered(before.insert(pos, (index, v))),
        entry_map(before.insert(pos, (index, v))) == entry_map(before).insert(index, v),
{
    let after = before.insert(pos, (index, v));
    assert forall|i: int, j: int| 0 <= i < j < after.len() implies after[i].0 < after[j].0 by {
        if i != pos {
            assert(after[i] == before[if i < pos { i } else { i - 1 }]);
        }
        if j != pos {
            assert(after[j] == before[if j < pos { j } else { j - 1 }]);
        }
    }
    lemma_remove(after, pos);
    assert(after.remove(pos) =~= before);
    lemma_entry(after, pos);
    assert(entry_map(after) =~= entry_map(before).insert(index, v));
}

proof fn lemma_remove<T>(before: Seq<(usize, T)>, pos: int)
    requires
        ordered(before),
        0 <= pos < before.len(),
    ensures
        ordered(before.remove(pos)),
        entry_map(before.remove(pos)) == entry_map(before).remove(before[pos].0),
{
    let after = before.remove(pos);
    let index = before[pos].0;
    assert forall|i: int, j: int| 0 <= i < j < after.len() implies after[i].0 < after[j].0 by {
        assert(after[i] == before[if i < pos { i } else { i + 1 }]);
        assert(after[j] == before[if j < pos { j } else { j + 1 }]);
    }
    assert forall|k: usize| #![auto] entry_map(after).contains_key(k) <==> entry_map(before).remove(index).contains_key(k) by {
        if entry_map(after).contains_key(k) {
            let i: int = position_of(after, k);
            assert(0 <= i < after.len() && after[i].0 == k);
            assert(after[i] == before[if i < pos { i } else { i + 1 }]);
        }
        if entry_map(before).remove(index).contains_key(k) {
            let i: int = position_of(before, k);
            assert(0 <= i < before.len() && before[i].0 == k);
            assert(before[i] == after[if i < pos { i } else { i - 1 }]);
        }
    }
    assert forall|k: usize| entry_map(after).contains_key(k) implies entry_map(after)[k] == #[trigger] entry_map(before).remove(index)[k] by {
        let i: int = position_of(after, k);
        assert(0 <= i < after.len() && after[i].0 == k);
        assert(after[i] == before[if i < pos { i } else { i + 1 }]);
        lemma_entry(before, if i < pos { i } else { i + 1 });
    }
    assert(entry_map(after) =~= entry_map(before).remove(index));
}

impl<T> View for Guard<T> {
    type V = Map<usize, T>;

    closed spec fn view(&self) -> Map<usize, T> {
        entry_map(self.entries@)
    }
}

impl<T> View for XArray<T> {
    type V = Map<usize, T>;

    closed spec fn view(&self) -> Map<usize, T> {
        self.guard@
    }
}

/// The error returned by [`Guard::store`]: the underlying error and the value that was not stored.
#[derive(Debug)]
pub struct StoreError<T> {
    /// The error that occurred.
    pub error: Errno,
    /// The value that was not stored.
    pub value: T,
}

impl<T> From<StoreError<T>> for Errno {
    /// The underlying error.
    fn from(value: StoreError<T>) -> (r: Self) {
        value.error
    }
}

impl<T> vstd::std_specs::convert::FromSpecImpl<StoreError<T>> for Errno {
    open spec fn obeys_from_spec() -> bool {
        true
    }

    open spec fn from_spec(value: StoreError<T>) -> Self {
        value.error
    }
}

/// An entry of an [`XArray`], either vacant or occupied.
pub enum Entry<'b, T> {
    /// No element is stored at the index.
    Vacant(VacantEntry<'b, T>),
    /// An element is stored at the index.
    Occupied(OccupiedEntry<'b, T>),
}

/// A vacant entry.
pub struct VacantEntry<'b, T> {
    /// The array.
    pub guard: &'b mut Guard<T>,
    /// Index of the entry.
    pub index: usize,
}

/// An occupied entry.
pub struct OccupiedEntry<'b, T> {
    /// The array.
    pub guard: &'b mut Guard<T>,
    /// Index of the entry.
    pub index: usize,
}

impl<T> Guard<T> {
    /// The entries are ordered by index.
    pub closed spec fn inv(&self) -> bool {
        ordered(self.entries@)
    }

    /// Number of entries with an index below `index`.
    fn lower_bound(&self, index: usize) -> (pos: usize)
        requires
            self.inv(),
        ensures
            pos <= self.entries@.len(),
            forall|i: int| 0 <= i < pos ==> self.entries@[i].0 < index,
            forall|i: int| pos <= i < self.entries@.len() ==> index <= self.entries@[i].0,
    {
        let mut lo: usize = 0;
        let mut hi: usize = self.entries.len();
        while lo < hi
            invariant
                self.inv(),
                lo <= hi <= self.entries@.len(),
                forall|i: int| 0 <= i < lo ==> self.entries@[i].0 < index,
                forall|i: int| hi <= i < self.entries@.len() ==> index <= self.entries@[i].0,
            decreases hi - lo,
        {
            let mid: usize = lo + (hi - lo) / 2;
            if self.entries[mid].0 < index {
                lo = mid + 1;
            } else {
                hi = mid;
            }
        }
        lo
    }

    /// Finds the position of the element at the given index.
    fn load(&self, index: usize) -> (r: Option<usize>)
        requires
            self.inv(),
        ensures
            match r {
                Some(pos) => pos < self.entries@.len() && self.entries@[pos as int].0 == index
                    && self@.contains_key(index) && self@[index] == self.entries@[pos as int].1,
                None => !self@.contains_key(index),
            },
    {
        let pos: usize = self.lower_bound(index);
        if pos < self.entries.len() && self.entries[pos].0 == index {
            proof {
                lemma_entry(self.entries@, pos as int);
            }
            Some(pos)
        } else {
            proof {
                lemma_absent(self.entries@, pos as int, index);
            }
            None
        }
    }

    /// Checks if the array contains an element at the specified index.
    pub fn contains_index(&self, index: usize) -> (r: bool)
        requires
            self.inv(),
        ensures
            r == self@.contains_key(index),
    {
        self.load(index).is_some()
    }

    /// Provides a reference to the element at the given index.
    pub fn get(&self, index: usize) -> (r: Option<&T>)
        requires
            self.inv(),
        ensures
            r == (if self@.contains_key(index) { Some(&self@[index]) } else { None }),
    {
        match self.load(index) {
            Some(pos) => Some(&self.entries[pos].1),
            None => None,
        }
    }

    /// Provides a mutable reference to the element at the given index.
    pub fn get_mut(&mut self, index: usize) -> (r: Option<&mut T>)
        requires
            old(self).inv(),
        ensures
            final(self).inv(),
            match r {
                Some(element) => {
                    &&& old(self)@.contains_key(index)
                    &&& *element == old(self)@[index]
                    &&& final(self)@ == old(self)@.insert(index, *final(element))
                },
                None => !old(self)@.contains_key(index) && *final(self) == *old(self),
            },
    {
        match self.load(index) {
            Some(pos) => {
                proof {
                    lemma_update(self.entries@, pos as int);
                }
                Some(&mut self.entries[pos].1)
            },
            None => None,
        }
    }

    /// Gets an entry for the specified index, which can be vacant or occupied.
    pub fn entry<'b>(&'b mut self, index: usize) -> (r: Entry<'b, T>)
        requires
            old(self).inv(),
        ensures
            match r {
                Entry::Vacant(e) => {
                    &&& !old(self)@.contains_key(index)
                    &&& e.index == index
                    &&& *e.guard == *old(self)
                    &&& *final(self) == *final(e.guard)
                },
                Entry::Occupied(e) => {
                    &&& old(self)@.contains_key(index)
                    &&& e.index == index
                    &&& *e.guard == *old(self)
                    &&& *final(self) == *final(e.guard)
                },
            },
    {
        match self.load(index) {
            Some(_) => Entry::Occupied(OccupiedEntry { guard: self, index }),
            None => Entry::Vacant(VacantEntry { guard: self, index }),
        }
    }

    /// Finds the position of the first element whose index is not below `index`.
    fn load_next(&self, index: usize) -> (r: Option<usize>)
        requires
            self.inv(),
        ensures
            match r {
                Some(pos) => pos < self.entries@.len() && is_next(
                    self@,
                    index,
                    Some(self.entries@[pos as int].0),
                ) && self@[self.entries@[pos as int].0] == self.entries@[pos as int].1,
                None => is_next(self@, index, None),
            },
    {
        let pos: usize = self.lower_bound(index);
        if pos < self.entries.len() {
            proof {
                lemma_entry(self.entries@, pos as int);
                let next: usize = self.entries@[pos as int].0;
                assert forall|k: usize| index <= k < next implies !#[trigger] self@.contains_key(k) by {
                    lemma_absent(self.entries@, pos as int, k);
                }
            }
            Some(pos)
        } else {
            proof {
                assert forall|k: usize| index <= k implies !#[trigger] self@.contains_key(k) by {
                    lemma_absent(self.entries@, pos as int, k);
                }
            }
            None
        }
    }

    /// Finds the next element starting from the given index.
    pub fn find_next(&self, index: usize) -> (r: Option<(usize, &T)>)
        requires
            self.inv(),
        ensures
            match r {
                Some((next, element)) => is_next(self@, index, Some(next)) && *element
                    == self@[next],
                None => is_next(self@, index, None),
            },
    {
        match self.load_next(index) {
            Some(pos) => Some((self.entries[pos].0, &self.entries[pos].1)),
            None => None,
        }
    }

    /// Finds the next element starting from the given index, returning a mutable reference.
    pub fn find_next_mut(&mut self, index: usize) -> (r: Option<(usize, &mut T)>)
        requires
            old(self).inv(),
        ensures
            final(self).inv(),
            match r {
                Some((next, element)) => {
                    &&& is_next(old(self)@, index, Some(next))
                    &&& *element == old(self)@[next]
                    &&& final(self)@ == old(self)@.insert(next, *final(element))
                },
                None => is_next(old(self)@, index, None) && *final(self) == *old(self),
            },
    {
        match self.load_next(index) {
            Some(pos) => {
                proof {
                    lemma_update(self.entries@, pos as int);
                }
                let next: usize = self.entries[pos].0;
                Some((next, &mut self.entries[pos].1))
            },
            None => None,
        }
    }

    /// Finds the next occupied entry starting from the given index.
    pub fn find_next_entry<'b>(&'b mut self, index: usize) -> (r: Option<OccupiedEntry<'b, T>>)
        requires
            old(self).inv(),
        ensures
            match r {
                Some(e) => {
                    &&& is_next(old(self)@, index, Some(e.index))
                    &&& *e.guard == *old(self)
                    &&& *final(self) == *final(e.guard)
                },
                None => is_next(old(self)@, index, None) && *final(self) == *old(self),
            },
    {
        match self.load_next(index) {
            Some(pos) => {
                let next: usize = self.entries[pos].0;
                Some(OccupiedEntry { guard: self, index: next })
            },
            None => None,
        }
    }

    /// Finds the next occupied entry starting at the given index, wrapping around.
    ///
    /// Searches for an entry starting at `index` up to the maximum index. If no entry is found,
    /// wraps around and searches from index 0 up to `index`.
    pub fn find_next_entry_circular<'b>(&'b mut self, index: usize) -> (r: Option<
        OccupiedEntry<'b, T>,
    >)
        requires
            old(self).inv(),
        ensures
            match r {
                Some(e) => {
                    &&& is_next_circular(old(self)@, index, Some(e.index))
                    &&& *e.guard == *old(self)
                    &&& *final(self) == *final(e.guard)
                },
                None => is_next_circular(old(self)@, index, None) && *final(self) == *old(self),
            },
    {
        let found: Option<usize> = match self.load_next(index) {
            Some(pos) => Some(pos),
            None => self.load_next(0),
        };
        match found {
            Some(pos) => {
                let next: usize = self.entries[pos].0;
                Some(OccupiedEntry { guard: self, index: next })
            },
            None => None,
        }
    }

    /// Puts an element at an index that is vacant and returns a reference to it.
    fn insert_vacant(&mut self, index: usize, value: T) -> (r: &mut T)
        requires
            old(self).inv(),
            !old(self)@.contains_key(index),
        ensures
            final(self).inv(),
            *r == value,
            final(self)@ == old(self)@.insert(index, *final(r)),
    {
        let pos: usize = self.lower_bound(index);
        let ghost before = self.entries@;
        proof {
            if pos < before.len() && before[pos as int].0 == index {
                lemma_entry(before, pos as int);
            }
        }
        self.entries.insert(pos, (index, value));
        proof {
            lemma_insert(before, pos as int, index, value);
            lemma_update(self.entries@, pos as int);
            assert forall|v: T| #[trigger]
                entry_map(before).insert(index, value).insert(index, v) == entry_map(before).insert(
                index,
                v,
            ) by {
                assert(entry_map(before).insert(index, value).insert(index, v) =~= entry_map(
                    before,
                ).insert(index, v));
            }
        }
        &mut self.entries[pos].1
    }

    /// Stores an element at the given index. `errno` is the outcome of allocating the internal
    /// nodes that the store needs, zero for success.
    ///
    /// On success, returns the element which was previously at the given index.
    ///
    /// On failure, returns the element which was attempted to be stored.
    pub fn store(&mut self, index: usize, value: T, errno: i32) -> (r: core::result::Result<
        Option<T>,
        StoreError<T>,
    >)
        requires
            old(self).inv(),
        ensures
            final(self).inv(),
            match r {
                Ok(previous) => {
                    &&& errno == 0
                    &&& previous == (if old(self)@.contains_key(index) {
                        Some(old(self)@[index])
                    } else {
                        None
                    })
                    &&& final(self)@ == old(self)@.insert(index, value)
                },
                Err(e) => {
                    &&& errno != 0
                    &&& e.value == value
                    &&& e.error.0 == (if -4095 <= errno < 0 { errno } else { crate::error::EINVAL })
                    &&& *final(self) == *old(self)
                },
            },
    {
        if errno != 0 {
            return Err(StoreError { value, error: Errno::from_errno(errno) });
        }
        let previous = self.remove(index);
        let _ = self.insert_vacant(index, value);
        assert(self@ =~= old(self)@.insert(index, value));
        Ok(previous)
    }

    /// Removes and returns the element at the given index.
    pub fn remove(&mut self, index: usize) -> (r: Option<T>)
        requires
            old(self).inv(),
        ensures
            final(self).inv(),
            final(self)@ == old(self)@.remove(index),
            r == (if old(self)@.contains_key(index) { Some(old(self)@[index]) } else { None }),
    {
        match self.load(index) {
            Some(pos) => {
                let ghost before = self.entries@;
                let (_, element) = self.entries.remove(pos);
                proof {
                    lemma_remove(before, pos as int);
                }
                Some(element)
            },
            None => {
                assert(self@ =~= self@.remove(index));
                None
            },
        }
    }
}

impl<'b, T> VacantEntry<'b, T> {
    /// Nothing is stored at the index of the entry.
    pub open spec fn inv(&self) -> bool {
        self.guard.inv() && !self.guard@.contains_key(self.index)
    }

    /// The index of the entry.
    pub fn index(&self) -> (r: usize)
        ensures
            r == self.index,
    {
        self.index
    }

    /// Stores an element in the entry, or hands it back where the internal nodes could not be
    /// allocated (`room`).
    pub fn insert(self, value: T, room: Result<()>) -> (r: core::result::Result<
        &'b mut T,
        StoreError<T>,
    >)
        requires
            self.inv(),
        ensures
            final(self.guard).inv(),
            match r {
                Ok(element) => {
                    &&& room is Ok
                    &&& *element == value
                    &&& final(self.guard)@ == old(self.guard)@.insert(self.index, *final(element))
                },
                Err(e) => {
                    &&& room == Err::<(), Errno>(e.error)
                    &&& e.value == value
                    &&& *final(self.guard) == *old(self.guard)
                },
            },
    {
        match room {
            Ok(()) => Ok(self.guard.insert_vacant(self.index, value)),
            Err(error) => Err(StoreError { value, error }),
        }
    }
}

impl<'b, T> OccupiedEntry<'b, T> {
    /// The entry refers to an element of the array.
    pub open spec fn inv(&self) -> bool {
        self.guard.inv() && self.guard@.contains_key(self.index)
    }

    /// The index of the entry.
    pub fn index(&self) -> (r: usize)
        ensures
            r == self.index,
    {
        self.index
    }

    /// The element.
    pub fn get(&self) -> (r: &T)
        requires
            self.inv(),
        ensures
            *r == old(self.guard)@[self.index],
    {
        self.guard.get(self.index).unwrap()
    }

    /// Turns the entry into a mutable reference to its element.
    pub fn into_mut(self) -> (r: &'b mut T)
        requires
            self.inv(),
        ensures
            final(self.guard).inv(),
            *r == old(self.guard)@[self.index],
            final(self.guard)@ == old(self.guard)@.insert(self.index, *final(r)),
    {
        self.guard.get_mut(self.index).unwrap()
    }

    /// Replaces the element and returns the one that was there.
    pub fn insert(self, value: T) -> (r: T)
        requires
            self.inv(),
        ensures
            final(self.guard).inv(),
            final(self.guard)@ == old(self.guard)@.insert(self.index, value),
            r == old(self.guard)@[self.index],
    {
        let mut value = value;
        let element = self.guard.get_mut(self.index).unwrap();
        core::mem::swap(element, &mut value);
        value
    }

    /// Removes the element.
    pub fn remove(self) -> (r: T)
        requires
            self.inv(),
        ensures
            final(self.guard).inv(),
            final(self.guard)@ == old(self.guard)@.remove(self.index),
            r == old(self.guard)@[self.index],
    {
        self.guard.remove(self.index).unwrap()
    }
}

impl<T> XArray<T> {
    /// The content is well formed.
    pub closed spec fn inv(&self) -> bool {
        self.guard.inv()
    }

    /// How the array tracks allocations.
    pub closed spec fn alloc_kind(&self) -> AllocKind {
        self.kind
    }

    /// Creates an empty array.
    pub fn new(kind: AllocKind) -> (r: Self)
        ensures
            r.inv(),
            r.alloc_kind() == kind,
            r@ == Map::<usize, T>::empty(),
    {
        let r = XArray { kind, guard: Guard { entries: Vec::new() } };
        assert(r@ =~= Map::<usize, T>::empty());
        r
    }

    /// Attempts to lock the array for exclusive access; `acquired` is the answer of the lock, zero
    /// where somebody else holds it.
    pub fn try_lock(&mut self, acquired: i32) -> (r: Option<&mut Guard<T>>)
        ensures
            final(self).alloc_kind() == old(self).alloc_kind(),
            match r {
                Some(guard) => {
                    &&& acquired != 0
                    &&& guard@ == old(self)@
                    &&& guard.inv() == old(self).inv()
                    &&& final(self)@ == final(guard)@
                    &&& final(self).inv() == final(guard).inv()
                },
                None => acquired == 0 && *final(self) == *old(self),
            },
    {
        if acquired != 0 {
            Some(self.lock())
        } else {
            None
        }
    }

    /// An array holds finitely many elements.
    pub proof fn lemma_finite(&self)
        ensures
            self@.dom().finite(),
    {
        let entries = self.guard.entries@;
        let indices = entries.map_values(|entry: (usize, T)| entry.0);
        vstd::seq_lib::seq_to_set_is_finite(indices);
        assert forall|k: usize| self@.dom().contains(k) implies #[trigger] indices.to_set().contains(k) by {
            let i: int = position_of(entries, k);
            assert(0 <= i < entries.len() && entries[i].0 == k);
            assert(indices[i] == k);
        }
        assert(self@.dom().subset_of(indices.to_set()));
        vstd::set_lib::lemma_set_subset_finite(indices.to_set(), self@.dom());
    }

    /// The content, for reading.
    pub fn read(&self) -> (r: &Guard<T>)
        ensures
            r@ == self@,
            r.inv() == self.inv(),
    {
        &self.guard
    }

    /// Locks the array for exclusive access.
    pub fn lock(&mut self) -> (r: &mut Guard<T>)
        ensures
            r@ == old(self)@,
            r.inv() == old(self).inv(),
            final(self)@ == final(r)@,
            final(self).inv() == final(r).inv(),
            final(self).alloc_kind() == old(self).alloc_kind(),
    {
        &mut self.guard
    }
}

/// What is stored at an index is found there until it is replaced or removed, and no other index
/// is affected.
pub proof fn lemma_store_then_get<T>(map: Map<usize, T>, index: usize, other: usize, value: T)
    ensures
        map.insert(index, value).contains_key(index),
        map.insert(index, value)[index] == value,
        other != index ==> map.insert(index, value).contains_key(other) == map.contains_key(other),
        other != index ==> map.insert(index, value)[other] == map[other],
        !map.insert(index, value).remove(index).contains_key(index),
{
}

/// A circular search has one answer.
pub proof fn lemma_circular_unique<T>(map: Map<usize, T>, index: usize, a: Option<usize>, b: Option<usize>)
    requires
        is_next_circular(map, index, a),
        is_next_circular(map, index, b),
    ensures
        a == b,
{
}

/// A circular search finds nothing only in an empty array, and what it finds is stored there.
pub proof fn lemma_circular_search<T>(map: Map<usize, T>, index: usize, found: Option<usize>)
    requires
        is_next_circular(map, index, found),
    ensures
        found is None <==> map.dom() =~= Set::<usize>::empty(),
        found matches Some(next) ==> map.contains_key(next) && (next >= index || forall|k: usize|
            k >= index ==> !#[trigger] map.contains_key(k)),
{
    if found is None {
        assert forall|k: usize| !#[trigger] map.dom().contains(k) by {
            assert(!map.contains_key(k));
        }
    } else {
        assert(map.dom().contains(found->Some_0));
    }
}

} // verus!

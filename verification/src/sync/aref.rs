//! Internal reference counting support.
//!
//! Objects live in a [`Heap`], where a reference is the number of its object. Each object counts
//! the references to it and is freed with its last reference.

use core::marker::PhantomData;
use vstd::prelude::*;

verus! {

/// An object that counts the references to it.
pub trait RefCounted: Sized {
    /// Number of references.
    spec fn count(self) -> nat;

    /// The object with another number of references.
    spec fn counted(self, count: nat) -> Self;

    /// Counting changes nothing but the count.
    proof fn lemma_counted(self, count: nat)
        requires
            count <= usize::MAX,
        ensures
            self.counted(count).count() == count,
            self.counted(count).counted(self.count()) == self,
    ;

    /// Increments the reference count on the object.
    fn inc_ref(&mut self)
        requires
            0 < old(self).count() < usize::MAX,
        ensures
            *final(self) == old(self).counted(old(self).count() + 1),
            final(self).count() == old(self).count() + 1,
    ;

    /// Decrements the reference count on the object and tells whether no reference is left.
    fn dec_ref(&mut self) -> (r: bool)
        requires
            old(self).count() > 0,
        ensures
            *final(self) == old(self).counted((old(self).count() - 1) as nat),
            final(self).count() == old(self).count() - 1,
            r == (final(self).count() == 0),
    ;
}

/// An object to which a reference can be made wherever the object is, since it is always counted.
pub trait AlwaysRefCounted: RefCounted {

}

/// A value with a reference count.
#[derive(Debug)]
pub struct Counted<V> {
    /// Number of references.
    pub references: usize,
    /// The value.
    pub value: V,
}

impl<V> RefCounted for Counted<V> {
    open spec fn count(self) -> nat {
        self.references as nat
    }

    open spec fn counted(self, count: nat) -> Self {
        Counted { references: count as usize, value: self.value }
    }

    proof fn lemma_counted(self, count: nat) {
    }

    fn inc_ref(&mut self) {
        self.references = self.references + 1;
    }

    fn dec_ref(&mut self) -> (r: bool) {
        self.references = self.references - 1;
        self.references == 0
    }
}

impl<V> AlwaysRefCounted for Counted<V> {

}

/// Objects, by their number.
#[derive(Debug)]
pub struct Heap<T: RefCounted> {
    /// The objects; those that were freed are gone.
    pub objects: Vec<Option<T>>,
}

impl<T: RefCounted> Heap<T> {
    /// All objects are referenced.
    pub open spec fn inv(&self) -> bool {
        forall|i: int| 0 <= i < self.objects@.len() ==> match #[trigger] self.objects@[i] {
            Some(object) => object.count() > 0,
            None => true,
        }
    }

    /// There is an object with the number.
    pub open spec fn has(&self, number: int) -> bool {
        0 <= number < self.objects@.len() && self.objects@[number] is Some
    }

    /// The object with the number.
    pub open spec fn object(&self, number: int) -> T {
        self.objects@[number]->0
    }
}

/// A reference to an object.
///
/// It owns one increment of the reference count of the object.
#[derive(Debug)]
pub struct ARef<T: RefCounted> {
    number: usize,
    _p: PhantomData<T>,
}

impl<T: RefCounted> ARef<T> {
    /// The number of the object.
    pub closed spec fn target(self) -> int {
        self.number as int
    }

    /// Creates a new instance of [`ARef`].
    ///
    /// It takes over an increment of the reference count on the underlying object.
    pub fn from_raw(number: usize) -> (r: Self)
        ensures
            r.target() == number,
    {
        ARef { number, _p: PhantomData }
    }

    /// Consumes the `ARef`, returning the number of the object.
    ///
    /// This function does not change the refcount. After calling this function, the caller is
    /// responsible for the refcount previously managed by the `ARef`.
    pub fn into_raw(me: Self) -> (r: usize)
        ensures
            r == me.target(),
    {
        me.number
    }

    /// Borrows the object.
    pub fn get<'a>(&self, heap: &'a Heap<T>) -> (r: &'a T)
        requires
            heap.has(self.target()),
        ensures
            *r == heap.object(self.target()),
    {
        match &heap.objects[self.number] {
            Some(object) => object,
            None => {
                assert(false);
                vstd::pervasive::unreached()
            },
        }
    }

    /// Makes a further reference to the object.
    pub fn clone_ref(&self, heap: &mut Heap<T>) -> (r: Self)
        requires
            old(heap).inv(),
            old(heap).has(self.target()),
            old(heap).object(self.target()).count() < usize::MAX,
        ensures
            r.target() == self.target(),
            final(heap).inv(),
            final(heap).objects@ == referenced(old(heap).objects@, self.target()),
    {
        add_reference(heap, self.number);
        Self::from_raw(self.number)
    }

    /// Gives the reference up. The object is freed with its last reference, and returned then.
    pub fn release(self, heap: &mut Heap<T>) -> (r: Option<T>)
        requires
            old(heap).inv(),
            old(heap).has(self.target()),
        ensures
            final(heap).inv(),
            final(heap).objects@ == dereferenced(old(heap).objects@, self.target()),
            match r {
                Some(object) => old(heap).object(self.target()).count() == 1 && object == old(
                    heap,
                ).object(self.target()).counted(0),
                None => old(heap).object(self.target()).count() > 1,
            },
    {
        let mut object = match heap.objects[self.number].take() {
            Some(object) => object,
            None => {
                return None;
            },
        };
        let last: bool = object.dec_ref();
        if last {
            assert(heap.objects@ =~= dereferenced(old(heap).objects@, self.target()));
            Some(object)
        } else {
            heap.objects.set(self.number, Some(object));
            assert(heap.objects@ =~= dereferenced(old(heap).objects@, self.target()));
            None
        }
    }
}

impl<T: AlwaysRefCounted> ARef<T> {
    /// Makes a reference to an object.
    pub fn from(number: usize, heap: &mut Heap<T>) -> (r: Self)
        requires
            old(heap).inv(),
            old(heap).has(number as int),
            old(heap).object(number as int).count() < usize::MAX,
        ensures
            r.target() == number,
            final(heap).inv(),
            final(heap).objects@ == referenced(old(heap).objects@, number as int),
    {
        add_reference(heap, number);
        ARef::from_raw(number)
    }
}

/// The objects with a further reference to one of them.
pub open spec fn referenced<T: RefCounted>(objects: Seq<Option<T>>, number: int) -> Seq<
    Option<T>,
> {
    let object = objects[number]->0;
    objects.update(number, Some(object.counted(object.count() + 1)))
}

/// The objects with one reference less to one of them.
pub open spec fn dereferenced<T: RefCounted>(objects: Seq<Option<T>>, number: int) -> Seq<
    Option<T>,
> {
    let object = objects[number]->0;
    objects.update(
        number,
        if object.count() == 1 {
            None
        } else {
            Some(object.counted((object.count() - 1) as nat))
        },
    )
}

/// A reference that is made and given up again leaves all objects as they were.
pub proof fn lemma_clone_then_release<T: RefCounted>(heap: Heap<T>, number: int)
    requires
        heap.inv(),
        heap.has(number),
        heap.object(number).count() < usize::MAX,
    ensures
        dereferenced(referenced(heap.objects@, number), number) == heap.objects@,
{
    let object = heap.object(number);
    object.lemma_counted(object.count() + 1);
    assert(dereferenced(referenced(heap.objects@, number), number) =~= heap.objects@);
}

/// Counts a further reference.
fn add_reference<T: RefCounted>(heap: &mut Heap<T>, number: usize)
    requires
        old(heap).inv(),
        old(heap).has(number as int),
        old(heap).object(number as int).count() < usize::MAX,
    ensures
        final(heap).inv(),
        final(heap).objects@ == referenced(old(heap).objects@, number as int),
{
    let mut object = match heap.objects[number].take() {
        Some(object) => object,
        None => {
            return;
        },
    };
    object.inc_ref();
    heap.objects.set(number, Some(object));
    assert(heap.objects@ =~= referenced(old(heap).objects@, number as int));
}

} // verus!

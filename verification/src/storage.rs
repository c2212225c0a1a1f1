//! Storage for objects and the handles that refer to them.
//!
//! A handle is the identity of one stored object: two handles are equal
//! exactly if they refer to the same stored instance, whatever the objects
//! hold. Stored objects are never changed or removed.

use vstd::prelude::*;
use core::marker::PhantomData;

verus! {

/// The identity of an object in a [`Store`].
#[derive(Debug, PartialEq, Eq, Hash, PartialOrd, Ord)]
pub struct Handle<T> {
    index: usize,
    marker: PhantomData<T>,
}

impl<T> Clone for Handle<T> {
    /// Another handle to the same object. The object is not copied.
    fn clone(&self) -> (h: Handle<T>)
        ensures
            h == *self,
    {
        Handle { index: self.index, marker: PhantomData }
    }
}

impl<T> Handle<T> {
    /// The number that tells this handle from every other handle of its
    /// store.
    pub closed spec fn id(&self) -> nat {
        self.index as nat
    }

    /// Handles with the same identity are the same handle.
    pub proof fn lemma_same_id(self, other: Handle<T>)
        requires
            self.id() == other.id(),
        ensures
            self == other,
    {
    }

    /// The handle's identity as a number.
    pub fn index(&self) -> (i: usize)
        ensures
            i == self.id(),
    {
        self.index
    }

    /// Whether this handle was handed out before the other one. Handles are
    /// ordered by identity, whatever the objects hold.
    pub fn precedes(&self, other: &Handle<T>) -> (b: bool)
        ensures
            b == (self.id() < other.id()),
    {
        self.index < other.index
    }

    /// Whether both handles refer to the same stored object.
    pub fn same_as(&self, other: &Handle<T>) -> (b: bool)
        ensures
            b == (*self == *other),
            b == (self.id() == other.id()),
    {
        self.index == other.index
    }
}

/// An append-only store of objects of one kind.
pub struct Store<T> {
    objects: Vec<T>,
}

impl<T> View for Store<T> {
    type V = Seq<T>;

    closed spec fn view(&self) -> Seq<T> {
        self.objects@
    }
}

impl<T> Store<T> {
    /// Whether the handle refers to an object of this store.
    pub open spec fn holds(&self, handle: Handle<T>) -> bool {
        handle.id() < self@.len()
    }

    /// The object that the handle refers to.
    pub open spec fn spec_get(&self, handle: Handle<T>) -> T
        recommends
            self.holds(handle),
    {
        self@[handle.id() as int]
    }

    pub fn new() -> (s: Store<T>)
        ensures
            s@ == Seq::<T>::empty(),
    {
        Store { objects: Vec::new() }
    }

    pub fn len(&self) -> (n: usize)
        ensures
            n == self@.len(),
    {
        self.objects.len()
    }

    /// Store an object and hand out its identity.
    ///
    /// The handle is new: it differs from every handle that the store gave
    /// out before, also where an equal object is stored already. What was
    /// stored stays as it is.
    pub fn insert(&mut self, object: T) -> (handle: Handle<T>)
        ensures
            final(self)@ == old(self)@.push(object),
            handle.id() == old(self)@.len(),
            !old(self).holds(handle),
            final(self).holds(handle),
            final(self).spec_get(handle) == object,
            forall|h: Handle<T>|
                old(self).holds(h) ==> final(self).holds(h) && final(self).spec_get(h) == old(self).spec_get(h),
    {
        let index = self.objects.len();
        self.objects.push(object);
        Handle { index, marker: PhantomData }
    }

    /// Whether the handle refers to an object of this store.
    pub fn contains(&self, handle: &Handle<T>) -> (b: bool)
        ensures
            b == self.holds(*handle),
    {
        handle.index < self.objects.len()
    }

    /// Read the object that a handle refers to.
    pub fn get(&self, handle: &Handle<T>) -> (object: &T)
        requires
            self.holds(*handle),
        ensures
            *object == self.spec_get(*handle),
    {
        &self.objects[handle.index]
    }
}

} // verus!

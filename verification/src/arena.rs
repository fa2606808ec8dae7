//! Typed handles and the arenas they index.

use std::marker::PhantomData;
use vstd::prelude::*;
use vstd::std_specs::cmp::PartialEqSpecImpl;

verus! {

/// A typed index into an [`Arena`].
#[derive(Debug)]
pub struct Handle<T> {
    pub index: usize,
    pub marker: PhantomData<T>,
}

impl<T> Handle<T> {
    /// A handle to the element at position `index`.
    pub fn new(index: usize) -> (h: Self)
        ensures
            h.index == index,
    {
        Handle { index, marker: PhantomData }
    }

    /// The position that the handle refers to.
    pub fn index(&self) -> (i: usize)
        ensures
            i == self.index,
    {
        self.index
    }
}

impl<T> Clone for Handle<T> {
    fn clone(&self) -> (h: Self)
        ensures
            h == *self,
    {
        Handle { index: self.index, marker: PhantomData }
    }
}

impl<T> Copy for Handle<T> {
}

impl<T> PartialEq for Handle<T> {
    fn eq(&self, other: &Handle<T>) -> (r: bool) {
        self.index == other.index
    }
}

impl<T> PartialEqSpecImpl for Handle<T> {
    open spec fn obeys_eq_spec() -> bool {
        true
    }

    open spec fn eq_spec(&self, other: &Handle<T>) -> bool {
        self.index == other.index
    }
}

impl<T> Eq for Handle<T> {
}

/// A growable store of values addressed by [`Handle`]s.
#[derive(Debug)]
pub struct Arena<T> {
    pub data: Vec<T>,
}

impl<T> View for Arena<T> {
    type V = Seq<T>;

    open spec fn view(&self) -> Seq<T> {
        self.data@
    }
}

impl<T> Arena<T> {
    /// An empty arena.
    pub fn new() -> (a: Self)
        ensures
            a@ == Seq::<T>::empty(),
    {
        Arena { data: Vec::new() }
    }

    /// Number of stored values.
    pub fn len(&self) -> (n: usize)
        ensures
            n == self@.len(),
    {
        self.data.len()
    }

    /// Stores `value` at the end and returns its handle.
    pub fn append(&mut self, value: T) -> (h: Handle<T>)
        ensures
            final(self)@ == old(self)@.push(value),
            h.index == old(self)@.len(),
    {
        let index = self.data.len();
        self.data.push(value);
        Handle::new(index)
    }

    /// The value behind `handle`, or `None` when the handle is out of range.
    pub fn try_get(&self, handle: Handle<T>) -> (r: Option<&T>)
        ensures
            handle.index < self@.len() ==> r == Some(&self@[handle.index as int]),
            handle.index >= self@.len() ==> r is None,
    {
        if handle.index < self.data.len() {
            Some(&self.data[handle.index])
        } else {
            None
        }
    }

    /// The value behind an in-range `handle`.
    pub fn get(&self, handle: Handle<T>) -> (r: &T)
        requires
            handle.index < self@.len(),
        ensures
            *r == self@[handle.index as int],
    {
        &self.data[handle.index]
    }
}

} // verus!

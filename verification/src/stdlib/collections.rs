//! A growable vector that doubles its capacity.
use vstd::prelude::*;

verus! {

/// A growable vector.  Its capacity is the number of items that it can
/// hold before it grows.
pub struct Vector<T> {
    items: Vec<T>,
    capacity: usize,
}

/// The capacity after growing: 1 for an empty vector, else twice the
/// capacity, up to the largest number.
pub open spec fn grown(capacity: usize) -> usize {
    if capacity == 0 {
        1
    } else if capacity <= usize::MAX / 2 {
        (capacity * 2) as usize
    } else {
        usize::MAX
    }
}

impl<T> View for Vector<T> {
    type V = Seq<T>;

    closed spec fn view(&self) -> Seq<T> {
        self.items@
    }
}

impl<T> Vector<T> {
    /// The capacity, as a mathematical value.
    pub closed spec fn spec_capacity(&self) -> usize {
        self.capacity
    }

    /// The invariant: the items fit the capacity.
    pub closed spec fn wf(&self) -> bool {
        self.items@.len() <= self.capacity
    }

    /// An empty vector without capacity.
    pub fn new() -> (v: Self)
        ensures
            v.wf(),
            v@.len() == 0,
            v.spec_capacity() == 0,
    {
        Vector { items: Vec::new(), capacity: 0 }
    }

    /// An empty vector with room for `capacity` items.
    pub fn with_capacity(capacity: usize) -> (v: Self)
        ensures
            v.wf(),
            v@.len() == 0,
            v.spec_capacity() == capacity,
    {
        Vector { items: Vec::new(), capacity }
    }

    /// Appends an item.  A full vector grows first.
    pub fn push(&mut self, value: T)
        requires
            old(self).wf(),
        ensures
            final(self).wf(),
            final(self)@ == old(self)@.push(value),
            final(self).spec_capacity() == if old(self)@.len() == old(self).spec_capacity() {
                grown(old(self).spec_capacity())
            } else {
                old(self).spec_capacity()
            },
    {
        if self.items.len() == self.capacity {
            self.grow();
        }
        self.items.push(value);
        let _ = self.items.len();
    }

    /// Takes the last item off.
    pub fn pop(&mut self) -> (r: Option<T>)
        requires
            old(self).wf(),
        ensures
            final(self).wf(),
            final(self).spec_capacity() == old(self).spec_capacity(),
            old(self)@.len() == 0 ==> r is None && final(self)@ == old(self)@,
            old(self)@.len() > 0 ==> r == Some(old(self)@.last()) && final(self)@ == old(self)@.drop_last(),
    {
        self.items.pop()
    }

    /// The number of items.
    pub fn len(&self) -> (n: usize)
        ensures
            n == self@.len(),
    {
        self.items.len()
    }

    /// The number of items that fit before the vector grows.
    pub fn capacity(&self) -> (n: usize)
        ensures
            n == self.spec_capacity(),
    {
        self.capacity
    }

    /// Whether the vector holds no item.
    pub fn is_empty(&self) -> (r: bool)
        ensures
            r == (self@.len() == 0),
    {
        self.items.len() == 0
    }

    /// The item at `index`.
    pub fn get(&self, index: usize) -> (r: Option<&T>)
        ensures
            r == if index < self@.len() {
                Some(&self@[index as int])
            } else {
                None
            },
    {
        if index < self.items.len() {
            Some(&self.items[index])
        } else {
            None
        }
    }

    /// The items as a slice.
    pub fn as_slice(&self) -> (s: &[T])
        ensures
            s@ == self@,
    {
        self.items.as_slice()
    }

    /// Makes room: the capacity becomes `grown` of what it was.
    fn grow(&mut self)
        requires
            old(self).wf(),
            old(self).items@.len() == old(self).capacity,
        ensures
            final(self).items == old(self).items,
            final(self).capacity == grown(old(self).capacity),
            final(self).items@.len() < final(self).capacity || final(self).capacity == usize::MAX,
    {
        self.capacity = if self.capacity == 0 {
            1
        } else if self.capacity <= usize::MAX / 2 {
            self.capacity * 2
        } else {
            usize::MAX
        };
    }
}

} // verus!

//! A growable array: elements live in one owned buffer, tracked by a logical
//! capacity that starts at two slots and doubles whenever the length catches
//! up with it. Every operation is specified against the sequence of elements.

use vstd::prelude::*;

verus! {

/// Capacity after one round of growth: doubling, saturating at the machine
/// limit.
pub open spec fn grown_capacity(cap: usize) -> usize {
    if cap <= usize::MAX / 2 {
        (2 * cap) as usize
    } else {
        usize::MAX
    }
}

/// A growable array of `T` with explicit capacity bookkeeping.
pub struct MyVec<T> {
    data: Vec<T>,
    cap: usize,
}

impl<T> View for MyVec<T> {
    type V = Seq<T>;

    closed spec fn view(&self) -> Seq<T> {
        self.data@
    }
}

impl<T> MyVec<T> {
    /// The logical capacity: how many elements fit before the next growth.
    pub closed spec fn spec_capacity(&self) -> usize {
        self.cap
    }

    /// Well-formed: the elements fit in the capacity, which is never zero.
    pub open spec fn wf(&self) -> bool {
        self@.len() <= self.spec_capacity() && self.spec_capacity() >= 1
    }

    /// A fresh, empty array with room for two elements.
    pub fn new() -> (r: Self)
        ensures
            r@ == Seq::<T>::empty(),
            r.spec_capacity() == 2,
            r.wf(),
    {
        MyVec { data: Vec::new(), cap: 2 }
    }

    /// Append one element at the end, growing the capacity first when the
    /// array is full.
    pub fn push(&mut self, value: T)
        requires
            old(self).wf(),
            old(self)@.len() < usize::MAX,
        ensures
            final(self).wf(),
            final(self)@ == old(self)@.push(value),
            final(self).spec_capacity() == if old(self)@.len() == old(self).spec_capacity() {
                grown_capacity(old(self).spec_capacity())
            } else {
                old(self).spec_capacity()
            },
    {
        if self.data.len() == self.cap {
            self.cap = if self.cap <= usize::MAX / 2 {
                2 * self.cap
            } else {
                usize::MAX
            };
        }
        self.data.push(value);
    }

    /// Remove and return the last element; empty arrays yield nothing.
    pub fn pop(&mut self) -> (r: Option<T>)
        requires
            old(self).wf(),
        ensures
            final(self).wf(),
            final(self).spec_capacity() == old(self).spec_capacity(),
            old(self)@.len() == 0 ==> r is None && final(self)@ == old(self)@,
            old(self)@.len() > 0 ==> r == Some(old(self)@.last()) && final(self)@ == old(self)@.drop_last(),
    {
        self.data.pop()
    }

    /// Borrow the element at `index`, if there is one.
    pub fn get(&self, index: usize) -> (r: Option<&T>)
        ensures
            index < self@.len() ==> (r matches Some(v) && *v == self@[index as int]),
            index >= self@.len() ==> r is None,
    {
        if index < self.data.len() {
            Some(&self.data[index])
        } else {
            None
        }
    }

    /// Borrow the element at `index` mutably, if there is one.
    pub fn get_mut(&mut self, index: usize) -> (r: Option<&mut T>)
        requires
            old(self).wf(),
        ensures
            final(self).wf(),
            final(self).spec_capacity() == old(self).spec_capacity(),
            index >= old(self)@.len() ==> r is None && final(self)@ == old(self)@,
            index < old(self)@.len() ==> (r matches Some(m) && *m == old(self)@[index as int]
                && final(self)@ == old(self)@.update(index as int, *final(m))),
    {
        if index < self.data.len() {
            Some(&mut self.data[index])
        } else {
            None
        }
    }

    /// The number of elements.
    pub fn get_len(&self) -> (r: usize)
        ensures
            r == self@.len(),
    {
        self.data.len()
    }

    /// The logical capacity.
    pub fn get_capacity(&self) -> (r: usize)
        ensures
            r == self.spec_capacity(),
    {
        self.cap
    }

    /// All elements, as one borrowed slice.
    pub fn as_slice(&self) -> (r: &[T])
        ensures
            r@ == self@,
    {
        self.data.as_slice()
    }

    /// All elements, as one mutable slice.
    pub fn as_mut_slice(&mut self) -> (r: &mut [T])
        requires
            old(self).wf(),
        ensures
            r@ == old(self)@,
            final(self)@ == final(r)@,
            final(self).spec_capacity() == old(self).spec_capacity(),
            final(r)@.len() == old(self)@.len() ==> final(self).wf(),
    {
        self.data.as_mut_slice()
    }

    /// Place `value` at `index`, shifting everything from `index` on one slot
    /// to the right; the capacity grows first when the array is full.
    pub fn insert(&mut self, index: usize, value: T)
        requires
            old(self).wf(),
            index <= old(self)@.len(),
            old(self)@.len() < usize::MAX,
        ensures
            final(self).wf(),
            final(self)@ == old(self)@.insert(index as int, value),
            final(self).spec_capacity() == if old(self)@.len() == old(self).spec_capacity() {
                grown_capacity(old(self).spec_capacity())
            } else {
                old(self).spec_capacity()
            },
    {
        if self.data.len() == self.cap {
            self.cap = if self.cap <= usize::MAX / 2 {
                2 * self.cap
            } else {
                usize::MAX
            };
        }
        self.data.insert(index, value);
    }

    /// Take the element at `index` out, shifting everything behind it one slot
    /// to the left.
    pub fn remove(&mut self, index: usize) -> (r: T)
        requires
            old(self).wf(),
            index < old(self)@.len(),
        ensures
            final(self).wf(),
            final(self).spec_capacity() == old(self).spec_capacity(),
            r == old(self)@[index as int],
            final(self)@ == old(self)@.remove(index as int),
    {
        self.data.remove(index)
    }

    /// A cursor over borrowed elements, in order.
    pub fn iter(&self) -> (r: MyVecIter<'_, T>)
        ensures
            r.elems() == self@,
            r.pos() == 0,
    {
        MyVecIter { vec: self, pos: 0 }
    }

    /// A cursor over the positions of the elements, in order; each position
    /// can be handed to `get_mut` to reach the element itself.
    pub fn iter_mut(&self) -> (r: MutMyVecIter)
        ensures
            r.len() == self@.len(),
            r.pos() == 0,
    {
        MutMyVecIter { pos: 0, len: self.data.len() }
    }

    /// Consume the array into a cursor that hands the elements out by value,
    /// in order.
    pub fn into_iter(self) -> (r: MyVecIntoIntoIter<T>)
        ensures
            r.elems() == self@,
    {
        MyVecIntoIntoIter { items: self.data }
    }
}

impl<T: Clone> Clone for MyVec<T> {
    /// The clone holds, position by position, a clone of each element; its
    /// capacity starts fresh, as a new array's does.
    fn clone(&self) -> (r: Self)
        ensures
            r@.len() == self@.len(),
            forall|i: int| 0 <= i < self@.len() ==> cloned::<T>(self@[i], #[trigger] r@[i]),
            r.wf(),
    {
        let mut data: Vec<T> = Vec::new();
        let mut cap: usize = 2;
        let mut i: usize = 0;
        while i < self.data.len()
            invariant
                i <= self.data.len(),
                self.data.len() <= usize::MAX,
                data@.len() == i,
                forall|j: int| 0 <= j < i ==> cloned::<T>(self@[j], #[trigger] data@[j]),
                cap >= 1,
                data@.len() <= cap,
            decreases self.data.len() - i,
        {
            if data.len() == cap {
                cap = if cap <= usize::MAX / 2 {
                    2 * cap
                } else {
                    usize::MAX
                };
            }
            data.push(self.data[i].clone());
            i = i + 1;
        }
        MyVec { data, cap }
    }
}

/// Borrowing cursor over a `MyVec`: hands out `&T` in order.
pub struct MyVecIter<'a, T> {
    vec: &'a MyVec<T>,
    pos: usize,
}

impl<'a, T> MyVecIter<'a, T> {
    /// The elements walked over.
    pub closed spec fn elems(&self) -> Seq<T> {
        self.vec@
    }

    /// How many elements were already handed out.
    pub closed spec fn pos(&self) -> int {
        self.pos as int
    }

    /// The next element, or nothing once every element was handed out.
    pub fn next(&mut self) -> (r: Option<&'a T>)
        ensures
            final(self).elems() == old(self).elems(),
            old(self).pos() < old(self).elems().len() ==> (r matches Some(v) && *v == old(self).elems()[old(self).pos()] && final(self).pos() == old(self).pos() + 1),
            old(self).pos() >= old(self).elems().len() ==> r is None && final(self).pos() == old(self).pos(),
    {
        if self.pos < self.vec.data.len() {
            let r = &self.vec.data[self.pos];
            self.pos = self.pos + 1;
            Some(r)
        } else {
            None
        }
    }
}

/// Position cursor for mutable walks over a `MyVec`: hands out the indices
/// `0, 1, ...` up to the length the array had when the cursor was made.
pub struct MutMyVecIter {
    pos: usize,
    len: usize,
}

impl MutMyVecIter {
    /// The length being walked.
    pub closed spec fn len(&self) -> int {
        self.len as int
    }

    /// How many positions were already handed out.
    pub closed spec fn pos(&self) -> int {
        self.pos as int
    }

    /// The next position, or nothing once the walk is over.
    pub fn next(&mut self) -> (r: Option<usize>)
        ensures
            final(self).len() == old(self).len(),
            old(self).pos() < old(self).len() ==> r == Some(old(self).pos() as usize) && final(self).pos() == old(self).pos() + 1,
            old(self).pos() >= old(self).len() ==> r is None && final(self).pos() == old(self).pos(),
    {
        if self.pos < self.len {
            let r = self.pos;
            self.pos = self.pos + 1;
            Some(r)
        } else {
            None
        }
    }
}

/// Consuming cursor over a `MyVec`: hands the remaining elements out by value,
/// in order.
pub struct MyVecIntoIntoIter<T> {
    items: Vec<T>,
}

impl<T> MyVecIntoIntoIter<T> {
    /// The elements not yet handed out, in order.
    pub closed spec fn elems(&self) -> Seq<T> {
        self.items@
    }

    /// The first remaining element, or nothing once all were handed out.
    pub fn next(&mut self) -> (r: Option<T>)
        ensures
            old(self).elems().len() == 0 ==> r is None && final(self).elems() == old(self).elems(),
            old(self).elems().len() > 0 ==> r == Some(old(self).elems().first()) && final(self).elems() == old(self).elems().drop_first(),
    {
        if self.items.len() > 0 {
            let r = self.items.remove(0);
            proof {
                assert(self.elems() =~= old(self).elems().drop_first());
            }
            Some(r)
        } else {
            None
        }
    }
}

} // verus!

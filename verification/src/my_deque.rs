//! A circular double-ended queue: elements sit in a ring of slots, the front
//! at `head`, wrapping around the physical end of the buffer. Growth copies
//! the elements into a fresh, larger ring in logical order. Every operation is
//! specified against the logical sequence of elements, front first.

use vstd::prelude::*;

verus! {

use core::cmp::Ordering;
use vstd::std_specs::cmp::OrdSpec;
use vstd::std_specs::cmp::PartialEqSpec;
use vstd::std_specs::cmp::PartialOrdSpec;

/// Lexicographic order of two sequences under the elements' total order: the
/// first differing position decides; a strict prefix comes first.
pub open spec fn lex_cmp<T: Ord>(a: Seq<T>, b: Seq<T>) -> Ordering
    decreases a.len(),
{
    if a.len() == 0 && b.len() == 0 {
        Ordering::Equal
    } else if a.len() == 0 {
        Ordering::Less
    } else if b.len() == 0 {
        Ordering::Greater
    } else {
        match a[0].cmp_spec(&b[0]) {
            Ordering::Equal => lex_cmp(a.drop_first(), b.drop_first()),
            c => c,
        }
    }
}

/// Lexicographic order of two sequences under the elements' partial order:
/// the first differing position decides, and an incomparable pair leaves the
/// sequences incomparable.
pub open spec fn lex_partial_cmp<T: PartialOrd>(a: Seq<T>, b: Seq<T>) -> Option<Ordering>
    decreases a.len(),
{
    if a.len() == 0 && b.len() == 0 {
        Some(Ordering::Equal)
    } else if a.len() == 0 {
        Some(Ordering::Less)
    } else if b.len() == 0 {
        Some(Ordering::Greater)
    } else {
        match a[0].partial_cmp_spec(&b[0]) {
            Some(Ordering::Equal) => lex_partial_cmp(a.drop_first(), b.drop_first()),
            c => c,
        }
    }
}

/// Physical slot of logical position `i` in a ring of `cap` slots whose front
/// sits at slot `head`.
pub open spec fn ring_slot(head: int, cap: int, i: int) -> int {
    if head + i < cap {
        head + i
    } else {
        head + i - cap
    }
}

/// Ring capacity after one round of growth: an empty ring gets two slots, any
/// other doubles, saturating at the machine limit.
pub open spec fn ring_grown_capacity(cap: nat) -> nat {
    if cap == 0 {
        2
    } else if cap <= usize::MAX / 2 {
        2 * cap
    } else {
        usize::MAX as nat
    }
}

/// A double-ended queue over a circular buffer.
#[derive(Debug)]
pub struct MyDeque<T> {
    buf: Vec<Option<T>>,
    head: usize,
    len: usize,
}

impl<T> View for MyDeque<T> {
    type V = Seq<T>;

    closed spec fn view(&self) -> Seq<T> {
        Seq::new(
            self.len as nat,
            |i: int| self.buf@[ring_slot(self.head as int, self.buf@.len() as int, i)].unwrap(),
        )
    }
}

impl<T> MyDeque<T> {
    /// The number of slots in the ring.
    pub closed spec fn spec_capacity(&self) -> nat {
        self.buf@.len()
    }

    /// Well-formed ring: the elements fit, the front slot exists, and every
    /// occupied slot holds a value.
    pub closed spec fn wf(&self) -> bool {
        &&& self.len <= self.buf@.len()
        &&& (self.buf@.len() == 0 ==> self.head == 0)
        &&& (self.buf@.len() > 0 ==> self.head < self.buf@.len())
        &&& forall|i: int|
            0 <= i < self.len ==> (#[trigger] self.buf@[ring_slot(
                self.head as int,
                self.buf@.len() as int,
                i,
            )]) is Some
    }

    /// A fresh, empty deque over a ring of two slots.
    pub fn new() -> (r: Self)
        ensures
            r@ == Seq::<T>::empty(),
            r.spec_capacity() == 2,
            r.wf(),
    {
        let mut buf: Vec<Option<T>> = Vec::new();
        buf.push(None);
        buf.push(None);
        let d = MyDeque { buf, head: 0, len: 0 };
        proof {
            assert(d@ =~= Seq::<T>::empty());
        }
        d
    }

    /// A fresh, empty deque over a ring of exactly `cap` slots.
    pub fn with_capacity(cap: usize) -> (r: Self)
        ensures
            r@ == Seq::<T>::empty(),
            r.spec_capacity() == cap,
            r.wf(),
    {
        let d = MyDeque { buf: none_buf(cap), head: 0, len: 0 };
        proof {
            assert(d@ =~= Seq::<T>::empty());
        }
        d
    }

    /// Replace the ring by one of the grown capacity, holding the same
    /// elements in logical order starting at slot zero.
    fn grow(&mut self)
        requires
            old(self).wf(),
            old(self)@.len() < usize::MAX,
        ensures
            final(self).wf(),
            final(self)@ == old(self)@,
            final(self).spec_capacity() == ring_grown_capacity(old(self).spec_capacity()),
            final(self)@.len() < final(self).spec_capacity(),
    {
        let ghost orig = self@;
        let ghost buf0 = self.buf@;
        let ghost head0 = self.head as int;
        let ghost len0 = self.len as int;
        let cap = self.buf.len();
        let ghost cap0 = cap as int;
        let new_cap = if cap == 0 {
            2
        } else if cap <= usize::MAX / 2 {
            2 * cap
        } else {
            usize::MAX
        };
        let mut new_buf: Vec<Option<T>> = Vec::new();
        let mut i: usize = 0;
        let mut p: usize = self.head;
        while i < self.len
            invariant
                self.len == len0,
                self.head == head0,
                self.buf@.len() == cap0,
                cap == cap0,
                0 <= i <= len0,
                len0 <= cap0,
                cap0 > 0 ==> head0 < cap0,
                cap0 == 0 ==> len0 == 0,
                cap0 > 0 ==> p == ring_slot(head0, cap0, i as int) && p < cap0,
                new_buf@.len() == i,
                forall|j: int| 0 <= j < i ==> new_buf@[j] == buf0[ring_slot(head0, cap0, j)],
                forall|j: int|
                    i <= j < len0 ==> self.buf@[ring_slot(head0, cap0, j)] == buf0[ring_slot(
                        head0,
                        cap0,
                        j,
                    )],
                forall|j: int| 0 <= j < len0 ==> (#[trigger] buf0[ring_slot(head0, cap0, j)]) is Some,
            decreases len0 - i,
        {
            let v = self.buf[p].take();
            new_buf.push(v);
            p = if p + 1 == cap {
                0
            } else {
                p + 1
            };
            i = i + 1;
        }
        while new_buf.len() < new_cap
            invariant
                len0 <= new_buf@.len() <= new_cap,
                forall|j: int| 0 <= j < len0 ==> new_buf@[j] == buf0[ring_slot(head0, cap0, j)],
            decreases new_cap - new_buf@.len(),
        {
            new_buf.push(None);
        }
        self.buf = new_buf;
        self.head = 0;
        proof {
            assert forall|k: int| 0 <= k < len0 implies self.buf@[ring_slot(0, new_cap as int, k)]
                == buf0[ring_slot(head0, cap0, k)] by {
                assert(ring_slot(0, new_cap as int, k) == k);
            }
            assert(self@ =~= orig);
        }
    }

    /// The physical slot of logical position `i`; callable only on a
    /// well-formed, non-empty ring with `i` at most the length.
    fn slot_of(&self, i: usize) -> (p: usize)
        requires
            self.wf(),
            i <= self@.len(),
            self.spec_capacity() > 0,
            i < self.spec_capacity(),
        ensures
            p == ring_slot(self.head as int, self.spec_capacity() as int, i as int),
            p < self.spec_capacity(),
    {
        let cap = self.buf.len();
        if self.head >= cap - i {
            self.head - (cap - i)
        } else {
            self.head + i
        }
    }

    /// The raw content of the slot of logical position `i`, with every bounds
    /// check spelled out, so that it is defined whatever the fields hold: an
    /// out-of-range front or position reads as an empty slot.
    closed spec fn slot_content(&self, i: int) -> Option<T> {
        let cap = self.buf@.len() as int;
        if cap == 0 || self.head >= cap || i < 0 || i >= cap {
            None
        } else {
            self.buf@[ring_slot(self.head as int, cap, i)]
        }
    }

    /// Borrow the raw content of the slot of logical position `i`, with the
    /// same defensive bounds checks as `slot_content`.
    fn slot_ref(&self, i: usize) -> (r: Option<&T>)
        ensures
            r matches Some(v) ==> self.slot_content(i as int) == Some(*v),
            r is None ==> self.slot_content(i as int) is None,
    {
        let cap = self.buf.len();
        if cap == 0 || self.head >= cap || i >= cap {
            None
        } else {
            let p = if self.head >= cap - i {
                self.head - (cap - i)
            } else {
                self.head + i
            };
            self.buf[p].as_ref()
        }
    }

    /// Append one element at the back, growing the ring first when it is full.
    pub fn push_back(&mut self, value: T)
        requires
            old(self).wf(),
            old(self)@.len() < usize::MAX,
        ensures
            final(self).wf(),
            final(self)@ == old(self)@.push(value),
            final(self).spec_capacity() == if old(self)@.len() == old(self).spec_capacity() {
                ring_grown_capacity(old(self).spec_capacity())
            } else {
                old(self).spec_capacity()
            },
    {
        if self.len == self.buf.len() {
            self.grow();
        }
        let ghost pre = self@;
        let tail = self.slot_of(self.len);
        self.buf.set(tail, Some(value));
        self.len = self.len + 1;
        proof {
            assert(self@ =~= pre.push(value));
        }
    }

    /// Put one element in front of the first, growing the ring first when it
    /// is full.
    pub fn push_front(&mut self, value: T)
        requires
            old(self).wf(),
            old(self)@.len() < usize::MAX,
        ensures
            final(self).wf(),
            final(self)@ == seq![value] + old(self)@,
            final(self).spec_capacity() == if old(self)@.len() == old(self).spec_capacity() {
                ring_grown_capacity(old(self).spec_capacity())
            } else {
                old(self).spec_capacity()
            },
    {
        if self.len == self.buf.len() {
            self.grow();
        }
        let ghost pre = self@;
        let ghost h0 = self.head as int;
        let cap = self.buf.len();
        self.head = if self.head == 0 {
            cap - 1
        } else {
            self.head - 1
        };
        self.buf.set(self.head, Some(value));
        self.len = self.len + 1;
        proof {
            let c = self.buf@.len() as int;
            let h1 = self.head as int;
            assert(ring_slot(h1, c, 0) == h1);
            assert forall|i: int| 1 <= i < self.len implies (#[trigger] self.buf@[ring_slot(
                h1,
                c,
                i,
            )]) is Some && self.buf@[ring_slot(h1, c, i)] == Some(pre[i - 1]) by {
                assert(ring_slot(h0, c, i - 1) != h1);
                assert(ring_slot(h1, c, i) == ring_slot(h0, c, i - 1));
            }
            assert(self@ =~= seq![value] + pre);
        }
    }

    /// Remove and return the last element; an empty deque yields nothing.
    pub fn pop_back(&mut self) -> (r: Option<T>)
        requires
            old(self).wf(),
        ensures
            final(self).wf(),
            final(self).spec_capacity() == old(self).spec_capacity(),
            old(self)@.len() == 0 ==> r is None && final(self)@ == old(self)@,
            old(self)@.len() > 0 ==> r == Some(old(self)@.last()) && final(self)@ == old(self)@.drop_last(),
    {
        if self.len == 0 {
            None
        } else {
            let ghost pre = self@;
            let tail = self.slot_of(self.len - 1);
            let v = self.buf[tail].take();
            self.len = self.len - 1;
            proof {
                assert(self@ =~= pre.drop_last());
            }
            Some(v.unwrap())
        }
    }

    /// Remove and return the first element; an empty deque yields nothing.
    pub fn pop_front(&mut self) -> (r: Option<T>)
        requires
            old(self).wf(),
        ensures
            final(self).wf(),
            final(self).spec_capacity() == old(self).spec_capacity(),
            old(self)@.len() == 0 ==> r is None && final(self)@ == old(self)@,
            old(self)@.len() > 0 ==> r == Some(old(self)@.first()) && final(self)@ == old(self)@.drop_first(),
    {
        if self.len == 0 {
            None
        } else {
            let ghost pre = self@;
            let ghost h0 = self.head as int;
            let cap = self.buf.len();
            let p = self.slot_of(0);
            let v = self.buf[p].take();
            self.head = if self.head + 1 == cap {
                0
            } else {
                self.head + 1
            };
            self.len = self.len - 1;
            proof {
                let c = self.buf@.len() as int;
                let h1 = self.head as int;
                assert forall|i: int| 0 <= i < self.len implies (#[trigger] self.buf@[ring_slot(
                    h1,
                    c,
                    i,
                )]) is Some && self.buf@[ring_slot(h1, c, i)] == Some(pre[i + 1]) by {
                    assert(ring_slot(h0, c, i + 1) != ring_slot(h0, c, 0));
                    assert(ring_slot(h1, c, i) == ring_slot(h0, c, i + 1));
                }
                assert(self@ =~= pre.drop_first());
            }
            Some(v.unwrap())
        }
    }

    /// Borrow the last element, if there is one.
    pub fn peek_back(&self) -> (r: Option<&T>)
        requires
            self.wf(),
        ensures
            self@.len() == 0 ==> r is None,
            self@.len() > 0 ==> (r matches Some(v) && *v == self@.last()),
    {
        if self.len == 0 {
            None
        } else {
            let tail = self.slot_of(self.len - 1);
            self.buf[tail].as_ref()
        }
    }

    /// Borrow the first element, if there is one.
    pub fn peek_front(&self) -> (r: Option<&T>)
        requires
            self.wf(),
        ensures
            self@.len() == 0 ==> r is None,
            self@.len() > 0 ==> (r matches Some(v) && *v == self@.first()),
    {
        if self.len == 0 {
            None
        } else {
            let p = self.slot_of(0);
            self.buf[p].as_ref()
        }
    }

    /// The number of elements.
    pub fn len(&self) -> (r: usize)
        ensures
            r == self@.len(),
    {
        self.len
    }

    /// The number of slots in the ring.
    pub fn capacity(&self) -> (r: usize)
        ensures
            r == self.spec_capacity(),
    {
        self.buf.len()
    }

    pub fn is_empty(&self) -> (r: bool)
        ensures
            r <==> self@.len() == 0,
    {
        self.len == 0
    }

    pub fn is_full(&self) -> (r: bool)
        ensures
            r <==> self@.len() == self.spec_capacity(),
    {
        self.len == self.buf.len()
    }

    /// Borrow the element at logical position `index`, if there is one;
    /// position zero is the front.
    pub fn get(&self, index: usize) -> (r: Option<&T>)
        requires
            self.wf(),
        ensures
            index < self@.len() ==> (r matches Some(v) && *v == self@[index as int]),
            index >= self@.len() ==> r is None,
    {
        if index >= self.len {
            None
        } else {
            let p = self.slot_of(index);
            self.buf[p].as_ref()
        }
    }

    /// Borrow the element at logical position `index` mutably, if there is
    /// one.
    pub fn get_mut(&mut self, index: usize) -> (r: Option<&mut T>)
        requires
            old(self).wf(),
        ensures
            final(self).wf(),
            final(self).spec_capacity() == old(self).spec_capacity(),
            index >= old(self)@.len() ==> r is None && final(self)@ == old(self)@,
            index < old(self)@.len() ==> (r matches Some(m) && *m == old(self)@[index as int]
                && final(self)@.len() == old(self)@.len()
                && final(self)@[index as int] == *final(m)
                && forall|j: int|
                    0 <= j < old(self)@.len() && j != index ==> final(self)@[j] == old(self)@[j]),
    {
        if index >= self.len {
            None
        } else {
            let p = self.slot_of(index);
            self.buf[p].as_mut()
        }
    }

    /// Drop every element and reset the ring, keeping its capacity.
    pub fn clear(&mut self)
        ensures
            final(self).wf(),
            final(self)@ == Seq::<T>::empty(),
            final(self).spec_capacity() == old(self).spec_capacity(),
    {
        let cap = self.buf.len();
        self.buf = none_buf(cap);
        self.head = 0;
        self.len = 0;
        proof {
            assert(self@ =~= Seq::<T>::empty());
        }
    }

    /// Whether some element compares equal to `value`, front to back.
    pub fn contains(&self, value: &T) -> (r: bool) where T: PartialEq
        requires
            self.wf(),
        ensures
            T::obeys_eq_spec() ==> (r <==> exists|i: int|
                0 <= i < self@.len() && value.eq_spec(&self@[i])),
    {
        let mut i: usize = 0;
        while i < self.len
            invariant
                self.wf(),
                0 <= i <= self@.len(),
                self.len == self@.len(),
                T::obeys_eq_spec() ==> forall|j: int| 0 <= j < i ==> !value.eq_spec(&self@[j]),
            decreases self@.len() - i,
        {
            let elem = self.get(i).unwrap();
            if *value == *elem {
                return true;
            }
            i = i + 1;
        }
        false
    }

    /// Append every element of `values` at the back, in order.
    pub fn extend_from_vec(&mut self, values: Vec<T>)
        requires
            old(self).wf(),
            old(self)@.len() + values@.len() < usize::MAX,
        ensures
            final(self).wf(),
            final(self)@ == old(self)@ + values@,
    {
        let ghost all = values@;
        let mut rest = values;
        let ghost pre = self@;
        let mut taken: usize = 0;
        while rest.len() > 0
            invariant
                self.wf(),
                taken == all.len() - rest@.len(),
                rest@ == all.subrange(taken as int, all.len() as int),
                self@ == pre + all.subrange(0, taken as int),
                pre.len() + all.len() < usize::MAX,
            decreases rest@.len(),
        {
            let v = rest.remove(0);
            self.push_back(v);
            taken = taken + 1;
            proof {
                assert(rest@ =~= all.subrange(taken as int, all.len() as int));
                assert(self@ =~= pre + all.subrange(0, taken as int));
            }
        }
        proof {
            assert(self@ =~= pre + all);
        }
    }

    /// A cursor over borrowed elements, front to back.
    pub fn iter(&self) -> (r: MyDequeIter<'_, T>)
        requires
            self.wf(),
        ensures
            r.elems() == self@,
            r.pos() == 0,
            r.wf(),
    {
        MyDequeIter { deque: self, pos: 0 }
    }

    /// A cursor over the logical positions of the elements, front to back;
    /// each position can be handed to `get_mut` to reach the element itself.
    pub fn iter_mut(&self) -> (r: MutMyDequeIter)
        ensures
            r.len() == self@.len(),
            r.pos() == 0,
    {
        MutMyDequeIter { pos: 0, len: self.len }
    }

    /// Consume the deque into a cursor that hands the elements out by value,
    /// front to back.
    pub fn into_iter(self) -> (r: MyDequeIntoIter<T>)
        requires
            self.wf(),
        ensures
            r.elems() == self@,
    {
        let ghost orig = self@;
        let mut d = self;
        let mut items: Vec<T> = Vec::new();
        while d.len() > 0
            invariant
                d.wf(),
                items@ + d@ == orig,
            decreases d@.len(),
        {
            let v = d.pop_front().unwrap();
            items.push(v);
            proof {
                assert(items@ + d@ =~= orig);
            }
        }
        proof {
            assert(items@ =~= orig);
        }
        MyDequeIntoIter { items }
    }

    /// Lexicographic comparison with another deque, front to back.
    pub fn cmp(&self, other: &Self) -> (r: Ordering) where T: Ord
        requires
            self.wf(),
            other.wf(),
        ensures
            T::obeys_cmp_spec() ==> r == lex_cmp(self@, other@),
    {
        let n1 = self.len();
        let n2 = other.len();
        let mut i: usize = 0;
        proof {
            assert(self@.skip(0) =~= self@);
            assert(other@.skip(0) =~= other@);
        }
        while i < n1 && i < n2
            invariant
                self.wf(),
                other.wf(),
                n1 == self@.len(),
                n2 == other@.len(),
                i <= n1,
                i <= n2,
                T::obeys_cmp_spec() ==> lex_cmp(self@, other@) == lex_cmp(
                    self@.skip(i as int),
                    other@.skip(i as int),
                ),
            decreases n1 - i,
        {
            let a = self.get(i).unwrap();
            let b = other.get(i).unwrap();
            match a.cmp(b) {
                Ordering::Equal => {
                    proof {
                        assert(self@.skip(i as int).drop_first() =~= self@.skip(i + 1));
                        assert(other@.skip(i as int).drop_first() =~= other@.skip(i + 1));
                    }
                    i = i + 1;
                },
                c => {
                    return c;
                },
            }
        }
        proof {
            assert(self@.skip(i as int).len() == n1 - i);
            assert(other@.skip(i as int).len() == n2 - i);
        }
        if n1 == n2 {
            Ordering::Equal
        } else if n1 < n2 {
            Ordering::Less
        } else {
            Ordering::Greater
        }
    }

    /// Lexicographic comparison with another deque under a partial order,
    /// front to back; an incomparable pair of elements decides for
    /// incomparable.
    pub fn partial_cmp(&self, other: &Self) -> (r: Option<Ordering>) where T: PartialOrd
        requires
            self.wf(),
            other.wf(),
        ensures
            T::obeys_partial_cmp_spec() ==> r == lex_partial_cmp(self@, other@),
    {
        let n1 = self.len();
        let n2 = other.len();
        let mut i: usize = 0;
        proof {
            assert(self@.skip(0) =~= self@);
            assert(other@.skip(0) =~= other@);
        }
        while i < n1 && i < n2
            invariant
                self.wf(),
                other.wf(),
                n1 == self@.len(),
                n2 == other@.len(),
                i <= n1,
                i <= n2,
                T::obeys_partial_cmp_spec() ==> lex_partial_cmp(self@, other@) == lex_partial_cmp(
                    self@.skip(i as int),
                    other@.skip(i as int),
                ),
            decreases n1 - i,
        {
            let a = self.get(i).unwrap();
            let b = other.get(i).unwrap();
            match a.partial_cmp(b) {
                Some(Ordering::Equal) => {
                    proof {
                        assert(self@.skip(i as int).drop_first() =~= self@.skip(i + 1));
                        assert(other@.skip(i as int).drop_first() =~= other@.skip(i + 1));
                    }
                    i = i + 1;
                },
                c => {
                    return c;
                },
            }
        }
        proof {
            assert(self@.skip(i as int).len() == n1 - i);
            assert(other@.skip(i as int).len() == n2 - i);
        }
        if n1 == n2 {
            Some(Ordering::Equal)
        } else if n1 < n2 {
            Some(Ordering::Less)
        } else {
            Some(Ordering::Greater)
        }
    }

    /// A structural copy: the clone holds, position by position, a clone of
    /// each element, in a ring of the same capacity.
    pub fn clone(&self) -> (r: Self) where T: Clone
        requires
            self.wf(),
        ensures
            r.wf(),
            r@.len() == self@.len(),
            forall|i: int| 0 <= i < self@.len() ==> cloned::<T>(self@[i], #[trigger] r@[i]),
            r.spec_capacity() == self.spec_capacity(),
    {
        let mut buf: Vec<Option<T>> = Vec::new();
        let mut k: usize = 0;
        let cap = self.buf.len();
        while k < cap
            invariant
                0 <= k <= cap,
                cap == self.buf@.len(),
                buf@.len() == k,
                forall|j: int|
                    0 <= j < k ==> cloned_slot(self.buf@[j], #[trigger] buf@[j]),
            decreases cap - k,
        {
            let c = match &self.buf[k] {
                Some(v) => Some(v.clone()),
                None => None,
            };
            buf.push(c);
            k = k + 1;
        }
        let r = MyDeque { buf, head: self.head, len: self.len };
        proof {
            assert forall|i: int| 0 <= i < self@.len() implies cloned::<T>(
                self@[i],
                #[trigger] r@[i],
            ) by {
                assert(cloned_slot(
                    self.buf@[ring_slot(self.head as int, self.buf@.len() as int, i)],
                    r.buf@[ring_slot(self.head as int, self.buf@.len() as int, i)],
                ));
            }
        }
        r
    }
}

/// Slot-wise equality: both slots empty, or both held, with the values equal
/// under the elements' own equality.
spec fn slot_eq<T: PartialEq>(a: Option<T>, b: Option<T>) -> bool {
    match (a, b) {
        (Some(x), Some(y)) => x.eq_spec(&y),
        (None, None) => true,
        _ => false,
    }
}

impl<T: PartialEq> PartialEq for MyDeque<T> {
    /// Structural equality: the same number of elements, equal position by
    /// position, front to back.
    fn eq(&self, other: &Self) -> (r: bool) {
        if self.len != other.len {
            return false;
        }
        let mut i: usize = 0;
        while i < self.len
            invariant
                i <= self.len,
                self.len == other.len,
                T::obeys_eq_spec() ==> forall|j: int|
                    0 <= j < i ==> slot_eq(
                        #[trigger] self.slot_content(j),
                        other.slot_content(j),
                    ),
            decreases self.len - i,
        {
            let a = self.slot_ref(i);
            let b = other.slot_ref(i);
            match (a, b) {
                (Some(x), Some(y)) => {
                    if *x == *y {
                    } else {
                        return false;
                    }
                },
                (None, None) => {},
                _ => {
                    return false;
                },
            }
            i = i + 1;
        }
        true
    }
}

impl<T: PartialEq> vstd::std_specs::cmp::PartialEqSpecImpl for MyDeque<T> {
    open spec fn obeys_eq_spec() -> bool {
        T::obeys_eq_spec()
    }

    /// Two deques are equal when they are equally long and the slots of each
    /// logical position hold equal contents.
    closed spec fn eq_spec(&self, other: &Self) -> bool {
        &&& self.len == other.len
        &&& forall|i: int|
            0 <= i < self.len ==> slot_eq(#[trigger] self.slot_content(i), other.slot_content(i))
    }
}

impl<T: Eq> Eq for MyDeque<T> {
}

/// Slot-wise clone relation: emptiness is kept, and a held value is a clone of
/// the original.
pub open spec fn cloned_slot<T: Clone>(a: Option<T>, b: Option<T>) -> bool {
    (a is Some <==> b is Some) && (a is Some ==> cloned::<T>(a.unwrap(), b.unwrap()))
}

/// A ring of `cap` empty slots.
fn none_buf<T>(cap: usize) -> (r: Vec<Option<T>>)
    ensures
        r@.len() == cap,
        forall|i: int| 0 <= i < cap ==> (#[trigger] r@[i]) is None,
{
    let mut buf: Vec<Option<T>> = Vec::new();
    while buf.len() < cap
        invariant
            buf@.len() <= cap,
            forall|i: int| 0 <= i < buf@.len() ==> (#[trigger] buf@[i]) is None,
        decreases cap - buf@.len(),
    {
        buf.push(None);
    }
    buf
}

/// Borrowing cursor over a `MyDeque`: hands out `&T` front to back.
pub struct MyDequeIter<'a, T> {
    deque: &'a MyDeque<T>,
    pos: usize,
}

impl<'a, T> MyDequeIter<'a, T> {
    /// The elements walked over.
    pub closed spec fn elems(&self) -> Seq<T> {
        self.deque@
    }

    /// How many elements were already handed out.
    pub closed spec fn pos(&self) -> int {
        self.pos as int
    }

    /// The borrowed deque is a well-formed ring.
    pub closed spec fn wf(&self) -> bool {
        self.deque.wf()
    }

    /// The next element, or nothing once every element was handed out.
    pub fn next(&mut self) -> (r: Option<&'a T>)
        requires
            old(self).wf(),
        ensures
            final(self).wf(),
            final(self).elems() == old(self).elems(),
            old(self).pos() < old(self).elems().len() ==> (r matches Some(v) && *v == old(self).elems()[old(self).pos()] && final(self).pos() == old(self).pos() + 1),
            old(self).pos() >= old(self).elems().len() ==> r is None && final(self).pos() == old(self).pos(),
    {
        let r = self.deque.get(self.pos);
        if self.pos < self.deque.len() {
            self.pos = self.pos + 1;
        }
        r
    }
}

/// Position cursor for mutable walks over a `MyDeque`: hands out the logical
/// positions `0, 1, ...` up to the length the deque had when the cursor was
/// made.
pub struct MutMyDequeIter {
    pos: usize,
    len: usize,
}

impl MutMyDequeIter {
    /// The length being walked.
    pub closed spec fn len(&self) -> int {
        self.len as int
    }

    /// How many positions were already handed out.
    pub closed spec fn pos(&self) -> int {
        self.pos as int
    }

    /// The next position, or nothing once the walk is over.
    pub fn next(&mut self) -> (r: Option<usize>)
        ensures
            final(self).len() == old(self).len(),
            old(self).pos() < old(self).len() ==> r == Some(old(self).pos() as usize) && final(self).pos() == old(self).pos() + 1,
            old(self).pos() >= old(self).len() ==> r is None && final(self).pos() == old(self).pos(),
    {
        if self.pos < self.len {
            let r = self.pos;
            self.pos = self.pos + 1;
            Some(r)
        } else {
            None
        }
    }
}

/// Consuming cursor over a `MyDeque`: hands the remaining elements out by
/// value, front to back.
pub struct MyDequeIntoIter<T> {
    items: Vec<T>,
}

impl<T> MyDequeIntoIter<T> {
    /// The elements not yet handed out, in order.
    pub closed spec fn elems(&self) -> Seq<T> {
        self.items@
    }

    /// The first remaining element, or nothing once all were handed out.
    pub fn next(&mut self) -> (r: Option<T>)
        ensures
            old(self).elems().len() == 0 ==> r is None && final(self).elems() == old(self).elems(),
            old(self).elems().len() > 0 ==> r == Some(old(self).elems().first()) && final(self).elems() == old(self).elems().drop_first(),
    {
        if self.items.len() > 0 {
            let r = self.items.remove(0);
            proof {
                assert(self.elems() =~= old(self).elems().drop_first());
            }
            Some(r)
        } else {
            None
        }
    }
}

} // verus!

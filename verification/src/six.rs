//! A singly-linked queue: values are pushed at the back and popped at the
//! front. Nodes are owned boxes chained through `next`, so reclaiming a node
//! is ordinary ownership, not manual pointer surgery.

use vstd::prelude::*;

verus! {

/// One owned node of the chain.
struct Node<T> {
    elem: T,
    next: Option<Box<Node<T>>>,
}

/// The values held by a chain, front first.
spec fn link_view<T>(link: Option<Box<Node<T>>>) -> Seq<T>
    decreases link,
{
    match link {
        None => Seq::empty(),
        Some(node) => seq![node.elem] + link_view(node.next),
    }
}

/// A singly-linked first-in, first-out queue.
pub struct List<T> {
    head: Option<Box<Node<T>>>,
}

impl<T> View for List<T> {
    type V = Seq<T>;

    closed spec fn view(&self) -> Seq<T> {
        link_view(self.head)
    }
}

/// Hang `elem` at the end of the chain.
fn push_link<T>(link: &mut Option<Box<Node<T>>>, elem: T)
    ensures
        link_view(*final(link)) == link_view(*old(link)).push(elem),
    decreases *old(link),
{
    match link {
        None => {
            *link = Some(Box::new(Node { elem, next: None }));
            proof {
                assert(link_view(*link) =~= link_view(*old(link)).push(elem));
            }
        },
        Some(node) => {
            push_link(&mut node.next, elem);
            proof {
                assert(link_view(*link) =~= link_view(*old(link)).push(elem));
            }
        },
    }
}

impl<T> List<T> {
    /// A fresh, empty queue.
    pub fn new() -> (r: Self)
        ensures
            r@ == Seq::<T>::empty(),
    {
        List { head: None }
    }

    /// Append one value at the back.
    pub fn push(&mut self, elem: T)
        ensures
            final(self)@ == old(self)@.push(elem),
    {
        push_link(&mut self.head, elem);
    }

    /// Remove and return the front value; an empty queue yields nothing.
    pub fn pop(&mut self) -> (r: Option<T>)
        ensures
            old(self)@.len() == 0 ==> r is None && final(self)@ == old(self)@,
            old(self)@.len() > 0 ==> r == Some(old(self)@.first()) && final(self)@ == old(self)@.drop_first(),
    {
        match self.head.take() {
            None => None,
            Some(node) => {
                let n = *node;
                self.head = n.next;
                proof {
                    assert(self@ =~= old(self)@.drop_first());
                }
                Some(n.elem)
            },
        }
    }

    /// Borrow the front value, if there is one.
    pub fn peek(&self) -> (r: Option<&T>)
        ensures
            self@.len() == 0 ==> r is None,
            self@.len() > 0 ==> (r matches Some(v) && *v == self@.first()),
    {
        match &self.head {
            None => None,
            Some(node) => Some(&node.elem),
        }
    }

    /// Borrow the front value mutably, if there is one.
    pub fn peek_mut(&mut self) -> (r: Option<&mut T>)
        ensures
            old(self)@.len() == 0 ==> r is None && final(self)@ == old(self)@,
            old(self)@.len() > 0 ==> (r matches Some(m) && *m == old(self)@.first()
                && final(self)@.len() == old(self)@.len()
                && final(self)@.first() == *final(m)
                && forall|j: int| 1 <= j < old(self)@.len() ==> final(self)@[j] == old(self)@[j]),
    {
        match &mut self.head {
            None => None,
            Some(node) => Some(&mut node.elem),
        }
    }

    /// Consume the queue into a cursor that hands the values out by value,
    /// front first.
    pub fn into_iter(self) -> (r: IntoIter<T>)
        ensures
            r.elems() == self@,
    {
        IntoIter(self)
    }

    /// A cursor over borrowed values, front first.
    pub fn iter(&self) -> (r: Iter<'_, T>)
        ensures
            r.elems() == self@,
    {
        match &self.head {
            None => Iter { next: None },
            Some(node) => Iter { next: Some(&**node) },
        }
    }

    /// A cursor over mutably borrowed values, front first.
    pub fn iter_mut(&mut self) -> (r: IterMut<'_, T>)
        ensures
            r.elems() == old(self)@,
    {
        match &mut self.head {
            None => IterMut { next: None },
            Some(node) => IterMut { next: Some(&mut **node) },
        }
    }
}

/// Consuming cursor over a `List`: pops the front until the queue is empty.
pub struct IntoIter<T>(List<T>);

impl<T> IntoIter<T> {
    /// The values not yet handed out, front first.
    pub closed spec fn elems(&self) -> Seq<T> {
        self.0@
    }

    /// The front of what remains, or nothing once the queue is drained.
    pub fn next(&mut self) -> (r: Option<T>)
        ensures
            old(self).elems().len() == 0 ==> r is None && final(self).elems() == old(self).elems(),
            old(self).elems().len() > 0 ==> r == Some(old(self).elems().first()) && final(self).elems() == old(self).elems().drop_first(),
    {
        self.0.pop()
    }
}

/// Borrowing cursor over a `List`.
pub struct Iter<'a, T> {
    next: Option<&'a Node<T>>,
}

impl<'a, T> Iter<'a, T> {
    /// The values not yet handed out, front first.
    pub closed spec fn elems(&self) -> Seq<T> {
        match self.next {
            None => Seq::empty(),
            Some(node) => seq![node.elem] + link_view(node.next),
        }
    }

    /// The front of what remains, or nothing once the walk is over.
    pub fn next(&mut self) -> (r: Option<&'a T>)
        ensures
            old(self).elems().len() == 0 ==> r is None && final(self).elems() == old(self).elems(),
            old(self).elems().len() > 0 ==> (r matches Some(v) && *v == old(self).elems().first()
                && final(self).elems() == old(self).elems().drop_first()),
    {
        match self.next {
            None => None,
            Some(node) => {
                self.next = match &node.next {
                    None => None,
                    Some(b) => Some(&**b),
                };
                proof {
                    assert(self.elems() =~= old(self).elems().drop_first());
                }
                Some(&node.elem)
            },
        }
    }
}

/// Mutably borrowing cursor over a `List`.
pub struct IterMut<'a, T> {
    next: Option<&'a mut Node<T>>,
}

impl<'a, T> IterMut<'a, T> {
    /// The values not yet handed out, front first, as they stood when the
    /// cursor reached them.
    pub closed spec fn elems(&self) -> Seq<T> {
        match self.next {
            None => Seq::empty(),
            Some(node) => seq![node.elem] + link_view(node.next),
        }
    }

    /// A mutable borrow of the front of what remains, or nothing once the walk
    /// is over.
    pub fn next(&mut self) -> (r: Option<&'a mut T>)
        ensures
            old(self).elems().len() == 0 ==> r is None,
            old(self).elems().len() > 0 ==> (r matches Some(m) && *m == old(self).elems().first()),
    {
        match self.next.take() {
            None => None,
            Some(node) => {
                let Node { elem, next } = &mut *node;
                self.next = match next {
                    None => None,
                    Some(b) => Some(&mut *b),
                };
                Some(elem)
            },
        }
    }
}

} // verus!

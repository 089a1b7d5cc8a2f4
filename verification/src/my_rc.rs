//! A single-threaded shared-ownership handle: many handles grant read access
//! to one heap-allocated value; the value is reclaimed when the last handle
//! goes away. The shared counting itself is delegated to the runtime of
//! `std::rc::Rc`; everything around it is verified.

use vstd::prelude::*;

verus! {

use std::rc::Rc;

/// Sequential image of a control block: a payload together with the number of
/// handles that share it, held as a plain field.
pub struct InnerRc<T> {
    value: T,
    count: usize,
}

impl<T> InnerRc<T> {
    /// The handle count recorded in this block.
    pub closed spec fn spec_count(&self) -> usize {
        self.count
    }

    /// The payload held by this block.
    pub closed spec fn spec_value(&self) -> T {
        self.value
    }

    /// A fresh block starts with one handle.
    pub fn new(value: T) -> (r: Self)
        ensures
            r.spec_count() == 1,
            r.spec_value() == value,
    {
        InnerRc { value, count: 1 }
    }

    pub fn get_count(&self) -> (c: usize)
        ensures
            c == self.spec_count(),
    {
        self.count
    }

    pub fn get_ref(&self) -> (r: &T)
        ensures
            *r == self.spec_value(),
    {
        &self.value
    }
}

/// Relies on `Rc::clone`: the returned handle shares the allocation of the
/// argument, so both hold the same value.
#[verifier::external_body]
fn rc_clone<T>(rc: &Rc<T>) -> (r: Rc<T>)
    ensures
        *r == **rc,
{
    Rc::clone(rc)
}

/// Relies on `Rc::strong_count`: the count includes the caller's own live
/// handle, so it is at least one. The exact figure depends on every other
/// handle alive at the instant of the call.
#[verifier::external_body]
fn rc_strong_count<T>(rc: &Rc<T>) -> (c: usize)
    ensures
        c >= 1,
{
    Rc::strong_count(rc)
}

/// Relies on `Rc::get_mut`: a mutable borrow of the held value is handed out
/// only when no other handle shares the allocation, and it borrows the value
/// in place; when it is refused, nothing is touched.
#[verifier::external_body]
fn rc_get_mut<T>(rc: &mut Rc<T>) -> (r: Option<&mut T>)
    ensures
        r is None ==> **final(rc) == **old(rc),
        r matches Some(m) ==> *m == **old(rc) && **final(rc) == *final(m),
{
    Rc::get_mut(rc)
}

/// A counted handle to one heap-allocated value.
pub struct MyRc<T> {
    inner: Rc<T>,
}

impl<T> MyRc<T> {
    /// The value this handle shares.
    pub closed spec fn value(&self) -> T {
        *self.inner
    }

    pub fn new(value: T) -> (r: Self)
        ensures
            r.value() == value,
    {
        MyRc { inner: Rc::new(value) }
    }

    /// How many handles share the value, the caller's one included. The figure
    /// is a snapshot meant for diagnostics and tests.
    pub fn get_count(&self) -> (c: usize)
        ensures
            c >= 1,
    {
        rc_strong_count(&self.inner)
    }

    pub fn get_value_ref(&self) -> (r: &T)
        ensures
            *r == self.value(),
    {
        &*self.inner
    }

    /// Read access to the shared value; always available while the handle
    /// lives.
    pub fn deref(&self) -> (r: &T)
        ensures
            *r == self.value(),
    {
        self.get_value_ref()
    }

    /// Exclusive mutation access: granted only while this handle is the sole
    /// owner of the value.
    pub fn get_mut_ref(&mut self) -> (r: Option<&mut T>)
        ensures
            r is None ==> final(self).value() == old(self).value(),
            r matches Some(m) ==> *m == old(self).value() && final(self).value() == *final(m),
    {
        rc_get_mut(&mut self.inner)
    }

    /// Reclaim the value by moving it out, which succeeds only when this
    /// handle is the sole owner; otherwise the handle comes back unchanged.
    pub fn try_unwrap(self) -> (r: Result<T, Self>)
        ensures
            r matches Ok(v) ==> v == self.value(),
            r matches Err(e) ==> e.value() == self.value(),
    {
        match Rc::try_unwrap(self.inner) {
            Ok(value) => Ok(value),
            Err(inner) => Err(MyRc { inner }),
        }
    }
}

impl<T> Clone for MyRc<T> {
    /// A cloned handle shares the same value; the runtime count grows by one.
    fn clone(&self) -> (r: Self)
        ensures
            r.value() == self.value(),
    {
        MyRc { inner: rc_clone(&self.inner) }
    }
}

} // verus!

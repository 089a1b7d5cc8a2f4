//! An atomically counted shared-ownership handle with a weak observer: any
//! number of threads may share read access to one heap-allocated value; the
//! value is destroyed when the last strong handle goes away, and weak handles
//! observe it without keeping it alive. The lock-free atomic counting itself
//! is delegated to the runtime of `std::sync::Arc` and `std::sync::Weak`;
//! everything around it is verified, and the counter discipline those runtimes
//! implement is modelled and proved in `crate::lifecycle`.

use vstd::prelude::*;

verus! {

use std::sync::Arc;
use std::sync::Weak;

/// Sequential image of a control block: the payload and the two counters it
/// is allocated with, held as plain fields. The strong counter stands for the
/// number of live strong handles; the weak counter for the weak handles plus
/// the one unit the block holds for itself while any strong handle lives.
pub struct InnerArc<T> {
    value: T,
    strong: usize,
    weak: usize,
}

impl<T> InnerArc<T> {
    /// The strong counter recorded in this block.
    pub closed spec fn spec_strong(&self) -> usize {
        self.strong
    }

    /// The weak counter recorded in this block.
    pub closed spec fn spec_weak(&self) -> usize {
        self.weak
    }

    /// The payload held by this block.
    pub closed spec fn spec_value(&self) -> T {
        self.value
    }

    /// A fresh block: one strong handle, and the block's own weak unit.
    pub fn new(value: T) -> (r: Self)
        ensures
            r.spec_strong() == 1,
            r.spec_weak() == 1,
            r.spec_value() == value,
    {
        InnerArc { value, strong: 1, weak: 1 }
    }
}

/// One non-owning observer of a shared allocation. It holds a
/// `std::sync::Weak`, a type Verus cannot take as it stands, so the whole cell
/// is opaque to Verus; the wrappers below say what can be relied on.
#[verifier::external_body]
#[verifier::reject_recursive_types(T)]
struct WeakCell<T> {
    weak: Weak<T>,
}

/// Relies on `Arc::clone`: the returned handle shares the allocation of the
/// argument, so both hold the same value; the strong counter is raised
/// atomically.
#[verifier::external_body]
fn arc_clone<T>(arc: &Arc<T>) -> (r: Arc<T>)
    ensures
        *r == **arc,
{
    Arc::clone(arc)
}

/// Relies on `Arc::strong_count`: the count includes the caller's own live
/// handle, so it is at least one. The exact figure is a racy snapshot that
/// depends on every other thread.
#[verifier::external_body]
fn arc_strong_count<T>(arc: &Arc<T>) -> (c: usize)
    ensures
        c >= 1,
{
    Arc::strong_count(arc)
}

/// Relies on `Arc::weak_count`: the number of live weak handles on the
/// allocation, not counting the unit the allocation holds for itself. The
/// figure is a racy snapshot.
#[verifier::external_body]
fn arc_weak_count<T>(arc: &Arc<T>) -> (c: usize)
{
    Arc::weak_count(arc)
}

/// Relies on `Arc::get_mut`: a mutable borrow of the held value is handed out
/// only when the caller's handle is the only strong one and no weak handle
/// exists, and it borrows the value in place; when it is refused, nothing is
/// touched.
#[verifier::external_body]
fn arc_get_mut<T>(arc: &mut Arc<T>) -> (r: Option<&mut T>)
    ensures
        r is None ==> **final(arc) == **old(arc),
        r matches Some(m) ==> *m == **old(arc) && **final(arc) == *final(m),
{
    Arc::get_mut(arc)
}

/// Relies on `Arc::try_unwrap`: when the caller's handle is the only strong
/// one, the value is moved out; otherwise the same handle comes back in the
/// error, untouched.
#[verifier::external_body]
fn arc_try_unwrap<T>(arc: Arc<T>) -> (r: Result<T, Arc<T>>)
    ensures
        r matches Ok(v) ==> v == *arc,
        r matches Err(e) ==> *e == *arc,
{
    Arc::try_unwrap(arc)
}

/// A strong handle: keeps the shared value alive and grants read access to it.
pub struct MyArc<T> {
    inner: Arc<T>,
}

/// A weak handle: observes a shared allocation without keeping the value
/// alive. It records, as a ghost value, the payload it was derived from. The
/// record is written only in this module: `downgrade` stores the payload the
/// allocation holds at derivation, cloning copies the record, and nothing ever
/// rewrites it, so it always names the watched allocation's payload.
#[verifier::reject_recursive_types(T)]
pub struct MyWeak<T> {
    inner: WeakCell<T>,
    target: Ghost<T>,
}

/// Relies on `Arc::downgrade`: a new observer of the allocation of `arc`; the
/// weak counter is raised atomically and the strong counter is untouched.
#[verifier::external_body]
fn arc_downgrade<T>(arc: &Arc<T>) -> (r: WeakCell<T>)
{
    WeakCell { weak: Arc::downgrade(arc) }
}

/// Relies on `Weak::clone`: a new observer of the same allocation; the weak
/// counter is raised atomically.
#[verifier::external_body]
fn weak_clone<T>(cell: &WeakCell<T>) -> (r: WeakCell<T>)
{
    WeakCell { weak: Weak::clone(&cell.weak) }
}

/// Relies on `Weak::upgrade`: when it hands back a strong handle, that handle
/// shares the allocation the observer watches, which still holds the payload
/// recorded at derivation — a `MyWeak` pairs its cell with that payload by
/// construction, and no operation of the library can mutate or move a payload
/// while a weak observer lives. Whether it succeeds is decided by the
/// allocation's atomic strong counter, which depends on every other thread, so
/// the outcome itself is left open; the success law is proved of the model in
/// `crate::lifecycle`.
#[verifier::external_body]
fn weak_upgrade<T>(weak: &MyWeak<T>) -> (r: Option<Arc<T>>)
    ensures
        r matches Some(a) ==> *a == weak.spec_target(),
{
    weak.inner.weak.upgrade()
}

impl<T> MyArc<T> {
    /// The value this handle shares.
    pub closed spec fn value(&self) -> T {
        *self.inner
    }

    /// Allocate a fresh shared value; the handle returned is its only strong
    /// handle.
    pub fn new(value: T) -> (r: Self)
        ensures
            r.value() == value,
    {
        MyArc { inner: Arc::new(value) }
    }

    /// How many strong handles share the value, the caller's one included.
    /// The figure is a racy snapshot meant for diagnostics and tests, never
    /// for synchronization.
    pub fn get_strong_count(&self) -> (c: usize)
        ensures
            c >= 1,
    {
        arc_strong_count(&self.inner)
    }

    /// The weak counter: the live weak handles plus the allocation's own unit,
    /// which is present as long as this strong handle lives. The figure is a
    /// racy snapshot meant for diagnostics and tests.
    pub fn get_weak_count(&self) -> (c: usize)
        ensures
            c >= 1,
    {
        let observers = arc_weak_count(&self.inner);
        if observers == usize::MAX {
            observers
        } else {
            observers + 1
        }
    }

    /// Read access to the shared value; always available while the handle
    /// lives.
    pub fn get_value_ref(&self) -> (r: &T)
        ensures
            *r == self.value(),
    {
        &*self.inner
    }

    /// Read access to the shared value; always available while the handle
    /// lives.
    pub fn deref(&self) -> (r: &T)
        ensures
            *r == self.value(),
    {
        self.get_value_ref()
    }

    /// Exclusive mutation access: granted only while no other handle could
    /// reach the value. The check is a snapshot, not a lock.
    pub fn get_mut_ref(&mut self) -> (r: Option<&mut T>)
        ensures
            r is None ==> final(self).value() == old(self).value(),
            r matches Some(m) ==> *m == old(self).value() && final(self).value() == *final(m),
    {
        arc_get_mut(&mut self.inner)
    }

    /// Reclaim the value by moving it out, which succeeds only when this
    /// handle is the only strong one; otherwise the handle comes back
    /// unchanged in the error.
    pub fn try_unwrap(self) -> (r: Result<T, Self>)
        ensures
            r matches Ok(v) ==> v == self.value(),
            r matches Err(e) ==> e.value() == self.value(),
    {
        match arc_try_unwrap(self.inner) {
            Ok(value) => Ok(value),
            Err(inner) => Err(MyArc { inner }),
        }
    }

    /// Derive a weak handle on the same allocation. The strong count is
    /// untouched.
    pub fn downgrade(&self) -> (r: MyWeak<T>)
        ensures
            r.spec_target() == self.value(),
    {
        MyWeak { inner: arc_downgrade(&self.inner), target: Ghost(self.value()) }
    }
}

impl<T> Clone for MyArc<T> {
    /// A cloned handle shares the same value; the runtime strong count grows
    /// by one.
    fn clone(&self) -> (r: Self)
        ensures
            r.value() == self.value(),
    {
        MyArc { inner: arc_clone(&self.inner) }
    }
}

impl<T> MyWeak<T> {
    /// The payload this observer was derived from.
    pub closed spec fn spec_target(&self) -> T {
        self.target@
    }

    /// Attempt to become a strong handle. A successful upgrade hands back a
    /// handle on the very payload this observer was derived from. The attempt
    /// succeeds exactly when some strong handle was still alive during the
    /// call and fails reliably once the payload is destroyed; under
    /// concurrency that outcome is decided by the allocation's atomic counter,
    /// which Verus cannot see, so the contract leaves it open and the success
    /// law is proved of the model in `crate::lifecycle`.
    pub fn upgrade(&self) -> (r: Option<MyArc<T>>)
        ensures
            r matches Some(a) ==> a.value() == self.spec_target(),
    {
        match weak_upgrade(self) {
            Some(inner) => Some(MyArc { inner }),
            None => None,
        }
    }
}

impl<T> Clone for MyWeak<T> {
    /// A cloned observer watches the same allocation; the runtime weak count
    /// grows by one.
    fn clone(&self) -> (r: Self)
        ensures
            r.spec_target() == self.spec_target(),
    {
        MyWeak { inner: weak_clone(&self.inner), target: self.target }
    }
}

} // verus!

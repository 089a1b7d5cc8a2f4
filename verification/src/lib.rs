//! Hand-rolled ownership exercises, verified: a growable array, a circular
//! double-ended queue, a singly-linked queue, and shared-ownership handles
//! (a single-threaded counted handle and an atomically counted handle with a
//! weak observer), together with a proved model of the handle lifecycle.

pub mod lifecycle;
pub mod my_arc;
pub mod my_deque;
pub mod my_rc;
pub mod my_vec;
pub mod six;

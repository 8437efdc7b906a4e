//! Traits of the parts of the application that are dispatched to do work
//! and receive packages.

use vstd::prelude::*;
use std::sync::Arc;
use std::sync::RwLock;

verus! {

/// The read-write lock of the standard library, held opaque.
#[verifier::external_type_specification]
#[verifier::external_body]
#[verifier::reject_recursive_types(T)]
pub struct ExRwLock<T: ?Sized>(RwLock<T>);

/// A type that can be dispatched and work.
pub trait Professional {
    fn work(&mut self);

    fn inbox<P, B: Inbox<P>>(&self) -> Arc<RwLock<B>>;
}

/// A receiver of packages.
pub trait Inbox<P> {
    fn push(&mut self, package: P);
}

} // verus!

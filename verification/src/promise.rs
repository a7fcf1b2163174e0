//! Single-assignment completion cell.
//!
//! Exactly one of a value or an error is ever set.  The background receive
//! path fulfills the cell once; whoever holds the corresponding token reads
//! it.  Fulfilling an already-fulfilled cell must not happen under the
//! state machine's invariants, so both setters require a pending cell.

use vstd::prelude::*;

use crate::error::Error;

verus! {

/// A completion cell: pending until kept with a value or failed with an
/// error, exactly once.
#[derive(Debug, Clone, PartialEq, Eq)]
pub enum Promise<T> {
    Pending,
    Kept(T),
    Failed(Error),
}

impl<T> Promise<T> {
    /// A cell nothing has been assigned to yet.
    pub fn new() -> (r: Promise<T>)
        ensures
            r is Pending,
    {
        Promise::Pending
    }

    /// Whether the cell still awaits its assignment.
    pub fn is_pending(&self) -> (r: bool)
        ensures
            r == (*self is Pending),
    {
        match self {
            Promise::Pending => true,
            _ => false,
        }
    }

    /// Assign the value.  Only a pending cell may be kept.
    pub fn keep(&mut self, value: T)
        requires
            *old(self) is Pending,
        ensures
            *final(self) == Promise::Kept(value),
    {
        *self = Promise::Kept(value);
    }

    /// Assign the error.  Only a pending cell may be failed.
    pub fn fail(&mut self, err: Error)
        requires
            *old(self) is Pending,
        ensures
            *final(self) == Promise::<T>::Failed(err),
    {
        *self = Promise::Failed(err);
    }
}

} // verus!

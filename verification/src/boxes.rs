//! Ownership-transfer containers for handing values between contexts.
//!
//! A chunk belongs to exactly one worker, and a partial result to exactly
//! one collector.  These two small containers make that discipline a type:
//! an `OpenBox` exposes its contents to everyone holding it, while a
//! `ClosedBox` keeps them sealed, so whoever is handed one can only move
//! it on whole or open it by consuming it.

use vstd::prelude::*;

verus! {

/// A container whose contents are there for any holder to read or swap.
pub struct OpenBox<T> {
    pub contents: T,
}

/// A container whose contents are sealed: they go in through `new`, travel
/// with the box, and come out only by consuming the box.
pub struct ClosedBox<T> {
    contents: T,
}

impl<T> View for ClosedBox<T> {
    type V = T;

    closed spec fn view(&self) -> T {
        self.contents
    }
}

impl<T> ClosedBox<T> {
    /// Seal `contents` into a box that carries exactly that value.
    pub fn new(contents: T) -> (b: ClosedBox<T>)
        ensures
            b@ == contents,
    {
        ClosedBox { contents }
    }

    /// Consume the box and hand back what was sealed into it.
    pub fn into_contents(self) -> (t: T)
        ensures
            t == self@,
    {
        self.contents
    }
}

} // verus!

//! The result boxing protocol.
//!
//! When an analysis finishes, its result is moved to the heap and
//! handed to the host's cache together with a matching deleter; readers
//! later reconstitute a reference from the allocation the cache hands
//! back. The type used to box must be exactly the type used to unbox;
//! the protocol carries no runtime tag, so that match is guaranteed by
//! construction: boxing and unboxing are generated together, here as
//! one type, monomorphized over the same result type.
//!
//! The verified content is the round trip: unboxing yields exactly the
//! value that was boxed. The raw-address form of the allocation and the
//! deleter function pointer are the unverifiable face of the same
//! ownership transfer and stay outside the verified core.

use vstd::prelude::*;

verus! {

/// An analysis result moved to the heap, owned by whoever will place it
/// in the host's cache, together with the obligation to free it exactly
/// once.
pub struct ResultBox<R> {
    payload: Box<R>,
}

impl<R> ResultBox<R> {
    /// The value the box was built from.
    pub closed spec fn value(self) -> R {
        *self.payload
    }

    /// Moves a computed result to the heap.
    pub fn box_result(value: R) -> (r: ResultBox<R>)
        ensures
            r.value() == value,
    {
        ResultBox { payload: Box::new(value) }
    }

    /// Reconstitutes a reference to the boxed result, as the query side
    /// does with the allocation the cache hands back. The reference is
    /// valid only until the next invalidating event for the (analysis,
    /// unit) pair the result was cached under.
    pub fn unbox_ref(&self) -> (r: &R)
        ensures
            *r == self.value(),
    {
        &self.payload
    }

    /// Takes the boxed result back by value, as the deleter does when
    /// the cache tears the entry down.
    pub fn unbox_owned(self) -> (r: R)
        ensures
            r == self.value(),
    {
        *self.payload
    }
}

} // verus!

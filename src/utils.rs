//! Small wrappers that the notation uses.
use vstd::prelude::*;

verus! {

/// A list of items read one after the other.
pub struct ListOf<T>(pub Vec<T>);

impl<T> ListOf<T> {
    /// The items.
    pub fn into_inner(self) -> (r: Vec<T>)
        ensures
            r == self.0,
    {
        self.0
    }
}

/// An item that may be absent.
pub struct Optional<T>(pub Option<T>);

impl<T> Optional<T> {
    /// The item, if present.
    pub fn into_inner(self) -> (r: Option<T>)
        ensures
            r == self.0,
    {
        self.0
    }
}

} // verus!

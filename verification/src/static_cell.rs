//! A cell for values that live in `static` items.
use vstd::prelude::*;

verus! {

/// Holds a value meant for a `static` item of a single-threaded scroll.
///
/// Access goes through `&mut`, so the borrow rules are checked statically;
/// the application wraps the cell in a lock where it keeps it in a `static`.
pub struct StaticCell<T>(T);

impl<T> StaticCell<T> {
    /// The contained value.
    pub closed spec fn value(&self) -> T {
        self.0
    }

    /// Wraps a value for use in static contexts.
    pub fn new(value: T) -> (c: Self)
        ensures
            c.value() == value,
    {
        StaticCell(value)
    }

    /// Returns an immutable reference to the contained value.
    pub fn get(&self) -> (r: &T)
        ensures
            *r == self.value(),
    {
        &self.0
    }

    /// Returns a mutable reference to the contained value.
    pub fn get_mut(&mut self) -> (r: &mut T)
        ensures
            *r == old(self).value(),
            final(self).value() == *final(r),
    {
        &mut self.0
    }
}

} // verus!

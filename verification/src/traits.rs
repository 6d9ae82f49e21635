//! Access to the host runtime handle behind a value.
use vstd::prelude::*;

verus! {

/// A trait to get the underlying host runtime handle of a value.
pub trait IntoHandle {
    /// The handle, as a specification value.
    spec fn handle_spec(&self) -> i32;

    /// The raw handle value used by the host runtime.
    fn handle(&self) -> (h: i32)
        ensures
            h == self.handle_spec(),
    ;
}

} // verus!

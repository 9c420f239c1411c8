//! Writer of on-screen text; it keeps no state.
use vstd::prelude::*;

verus! {

pub struct TextWriter {}

impl TextWriter {
    pub fn new() -> (r: TextWriter)
        ensures
            r == (TextWriter {}),
    {
        TextWriter {}
    }
}

} // verus!

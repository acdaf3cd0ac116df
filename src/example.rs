//! Messages and the stateless actor of the example program.
use vstd::prelude::*;

verus! {

/// The example message: a counter and a text.
#[derive(Debug, Clone)]
pub struct Ping(pub i32, pub String);

impl Ping {
    /// A copy of this message; the counter of this one goes up by one.
    pub fn clone_and_increase(&mut self) -> (r: Ping)
        requires
            old(self).0 < i32::MAX,
        ensures
            r.0 == old(self).0,
            r.1@ == old(self).1@,
            final(self).0 == old(self).0 + 1,
            final(self).1@ == old(self).1@,
    {
        let copy = Ping(self.0, self.1.clone());
        self.0 = self.0 + 1;
        copy
    }
}

/// Asks the example actor with state for its state.
#[derive(Debug, Clone, Copy, PartialEq, Eq, Structural)]
pub struct QueryState;

/// The example actor without state.
#[derive(Debug, Clone, Copy, PartialEq, Eq, Structural)]
pub struct ExampleActor;

} // verus!

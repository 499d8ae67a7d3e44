use vstd::prelude::*;

verus! {

/// Produces correlation identifiers: a 64-bit counter that starts at one,
/// hands out its current value, and steps by one each time, wrapping
/// silently after exhausting 64 bits.
pub struct IdentifierGenerator {
    next_value: u64,
}

impl IdentifierGenerator {
    /// The identifier the next call will hand out.
    pub closed spec fn next_spec(&self) -> u64 {
        self.next_value
    }

    /// A fresh generator; the first identifier handed out is one.
    pub fn new() -> (g: Self)
        ensures
            g.next_spec() == 1,
    {
        IdentifierGenerator { next_value: 1 }
    }

    /// Hands out the current identifier and steps the counter, wrapping on
    /// overflow rather than resetting.
    pub fn next(&mut self) -> (id: u64)
        ensures
            id == old(self).next_spec(),
            final(self).next_spec() == if old(self).next_spec() == u64::MAX {
                0u64
            } else {
                (old(self).next_spec() + 1) as u64
            },
    {
        let id = self.next_value;
        self.next_value = self.next_value.wrapping_add(1);
        id
    }
}

} // verus!

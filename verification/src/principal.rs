use vstd::prelude::*;

verus! {

/// An opaque on-ledger identity (an account or contract address), reduced to
/// the one thing the engine ever does with it: compare for equality.
#[derive(Clone, Copy, Debug, PartialEq, Eq, Structural, Hash)]
pub struct Principal {
    pub id: u64,
}

impl Principal {
    pub fn new(id: u64) -> (r: Principal)
        ensures
            r.id == id,
    {
        Principal { id }
    }
}

} // verus!

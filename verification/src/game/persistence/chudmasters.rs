use vstd::prelude::*;

verus! {

/// Discord user ids allowed to run admin commands.
#[derive(Debug, Default)]
pub struct Chudmasters {
    pub ids: Vec<u64>,
}

} // verus!

use vstd::prelude::*;

verus! {

/// Required stat levels of one trial (0 = that stat cannot be used).
#[derive(Clone, Copy, Debug, PartialEq, Eq, Structural)]
pub struct TrialStats {
    pub strength: u8,
    pub smarts: u8,
    pub stealth: u8,
}

} // verus!

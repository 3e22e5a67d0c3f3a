use vstd::prelude::*;

use crate::game::domain::player::Chud;

verus! {

/// A fallen chud resting in the graveyard.
#[derive(Debug)]
pub struct GraveyardEntry {
    pub discord_user_id: u64,
    pub chud: Chud,
    pub epitaph: String,
    pub death_trial: String,
    pub death_outcome: String,
}

/// Graveyard state containing all buried chuds (newest first).
#[derive(Debug, Default)]
pub struct Graveyard {
    pub entries: Vec<GraveyardEntry>,
}

impl Graveyard {
    /// Lay a chud to rest; the newest grave comes first.
    pub fn bury(&mut self, entry: GraveyardEntry)
        ensures
            final(self).entries@ == seq![entry] + old(self).entries@,
    {
        self.entries.insert(0, entry);
        assert(self.entries@ =~= seq![entry] + old(self).entries@);
    }
}

} // verus!

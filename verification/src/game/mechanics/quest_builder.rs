use vstd::prelude::*;

use crate::game::domain::player::Player;
use crate::game::domain::quest::TrialStats;

verus! {

#[derive(Clone, Copy, Debug, PartialEq, Eq, Structural)]
pub enum StatChoice {
    Strength,
    Smarts,
    Stealth,
}

impl StatChoice {
    pub open spec fn label_spec(self) -> Seq<char> {
        match self {
            StatChoice::Strength => "strength"@,
            StatChoice::Smarts => "smarts"@,
            StatChoice::Stealth => "stealth"@,
        }
    }

    /// The chud's base level in this stat.
    pub open spec fn stat_of(self, player: Player) -> u8 {
        match self {
            StatChoice::Strength => player.chud_of().strength,
            StatChoice::Smarts => player.chud_of().smarts,
            StatChoice::Stealth => player.chud_of().stealth,
        }
    }

    /// The trial's required level in this stat.
    pub open spec fn required_of(self, stats: TrialStats) -> u8 {
        match self {
            StatChoice::Strength => stats.strength,
            StatChoice::Smarts => stats.smarts,
            StatChoice::Stealth => stats.stealth,
        }
    }

    pub fn label(&self) -> (r: &'static str)
        ensures
            r@ == self.label_spec(),
    {
        match self {
            StatChoice::Strength => "strength",
            StatChoice::Smarts => "smarts",
            StatChoice::Stealth => "stealth",
        }
    }

    pub fn player_stat(&self, player: &Player) -> (r: u8)
        requires
            player.chud is Some,
        ensures
            r == self.stat_of(*player),
    {
        let chud = player.chud_ref();
        match self {
            StatChoice::Strength => chud.strength,
            StatChoice::Smarts => chud.smarts,
            StatChoice::Stealth => chud.stealth,
        }
    }

    pub fn trial_required(&self, stats: &TrialStats) -> (r: u8)
        ensures
            r == self.required_of(*stats),
    {
        match self {
            StatChoice::Strength => stats.strength,
            StatChoice::Smarts => stats.smarts,
            StatChoice::Stealth => stats.stealth,
        }
    }
}

/// One rolled trial.
#[derive(Debug, Clone, Copy)]
pub struct TrialOutcome {
    pub stats: TrialStats,
    pub stat_used: StatChoice,
    pub raw_roll: u8,
    pub roll_modifier: i16,
    pub floor_applied: bool,
    pub player_roll: u8,
    pub trial_roll: u8,
    pub player_stat: u8,
    pub required: u8,
    pub passed: bool,
}

/// The rolled trials of one quest attempt, in order, ending at the first failure.
#[derive(Debug)]
pub struct PlayedQuest {
    pub outcomes: Vec<TrialOutcome>,
}

} // verus!

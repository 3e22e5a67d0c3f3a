use vstd::prelude::*;

use crate::game::domain::player::Player;
use crate::game::generation::quest_generator::{clone_strings, GeneratedQuest};
use crate::game::mechanics::quest_builder::{PlayedQuest, StatChoice, TrialOutcome};

verus! {

/// Score of using a stat: player level minus requirement, when the trial allows the stat.
pub open spec fn stat_score(required: u8, level: u8) -> Option<int> {
    if required > 0 {
        Some(level - required)
    } else {
        None
    }
}

pub open spec fn max_score(a: Option<int>, b: Option<int>) -> Option<int> {
    match (a, b) {
        (Some(x), Some(y)) => Some(if x >= y { x } else { y }),
        (Some(x), None) => Some(x),
        (None, y) => y,
    }
}

/// Did the chud pick a stat at least as good as any other usable one?
pub open spec fn optimal_choice(o: TrialOutcome, player: Player) -> bool {
    let c = player.chud_of();
    let chosen = o.player_stat - o.required;
    let best = max_score(
        max_score(stat_score(o.stats.strength, c.strength), stat_score(o.stats.smarts, c.smarts)),
        stat_score(o.stats.stealth, c.stealth),
    );
    match best {
        Some(b) => chosen >= b,
        None => true,
    }
}

fn score(required: u8, level: u8) -> (r: Option<i16>)
    ensures
        r matches Some(x) ==> stat_score(required, level) == Some(x as int),
        r is None ==> stat_score(required, level) is None,
{
    if required > 0 {
        Some(level as i16 - required as i16)
    } else {
        None
    }
}

fn max_of(a: Option<i16>, b: Option<i16>) -> (r: Option<i16>)
    ensures
        max_score(
            match a {
                Some(x) => Some(x as int),
                None => None,
            },
            match b {
                Some(x) => Some(x as int),
                None => None,
            },
        ) == match r {
            Some(x) => Some(x as int),
            None => None::<int>,
        },
{
    match (a, b) {
        (Some(x), Some(y)) => Some(if x >= y { x } else { y }),
        (Some(x), None) => Some(x),
        (None, y) => y,
    }
}

fn is_optimal(outcome: &TrialOutcome, player: &Player) -> (r: bool)
    requires
        player.chud is Some,
    ensures
        r == optimal_choice(*outcome, *player),
{
    let c = player.chud_ref();
    let chosen_score = outcome.player_stat as i16 - outcome.required as i16;
    let best = max_of(
        max_of(
            score(outcome.stats.strength, c.strength),
            score(outcome.stats.smarts, c.smarts),
        ),
        score(outcome.stats.stealth, c.stealth),
    );
    match best {
        Some(b) => chosen_score >= b,
        None => true,
    }
}

#[derive(Debug)]
pub struct CompletedTrial {
    pub situation: String,
    pub stat_used: StatChoice,
    pub player_roll: u8,
    pub trial_roll: u8,
    pub margin: i16,
    pub passed: bool,
    pub chose_optimal: bool,
    pub narrative: String,
}

#[derive(Debug)]
pub struct QuestResult {
    pub quest_title: String,
    pub quest_giver: String,
    pub quest_description: String,
    pub trials: Vec<CompletedTrial>,
    pub passed: bool,
    pub summary: String,
}

/// Number of passed trials that used `stat`.
pub open spec fn count_wins(trials: Seq<CompletedTrial>, stat: StatChoice) -> nat
    decreases trials.len(),
{
    if trials.len() == 0 {
        0
    } else {
        count_wins(trials.drop_last(), stat) + if trials.last().stat_used == stat
            && trials.last().passed {
            1nat
        } else {
            0nat
        }
    }
}

/// The completed trial for outcome `o` of situation `situation`, narrated by `narrative`.
pub open spec fn completed_from(
    o: TrialOutcome,
    situation: String,
    narrative: String,
    player: Player,
) -> CompletedTrial {
    CompletedTrial {
        situation,
        stat_used: o.stat_used,
        player_roll: o.player_roll,
        trial_roll: o.trial_roll,
        margin: (o.player_roll - o.trial_roll) as i16,
        passed: o.passed,
        chose_optimal: optimal_choice(o, player),
        narrative,
    }
}

pub open spec fn min3(a: int, b: int, c: int) -> int {
    let m = if a <= b { a } else { b };
    if m <= c { m } else { c }
}

impl QuestResult {
    /// Wins per stat (strength, smarts, stealth), counted as `u32`.
    pub open spec fn stat_win_counts(self) -> (u32, u32, u32) {
        (
            count_wins(self.trials@, StatChoice::Strength) as u32,
            count_wins(self.trials@, StatChoice::Smarts) as u32,
            count_wins(self.trials@, StatChoice::Stealth) as u32,
        )
    }

    /// Pair each rolled outcome with its situation and narrative; the quest passes when
    /// every outcome passed.
    pub fn build(
        generated: &GeneratedQuest,
        played: &PlayedQuest,
        player: &Player,
        narratives: Vec<String>,
        summary: String,
    ) -> (r: Self)
        requires
            player.chud is Some,
        ensures
            r.passed == (forall|k: int|
                0 <= k < played.outcomes@.len() ==> (#[trigger] played.outcomes@[k]).passed),
            r.trials@.len() == min3(
                played.outcomes@.len() as int,
                generated.trials@.len() as int,
                narratives@.len() as int,
            ),
            forall|k: int|
                0 <= k < r.trials@.len() ==> #[trigger] r.trials@[k] == completed_from(
                    played.outcomes@[k],
                    generated.trials@[k],
                    narratives@[k],
                    *player,
                ),
            r.quest_title == generated.quest_title,
            r.quest_giver == generated.quest_giver,
            r.quest_description == generated.description,
            r.summary == summary,
    {
        let mut passed = true;
        let mut i: usize = 0;
        while i < played.outcomes.len()
            invariant
                i <= played.outcomes@.len(),
                passed == (forall|k: int| 0 <= k < i ==> (#[trigger] played.outcomes@[k]).passed),
            decreases played.outcomes@.len() - i,
        {
            if !played.outcomes[i].passed {
                passed = false;
            }
            i += 1;
        }
        let n0 = if played.outcomes.len() <= generated.trials.len() {
            played.outcomes.len()
        } else {
            generated.trials.len()
        };
        let n = if n0 <= narratives.len() {
            n0
        } else {
            narratives.len()
        };
        let mut trials: Vec<CompletedTrial> = Vec::new();
        let mut k: usize = 0;
        while k < n
            invariant
                player.chud is Some,
                n <= played.outcomes@.len(),
                n <= generated.trials@.len(),
                n <= narratives@.len(),
                k <= n,
                trials@.len() == k,
                forall|j: int|
                    0 <= j < k ==> #[trigger] trials@[j] == completed_from(
                        played.outcomes@[j],
                        generated.trials@[j],
                        narratives@[j],
                        *player,
                    ),
            decreases n - k,
        {
            let outcome = &played.outcomes[k];
            let margin = outcome.player_roll as i16 - outcome.trial_roll as i16;
            let chose_optimal = is_optimal(outcome, player);
            trials.push(
                CompletedTrial {
                    situation: generated.trials[k].clone(),
                    stat_used: outcome.stat_used,
                    player_roll: outcome.player_roll,
                    trial_roll: outcome.trial_roll,
                    margin,
                    passed: outcome.passed,
                    chose_optimal,
                    narrative: narratives[k].clone(),
                },
            );
            k += 1;
        }
        QuestResult {
            quest_title: generated.quest_title.clone(),
            quest_giver: generated.quest_giver.clone(),
            quest_description: generated.description.clone(),
            trials,
            passed,
            summary,
        }
    }

    /// Passed trials per stat: (strength, smarts, stealth).
    pub fn stat_wins(&self) -> (r: (u32, u32, u32))
        ensures
            r == self.stat_win_counts(),
    {
        let mut a: usize = 0;
        let mut b: usize = 0;
        let mut c: usize = 0;
        let mut i: usize = 0;
        while i < self.trials.len()
            invariant
                i <= self.trials@.len(),
                a == count_wins(self.trials@.subrange(0, i as int), StatChoice::Strength),
                b == count_wins(self.trials@.subrange(0, i as int), StatChoice::Smarts),
                c == count_wins(self.trials@.subrange(0, i as int), StatChoice::Stealth),
                a <= i,
                b <= i,
                c <= i,
            decreases self.trials@.len() - i,
        {
            assert(self.trials@.subrange(0, i + 1).drop_last() =~= self.trials@.subrange(
                0,
                i as int,
            ));
            let t = &self.trials[i];
            if t.passed {
                match t.stat_used {
                    StatChoice::Strength => {
                        a += 1;
                    },
                    StatChoice::Smarts => {
                        b += 1;
                    },
                    StatChoice::Stealth => {
                        c += 1;
                    },
                }
            }
            i += 1;
        }
        assert(self.trials@.subrange(0, self.trials@.len() as int) =~= self.trials@);
        (a as u32, b as u32, c as u32)
    }
}

} // verus!

use vstd::prelude::*;

use crate::game::domain::quest::TrialStats;
use crate::text::{dec, join_with, owned, push_dec, push_joined, push_str};

verus! {

/// What a job asks for: its description, optional goal, difficulty and the stats of
/// each trial.
#[derive(Debug)]
pub struct QuestData {
    pub quest_description: String,
    pub quest_goal: Option<String>,
    pub quest_difficulty: u8,
    pub trials: Vec<TrialStats>,
}

impl Clone for QuestData {
    fn clone(&self) -> (r: Self)
        ensures
            r.quest_description == self.quest_description,
            r.quest_goal == self.quest_goal,
            r.quest_difficulty == self.quest_difficulty,
            r.trials@ == self.trials@,
    {
        let goal = match &self.quest_goal {
            Some(g) => Some(g.clone()),
            None => None,
        };
        QuestData {
            quest_description: self.quest_description.clone(),
            quest_goal: goal,
            quest_difficulty: self.quest_difficulty,
            trials: {
                let t = self.trials.clone();
                assert(t@ =~= self.trials@);
                t
            },
        }
    }
}

/// The written job posting: title, giver, letter, one situation per trial, goal, reward.
#[derive(Debug)]
pub struct GeneratedQuest {
    pub quest_title: String,
    pub quest_giver: String,
    pub description: String,
    pub trials: Vec<String>,
    pub quest_goal: String,
    pub reward: u32,
}

impl Clone for GeneratedQuest {
    fn clone(&self) -> (r: Self)
        ensures
            r.quest_title == self.quest_title,
            r.quest_giver == self.quest_giver,
            r.description == self.description,
            r.trials@ == self.trials@,
            r.quest_goal == self.quest_goal,
            r.reward == self.reward,
    {
        GeneratedQuest {
            quest_title: self.quest_title.clone(),
            quest_giver: self.quest_giver.clone(),
            description: self.description.clone(),
            trials: crate::game::generation::quest_generator::clone_strings(&self.trials),
            quest_goal: self.quest_goal.clone(),
            reward: self.reward,
        }
    }
}

/// An element-wise copy of a list of strings.
pub fn clone_strings(v: &Vec<String>) -> (r: Vec<String>)
    ensures
        r@ == v@,
{
    let mut out: Vec<String> = Vec::new();
    let mut i: usize = 0;
    while i < v.len()
        invariant
            i <= v@.len(),
            out@ == v@.subrange(0, i as int),
        decreases v@.len() - i,
    {
        out.push(v[i].clone());
        i += 1;
        assert(out@ =~= v@.subrange(0, i as int));
    }
    assert(out@ =~= v@);
    out
}

/// A rolled trial as handed to the result narrator.
#[derive(Debug)]
pub struct TrialResult {
    pub situation: String,
    pub stat_used: String,
    pub margin: i16,
    pub passed: bool,
}

/// Narrated trials and the job summary.
#[derive(Debug)]
pub struct QuestResults {
    pub trials: Vec<String>,
    pub summary: String,
}

/// Which job-generation memory segment to read/write during quest creation.
#[derive(Debug, Clone, Copy, PartialEq, Eq, Structural)]
pub enum JobMemoryKind {
    Regular,
    Story,
}

/// Limits for periodic LLM conversation memory resets. `0` disables reset for that slot.
#[derive(Debug, Clone, Copy)]
pub struct QuestMemoryResetConfig {
    pub job_generations: usize,
    pub result_generations: usize,
}

/// The conversation that holds a chud's quest results: its name with `_` for each space.
pub open spec fn results_conversation_text(chud_name: Seq<char>) -> Seq<char> {
    chud_name.map_values(|c: char| if c == ' ' { '_' } else { c })
}

pub fn results_conversation_id(chud_name: &str) -> (r: String)
    ensures
        r@ == results_conversation_text(chud_name@),
{
    crate::text::replace_char(chud_name, ' ', '_')
}

/// The conversations that a kind of job generation writes to: its descriptions, its trials.
pub fn job_conversation_ids(kind: JobMemoryKind) -> (r: (&'static str, &'static str))
    ensures
        kind == JobMemoryKind::Regular ==> r.0@ == "description"@ && r.1@ == "trials"@,
        kind == JobMemoryKind::Story ==> r.0@ == "story_description"@ && r.1@ == "story_trials"@,
{
    proof {
        reveal_strlit("description");
        reveal_strlit("trials");
        reveal_strlit("story_description");
        reveal_strlit("story_trials");
    }
    match kind {
        JobMemoryKind::Regular => ("description", "trials"),
        JobMemoryKind::Story => ("story_description", "story_trials"),
    }
}

/// Whether the regular job memories are due for a reset: resets are on (`limit > 0`) and
/// the longer of the two conversations holds `limit` exchanges (two messages each) or more.
pub fn job_memory_reset_due(limit: usize, description_messages: usize, trial_messages: usize) -> (r: bool)
    ensures
        r == (limit > 0 && (description_messages / 2 >= limit || trial_messages / 2 >= limit)),
{
    if limit == 0 {
        return false;
    }
    let a = description_messages / 2;
    let b = trial_messages / 2;
    let exchanges = if a < b {
        b
    } else {
        a
    };
    exchanges >= limit
}

/// Whether a chud's result conversation is due for a reset.
pub fn result_memory_reset_due(limit: usize, messages: usize) -> (r: bool)
    ensures
        r == (limit > 0 && messages / 2 >= limit),
{
    limit != 0 && messages / 2 >= limit
}

/// The placeholders of a YAML answer template: one list entry per trial, numbered from one.
pub open spec fn trial_slots(n: nat) -> Seq<char> {
    join_with(Seq::new(n, |i: int| "  - REPLACE_TRIAL_"@ + dec((i + 1) as nat)), "\n"@)
}

fn push_trial_slots(s: &mut String, n: usize)
    ensures
        final(s)@ == old(s)@ + trial_slots(n as nat),
{
    let ghost start = s@;
    let ghost all = Seq::new(n as nat, |i: int| "  - REPLACE_TRIAL_"@ + dec((i + 1) as nat));
    let mut slots = String::new();
    let mut i: usize = 0;
    while i < n
        invariant
            i <= n,
            all == Seq::new(n as nat, |i: int| "  - REPLACE_TRIAL_"@ + dec((i + 1) as nat)),
            slots@ == join_with(all.subrange(0, i as int), "\n"@),
        decreases n - i,
    {
        let mut slot = owned("  - REPLACE_TRIAL_");
        push_dec(&mut slot, (i as u64) + 1);
        proof {
            assert(all.subrange(0, i + 1) =~= all.subrange(0, i as int).push(slot@));
        }
        push_joined(&mut slots, "\n", slot.as_str(), i == 0, Ghost(all.subrange(0, i as int)));
        i += 1;
    }
    assert(all.subrange(0, n as int) =~= all);
    push_str(s, slots.as_str());
}

/// The template a trial prompt ends with: a `trials:` list of `n` placeholders.
pub open spec fn trial_scaffold_text(n: nat) -> Seq<char> {
    "\nThe response should only contain a yaml of this structure:\n```yaml\ntrials:\n"@ + trial_slots(n) + "\n```"@
}

pub fn trial_scaffold(n: usize) -> (r: String)
    ensures
        r@ == trial_scaffold_text(n as nat),
{
    let mut s = owned("\nThe response should only contain a yaml of this structure:\n```yaml\ntrials:\n");
    push_trial_slots(&mut s, n);
    push_str(&mut s, "\n```");
    s
}

/// The template a result prompt ends with: `n` trial placeholders and a summary.
pub open spec fn results_scaffold_text(n: nat) -> Seq<char> {
    "\nThe response should only contain a yaml of this structure:\n```yaml\ntrials:\n"@ + trial_slots(n)
        + "\nsummary: REPLACE_QUEST_SUMMARY\n```"@
}

pub fn results_scaffold(n: usize) -> (r: String)
    ensures
        r@ == results_scaffold_text(n as nat),
{
    let mut s = owned("\nThe response should only contain a yaml of this structure:\n```yaml\ntrials:\n");
    push_trial_slots(&mut s, n);
    push_str(&mut s, "\nsummary: REPLACE_QUEST_SUMMARY\n```");
    s
}

/// A prompt: the YAML of its data, then the answer template.
pub fn prompt_with_scaffold(yaml: &str, scaffold: &str) -> (r: String)
    ensures
        r@ == yaml@ + scaffold@,
{
    let mut s = owned(yaml);
    push_str(&mut s, scaffold);
    s
}

/// The posting written for a job: the narrated title, giver, letter and trials; the goal
/// the job was given, else the one the narrator wrote; and the reward of its trials.
pub fn written_quest(
    quest: &QuestData,
    quest_title: String,
    quest_giver: String,
    description: String,
    written_goal: String,
    trials: Vec<String>,
    reward: u32,
) -> (r: GeneratedQuest)
    ensures
        r.quest_title == quest_title,
        r.quest_giver == quest_giver,
        r.description == description,
        r.trials@ == trials@,
        r.quest_goal@ == match quest.quest_goal {
            Some(g) => g@,
            None => written_goal@,
        },
        r.reward == reward,
{
    let quest_goal = match &quest.quest_goal {
        Some(g) => g.clone(),
        None => written_goal,
    };
    GeneratedQuest { quest_title, quest_giver, description, trials, quest_goal, reward }
}

} // verus!

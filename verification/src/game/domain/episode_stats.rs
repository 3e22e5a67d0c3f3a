use vstd::prelude::*;

use crate::game::domain::quest_result::CompletedTrial;
use crate::text::{dec, dec_int, owned, push_dec, push_int, push_str};

verus! {

#[derive(Debug)]
pub struct StoryBeat {
    pub discord_user_id: u64,
    pub chud_name: String,
    pub job_title: String,
}

/// Catalog index -> first chud to clear that story mission this episode, in the order
/// the missions were cleared.
#[derive(Debug, Default)]
pub struct StoryEpisodeStats {
    pub beats: Vec<(usize, StoryBeat)>,
}

#[derive(Debug)]
pub struct RecordChud {
    pub discord_user_id: u64,
    pub chud_name: String,
}

#[derive(Debug)]
pub struct HighestDifficultyRecord {
    pub difficulty: u8,
    pub chuds: Vec<RecordChud>,
    /// Single-chud record fields of older saves, folded into `chuds` by `normalize`.
    pub legacy_discord_user_id: Option<u64>,
    pub legacy_chud_name: Option<String>,
}

#[derive(Debug)]
pub struct WorstRollRecord {
    pub player_roll: u8,
    pub trial_roll: u8,
    pub margin: i16,
    pub chuds: Vec<RecordChud>,
    pub legacy_discord_user_id: Option<u64>,
    pub legacy_chud_name: Option<String>,
}

#[derive(Debug, Default)]
pub struct RecordEpisodeStats {
    pub highest_difficulty: Option<HighestDifficultyRecord>,
    pub worst_roll: Option<WorstRollRecord>,
}

#[derive(Debug, Default)]
pub struct ChudMoneyStats {
    pub chud_name: String,
    pub earned: u32,
    pub spent: u32,
}

/// Per-chud money totals keyed by Discord user id, in first-seen order.
#[derive(Debug, Default)]
pub struct MoneyEpisodeStats {
    pub by_chud: Vec<(u64, ChudMoneyStats)>,
}

#[derive(Debug, Default)]
pub struct ChudHospitalStats {
    pub chud_name: String,
    pub hospital_days: u32,
}

/// Per-chud hospital days keyed by Discord user id, in first-seen order.
#[derive(Debug, Default)]
pub struct HospitalEpisodeStats {
    pub by_chud: Vec<(u64, ChudHospitalStats)>,
}

#[derive(Debug, Default)]
pub struct EpisodeStats {
    pub story: StoryEpisodeStats,
    pub records: RecordEpisodeStats,
    pub money: MoneyEpisodeStats,
    pub hospital: HospitalEpisodeStats,
}

pub open spec fn sat_add(a: u32, b: u32) -> u32 {
    if a + b > u32::MAX {
        u32::MAX
    } else {
        (a + b) as u32
    }
}

pub open spec fn beat_keys_distinct(s: Seq<(usize, StoryBeat)>) -> bool {
    forall|i: int, j: int| 0 <= i < j < s.len() ==> s[i].0 != s[j].0
}

pub open spec fn money_keys_distinct(s: Seq<(u64, ChudMoneyStats)>) -> bool {
    forall|i: int, j: int| 0 <= i < j < s.len() ==> s[i].0 != s[j].0
}

pub open spec fn hospital_keys_distinct(s: Seq<(u64, ChudHospitalStats)>) -> bool {
    forall|i: int, j: int| 0 <= i < j < s.len() ==> s[i].0 != s[j].0
}

/// Money totals after adding `earned` and `spent` (saturating) for chud `id`, renaming it
/// to `name`; a chud not seen before is appended.
pub open spec fn money_after(
    old: Seq<(u64, ChudMoneyStats)>,
    new: Seq<(u64, ChudMoneyStats)>,
    id: u64,
    name: Seq<char>,
    earned: u32,
    spent: u32,
) -> bool {
    if exists|i: int| 0 <= i < old.len() && old[i].0 == id {
        let i = choose|i: int| 0 <= i < old.len() && old[i].0 == id;
        &&& new.len() == old.len()
        &&& forall|j: int| 0 <= j < old.len() && j != i ==> new[j] == old[j]
        &&& new[i].0 == id
        &&& new[i].1.chud_name@ == name
        &&& new[i].1.earned == sat_add(old[i].1.earned, earned)
        &&& new[i].1.spent == sat_add(old[i].1.spent, spent)
    } else {
        &&& new.len() == old.len() + 1
        &&& new.subrange(0, old.len() as int) == old
        &&& new.last().0 == id
        &&& new.last().1.chud_name@ == name
        &&& new.last().1.earned == earned
        &&& new.last().1.spent == spent
    }
}

/// Hospital days after one more day for chud `id`, renaming it to `name`.
pub open spec fn hospital_after(
    old: Seq<(u64, ChudHospitalStats)>,
    new: Seq<(u64, ChudHospitalStats)>,
    id: u64,
    name: Seq<char>,
) -> bool {
    if exists|i: int| 0 <= i < old.len() && old[i].0 == id {
        let i = choose|i: int| 0 <= i < old.len() && old[i].0 == id;
        &&& new.len() == old.len()
        &&& forall|j: int| 0 <= j < old.len() && j != i ==> new[j] == old[j]
        &&& new[i].0 == id
        &&& new[i].1.chud_name@ == name
        &&& new[i].1.hospital_days == sat_add(old[i].1.hospital_days, 1)
    } else {
        &&& new.len() == old.len() + 1
        &&& new.subrange(0, old.len() as int) == old
        &&& new.last().0 == id
        &&& new.last().1.chud_name@ == name
        &&& new.last().1.hospital_days == 1
    }
}

/// Record chuds after crediting `id` under `name`: an existing entry is renamed,
/// otherwise the chud is appended.
pub open spec fn record_chuds_after(
    old: Seq<RecordChud>,
    new: Seq<RecordChud>,
    id: u64,
    name: Seq<char>,
) -> bool {
    if exists|i: int| 0 <= i < old.len() && old[i].discord_user_id == id {
        let i = choose|i: int|
            0 <= i < old.len() && old[i].discord_user_id == id && forall|j: int|
                0 <= j < i ==> old[j].discord_user_id != id;
        &&& new.len() == old.len()
        &&& forall|j: int| 0 <= j < old.len() && j != i ==> new[j] == old[j]
        &&& new[i].discord_user_id == id
        &&& new[i].chud_name@ == name
    } else {
        &&& new.len() == old.len() + 1
        &&& new.subrange(0, old.len() as int) == old
        &&& new.last().discord_user_id == id
        &&& new.last().chud_name@ == name
    }
}

/// A list holding the single chud `id` named `name`.
pub open spec fn sole_chud(s: Seq<RecordChud>, id: u64, name: Seq<char>) -> bool {
    s.len() == 1 && s[0].discord_user_id == id && s[0].chud_name@ == name
}

fn push_record_chud(chuds: &mut Vec<RecordChud>, discord_user_id: u64, chud_name: &str)
    ensures
        record_chuds_after(old(chuds)@, final(chuds)@, discord_user_id, chud_name@),
{
    let mut i: usize = 0;
    while i < chuds.len()
        invariant
            i <= chuds@.len(),
            chuds@ == old(chuds)@,
            forall|j: int| 0 <= j < i ==> chuds@[j].discord_user_id != discord_user_id,
        decreases chuds@.len() - i,
    {
        if chuds[i].discord_user_id == discord_user_id {
            let ghost first = i as int;
            chuds.set(i, RecordChud { discord_user_id, chud_name: owned(chud_name) });
            proof {
                let c = choose|k: int|
                    0 <= k < old(chuds)@.len() && old(chuds)@[k].discord_user_id == discord_user_id
                        && forall|j: int| 0 <= j < k ==> old(chuds)@[j].discord_user_id != discord_user_id;
                assert(0 <= first < old(chuds)@.len() && old(chuds)@[first].discord_user_id == discord_user_id
                    && forall|j: int| 0 <= j < first ==> old(chuds)@[j].discord_user_id != discord_user_id);
                if c < first {
                    assert(old(chuds)@[c].discord_user_id != discord_user_id);
                }
                if first < c {
                    assert(old(chuds)@[first].discord_user_id != discord_user_id);
                }
            }
            return ;
        }
        i += 1;
    }
    chuds.push(RecordChud { discord_user_id, chud_name: owned(chud_name) });
    assert(chuds@.subrange(0, old(chuds)@.len() as int) =~= old(chuds)@);
}

/// Names joined as "a", "a and b", or "a, b, and c".
pub open spec fn join_names(names: Seq<Seq<char>>) -> Seq<char> {
    if names.len() == 0 {
        Seq::empty()
    } else if names.len() == 1 {
        names[0]
    } else if names.len() == 2 {
        names[0] + " and "@ + names[1]
    } else {
        comma_join(names.drop_last()) + ", and "@ + names.last()
    }
}

/// Names joined with ", ".
pub open spec fn comma_join(names: Seq<Seq<char>>) -> Seq<char>
    decreases names.len(),
{
    if names.len() == 0 {
        Seq::empty()
    } else if names.len() == 1 {
        names[0]
    } else {
        comma_join(names.drop_last()) + ", "@ + names.last()
    }
}

fn push_comma_joined(out: &mut String, names: &Vec<String>, n: usize)
    requires
        n <= names@.len(),
    ensures
        final(out)@ == old(out)@ + comma_join(names@.subrange(0, n as int).map_values(|s: String| s@)),
{
    let mut i: usize = 0;
    while i < n
        invariant
            i <= n <= names@.len(),
            out@ == old(out)@ + comma_join(names@.subrange(0, i as int).map_values(|s: String| s@)),
        decreases n - i,
    {
        let ghost pre = names@.subrange(0, i as int).map_values(|s: String| s@);
        let ghost nxt = names@.subrange(0, i + 1).map_values(|s: String| s@);
        assert(nxt.drop_last() =~= pre);
        if i > 0 {
            push_str(out, ", ");
        }
        push_str(out, names[i].as_str());
        i += 1;
        proof {
            if i == 1 {
                assert(out@ =~= old(out)@ + comma_join(nxt));
            } else {
                assert(out@ =~= old(out)@ + comma_join(nxt));
            }
        }
    }
}

/// "a", "a and b", or "a, b, and c".
fn format_chud_names(names: &Vec<String>) -> (r: String)
    ensures
        r@ == join_names(names@.map_values(|s: String| s@)),
{
    let ghost ns = names@.map_values(|s: String| s@);
    let n = names.len();
    if n == 0 {
        return String::new();
    }
    if n == 1 {
        return names[0].clone();
    }
    if n == 2 {
        let mut s = names[0].clone();
        push_str(&mut s, " and ");
        push_str(&mut s, names[1].as_str());
        return s;
    }
    let mut s = String::new();
    push_comma_joined(&mut s, names, n - 1);
    push_str(&mut s, ", and ");
    push_str(&mut s, names[n - 1].as_str());
    assert(names@.subrange(0, n - 1).map_values(|s: String| s@) =~= ns.drop_last());
    assert(s@ =~= join_names(ns));
    s
}

/// Largest total of the given kind (0 when empty).
pub open spec fn max_money(s: Seq<(u64, ChudMoneyStats)>, earned: bool) -> u32
    decreases s.len(),
{
    if s.len() == 0 {
        0
    } else {
        let m = max_money(s.drop_last(), earned);
        let v = if earned {
            s.last().1.earned
        } else {
            s.last().1.spent
        };
        if v > m {
            v
        } else {
            m
        }
    }
}

/// Names of the chuds whose total of the given kind equals `amount`, in order.
pub open spec fn money_names_at(s: Seq<(u64, ChudMoneyStats)>, earned: bool, amount: u32) -> Seq<Seq<char>>
    decreases s.len(),
{
    if s.len() == 0 {
        Seq::empty()
    } else {
        let prev = money_names_at(s.drop_last(), earned, amount);
        let v = if earned {
            s.last().1.earned
        } else {
            s.last().1.spent
        };
        if v == amount {
            prev.push(s.last().1.chud_name@)
        } else {
            prev
        }
    }
}

pub open spec fn max_days(s: Seq<(u64, ChudHospitalStats)>) -> u32
    decreases s.len(),
{
    if s.len() == 0 {
        0
    } else {
        let m = max_days(s.drop_last());
        if s.last().1.hospital_days > m {
            s.last().1.hospital_days
        } else {
            m
        }
    }
}

pub open spec fn day_names_at(s: Seq<(u64, ChudHospitalStats)>, amount: u32) -> Seq<Seq<char>>
    decreases s.len(),
{
    if s.len() == 0 {
        Seq::empty()
    } else {
        let prev = day_names_at(s.drop_last(), amount);
        if s.last().1.hospital_days == amount {
            prev.push(s.last().1.chud_name@)
        } else {
            prev
        }
    }
}

pub open spec fn record_names(s: Seq<RecordChud>) -> Seq<Seq<char>> {
    s.map_values(|c: RecordChud| c.chud_name@)
}

/// Lines for the end-game screen: hardest job, worst roll, top earner, top spender, most
/// hospital days, each present only when it has a chud.
pub open spec fn post_game_lines(st: EpisodeStats) -> Seq<Seq<char>> {
    let hd = match st.records.highest_difficulty {
        Some(h) if h.chuds@.len() > 0 => seq![
            join_names(record_names(h.chuds@)) + " completed the hardest job; difficulty "@ + dec(
                h.difficulty as nat,
            ),
        ],
        _ => Seq::empty(),
    };
    let wr = match st.records.worst_roll {
        Some(w) if w.chuds@.len() > 0 => seq![
            join_names(record_names(w.chuds@)) + " had the worst roll of "@ + dec(
                w.player_roll as nat,
            ) + " vs "@ + dec(w.trial_roll as nat),
        ],
        _ => Seq::empty(),
    };
    let me = max_money(st.money.by_chud@, true);
    let earned = if me > 0 {
        seq![
            join_names(money_names_at(st.money.by_chud@, true, me)) + " made the most money; $"@
                + dec(me as nat),
        ]
    } else {
        Seq::empty()
    };
    let ms = max_money(st.money.by_chud@, false);
    let spent = if ms > 0 {
        seq![
            join_names(money_names_at(st.money.by_chud@, false, ms)) + " spent the most money; $"@
                + dec(ms as nat),
        ]
    } else {
        Seq::empty()
    };
    let md = max_days(st.hospital.by_chud@);
    let days = if md > 0 {
        seq![
            join_names(day_names_at(st.hospital.by_chud@, md))
                + " spent the most time in the hospital; "@ + dec(md as nat) + " days"@,
        ]
    } else {
        Seq::empty()
    };
    hd + wr + earned + spent + days
}

/// Story recap: one line per cleared mission before the last, then the final mission.
pub open spec fn story_recap(beats: Seq<(usize, StoryBeat)>, story_count: nat) -> Seq<char> {
    if story_count == 0 {
        Seq::empty()
    } else {
        join_lines(recap_lines(beats, story_count))
    }
}

pub open spec fn beat_for(beats: Seq<(usize, StoryBeat)>, index: int) -> Option<StoryBeat> {
    if exists|i: int| 0 <= i < beats.len() && beats[i].0 == index {
        Some(beats[choose|i: int| 0 <= i < beats.len() && beats[i].0 == index].1)
    } else {
        None
    }
}

/// Recap lines for missions `0..upto` that have a beat.
pub open spec fn recap_prefix(beats: Seq<(usize, StoryBeat)>, upto: nat) -> Seq<Seq<char>>
    decreases upto,
{
    if upto == 0 {
        Seq::empty()
    } else {
        let prev = recap_prefix(beats, (upto - 1) as nat);
        match beat_for(beats, upto - 1) {
            Some(b) => prev.push("- "@ + b.job_title@ + " completed by: **"@ + b.chud_name@ + "**"@),
            None => prev,
        }
    }
}

pub open spec fn recap_lines(beats: Seq<(usize, StoryBeat)>, story_count: nat) -> Seq<Seq<char>> {
    let last = (story_count - 1) as nat;
    let pre = recap_prefix(beats, last);
    match beat_for(beats, last as int) {
        Some(b) => pre.push(
            "Final job "@ + b.job_title@ + " completed by: **"@ + b.chud_name@ + "**"@,
        ),
        None => pre,
    }
}

/// Lines joined with newlines.
pub open spec fn join_lines(lines: Seq<Seq<char>>) -> Seq<char>
    decreases lines.len(),
{
    if lines.len() == 0 {
        Seq::empty()
    } else if lines.len() == 1 {
        lines[0]
    } else {
        join_lines(lines.drop_last()) + seq!['\n'] + lines.last()
    }
}

/// Appends `line` to text that already holds the first lines of a newline-joined list.
pub(crate) fn push_line(out: &mut String, line: &str, first: bool, ghost_lines: Ghost<Seq<Seq<char>>>)
    requires
        old(out)@ == join_lines(ghost_lines@),
        first == (ghost_lines@.len() == 0),
    ensures
        final(out)@ == join_lines(ghost_lines@.push(line@)),
{
    let ghost lines = ghost_lines@;
    assert(lines.push(line@).drop_last() =~= lines);
    if !first {
        crate::text::push_char(out, '\n');
    }
    push_str(out, line);
    proof {
        if lines.len() == 0 {
            assert(out@ =~= join_lines(lines.push(line@)));
        } else {
            assert(out@ =~= join_lines(lines.push(line@)));
        }
    }
}

impl HighestDifficultyRecord {
    fn normalize(&mut self)
        ensures
            final(self).difficulty == old(self).difficulty,
            old(self).chuds@.len() > 0 ==> *final(self) == *old(self),
            old(self).chuds@.len() == 0 ==> {
                &&& final(self).legacy_discord_user_id is None
                &&& final(self).legacy_chud_name is None
                &&& match (old(self).legacy_discord_user_id, old(self).legacy_chud_name) {
                    (Some(id), Some(name)) => sole_chud(final(self).chuds@, id, name@),
                    _ => final(self).chuds@.len() == 0,
                }
            },
    {
        if self.chuds.len() == 0 {
            let id = self.legacy_discord_user_id.take();
            let name = self.legacy_chud_name.take();
            if let (Some(discord_user_id), Some(chud_name)) = (id, name) {
                self.chuds.push(RecordChud { discord_user_id, chud_name });
            }
        }
    }
}

impl WorstRollRecord {
    fn normalize(&mut self)
        ensures
            final(self).player_roll == old(self).player_roll,
            final(self).trial_roll == old(self).trial_roll,
            final(self).margin == old(self).margin,
            old(self).chuds@.len() > 0 ==> *final(self) == *old(self),
            old(self).chuds@.len() == 0 ==> {
                &&& final(self).legacy_discord_user_id is None
                &&& final(self).legacy_chud_name is None
                &&& match (old(self).legacy_discord_user_id, old(self).legacy_chud_name) {
                    (Some(id), Some(name)) => sole_chud(final(self).chuds@, id, name@),
                    _ => final(self).chuds@.len() == 0,
                }
            },
    {
        if self.chuds.len() == 0 {
            let id = self.legacy_discord_user_id.take();
            let name = self.legacy_chud_name.take();
            if let (Some(discord_user_id), Some(chud_name)) = (id, name) {
                self.chuds.push(RecordChud { discord_user_id, chud_name });
            }
        }
    }
}

/// The worst-roll record after considering one trial: a lower margin replaces it, an equal
/// margin adds the chud.
pub open spec fn worst_after(
    old: Option<WorstRollRecord>,
    new: Option<WorstRollRecord>,
    id: u64,
    name: Seq<char>,
    player_roll: u8,
    trial_roll: u8,
    margin: i16,
) -> bool {
    match old {
        None => new matches Some(w) && w.player_roll == player_roll && w.trial_roll == trial_roll
            && w.margin == margin && sole_chud(w.chuds@, id, name) && w.legacy_discord_user_id is None
            && w.legacy_chud_name is None,
        Some(o) => if margin < o.margin {
            new matches Some(w) && w.player_roll == player_roll && w.trial_roll == trial_roll
                && w.margin == margin && sole_chud(w.chuds@, id, name) && w.legacy_discord_user_id
                == o.legacy_discord_user_id && w.legacy_chud_name == o.legacy_chud_name
        } else if margin == o.margin {
            new matches Some(w) && w.player_roll == o.player_roll && w.trial_roll == o.trial_roll
                && w.margin == o.margin && record_chuds_after(o.chuds@, w.chuds@, id, name)
                && w.legacy_discord_user_id == o.legacy_discord_user_id && w.legacy_chud_name
                == o.legacy_chud_name
        } else {
            new == old
        },
    }
}

/// Trial `k` moves the record from `recs[k]` to `recs[k + 1]` as `worst_after` says.
pub open spec fn worst_step(
    recs: Seq<Option<WorstRollRecord>>,
    k: int,
    id: u64,
    name: Seq<char>,
    trials: Seq<CompletedTrial>,
) -> bool {
    worst_after(recs[k], recs[k + 1], id, name, trials[k].player_roll, trials[k].trial_roll, trials[k].margin)
}

/// `recs` is the run of records through the trials, one step per trial.
pub open spec fn worst_chain(
    recs: Seq<Option<WorstRollRecord>>,
    id: u64,
    name: Seq<char>,
    trials: Seq<CompletedTrial>,
) -> bool {
    &&& recs.len() == trials.len() + 1
    &&& forall|k: int| 0 <= k < trials.len() ==> #[trigger] worst_step(recs, k, id, name, trials)
}

/// The worst-roll record after the trials in order, each considered as `worst_after`
/// says: the fold of the per-trial step from `old` to `new`.
pub open spec fn worst_fold(
    old: Option<WorstRollRecord>,
    new: Option<WorstRollRecord>,
    id: u64,
    name: Seq<char>,
    trials: Seq<CompletedTrial>,
) -> bool {
    exists|recs: Seq<Option<WorstRollRecord>>| #[trigger] worst_chain(recs, id, name, trials)
        && recs[0] == old && recs[trials.len() as int] == new
}

impl EpisodeStats {
    /// Every per-chud table has at most one entry per key.
    pub open spec fn wf(self) -> bool {
        &&& beat_keys_distinct(self.story.beats@)
        &&& money_keys_distinct(self.money.by_chud@)
        &&& hospital_keys_distinct(self.hospital.by_chud@)
    }

    /// Migrate legacy single-chud record fields into `chuds` vectors.
    pub fn normalize(&mut self)
        ensures
            final(self).story == old(self).story,
            final(self).money == old(self).money,
            final(self).hospital == old(self).hospital,
            (final(self).records.highest_difficulty is Some) == (
            old(self).records.highest_difficulty is Some),
            (final(self).records.worst_roll is Some) == (old(self).records.worst_roll is Some),
            old(self).records.highest_difficulty matches Some(o) ==> {
                let n = final(self).records.highest_difficulty.unwrap();
                &&& n.difficulty == o.difficulty
                &&& o.chuds@.len() > 0 ==> n == o
                &&& o.chuds@.len() == 0 ==> n.legacy_discord_user_id is None
                    && n.legacy_chud_name is None && match (o.legacy_discord_user_id, o.legacy_chud_name) {
                    (Some(id), Some(name)) => sole_chud(n.chuds@, id, name@),
                    _ => n.chuds@.len() == 0,
                }
            },
            old(self).records.worst_roll matches Some(o) ==> {
                let n = final(self).records.worst_roll.unwrap();
                &&& n.margin == o.margin && n.player_roll == o.player_roll && n.trial_roll
                    == o.trial_roll
                &&& o.chuds@.len() > 0 ==> n == o
                &&& o.chuds@.len() == 0 ==> n.legacy_discord_user_id is None
                    && n.legacy_chud_name is None && match (o.legacy_discord_user_id, o.legacy_chud_name) {
                    (Some(id), Some(name)) => sole_chud(n.chuds@, id, name@),
                    _ => n.chuds@.len() == 0,
                }
            },
    {
        if let Some(hd) = &mut self.records.highest_difficulty {
            hd.normalize();
        }
        if let Some(wr) = &mut self.records.worst_roll {
            wr.normalize();
        }
    }

    /// Record the first chud to beat a story mission. Ignores later attempts.
    pub fn record_story_beat(
        &mut self,
        index: usize,
        discord_user_id: u64,
        chud_name: String,
        job_title: String,
    )
        requires
            old(self).wf(),
        ensures
            final(self).wf(),
            final(self).records == old(self).records,
            final(self).money == old(self).money,
            final(self).hospital == old(self).hospital,
            (exists|i: int|
                0 <= i < old(self).story.beats@.len() && old(self).story.beats@[i].0 == index)
                ==> final(self).story == old(self).story,
            !(exists|i: int|
                0 <= i < old(self).story.beats@.len() && old(self).story.beats@[i].0 == index)
                ==> final(self).story.beats@ == old(self).story.beats@.push(
                (index, StoryBeat { discord_user_id, chud_name, job_title }),
            ),
    {
        let mut i: usize = 0;
        while i < self.story.beats.len()
            invariant
                i <= self.story.beats@.len(),
                *self == *old(self),
                old(self).wf(),
                forall|j: int| 0 <= j < i ==> self.story.beats@[j].0 != index,
            decreases self.story.beats@.len() - i,
        {
            if self.story.beats[i].0 == index {
                return ;
            }
            i += 1;
        }
        self.story.beats.push((index, StoryBeat { discord_user_id, chud_name, job_title }));
    }

    /// Update the highest difficulty beaten, accumulating chuds that tie.
    pub fn update_highest_difficulty(&mut self, difficulty: u8, discord_user_id: u64, chud_name: &str)
        ensures
            final(self).story == old(self).story,
            final(self).money == old(self).money,
            final(self).hospital == old(self).hospital,
            final(self).records.worst_roll == old(self).records.worst_roll,
            match old(self).records.highest_difficulty {
                None => final(self).records.highest_difficulty matches Some(h) && h.difficulty
                    == difficulty && sole_chud(h.chuds@, discord_user_id, chud_name@)
                    && h.legacy_discord_user_id is None && h.legacy_chud_name is None,
                Some(o) => if difficulty > o.difficulty {
                    final(self).records.highest_difficulty matches Some(h) && h.difficulty
                        == difficulty && sole_chud(h.chuds@, discord_user_id, chud_name@)
                        && h.legacy_discord_user_id == o.legacy_discord_user_id
                        && h.legacy_chud_name == o.legacy_chud_name
                } else if difficulty == o.difficulty {
                    final(self).records.highest_difficulty matches Some(h) && h.difficulty
                        == difficulty && record_chuds_after(
                        o.chuds@,
                        h.chuds@,
                        discord_user_id,
                        chud_name@,
                    ) && h.legacy_discord_user_id == o.legacy_discord_user_id
                        && h.legacy_chud_name == o.legacy_chud_name
                } else {
                    final(self).records.highest_difficulty == old(self).records.highest_difficulty
                },
            },
    {
        match &mut self.records.highest_difficulty {
            None => {
                let mut chuds = Vec::new();
                chuds.push(RecordChud { discord_user_id, chud_name: owned(chud_name) });
                self.records.highest_difficulty = Some(
                    HighestDifficultyRecord {
                        difficulty,
                        chuds,
                        legacy_discord_user_id: None,
                        legacy_chud_name: None,
                    },
                );
            },
            Some(current) => {
                if difficulty > current.difficulty {
                    current.difficulty = difficulty;
                    let mut chuds = Vec::new();
                    chuds.push(RecordChud { discord_user_id, chud_name: owned(chud_name) });
                    current.chuds = chuds;
                } else if difficulty == current.difficulty {
                    push_record_chud(&mut current.chuds, discord_user_id, chud_name);
                }
            },
        }
    }

    pub fn record_money_earned(&mut self, discord_user_id: u64, chud_name: &str, amount: u32)
        requires
            old(self).wf(),
        ensures
            final(self).wf(),
            final(self).story == old(self).story,
            final(self).records == old(self).records,
            final(self).hospital == old(self).hospital,
            amount == 0 ==> final(self).money == old(self).money,
            amount > 0 ==> money_after(
                old(self).money.by_chud@,
                final(self).money.by_chud@,
                discord_user_id,
                chud_name@,
                amount,
                0,
            ),
    {
        if amount == 0 {
            return ;
        }
        self.add_money(discord_user_id, chud_name, amount, 0);
    }

    pub fn record_money_spent(&mut self, discord_user_id: u64, chud_name: &str, amount: u32)
        requires
            old(self).wf(),
        ensures
            final(self).wf(),
            final(self).story == old(self).story,
            final(self).records == old(self).records,
            final(self).hospital == old(self).hospital,
            amount == 0 ==> final(self).money == old(self).money,
            amount > 0 ==> money_after(
                old(self).money.by_chud@,
                final(self).money.by_chud@,
                discord_user_id,
                chud_name@,
                0,
                amount,
            ),
    {
        if amount == 0 {
            return ;
        }
        self.add_money(discord_user_id, chud_name, 0, amount);
    }

    fn add_money(&mut self, discord_user_id: u64, chud_name: &str, earned: u32, spent: u32)
        requires
            old(self).wf(),
        ensures
            final(self).wf(),
            final(self).story == old(self).story,
            final(self).records == old(self).records,
            final(self).hospital == old(self).hospital,
            money_after(
                old(self).money.by_chud@,
                final(self).money.by_chud@,
                discord_user_id,
                chud_name@,
                earned,
                spent,
            ),
    {
        let mut i: usize = 0;
        while i < self.money.by_chud.len()
            invariant
                i <= self.money.by_chud@.len(),
                *self == *old(self),
                old(self).wf(),
                forall|j: int| 0 <= j < i ==> self.money.by_chud@[j].0 != discord_user_id,
            decreases self.money.by_chud@.len() - i,
        {
            if self.money.by_chud[i].0 == discord_user_id {
                let e = self.money.by_chud[i].1.earned.saturating_add(earned);
                let s = self.money.by_chud[i].1.spent.saturating_add(spent);
                self.money.by_chud.set(
                    i,
                    (
                        discord_user_id,
                        ChudMoneyStats { chud_name: owned(chud_name), earned: e, spent: s },
                    ),
                );
                proof {
                    let c = choose|k: int|
                        0 <= k < old(self).money.by_chud@.len() && old(self).money.by_chud@[k].0
                            == discord_user_id;
                    assert(c == i);
                }
                return ;
            }
            i += 1;
        }
        self.money.by_chud.push(
            (discord_user_id, ChudMoneyStats { chud_name: owned(chud_name), earned, spent }),
        );
        assert(self.money.by_chud@.subrange(0, old(self).money.by_chud@.len() as int)
            =~= old(self).money.by_chud@);
    }

    pub fn record_hospital_day(&mut self, discord_user_id: u64, chud_name: &str)
        requires
            old(self).wf(),
        ensures
            final(self).wf(),
            final(self).story == old(self).story,
            final(self).records == old(self).records,
            final(self).money == old(self).money,
            hospital_after(
                old(self).hospital.by_chud@,
                final(self).hospital.by_chud@,
                discord_user_id,
                chud_name@,
            ),
    {
        let mut i: usize = 0;
        while i < self.hospital.by_chud.len()
            invariant
                i <= self.hospital.by_chud@.len(),
                *self == *old(self),
                old(self).wf(),
                forall|j: int| 0 <= j < i ==> self.hospital.by_chud@[j].0 != discord_user_id,
            decreases self.hospital.by_chud@.len() - i,
        {
            if self.hospital.by_chud[i].0 == discord_user_id {
                let d = self.hospital.by_chud[i].1.hospital_days.saturating_add(1);
                self.hospital.by_chud.set(
                    i,
                    (discord_user_id, ChudHospitalStats { chud_name: owned(chud_name), hospital_days: d }),
                );
                proof {
                    let c = choose|k: int|
                        0 <= k < old(self).hospital.by_chud@.len() && old(self).hospital.by_chud@[k].0
                            == discord_user_id;
                    assert(c == i);
                }
                return ;
            }
            i += 1;
        }
        self.hospital.by_chud.push(
            (discord_user_id, ChudHospitalStats { chud_name: owned(chud_name), hospital_days: 1 }),
        );
        assert(self.hospital.by_chud@.subrange(0, old(self).hospital.by_chud@.len() as int)
            =~= old(self).hospital.by_chud@);
    }

    /// Consider each trial margin; keep the most negative roll seen this episode.
    pub fn consider_worst_rolls(&mut self, discord_user_id: u64, chud_name: &str, trials: &Vec<CompletedTrial>)
        ensures
            final(self).story == old(self).story,
            final(self).money == old(self).money,
            final(self).hospital == old(self).hospital,
            final(self).records.highest_difficulty == old(self).records.highest_difficulty,
            worst_fold(
                old(self).records.worst_roll,
                final(self).records.worst_roll,
                discord_user_id,
                chud_name@,
                trials@,
            ),
            trials@.len() == 0 ==> final(self).records.worst_roll == old(self).records.worst_roll,
            trials@.len() > 0 ==> (final(self).records.worst_roll matches Some(w) && forall|k: int|
                0 <= k < trials@.len() ==> w.margin <= (#[trigger] trials@[k]).margin),
            old(self).records.worst_roll matches Some(o) ==> (final(self).records.worst_roll matches Some(w) && w.margin <= o.margin),
            trials@.len() > 0 ==> (final(self).records.worst_roll matches Some(w) && ((exists|k: int|
                0 <= k < trials@.len() && w.margin == (#[trigger] trials@[k]).margin) || (
            old(self).records.worst_roll matches Some(o) && w.margin == o.margin))),
    {
        let ghost recs: Seq<Option<WorstRollRecord>> = seq![self.records.worst_roll];
        let mut i: usize = 0;
        while i < trials.len()
            invariant
                i <= trials@.len(),
                self.story == old(self).story,
                self.money == old(self).money,
                self.hospital == old(self).hospital,
                self.records.highest_difficulty == old(self).records.highest_difficulty,
                recs.len() == i + 1,
                recs[0] == old(self).records.worst_roll,
                recs[i as int] == self.records.worst_roll,
                forall|k: int| 0 <= k < i ==> #[trigger] worst_step(recs, k, discord_user_id, chud_name@, trials@),
                i == 0 ==> self.records.worst_roll == old(self).records.worst_roll,
                i > 0 ==> (self.records.worst_roll matches Some(w) && forall|k: int|
                    0 <= k < i ==> w.margin <= (#[trigger] trials@[k]).margin),
                old(self).records.worst_roll matches Some(o) ==> (self.records.worst_roll matches Some(w) && w.margin <= o.margin),
                i > 0 ==> (self.records.worst_roll matches Some(w) && ((exists|k: int|
                    0 <= k < i && w.margin == (#[trigger] trials@[k]).margin) || (
                old(self).records.worst_roll matches Some(o) && w.margin == o.margin))),
            decreases trials@.len() - i,
        {
            let t = &trials[i];
            let ghost before = self.records.worst_roll;
            self.try_update_worst_roll(
                discord_user_id,
                chud_name,
                t.player_roll,
                t.trial_roll,
                t.margin,
            );
            proof {
                let prev = recs;
                recs = recs.push(self.records.worst_roll);
                assert forall|k: int| 0 <= k < i + 1 implies #[trigger] worst_step(recs, k, discord_user_id, chud_name@, trials@) by {
                    if k < i {
                        assert(worst_step(prev, k, discord_user_id, chud_name@, trials@));
                    }
                }
                let w = self.records.worst_roll.unwrap();
                if w.margin != trials@[i as int].margin {
                    assert(before matches Some(b) && w.margin == b.margin);
                }
            }
            i += 1;
        }
        proof {
            assert(worst_chain(recs, discord_user_id, chud_name@, trials@));
        }
    }

    fn try_update_worst_roll(
        &mut self,
        discord_user_id: u64,
        chud_name: &str,
        player_roll: u8,
        trial_roll: u8,
        margin: i16,
    )
        ensures
            final(self).story == old(self).story,
            final(self).money == old(self).money,
            final(self).hospital == old(self).hospital,
            final(self).records.highest_difficulty == old(self).records.highest_difficulty,
            worst_after(
                old(self).records.worst_roll,
                final(self).records.worst_roll,
                discord_user_id,
                chud_name@,
                player_roll,
                trial_roll,
                margin,
            ),
            final(self).records.worst_roll matches Some(w) && w.margin <= margin,
            old(self).records.worst_roll matches Some(o) ==> (final(self).records.worst_roll matches Some(w) && w.margin <= o.margin),
    {
        match &mut self.records.worst_roll {
            None => {
                let mut chuds = Vec::new();
                chuds.push(RecordChud { discord_user_id, chud_name: owned(chud_name) });
                self.records.worst_roll = Some(
                    WorstRollRecord {
                        player_roll,
                        trial_roll,
                        margin,
                        chuds,
                        legacy_discord_user_id: None,
                        legacy_chud_name: None,
                    },
                );
            },
            Some(current) => {
                if margin < current.margin {
                    current.player_roll = player_roll;
                    current.trial_roll = trial_roll;
                    current.margin = margin;
                    let mut chuds = Vec::new();
                    chuds.push(RecordChud { discord_user_id, chud_name: owned(chud_name) });
                    current.chuds = chuds;
                } else if margin == current.margin {
                    push_record_chud(&mut current.chuds, discord_user_id, chud_name);
                }
            },
        }
    }

    fn beat_index(&self, index: usize) -> (r: Option<usize>)
        requires
            self.wf(),
        ensures
            match r {
                Some(i) => i < self.story.beats@.len() && self.story.beats@[i as int].0 == index
                    && beat_for(self.story.beats@, index as int) == Some(
                    self.story.beats@[i as int].1,
                ),
                None => beat_for(self.story.beats@, index as int) is None,
            },
    {
        let mut i: usize = 0;
        while i < self.story.beats.len()
            invariant
                i <= self.story.beats@.len(),
                self.wf(),
                forall|j: int| 0 <= j < i ==> self.story.beats@[j].0 != index,
            decreases self.story.beats@.len() - i,
        {
            if self.story.beats[i].0 == index {
                proof {
                    let c = choose|k: int|
                        0 <= k < self.story.beats@.len() && self.story.beats@[k].0 == index;
                    assert(c == i);
                }
                return Some(i);
            }
            i += 1;
        }
        None
    }

    fn recap_line(&self, i: usize, prefix: &str) -> (r: String)
        requires
            i < self.story.beats@.len(),
        ensures
            r@ == prefix@ + self.story.beats@[i as int].1.job_title@ + " completed by: **"@
                + self.story.beats@[i as int].1.chud_name@ + "**"@,
    {
        let b = &self.story.beats[i].1;
        let mut s = owned(prefix);
        push_str(&mut s, b.job_title.as_str());
        push_str(&mut s, " completed by: **");
        push_str(&mut s, b.chud_name.as_str());
        push_str(&mut s, "**");
        s
    }

    /// Story mission completions in catalog order for the end-game screen.
    pub fn format_story_recap(&self, story_count: usize) -> (r: String)
        requires
            self.wf(),
        ensures
            r@ == story_recap(self.story.beats@, story_count as nat),
    {
        if story_count == 0 {
            return String::new();
        }
        let last = story_count - 1;
        let mut out = String::new();
        let ghost mut lines: Seq<Seq<char>> = Seq::empty();
        let mut first = true;
        let mut index: usize = 0;
        while index < last
            invariant
                self.wf(),
                index <= last,
                lines == recap_prefix(self.story.beats@, index as nat),
                out@ == join_lines(lines),
                first == (lines.len() == 0),
            decreases last - index,
        {
            if let Some(i) = self.beat_index(index) {
                let line = self.recap_line(i, "- ");
                push_line(&mut out, line.as_str(), first, Ghost(lines));
                first = false;
                proof {
                    lines = lines.push(line@);
                }
            }
            index += 1;
        }
        if let Some(i) = self.beat_index(last) {
            let line = self.recap_line(i, "Final job ");
            push_line(&mut out, line.as_str(), first, Ghost(lines));
        }
        out
    }

    fn top_money(&self, earned: bool) -> (r: (u32, Vec<String>))
        ensures
            r.0 == max_money(self.money.by_chud@, earned),
            r.1@.map_values(|s: String| s@) == money_names_at(self.money.by_chud@, earned, r.0),
    {
        let n = self.money.by_chud.len();
        let mut max: u32 = 0;
        let mut i: usize = 0;
        while i < n
            invariant
                n == self.money.by_chud@.len(),
                i <= n,
                max == max_money(self.money.by_chud@.subrange(0, i as int), earned),
            decreases n - i,
        {
            assert(self.money.by_chud@.subrange(0, i + 1).drop_last() =~= self.money.by_chud@.subrange(0, i as int));
            let v = if earned {
                self.money.by_chud[i].1.earned
            } else {
                self.money.by_chud[i].1.spent
            };
            if v > max {
                max = v;
            }
            i += 1;
        }
        assert(self.money.by_chud@.subrange(0, n as int) =~= self.money.by_chud@);
        let mut names: Vec<String> = Vec::new();
        let mut k: usize = 0;
        while k < n
            invariant
                n == self.money.by_chud@.len(),
                k <= n,
                names@.map_values(|s: String| s@) == money_names_at(
                    self.money.by_chud@.subrange(0, k as int),
                    earned,
                    max,
                ),
            decreases n - k,
        {
            assert(self.money.by_chud@.subrange(0, k + 1).drop_last() =~= self.money.by_chud@.subrange(0, k as int));
            let v = if earned {
                self.money.by_chud[k].1.earned
            } else {
                self.money.by_chud[k].1.spent
            };
            if v == max {
                names.push(self.money.by_chud[k].1.chud_name.clone());
                assert(names@.map_values(|s: String| s@) =~= money_names_at(
                    self.money.by_chud@.subrange(0, k as int),
                    earned,
                    max,
                ).push(self.money.by_chud@[k as int].1.chud_name@));
            }
            k += 1;
        }
        (max, names)
    }

    fn top_days(&self) -> (r: (u32, Vec<String>))
        ensures
            r.0 == max_days(self.hospital.by_chud@),
            r.1@.map_values(|s: String| s@) == day_names_at(self.hospital.by_chud@, r.0),
    {
        let n = self.hospital.by_chud.len();
        let mut max: u32 = 0;
        let mut i: usize = 0;
        while i < n
            invariant
                n == self.hospital.by_chud@.len(),
                i <= n,
                max == max_days(self.hospital.by_chud@.subrange(0, i as int)),
            decreases n - i,
        {
            assert(self.hospital.by_chud@.subrange(0, i + 1).drop_last() =~= self.hospital.by_chud@.subrange(0, i as int));
            let v = self.hospital.by_chud[i].1.hospital_days;
            if v > max {
                max = v;
            }
            i += 1;
        }
        assert(self.hospital.by_chud@.subrange(0, n as int) =~= self.hospital.by_chud@);
        let mut names: Vec<String> = Vec::new();
        let mut k: usize = 0;
        while k < n
            invariant
                n == self.hospital.by_chud@.len(),
                k <= n,
                names@.map_values(|s: String| s@) == day_names_at(
                    self.hospital.by_chud@.subrange(0, k as int),
                    max,
                ),
            decreases n - k,
        {
            assert(self.hospital.by_chud@.subrange(0, k + 1).drop_last() =~= self.hospital.by_chud@.subrange(0, k as int));
            if self.hospital.by_chud[k].1.hospital_days == max {
                names.push(self.hospital.by_chud[k].1.chud_name.clone());
                assert(names@.map_values(|s: String| s@) =~= day_names_at(
                    self.hospital.by_chud@.subrange(0, k as int),
                    max,
                ).push(self.hospital.by_chud@[k as int].1.chud_name@));
            }
            k += 1;
        }
        (max, names)
    }

    /// Post-game record lines (worst roll, etc.) for the end-game screen.
    pub fn format_post_game_lines(&self) -> (r: Vec<String>)
        ensures
            r@.map_values(|s: String| s@) == post_game_lines(*self),
    {
        let mut lines: Vec<String> = Vec::new();
        let ghost mut expect: Seq<Seq<char>> = Seq::empty();
        if let Some(hd) = &self.records.highest_difficulty {
            if hd.chuds.len() > 0 {
                let names = record_name_list(&hd.chuds);
                let mut s = format_chud_names(&names);
                push_str(&mut s, " completed the hardest job; difficulty ");
                push_dec(&mut s, hd.difficulty as u64);
                lines.push(s);
                proof {
                    expect = expect.push(s@);
                }
            }
        }
        assert(lines@.map_values(|s: String| s@) =~= expect);
        if let Some(wr) = &self.records.worst_roll {
            if wr.chuds.len() > 0 {
                let names = record_name_list(&wr.chuds);
                let mut s = format_chud_names(&names);
                push_str(&mut s, " had the worst roll of ");
                push_dec(&mut s, wr.player_roll as u64);
                push_str(&mut s, " vs ");
                push_dec(&mut s, wr.trial_roll as u64);
                lines.push(s);
                proof {
                    expect = expect.push(s@);
                }
            }
        }
        assert(lines@.map_values(|s: String| s@) =~= expect);
        let (amount, names) = self.top_money(true);
        if amount > 0 {
            let mut s = format_chud_names(&names);
            push_str(&mut s, " made the most money; $");
            push_dec(&mut s, amount as u64);
            lines.push(s);
            proof {
                expect = expect.push(s@);
            }
        }
        assert(lines@.map_values(|s: String| s@) =~= expect);
        let (amount, names) = self.top_money(false);
        if amount > 0 {
            let mut s = format_chud_names(&names);
            push_str(&mut s, " spent the most money; $");
            push_dec(&mut s, amount as u64);
            lines.push(s);
            proof {
                expect = expect.push(s@);
            }
        }
        assert(lines@.map_values(|s: String| s@) =~= expect);
        let (days, names) = self.top_days();
        if days > 0 {
            let mut s = format_chud_names(&names);
            push_str(&mut s, " spent the most time in the hospital; ");
            push_dec(&mut s, days as u64);
            push_str(&mut s, " days");
            lines.push(s);
            proof {
                expect = expect.push(s@);
            }
        }
        assert(lines@.map_values(|s: String| s@) =~= expect);
        assert(expect =~= post_game_lines(*self));
        lines
    }
}

fn record_name_list(chuds: &Vec<RecordChud>) -> (r: Vec<String>)
    ensures
        r@.map_values(|s: String| s@) == record_names(chuds@),
{
    let mut out: Vec<String> = Vec::new();
    let mut i: usize = 0;
    while i < chuds.len()
        invariant
            i <= chuds@.len(),
            out@.map_values(|s: String| s@) == record_names(chuds@.subrange(0, i as int)),
        decreases chuds@.len() - i,
    {
        out.push(chuds[i].chud_name.clone());
        i += 1;
        assert(record_names(chuds@.subrange(0, i as int)) =~= record_names(chuds@.subrange(0, i - 1)).push(chuds@[i - 1].chud_name@));
        assert(out@.map_values(|s: String| s@) =~= record_names(chuds@.subrange(0, i as int)));
    }
    assert(chuds@.subrange(0, chuds@.len() as int) =~= chuds@);
    out
}

} // verus!

use std::collections::HashMap;

use vstd::prelude::*;

use crate::game::domain::quest_result::QuestResult;
use crate::game::generation::quest_generator::{GeneratedQuest, QuestData};

verus! {

broadcast use vstd::std_specs::hash::group_hash_axioms;

#[derive(Debug, Clone, Copy, PartialEq, Eq, Structural)]
pub enum QuestState {
    Active {
        discord_user_id: u64,
        /// Ticks remaining until this quest resolves. Decremented once per tick.
        ticks_remaining: u32,
    },
    Scouting { discord_user_id: u64 },
}

#[derive(Debug)]
pub struct BoardQuest {
    pub id: u32,
    pub quest_data: QuestData,
    pub generated: GeneratedQuest,
    /// Empty = open/available. One or more entries = actively being run by those players.
    pub states: Vec<QuestState>,
    /// Catalog index when this is a story job; None for regular jobs.
    pub story_index: Option<usize>,
    /// Ticks until an idle job is recycled to the queue. Only decremented while idle.
    pub timeout: u32,
}

impl Clone for BoardQuest {
    fn clone(&self) -> (r: Self)
        ensures
            r.id == self.id,
            r.quest_data.quest_description == self.quest_data.quest_description,
            r.quest_data.quest_goal == self.quest_data.quest_goal,
            r.quest_data.quest_difficulty == self.quest_data.quest_difficulty,
            r.quest_data.trials@ == self.quest_data.trials@,
            r.generated.quest_title == self.generated.quest_title,
            r.generated.quest_giver == self.generated.quest_giver,
            r.generated.description == self.generated.description,
            r.generated.trials@ == self.generated.trials@,
            r.generated.quest_goal == self.generated.quest_goal,
            r.generated.reward == self.generated.reward,
            r.states@ == self.states@,
            r.story_index == self.story_index,
            r.timeout == self.timeout,
    {
        let states = self.states.clone();
        assert(states@ =~= self.states@);
        BoardQuest {
            id: self.id,
            quest_data: self.quest_data.clone(),
            generated: self.generated.clone(),
            states,
            story_index: self.story_index,
            timeout: self.timeout,
        }
    }
}

/// A board quest seen through the contents of its state list.
pub struct BoardQuestView {
    pub id: u32,
    pub quest_data: QuestData,
    pub generated: GeneratedQuest,
    pub states: Seq<QuestState>,
    pub story_index: Option<usize>,
    pub timeout: u32,
}

impl View for BoardQuest {
    type V = BoardQuestView;

    open spec fn view(&self) -> BoardQuestView {
        BoardQuestView {
            id: self.id,
            quest_data: self.quest_data,
            generated: self.generated,
            states: self.states@,
            story_index: self.story_index,
            timeout: self.timeout,
        }
    }
}

pub open spec fn is_active(s: QuestState) -> bool {
    s is Active
}

/// The player a state belongs to.
pub open spec fn state_user(s: QuestState) -> u64 {
    match s {
        QuestState::Active { discord_user_id, .. } => discord_user_id,
        QuestState::Scouting { discord_user_id } => discord_user_id,
    }
}

/// Does the state belong to an active run by `uid`?
pub open spec fn active_for(s: QuestState, uid: u64) -> bool {
    s matches QuestState::Active { discord_user_id, .. } && discord_user_id == uid
}

pub open spec fn has_active_state(states: Seq<QuestState>) -> bool {
    exists|i: int| 0 <= i < states.len() && is_active(states[i])
}

/// The user of the first active state, if any.
pub open spec fn first_active_user(states: Seq<QuestState>) -> Option<u64>
    decreases states.len(),
{
    if states.len() == 0 {
        None
    } else {
        match states[0] {
            QuestState::Active { discord_user_id, .. } => Some(discord_user_id),
            QuestState::Scouting { .. } => first_active_user(states.drop_first()),
        }
    }
}

/// A state one tick later: active countdowns drop by one, stopping at zero.
pub open spec fn tick_state(s: QuestState) -> QuestState {
    match s {
        QuestState::Active { discord_user_id, ticks_remaining } => QuestState::Active {
            discord_user_id,
            ticks_remaining: if ticks_remaining > 0 {
                (ticks_remaining - 1) as u32
            } else {
                0
            },
        },
        QuestState::Scouting { discord_user_id } => s,
    }
}

/// A quest one tick later.
pub open spec fn tick_view(q: BoardQuestView) -> BoardQuestView {
    BoardQuestView { states: q.states.map_values(|s: QuestState| tick_state(s)), ..q }
}

/// Is a (ticked) quest ready to resolve? Its first state is an active run, its result is
/// stored, and either the countdown is over or the trial just attempted failed.
pub open spec fn due(q: BoardQuestView, results: Map<u32, QuestResult>) -> bool {
    &&& q.states.len() > 0
    &&& q.states[0] is Active
    &&& results.contains_key(q.id)
    &&& {
        let ticks = q.states[0]->Active_ticks_remaining;
        let total = q.quest_data.trials@.len() as u32;
        let idx = if total >= ticks + 1 {
            total - (ticks + 1)
        } else {
            0
        };
        ||| ticks == 0
        ||| (0 <= idx < results[q.id].trials@.len() && !results[q.id].trials@[idx].passed)
    }
}

/// Ids of the due quests, in board order.
pub open spec fn due_ids(qs: Seq<BoardQuestView>, results: Map<u32, QuestResult>) -> Seq<u32>
    decreases qs.len(),
{
    if qs.len() == 0 {
        Seq::empty()
    } else {
        let prev = due_ids(qs.drop_last(), results);
        if due(qs.last(), results) {
            prev.push(qs.last().id)
        } else {
            prev
        }
    }
}

/// The quests whose id is (`taken`) or is not (`!taken`) in `ids`, in order.
pub open spec fn select(qs: Seq<BoardQuestView>, ids: Seq<u32>, taken: bool) -> Seq<BoardQuestView>
    decreases qs.len(),
{
    if qs.len() == 0 {
        Seq::empty()
    } else {
        let prev = select(qs.drop_last(), ids, taken);
        if ids.contains(qs.last().id) == taken {
            prev.push(qs.last())
        } else {
            prev
        }
    }
}

#[derive(Debug, Default)]
pub struct Board {
    pub quests: Vec<BoardQuest>,
    pub next_id: u32,
    /// Completed quest results written by the background worker, keyed by quest id.
    /// Tick applies a result only when ticks_remaining reaches zero AND an entry is present here.
    pub completed_results: HashMap<u32, QuestResult>,
    /// Index of the next story job to post from the catalog.
    pub story_next_index: usize,
    /// Catalog length last used for story progress checks.
    pub story_catalog_len: usize,
}

impl BoardQuest {
    pub fn is_story(&self) -> (r: bool)
        ensures
            r == (self.story_index is Some),
    {
        self.story_index.is_some()
    }

    pub fn has_active(&self) -> (r: bool)
        ensures
            r == has_active_state(self.states@),
    {
        let mut i: usize = 0;
        while i < self.states.len()
            invariant
                i <= self.states@.len(),
                forall|j: int| 0 <= j < i ==> !is_active(self.states@[j]),
            decreases self.states@.len() - i,
        {
            if let QuestState::Active { .. } = self.states[i] {
                return true;
            }
            i += 1;
        }
        false
    }

    /// Returns the Discord user ID of the first (or only) active player, if any.
    pub fn assigned_to(&self) -> (r: Option<u64>)
        ensures
            r == first_active_user(self.states@),
    {
        let mut i: usize = 0;
        assert(self.states@.subrange(0, self.states@.len() as int) =~= self.states@);
        while i < self.states.len()
            invariant
                i <= self.states@.len(),
                forall|j: int| 0 <= j < i ==> !is_active(self.states@[j]),
                first_active_user(self.states@) == first_active_user(
                    self.states@.subrange(i as int, self.states@.len() as int),
                ),
            decreases self.states@.len() - i,
        {
            let ghost rest = self.states@.subrange(i as int, self.states@.len() as int);
            if let QuestState::Active { discord_user_id, .. } = self.states[i] {
                return Some(discord_user_id);
            }
            assert(rest.drop_first() =~= self.states@.subrange(i + 1, self.states@.len() as int));
            i += 1;
        }
        assert(self.states@.subrange(i as int, self.states@.len() as int) =~= Seq::<QuestState>::empty());
        None
    }
}

impl Board {
    pub open spec fn quests_view(self) -> Seq<BoardQuestView> {
        self.quests@.map_values(|q: BoardQuest| q@)
    }

    /// Catalog length used for completion checks: the stored one, or the live catalog's
    /// when none is stored yet.
    pub open spec fn catalog_len_spec(self, live_catalog_len: usize) -> usize {
        if self.story_catalog_len > 0 {
            self.story_catalog_len
        } else {
            live_catalog_len
        }
    }

    pub fn has_story_quest(&self) -> (r: bool)
        ensures
            r == exists|i: int| 0 <= i < self.quests@.len() && self.quests@[i].story_index is Some,
    {
        let mut i: usize = 0;
        while i < self.quests.len()
            invariant
                i <= self.quests@.len(),
                forall|j: int| 0 <= j < i ==> self.quests@[j].story_index is None,
            decreases self.quests@.len() - i,
        {
            if self.quests[i].is_story() {
                return true;
            }
            i += 1;
        }
        false
    }

    /// True once every catalog story mission has been completed.
    pub fn story_series_complete(&self, live_catalog_len: usize) -> (r: bool)
        ensures
            r == (self.catalog_len_spec(live_catalog_len) > 0 && self.story_next_index
                >= self.catalog_len_spec(live_catalog_len)),
    {
        let catalog_len = self.effective_story_catalog_len(live_catalog_len);
        catalog_len > 0 && self.story_next_index >= catalog_len
    }

    /// Catalog length used for completion checks. Falls back to the live catalog when
    /// unset (fresh reset before reconcile).
    pub fn effective_story_catalog_len(&self, live_catalog_len: usize) -> (r: usize)
        ensures
            r == self.catalog_len_spec(live_catalog_len),
    {
        if self.story_catalog_len > 0 {
            self.story_catalog_len
        } else {
            live_catalog_len
        }
    }

    /// Sync story progress bounds to the reloaded catalog. Returns true if board state changed.
    pub fn reconcile_story_catalog(&mut self, catalog_len: usize) -> (r: bool)
        ensures
            r == (old(self).story_catalog_len != catalog_len),
            final(self).story_catalog_len == catalog_len,
            final(self).quests == old(self).quests,
            final(self).next_id == old(self).next_id,
            final(self).completed_results == old(self).completed_results,
            final(self).story_next_index == old(self).story_next_index,
    {
        if self.story_catalog_len != catalog_len {
            self.story_catalog_len = catalog_len;
            true
        } else {
            false
        }
    }

    /// Add a fully-generated quest to the board and return its assigned id.
    pub fn add_quest(
        &mut self,
        quest_data: QuestData,
        generated: GeneratedQuest,
        story_index: Option<usize>,
        job_timeout_tick: u32,
    ) -> (r: u32)
        requires
            old(self).next_id < u32::MAX,
        ensures
            r == old(self).next_id,
            final(self).next_id == old(self).next_id + 1,
            final(self).quests_view() == old(self).quests_view().push(
                BoardQuestView {
                    id: r,
                    quest_data,
                    generated,
                    states: Seq::empty(),
                    story_index,
                    timeout: if story_index is Some {
                        0
                    } else {
                        job_timeout_tick
                    },
                },
            ),
            final(self).completed_results == old(self).completed_results,
            final(self).story_next_index == old(self).story_next_index,
            final(self).story_catalog_len == old(self).story_catalog_len,
    {
        let id = self.next_id;
        self.next_id = self.next_id + 1;
        let timeout = if story_index.is_some() {
            0
        } else {
            job_timeout_tick
        };
        self.quests.push(
            BoardQuest { id, quest_data, generated, states: Vec::new(), story_index, timeout },
        );
        assert(self.quests_view() =~= old(self).quests_view().push(self.quests@.last()@));
        id
    }

    /// Index of the first quest with this id that nobody is actively running.
    pub open spec fn first_open(self, quest_id: u32) -> Option<int> {
        first_open_from(self.quests_view(), quest_id, 0)
    }

    /// Index of the first quest with this id.
    pub open spec fn first_with_id(self, quest_id: u32) -> Option<int> {
        first_id_from(self.quests_view(), quest_id, 0)
    }

    /// Adds `state` to quest `k` and sets its timeout.
    fn push_state(&mut self, k: usize, state: QuestState, timeout: u32)
        requires
            k < old(self).quests@.len(),
        ensures
            final(self).quests@.len() == old(self).quests@.len(),
            forall|j: int|
                0 <= j < old(self).quests@.len() && j != k ==> final(self).quests@[j]
                    == old(self).quests@[j],
            final(self).quests@[k as int]@ == (BoardQuestView {
                states: old(self).quests@[k as int].states@.push(state),
                timeout,
                ..old(self).quests@[k as int]@
            }),
            final(self).quests_view() == old(self).quests_view().update(
                k as int,
                BoardQuestView {
                    states: old(self).quests@[k as int].states@.push(state),
                    timeout,
                    ..old(self).quests@[k as int]@
                },
            ),
            final(self).next_id == old(self).next_id,
            final(self).completed_results == old(self).completed_results,
            final(self).story_next_index == old(self).story_next_index,
            final(self).story_catalog_len == old(self).story_catalog_len,
    {
        let mut q = self.quests.remove(k);
        q.timeout = timeout;
        q.states.push(state);
        self.quests.insert(k, q);
        assert(self.quests_view() =~= old(self).quests_view().update(k as int, self.quests@[k as int]@));
    }

    /// Assign an open quest to a player with a tick countdown.
    /// Returns `false` if the quest doesn't exist or is already taken.
    pub fn assign(
        &mut self,
        quest_id: u32,
        discord_user_id: u64,
        ticks_remaining: u32,
        job_timeout_tick: u32,
    ) -> (r: bool)
        ensures
            r == (old(self).first_open(quest_id) is Some),
            !r ==> *final(self) == *old(self),
            !r ==> final(self).quests_view() == old(self).quests_view(),
            r ==> {
                let k = old(self).first_open(quest_id).unwrap();
                final(self).quests_view() == old(self).quests_view().update(
                    k,
                    BoardQuestView {
                        states: old(self).quests@[k].states@.push(
                            QuestState::Active { discord_user_id, ticks_remaining },
                        ),
                        timeout: job_timeout_tick,
                        ..old(self).quests@[k]@
                    },
                )
            },
            final(self).next_id == old(self).next_id,
            final(self).completed_results == old(self).completed_results,
            final(self).story_next_index == old(self).story_next_index,
            final(self).story_catalog_len == old(self).story_catalog_len,
    {
        let mut i: usize = 0;
        while i < self.quests.len()
            invariant
                i <= self.quests@.len(),
                *self == *old(self),
                first_open_from(self.quests_view(), quest_id, 0) == first_open_from(
                    self.quests_view(),
                    quest_id,
                    i as int,
                ),
            decreases self.quests@.len() - i,
        {
            assert(self.quests_view()[i as int] == self.quests@[i as int]@);
            if self.quests[i].id == quest_id && !self.quests[i].has_active() {
                self.push_state(
                    i,
                    QuestState::Active { discord_user_id, ticks_remaining },
                    job_timeout_tick,
                );
                return true;
            }
            i += 1;
        }
        false
    }

    /// Add a Scouting state for a player on any quest.
    /// Returns `false` if the quest doesn't exist.
    pub fn scout(&mut self, quest_id: u32, discord_user_id: u64, job_timeout_tick: u32) -> (r: bool)
        ensures
            r == (old(self).first_with_id(quest_id) is Some),
            !r ==> final(self).quests_view() == old(self).quests_view(),
            r ==> {
                let k = old(self).first_with_id(quest_id).unwrap();
                final(self).quests_view() == old(self).quests_view().update(
                    k,
                    BoardQuestView {
                        states: old(self).quests@[k].states@.push(
                            QuestState::Scouting { discord_user_id },
                        ),
                        timeout: job_timeout_tick,
                        ..old(self).quests@[k]@
                    },
                )
            },
            final(self).next_id == old(self).next_id,
            final(self).completed_results == old(self).completed_results,
            final(self).story_next_index == old(self).story_next_index,
            final(self).story_catalog_len == old(self).story_catalog_len,
    {
        let mut i: usize = 0;
        while i < self.quests.len()
            invariant
                i <= self.quests@.len(),
                *self == *old(self),
                first_id_from(self.quests_view(), quest_id, 0) == first_id_from(
                    self.quests_view(),
                    quest_id,
                    i as int,
                ),
            decreases self.quests@.len() - i,
        {
            assert(self.quests_view()[i as int] == self.quests@[i as int]@);
            if self.quests[i].id == quest_id {
                self.push_state(i, QuestState::Scouting { discord_user_id }, job_timeout_tick);
                return true;
            }
            i += 1;
        }
        false
    }

    /// Set timeout on open non-story quests that lack one (legacy saves).
    pub fn backfill_job_timeouts(&mut self, job_timeout_tick: u32)
        ensures
            final(self).quests_view().len() == old(self).quests_view().len(),
            forall|k: int|
                0 <= k < old(self).quests@.len() ==> #[trigger] final(self).quests_view()[k] == (
                if old(self).quests@[k].states@.len() == 0 && old(self).quests@[k].story_index is None
                    && old(self).quests@[k].timeout == 0 {
                    BoardQuestView { timeout: job_timeout_tick, ..old(self).quests_view()[k] }
                } else {
                    old(self).quests_view()[k]
                }),
            final(self).next_id == old(self).next_id,
            final(self).completed_results == old(self).completed_results,
            final(self).story_next_index == old(self).story_next_index,
            final(self).story_catalog_len == old(self).story_catalog_len,
    {
        let mut i: usize = 0;
        while i < self.quests.len()
            invariant
                i <= self.quests@.len(),
                self.quests@.len() == old(self).quests@.len(),
                self.next_id == old(self).next_id,
                self.completed_results == old(self).completed_results,
                self.story_next_index == old(self).story_next_index,
                self.story_catalog_len == old(self).story_catalog_len,
                forall|k: int|
                    0 <= k < i ==> #[trigger] self.quests@[k]@ == (if old(self).quests@[k].states@.len()
                        == 0 && old(self).quests@[k].story_index is None && old(self).quests@[k].timeout
                        == 0 {
                        BoardQuestView { timeout: job_timeout_tick, ..old(self).quests@[k]@ }
                    } else {
                        old(self).quests@[k]@
                    }),
                forall|k: int| i <= k < self.quests@.len() ==> self.quests@[k] == old(self).quests@[k],
            decreases self.quests@.len() - i,
        {
            if self.quests[i].states.len() == 0 && !self.quests[i].is_story()
                && self.quests[i].timeout == 0 {
                let mut q = self.quests.remove(i);
                q.timeout = job_timeout_tick;
                self.quests.insert(i, q);
            }
            i += 1;
        }
    }

    /// Index of the first quest with an active run by `uid`.
    pub open spec fn active_index(self, uid: u64) -> Option<int> {
        first_running_from(self.quests_view(), uid, 0)
    }

    fn runs(q: &BoardQuest, uid: u64) -> (r: bool)
        ensures
            r == quest_runs(q.states@, uid),
    {
        let mut k: usize = 0;
        while k < q.states.len()
            invariant
                k <= q.states@.len(),
                forall|s: int| 0 <= s < k ==> !active_for(q.states@[s], uid),
            decreases q.states@.len() - k,
        {
            if let QuestState::Active { discord_user_id, .. } = q.states[k] {
                if discord_user_id == uid {
                    assert(active_for(q.states@[k as int], uid));
                    return true;
                }
            }
            k += 1;
        }
        false
    }

    /// The active quest for a given player, if any.
    pub fn active_quest_for(&self, discord_user_id: u64) -> (r: Option<&BoardQuest>)
        ensures
            match self.active_index(discord_user_id) {
                Some(i) => r == Some(&self.quests@[i]),
                None => r is None,
            },
    {
        let mut i: usize = 0;
        while i < self.quests.len()
            invariant
                i <= self.quests@.len(),
                first_running_from(self.quests_view(), discord_user_id, 0) == first_running_from(
                    self.quests_view(),
                    discord_user_id,
                    i as int,
                ),
            decreases self.quests@.len() - i,
        {
            assert(self.quests_view()[i as int] == self.quests@[i as int]@);
            if Self::runs(&self.quests[i], discord_user_id) {
                return Some(&self.quests[i]);
            }
            i += 1;
        }
        None
    }

    /// True if the player has any Active or Scouting state on any quest.
    pub fn is_player_busy(&self, discord_user_id: u64) -> (r: bool)
        ensures
            r == exists|i: int, s: int|
                0 <= i < self.quests@.len() && 0 <= s < self.quests@[i].states@.len()
                    && #[trigger] state_user(self.quests@[i].states@[s]) == discord_user_id,
    {
        let mut i: usize = 0;
        while i < self.quests.len()
            invariant
                i <= self.quests@.len(),
                forall|j: int, s: int|
                    0 <= j < i && 0 <= s < self.quests@[j].states@.len() ==> #[trigger] state_user(
                        self.quests@[j].states@[s],
                    ) != discord_user_id,
            decreases self.quests@.len() - i,
        {
            let mut k: usize = 0;
            while k < self.quests[i].states.len()
                invariant
                    i < self.quests@.len(),
                    k <= self.quests@[i as int].states@.len(),
                    forall|s: int| 0 <= s < k ==> #[trigger] state_user(self.quests@[i as int].states@[s]) != discord_user_id,
                decreases self.quests@[i as int].states@.len() - k,
            {
                let uid = match self.quests[i].states[k] {
                    QuestState::Active { discord_user_id: uid, .. } => uid,
                    QuestState::Scouting { discord_user_id: uid } => uid,
                };
                if uid == discord_user_id {
                    assert(state_user(self.quests@[i as int].states@[k as int]) == discord_user_id);
                    return true;
                }
                k += 1;
            }
            i += 1;
        }
        false
    }

    /// Number of quests with any player state (active job or scouting).
    pub fn active_quest_count(&self) -> (r: usize)
        ensures
            r == busy_count(self.quests_view()),
    {
        let mut n: usize = 0;
        let mut i: usize = 0;
        while i < self.quests.len()
            invariant
                i <= self.quests@.len(),
                n <= i,
                n == busy_count(self.quests_view().subrange(0, i as int)),
            decreases self.quests@.len() - i,
        {
            assert(self.quests_view().subrange(0, i + 1).drop_last() =~= self.quests_view().subrange(
                0,
                i as int,
            ));
            if self.quests[i].states.len() > 0 {
                n += 1;
            }
            i += 1;
        }
        assert(self.quests_view().subrange(0, i as int) =~= self.quests_view());
        n
    }

    /// Remove a quest by id regardless of state. Returns `false` if not found.
    pub fn remove_quest(&mut self, quest_id: u32) -> (r: bool)
        ensures
            r == exists|i: int| 0 <= i < old(self).quests@.len() && old(self).quests@[i].id == quest_id,
            final(self).quests_view() == without_id(old(self).quests_view(), quest_id),
            final(self).next_id == old(self).next_id,
            final(self).completed_results == old(self).completed_results,
            final(self).story_next_index == old(self).story_next_index,
            final(self).story_catalog_len == old(self).story_catalog_len,
    {
        let mut old_quests: Vec<BoardQuest> = Vec::new();
        std::mem::swap(&mut old_quests, &mut self.quests);
        let ghost orig = old_quests@.map_values(|q: BoardQuest| q@);
        assert(orig == old(self).quests_view());
        let mut kept: Vec<BoardQuest> = Vec::new();
        let ghost mut seen: int = 0;
        let mut found = false;
        while old_quests.len() > 0
            invariant
                0 <= seen <= orig.len(),
                old_quests@.map_values(|q: BoardQuest| q@) == orig.subrange(seen, orig.len() as int),
                kept@.map_values(|q: BoardQuest| q@) == without_id(orig.subrange(0, seen), quest_id),
                found == exists|i: int| 0 <= i < seen && orig[i].id == quest_id,
                orig == old(self).quests_view(),
            decreases old_quests@.len(),
        {
            proof {
                lemma_view_head(old_quests@);
            }
            let q = old_quests.remove(0);
            assert(orig.subrange(0, seen + 1).drop_last() =~= orig.subrange(0, seen));
            assert(orig[seen] == q@);
            if q.id != quest_id {
                kept.push(q);
                assert(kept@.map_values(|q: BoardQuest| q@) =~= without_id(orig.subrange(0, seen), quest_id).push(orig[seen]));
            } else {
                found = true;
            }
            proof {
                seen = seen + 1;
            }
            assert(old_quests@.map_values(|q: BoardQuest| q@) =~= orig.subrange(seen, orig.len() as int));
        }
        assert(orig.subrange(0, seen) =~= orig);
        proof {
            if found {
                let i = choose|i: int| 0 <= i < seen && orig[i].id == quest_id;
                assert(old(self).quests_view()[i] == old(self).quests@[i]@);
            } else {
                assert forall|i: int| 0 <= i < old(self).quests@.len() implies old(self).quests@[i].id
                    != quest_id by {
                    assert(old(self).quests_view()[i] == old(self).quests@[i]@);
                }
            }
        }
        self.quests = kept;
        found
    }

    /// Decrement `ticks_remaining` on every active quest, then remove and return
    /// quests that are ready to resolve this tick. A quest is due when its result
    /// is present in `completed_results` AND either:
    ///   - `ticks_remaining` has reached zero (all trials elapsed), OR
    ///   - the current trial's result is a failure (early resolution).
    pub fn tick_and_take_due(&mut self) -> (r: Vec<BoardQuest>)
        ensures
            ({
                let ticked = old(self).quests_view().map_values(|q: BoardQuestView| tick_view(q));
                let ids = due_ids(ticked, old(self).completed_results@);
                &&& r@.map_values(|q: BoardQuest| q@) == select(ticked, ids, true)
                &&& final(self).quests_view() == select(ticked, ids, false)
            }),
            final(self).next_id == old(self).next_id,
            final(self).completed_results == old(self).completed_results,
            final(self).story_next_index == old(self).story_next_index,
            final(self).story_catalog_len == old(self).story_catalog_len,
    {
        let mut old_quests: Vec<BoardQuest> = Vec::new();
        std::mem::swap(&mut old_quests, &mut self.quests);
        let ghost orig = old_quests@.map_values(|q: BoardQuest| q@);
        let ghost ticked = orig.map_values(|q: BoardQuestView| tick_view(q));
        let ghost results = self.completed_results@;
        assert(orig == old(self).quests_view());
        let mut ticked_quests: Vec<BoardQuest> = Vec::new();
        let mut ids: Vec<u32> = Vec::new();
        let ghost mut seen: int = 0;
        while old_quests.len() > 0
            invariant
                0 <= seen <= orig.len(),
                ticked == orig.map_values(|q: BoardQuestView| tick_view(q)),
                results == self.completed_results@,
                old_quests@.map_values(|q: BoardQuest| q@) == orig.subrange(seen, orig.len() as int),
                ticked_quests@.map_values(|q: BoardQuest| q@) == ticked.subrange(0, seen),
                ids@ == due_ids(ticked.subrange(0, seen), results),
            decreases old_quests@.len(),
        {
            proof {
                lemma_view_head(old_quests@);
            }
            let mut q = old_quests.remove(0);
            let ghost q0 = q@;
            assert(orig[seen] == q@);
            let mut states: Vec<QuestState> = Vec::new();
            let mut k: usize = 0;
            while k < q.states.len()
                invariant
                    k <= q.states@.len(),
                    states@ == q.states@.subrange(0, k as int).map_values(|s: QuestState| tick_state(s)),
                decreases q.states@.len() - k,
            {
                let s = match q.states[k] {
                    QuestState::Active { discord_user_id, ticks_remaining } => QuestState::Active {
                        discord_user_id,
                        ticks_remaining: ticks_remaining.saturating_sub(1),
                    },
                    QuestState::Scouting { discord_user_id } => QuestState::Scouting { discord_user_id },
                };
                states.push(s);
                k += 1;
                assert(states@ =~= q.states@.subrange(0, k as int).map_values(|s: QuestState| tick_state(s)));
            }
            assert(q.states@.subrange(0, k as int) =~= q.states@);
            assert(states@ =~= q0.states.map_values(|s: QuestState| tick_state(s)));
            q.states = states;
            assert(q@ == tick_view(orig[seen]));
            let is_due = self.quest_is_due(&q);
            assert(ticked.subrange(0, seen + 1).drop_last() =~= ticked.subrange(0, seen));
            if is_due {
                ids.push(q.id);
            }
            ticked_quests.push(q);
            proof {
                seen = seen + 1;
            }
            assert(ticked_quests@.map_values(|q: BoardQuest| q@) =~= ticked.subrange(0, seen));
            assert(old_quests@.map_values(|q: BoardQuest| q@) =~= orig.subrange(seen, orig.len() as int));
        }
        assert(ticked.subrange(0, seen) =~= ticked);
        let ghost all_ids = ids@;
        let mut due: Vec<BoardQuest> = Vec::new();
        let mut remaining: Vec<BoardQuest> = Vec::new();
        let ghost mut done: int = 0;
        while ticked_quests.len() > 0
            invariant
                0 <= done <= ticked.len(),
                ids@ == all_ids,
                ticked_quests@.map_values(|q: BoardQuest| q@) == ticked.subrange(done, ticked.len() as int),
                due@.map_values(|q: BoardQuest| q@) == select(ticked.subrange(0, done), all_ids, true),
                remaining@.map_values(|q: BoardQuest| q@) == select(ticked.subrange(0, done), all_ids, false),
            decreases ticked_quests@.len(),
        {
            proof {
                lemma_view_head(ticked_quests@);
            }
            let q = ticked_quests.remove(0);
            assert(ticked[done] == q@);
            assert(ticked.subrange(0, done + 1).drop_last() =~= ticked.subrange(0, done));
            if contains_id(&ids, q.id) {
                due.push(q);
                assert(due@.map_values(|q: BoardQuest| q@) =~= select(ticked.subrange(0, done), all_ids, true).push(ticked[done]));
            } else {
                remaining.push(q);
                assert(remaining@.map_values(|q: BoardQuest| q@) =~= select(ticked.subrange(0, done), all_ids, false).push(ticked[done]));
            }
            proof {
                done = done + 1;
            }
            assert(ticked_quests@.map_values(|q: BoardQuest| q@) =~= ticked.subrange(done, ticked.len() as int));
        }
        assert(ticked.subrange(0, done) =~= ticked);
        self.quests = remaining;
        due
    }

    fn quest_is_due(&self, q: &BoardQuest) -> (r: bool)
        ensures
            r == due(q@, self.completed_results@),
    {
        if q.states.len() == 0 {
            return false;
        }
        if let QuestState::Active { ticks_remaining, .. } = q.states[0] {
            match self.completed_results.get(&q.id) {
                Some(result) => {
                    let total_trials = q.quest_data.trials.len() as u32;
                    if ticks_remaining == 0 {
                        true
                    } else {
                        let trial_index: usize = if ticks_remaining >= total_trials {
                            0
                        } else {
                            (total_trials - ticks_remaining - 1) as usize
                        };
                        trial_index < result.trials.len() && !result.trials[trial_index].passed
                    }
                },
                None => false,
            }
        } else {
            false
        }
    }
}

fn contains_id(ids: &Vec<u32>, id: u32) -> (r: bool)
    ensures
        r == ids@.contains(id),
{
    let mut i: usize = 0;
    while i < ids.len()
        invariant
            i <= ids@.len(),
            forall|j: int| 0 <= j < i ==> ids@[j] != id,
        decreases ids@.len() - i,
    {
        if ids[i] == id {
            return true;
        }
        i += 1;
    }
    false
}

/// Does some state of the list belong to an active run by `uid`?
pub open spec fn quest_runs(states: Seq<QuestState>, uid: u64) -> bool {
    exists|s: int| 0 <= s < states.len() && #[trigger] active_for(states[s], uid)
}

/// Index of the first quest at or after `i` that `uid` is actively running.
pub open spec fn first_running_from(qs: Seq<BoardQuestView>, uid: u64, i: int) -> Option<int>
    decreases qs.len() - i,
{
    if i < 0 || i >= qs.len() {
        None
    } else if quest_runs(qs[i].states, uid) {
        Some(i)
    } else {
        first_running_from(qs, uid, i + 1)
    }
}

/// Index of the first quest at or after `i` with this id and no active run.
pub open spec fn first_open_from(qs: Seq<BoardQuestView>, quest_id: u32, i: int) -> Option<int>
    decreases qs.len() - i,
{
    if i < 0 || i >= qs.len() {
        None
    } else if qs[i].id == quest_id && !has_active_state(qs[i].states) {
        Some(i)
    } else {
        first_open_from(qs, quest_id, i + 1)
    }
}

/// Index of the first quest at or after `i` with this id.
pub open spec fn first_id_from(qs: Seq<BoardQuestView>, quest_id: u32, i: int) -> Option<int>
    decreases qs.len() - i,
{
    if i < 0 || i >= qs.len() {
        None
    } else if qs[i].id == quest_id {
        Some(i)
    } else {
        first_id_from(qs, quest_id, i + 1)
    }
}

proof fn lemma_view_head(v: Seq<BoardQuest>)
    requires
        v.len() > 0,
    ensures
        v.map_values(|q: BoardQuest| q@).len() == v.len(),
        v.map_values(|q: BoardQuest| q@)[0] == v[0]@,
        v.remove(0).map_values(|q: BoardQuest| q@) == v.map_values(|q: BoardQuest| q@).drop_first(),
{
    assert(v.remove(0).map_values(|q: BoardQuest| q@) =~= v.map_values(|q: BoardQuest| q@).drop_first());
}

/// Quests with any player state.
pub open spec fn busy_count(qs: Seq<BoardQuestView>) -> nat
    decreases qs.len(),
{
    if qs.len() == 0 {
        0
    } else {
        busy_count(qs.drop_last()) + if qs.last().states.len() > 0 {
            1nat
        } else {
            0nat
        }
    }
}

/// The quests whose id differs from `id`, in order.
pub open spec fn without_id(qs: Seq<BoardQuestView>, id: u32) -> Seq<BoardQuestView>
    decreases qs.len(),
{
    if qs.len() == 0 {
        Seq::empty()
    } else {
        let prev = without_id(qs.drop_last(), id);
        if qs.last().id != id {
            prev.push(qs.last())
        } else {
            prev
        }
    }
}

/// Taking due quests splits the ticked board: every quest lands on exactly one side, so
/// the two sides together are as long as the board.
pub proof fn lemma_tick_partition(qs: Seq<BoardQuestView>, ids: Seq<u32>)
    ensures
        select(qs, ids, true).len() + select(qs, ids, false).len() == qs.len(),
        forall|k: int|
            0 <= k < select(qs, ids, true).len() ==> ids.contains(
                #[trigger] select(qs, ids, true)[k].id,
            ),
        forall|k: int|
            0 <= k < select(qs, ids, false).len() ==> !ids.contains(
                #[trigger] select(qs, ids, false)[k].id,
            ),
    decreases qs.len(),
{
    if qs.len() > 0 {
        lemma_tick_partition(qs.drop_last(), ids);
        let t = select(qs.drop_last(), ids, true);
        let f = select(qs.drop_last(), ids, false);
        assert forall|k: int| 0 <= k < select(qs, ids, true).len() implies ids.contains(
            #[trigger] select(qs, ids, true)[k].id,
        ) by {
            if k < t.len() {
                assert(select(qs, ids, true)[k] == t[k]);
            }
        }
        assert forall|k: int| 0 <= k < select(qs, ids, false).len() implies !ids.contains(
            #[trigger] select(qs, ids, false)[k].id,
        ) by {
            if k < f.len() {
                assert(select(qs, ids, false)[k] == f[k]);
            }
        }
    }
}

} // verus!

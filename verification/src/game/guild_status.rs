use std::collections::{HashMap, HashSet};

use vstd::prelude::*;

use crate::game::busy::{BusyReason, BusyReasonView};
use crate::game::domain::board::{active_for, Board, BoardQuestView, QuestState};
use crate::game::domain::hospital::{admitted, Hospital, HospitalEntry};
use crate::game::domain::player::Player;
use crate::text::{sort_strings, sorted_strings, strings_view};

verus! {

broadcast use vstd::std_specs::hash::group_hash_axioms;

/// Does some state of the list belong to an active run by `uid`?
pub open spec fn runs(states: Seq<QuestState>, uid: u64) -> bool
    decreases states.len(),
{
    states.len() > 0 && (active_for(states.last(), uid) || runs(states.drop_last(), uid))
}

/// Title of the last quest on the board that `uid` is actively running, if any.
pub open spec fn active_title(qs: Seq<BoardQuestView>, uid: u64) -> Option<Seq<char>>
    decreases qs.len(),
{
    if qs.len() == 0 {
        None
    } else if runs(qs.last().states, uid) {
        Some(qs.last().generated.quest_title@)
    } else {
        active_title(qs.drop_last(), uid)
    }
}

/// Does some state of the list belong to `uid` scouting?
pub open spec fn scouts(states: Seq<QuestState>, uid: u64) -> bool
    decreases states.len(),
{
    states.len() > 0 && (states.last() == (QuestState::Scouting { discord_user_id: uid }) || scouts(
        states.drop_last(),
        uid,
    ))
}

/// Is `uid` scouting some quest of the board?
pub open spec fn scouting_on(qs: Seq<BoardQuestView>, uid: u64) -> bool
    decreases qs.len(),
{
    qs.len() > 0 && (scouts(qs.last().states, uid) || scouting_on(qs.drop_last(), uid))
}

pub open spec fn title_in(m: Map<u64, String>, uid: u64) -> Option<Seq<char>> {
    if m.contains_key(uid) {
        Some(m[uid]@)
    } else {
        None
    }
}

/// The title recorded for `uid` after a scan of the quests `qs` and the first states of
/// the quest titled `title`.
pub open spec fn title_after(qs: Seq<BoardQuestView>, states: Seq<QuestState>, title: Seq<char>, uid: u64) -> Option<Seq<char>> {
    if runs(states, uid) {
        Some(title)
    } else {
        active_title(qs, uid)
    }
}

/// Why `uid` cannot take a job: an active run, scouting, or a hospital bed, in that order.
pub open spec fn busy_spec(qs: Seq<BoardQuestView>, entries: Seq<HospitalEntry>, uid: u64) -> Option<BusyReasonView> {
    match active_title(qs, uid) {
        Some(t) => Some(BusyReasonView::ActiveQuest(t)),
        None => if scouting_on(qs, uid) {
            Some(BusyReasonView::Scouting)
        } else if admitted(entries, uid) {
            Some(BusyReasonView::Hospitalized)
        } else {
            None
        },
    }
}

/// Names of the players' chuds that are not busy, in roster order.
pub open spec fn idle_chud_names(players: Seq<Player>, qs: Seq<BoardQuestView>, entries: Seq<HospitalEntry>) -> Seq<Seq<char>>
    decreases players.len(),
{
    if players.len() == 0 {
        Seq::empty()
    } else {
        let prev = idle_chud_names(players.drop_last(), qs, entries);
        let p = players.last();
        if p.chud is Some && busy_spec(qs, entries, p.discord_user_id) is None {
            prev.push(p.chud.unwrap().name@)
        } else {
            prev
        }
    }
}

pub open spec fn entry_names(entries: Seq<HospitalEntry>) -> Seq<Seq<char>> {
    entries.map_values(|e: HospitalEntry| e.chud_name@)
}

pub open spec fn any_chud(players: Seq<Player>) -> bool {
    exists|i: int| 0 <= i < players.len() && #[trigger] players[i].chud is Some
}

/// Is `st` the guild-hall status of this board, hospital and roster: each player's busy
/// reason as the board and hospital give it, the idle chuds' and patients' names sorted,
/// and the notice flags.
pub open spec fn hall_status(st: GuildHallStatus, board: Board, hospital: Hospital, players: Seq<Player>) -> bool {
    &&& forall|uid: u64| #[trigger] st.reason_spec(uid) == busy_spec(board.quests_view(), hospital.entries@, uid)
    &&& sorted_strings(strings_view(st.idle_names@))
    &&& strings_view(st.idle_names@).to_multiset() == idle_chud_names(
        players,
        board.quests_view(),
        hospital.entries@,
    ).to_multiset()
    &&& sorted_strings(strings_view(st.hospital_names@))
    &&& strings_view(st.hospital_names@).to_multiset() == entry_names(hospital.entries@).to_multiset()
    &&& st.show_no_chuds == !any_chud(players)
    &&& st.show_all_busy == (any_chud(players) && st.idle_names@.len() == 0)
}

/// Roster assignment index and guild-hall status message inputs, from one board + hospital scan.
#[derive(Debug)]
pub struct GuildHallStatus {
    pub active: HashMap<u64, String>,
    pub scouting: HashSet<u64>,
    pub hospitalized: HashSet<u64>,
    pub idle_names: Vec<String>,
    pub hospital_names: Vec<String>,
    pub show_all_busy: bool,
    pub show_no_chuds: bool,
}

impl GuildHallStatus {
    /// Quest title of each player on an active job.
    pub open spec fn active_view(&self) -> Map<u64, Seq<char>> {
        self.active@.map_values(|s: String| s@)
    }

    pub open spec fn scouting_view(&self) -> Set<u64> {
        self.scouting@
    }

    pub open spec fn hospitalized_view(&self) -> Set<u64> {
        self.hospitalized@
    }

    /// The busy reason this snapshot records for `uid`.
    pub open spec fn reason_spec(&self, uid: u64) -> Option<BusyReasonView> {
        if self.active_view().contains_key(uid) {
            Some(BusyReasonView::ActiveQuest(self.active_view()[uid]))
        } else if self.scouting_view().contains(uid) {
            Some(BusyReasonView::Scouting)
        } else if self.hospitalized_view().contains(uid) {
            Some(BusyReasonView::Hospitalized)
        } else {
            None
        }
    }

    pub fn busy_reason(&self, discord_user_id: u64) -> (r: Option<BusyReason>)
        ensures
            crate::game::busy::opt_reason_view(r) == self.reason_spec(discord_user_id),
    {
        match self.active.get(&discord_user_id) {
            Some(quest_title) => {
                return Some(BusyReason::ActiveQuest { quest_title: quest_title.clone() });
            },
            None => {},
        }
        if self.scouting.contains(&discord_user_id) {
            return Some(BusyReason::Scouting);
        }
        if self.hospitalized.contains(&discord_user_id) {
            return Some(BusyReason::Hospitalized);
        }
        None
    }

    pub fn is_busy(&self, discord_user_id: u64) -> (r: bool)
        ensures
            r == (self.reason_spec(discord_user_id) is Some),
    {
        self.busy_reason(discord_user_id).is_some()
    }
}

/// Rebuilds who is busy and who is loitering in the guild hall from current game state:
/// players on active jobs (with the title of the last such quest) or scouting, hospital
/// admissions, and the sorted names of every other chud among `players`, plus the flags
/// for the all-busy and no-chuds notices.
pub fn compute_guild_hall_status(board: &Board, hospital: &Hospital, players: &Vec<Player>) -> (r: GuildHallStatus)
    ensures
        hall_status(r, *board, *hospital, players@),
{
    let ghost qs = board.quests_view();
    let mut active: HashMap<u64, String> = HashMap::new();
    let mut scouting: HashSet<u64> = HashSet::new();
    let mut i: usize = 0;
    while i < board.quests.len()
        invariant
            i <= board.quests@.len(),
            qs == board.quests_view(),
            forall|uid: u64| #[trigger] title_in(active@, uid) == active_title(qs.subrange(0, i as int), uid),
            forall|uid: u64| #[trigger] scouting@.contains(uid) == scouting_on(qs.subrange(0, i as int), uid),
        decreases board.quests@.len() - i,
    {
        let quest = &board.quests[i];
        assert(qs[i as int] == quest@);
        let ghost prefix = qs.subrange(0, i as int);
        let ghost states = quest.states@;
        let ghost title = quest.generated.quest_title@;
        let mut k: usize = 0;
        assert(states.subrange(0, 0) =~= Seq::<QuestState>::empty());
        while k < quest.states.len()
            invariant
                k <= states.len(),
                states == quest.states@,
                title == quest.generated.quest_title@,
                forall|uid: u64| #[trigger] title_in(active@, uid) == title_after(prefix, states.subrange(0, k as int), title, uid),
                forall|uid: u64| #[trigger] scouting@.contains(uid) == (scouting_on(prefix, uid) || scouts(states.subrange(0, k as int), uid)),
            decreases states.len() - k,
        {
            assert(states.subrange(0, k + 1).drop_last() =~= states.subrange(0, k as int));
            match quest.states[k] {
                QuestState::Active { discord_user_id, .. } => {
                    let ghost before = active@;
                    let t = quest.generated.quest_title.clone();
                    active.insert(discord_user_id, t);
                    assert(states.subrange(0, k + 1).last() == states[k as int]);
                    assert forall|uid: u64| #[trigger] title_in(active@, uid) == title_after(
                        prefix,
                        states.subrange(0, k + 1),
                        title,
                        uid,
                    ) by {
                        if uid == discord_user_id {
                            assert(active_for(states.subrange(0, k + 1).last(), uid));
                        } else {
                            assert(title_in(active@, uid) == title_in(before, uid));
                            assert(!active_for(states.subrange(0, k + 1).last(), uid));
                        }
                    }
                },
                QuestState::Scouting { discord_user_id } => {
                    scouting.insert(discord_user_id);
                },
            }
            k += 1;
        }
        assert(states.subrange(0, k as int) =~= states);
        assert(qs.subrange(0, i + 1).drop_last() =~= prefix);
        i += 1;
    }
    assert(qs.subrange(0, i as int) =~= qs);
    let mut hospitalized: HashSet<u64> = HashSet::new();
    let mut names: Vec<String> = Vec::new();
    let ghost es = hospital.entries@;
    let mut j: usize = 0;
    while j < hospital.entries.len()
        invariant
            j <= es.len(),
            es == hospital.entries@,
            forall|uid: u64| #[trigger] hospitalized@.contains(uid) == admitted(es.subrange(0, j as int), uid),
            strings_view(names@) == entry_names(es.subrange(0, j as int)),
        decreases es.len() - j,
    {
        assert(es.subrange(0, j + 1).drop_last() =~= es.subrange(0, j as int));
        hospitalized.insert(hospital.entries[j].discord_user_id);
        let ghost old_names = strings_view(names@);
        let name = hospital.entries[j].chud_name.clone();
        names.push(name);
        assert(strings_view(names@) =~= old_names.push(es[j as int].chud_name@));
        assert(entry_names(es.subrange(0, j + 1)) =~= entry_names(es.subrange(0, j as int)).push(
            es[j as int].chud_name@,
        ));
        j += 1;
    }
    assert(es.subrange(0, j as int) =~= es);
    let hospital_names = sort_strings(names);
    let mut idle: Vec<String> = Vec::new();
    let mut has_any_chud = false;
    let mut p: usize = 0;
    while p < players.len()
        invariant
            p <= players@.len(),
            qs == board.quests_view(),
            es == hospital.entries@,
            forall|uid: u64| #[trigger] title_in(active@, uid) == active_title(qs, uid),
            forall|uid: u64| #[trigger] scouting@.contains(uid) == scouting_on(qs, uid),
            forall|uid: u64| #[trigger] hospitalized@.contains(uid) == admitted(es, uid),
            strings_view(idle@) == idle_chud_names(players@.subrange(0, p as int), qs, es),
            has_any_chud == any_chud(players@.subrange(0, p as int)),
        decreases players@.len() - p,
    {
        let ghost sub = players@.subrange(0, p + 1);
        assert(sub.drop_last() =~= players@.subrange(0, p as int));
        let player = &players[p];
        if player.has_chud() {
            has_any_chud = true;
            let id = player.discord_user_id;
            assert(title_in(active@, id) == active_title(qs, id));
            assert(scouting@.contains(id) == scouting_on(qs, id));
            assert(hospitalized@.contains(id) == admitted(es, id));
            if !active.contains_key(&id) && !scouting.contains(&id) && !hospitalized.contains(&id) {
                idle.push(player.chud_ref().name.clone());
                assert(strings_view(idle@) =~= idle_chud_names(sub, qs, es));
            }
            assert(sub[p as int].chud is Some);
        }
        proof {
            if any_chud(sub) {
                if !any_chud(players@.subrange(0, p as int)) {
                    let w = choose|w: int| 0 <= w < sub.len() && #[trigger] sub[w].chud is Some;
                    if w < p {
                        assert(players@.subrange(0, p as int)[w].chud is Some);
                    }
                }
            }
            if any_chud(players@.subrange(0, p as int)) {
                let w = choose|w: int| 0 <= w < p && #[trigger] players@.subrange(0, p as int)[w].chud is Some;
                assert(sub[w].chud is Some);
            }
        }
        p += 1;
    }
    assert(players@.subrange(0, p as int) =~= players@);
    let idle_names = sort_strings(idle);
    let show_no_chuds = !has_any_chud;
    let show_all_busy = has_any_chud && idle_names.len() == 0;
    let r = GuildHallStatus {
        active,
        scouting,
        hospitalized,
        idle_names,
        hospital_names,
        show_all_busy,
        show_no_chuds,
    };
    assert forall|uid: u64| #[trigger] r.reason_spec(uid) == busy_spec(qs, es, uid) by {
        assert(title_in(r.active@, uid) == active_title(qs, uid));
        assert(r.scouting@.contains(uid) == scouting_on(qs, uid));
        assert(r.hospitalized@.contains(uid) == admitted(es, uid));
    }
    proof {
        if strings_view(idle_names@).len() == 0 {
        }
    }
    r
}

} // verus!

use vstd::prelude::*;

use crate::game::busy::{is_equipment_locked, is_player_busy, BusyReasonView};
use crate::game::domain::board::{first_id_from, Board, BoardQuest, BoardQuestView};
use crate::game::domain::graveyard::{Graveyard, GraveyardEntry};
use crate::game::domain::hospital::Hospital;
use crate::game::domain::item::{EquipmentSlot, Item, ItemType};
use crate::game::domain::job_queue::{JobQueue, QueuedQuest};
use crate::game::domain::player::{create_chud, Chud, ChudEquipment, Player};
use crate::game::domain::quest::TrialStats;
use crate::game::domain::starting_benefits::{benefits_after_add, benefits_after_take, pending, StartingBenefits};
use crate::game::domain::stash::{remove_first, StashError, STASH_CAPACITY};
use crate::game::generation::quest_generator::{GeneratedQuest, QuestData, TrialResult};
use crate::game::mechanics::quest_builder::{PlayedQuest, StatChoice, TrialOutcome};
use crate::game::mechanics::simulation::{effective_stat_spec, effective_stats, equipped, gear_of, play_quest, playable, played_by};
use crate::game::domain::player::{description_with, opt_seq};
use crate::game::guild_status::{busy_spec, GuildHallStatus};
use crate::game::merchant::{dave_holds, lemma_recycled_has, lemma_recycled_holds, recycled, BuyError, MerchantState};
use crate::game::persistence::item_registry::{lookup, ItemRegistry};

verus! {

/// Why an engine operation was refused.
#[derive(Debug, Clone, Copy, PartialEq, Eq, Structural)]
pub enum EngineError {
    /// The player has no chud.
    NoChud,
    /// The player already has a chud.
    ChudExists,
    /// The player is on a job, scouting, or in the hospital.
    Busy,
    /// No quest on the board has that id.
    QuestNotFound,
    /// The quest is already being run.
    QuestUnavailable,
    /// The chud is on a job or scouting, so its loadout cannot change.
    EquipmentLocked,
    /// The item is not in the stash.
    ItemNotInStash,
    /// The item is not in the registry.
    ItemNotFound,
    /// The equipment slot is empty.
    SlotEmpty,
    /// The player neither stashes nor wears the item.
    ItemNotOwned,
    /// The stash refused the item.
    Stash(StashError),
}

/// Context about what killed a chud, used for epitaph generation.
#[derive(Debug)]
pub struct DeathContext {
    pub trial: String,
    pub outcome: String,
}

impl Clone for DeathContext {
    fn clone(&self) -> (r: Self)
        ensures
            r == *self,
    {
        DeathContext { trial: self.trial.clone(), outcome: self.outcome.clone() }
    }
}

pub struct KillResult {
    pub discord_user_id: u64,
    pub chud_name: String,
    pub benefits_awarded: u32,
    pub epitaph: String,
}

/// Info returned after a chud accepts a quest.
pub struct AssignInfo {
    pub player: Player,
    pub quest_title: String,
}

/// Result of creating (or respawning) a chud.
pub struct AddChudResult {
    pub player: Player,
    /// Inherited starting-benefit cash claimed on creation (0 if none pending).
    pub benefits_claimed: u32,
}

/// A pending generation job sent to the background worker.
pub enum GenerationJob {
    /// Generate the result narrative for an already-assigned quest.
    QuestResult { board_quest: BoardQuest, player: Player, force_item_drop: bool },
    /// Fully generate a new quest from a description and add it to the board.
    QuestCreation {
        quest_data: QuestData,
        /// Some(catalog index) for story jobs; None for regular jobs.
        story_index: Option<usize>,
    },
    /// Generate the merchant roster and stock pools for a fresh game.
    MerchantCatalog,
}

#[derive(Debug, Clone, Copy, PartialEq, Eq, Structural)]
pub enum ItemAwardDisposition {
    Stashed,
    Equipped,
    Sold(u32),
}

/// The sync part of a chud's death: its gear liquidated, the chud buried (epitaph still
/// to be written), and the head start its heir will get.
pub struct KillChudPending {
    pub discord_user_id: u64,
    pub chud_name: String,
    pub benefits_awarded: u32,
    pub chud: Chud,
    pub death_trial: String,
    pub death_outcome: String,
}

/// An idle regular job one tick later: its timeout runs down by one, stopping at zero.
pub open spec fn aged(q: BoardQuestView) -> BoardQuestView {
    BoardQuestView {
        timeout: if q.timeout > 0 {
            (q.timeout - 1) as u32
        } else {
            0
        },
        ..q
    }
}

/// Does a quest age on this tick (nobody on it, not a story job)?
pub open spec fn ages(q: BoardQuestView) -> bool {
    q.states.len() == 0 && q.story_index is None
}

/// Does the quest expire on this tick?
pub open spec fn expires(q: BoardQuestView) -> bool {
    ages(q) && q.timeout <= 1
}

/// The board quests that stay after a tick of timeouts, aged where idle.
pub open spec fn drained_board(qs: Seq<BoardQuestView>) -> Seq<BoardQuestView>
    decreases qs.len(),
{
    if qs.len() == 0 {
        Seq::empty()
    } else {
        let prev = drained_board(qs.drop_last());
        let q = qs.last();
        if expires(q) {
            prev
        } else if ages(q) {
            prev.push(aged(q))
        } else {
            prev.push(q)
        }
    }
}

/// The jobs that expire on this tick, ready to go back to the queue, in board order.
pub open spec fn drained_jobs(qs: Seq<BoardQuestView>) -> Seq<QueuedQuest>
    decreases qs.len(),
{
    if qs.len() == 0 {
        Seq::empty()
    } else {
        let prev = drained_jobs(qs.drop_last());
        let q = qs.last();
        if expires(q) {
            prev.push(QueuedQuest { quest_data: q.quest_data, generated: q.generated })
        } else {
            prev
        }
    }
}

proof fn lemma_quests_head(v: Seq<BoardQuest>)
    requires
        v.len() > 0,
    ensures
        v.map_values(|q: BoardQuest| q@)[0] == v[0]@,
        v.remove(0).map_values(|q: BoardQuest| q@) == v.map_values(|q: BoardQuest| q@).drop_first(),
{
    assert(v.remove(0).map_values(|q: BoardQuest| q@) =~= v.map_values(|q: BoardQuest| q@).drop_first());
}

/// Decrement idle regular job timeouts, remove expired jobs, return them for re-queue.
pub fn drain_expired_board_jobs(board: &mut Board) -> (r: Vec<QueuedQuest>)
    ensures
        final(board).quests_view() == drained_board(old(board).quests_view()),
        r@ == drained_jobs(old(board).quests_view()),
        final(board).next_id == old(board).next_id,
        final(board).completed_results == old(board).completed_results,
        final(board).story_next_index == old(board).story_next_index,
        final(board).story_catalog_len == old(board).story_catalog_len,
{
    let mut rest: Vec<BoardQuest> = Vec::new();
    std::mem::swap(&mut rest, &mut board.quests);
    let ghost orig = rest@.map_values(|q: BoardQuest| q@);
    let mut kept: Vec<BoardQuest> = Vec::new();
    let mut expired: Vec<QueuedQuest> = Vec::new();
    let ghost mut done: int = 0;
    while rest.len() > 0
        invariant
            0 <= done <= orig.len(),
            rest@.map_values(|q: BoardQuest| q@) == orig.subrange(done, orig.len() as int),
            kept@.map_values(|q: BoardQuest| q@) == drained_board(orig.subrange(0, done)),
            expired@ == drained_jobs(orig.subrange(0, done)),
        decreases rest@.len(),
    {
        proof {
            lemma_quests_head(rest@);
        }
        let mut q = rest.remove(0);
        assert(orig[done] == q@);
        assert(orig.subrange(0, done + 1).drop_last() =~= orig.subrange(0, done));
        let ghost before = kept@.map_values(|q: BoardQuest| q@);
        if q.states.len() == 0 && !q.is_story() {
            q.timeout = q.timeout.saturating_sub(1);
            if q.timeout == 0 {
                expired.push(QueuedQuest { quest_data: q.quest_data, generated: q.generated });
            } else {
                kept.push(q);
                assert(kept@.map_values(|q: BoardQuest| q@) =~= before.push(aged(orig[done])));
            }
        } else {
            kept.push(q);
            assert(kept@.map_values(|q: BoardQuest| q@) =~= before.push(orig[done]));
        }
        proof {
            done = done + 1;
        }
        assert(rest@.map_values(|q: BoardQuest| q@) =~= orig.subrange(done, orig.len() as int));
    }
    assert(orig.subrange(0, done) =~= orig);
    board.quests = kept;
    expired
}

/// Push a fully generated quest onto the job queue.
pub fn enqueue_quest(queue: &mut JobQueue, quest_data: QuestData, generated: GeneratedQuest)
    ensures
        final(queue).entries@ == old(queue).entries@.push(QueuedQuest { quest_data, generated }),
{
    queue.push(quest_data, generated);
}

/// A regular-job creation request for a description, difficulty and rolled trials.
pub fn make_quest_creation_job(
    description: String,
    difficulty: u8,
    quest_goal: Option<String>,
    trials: Vec<TrialStats>,
) -> (r: GenerationJob)
    ensures
        r == (GenerationJob::QuestCreation {
            quest_data: QuestData {
                quest_description: description,
                quest_goal,
                quest_difficulty: difficulty,
                trials,
            },
            story_index: None,
        }),
{
    GenerationJob::QuestCreation {
        quest_data: QuestData {
            quest_description: description,
            quest_goal,
            quest_difficulty: difficulty,
            trials,
        },
        story_index: None,
    }
}

/// Remove a quest from the board by id (any state). Errors if not found.
pub fn delete_quest(board: &mut Board, quest_id: u32) -> (r: Result<(), EngineError>)
    ensures
        r is Ok == (exists|i: int| 0 <= i < old(board).quests@.len() && old(board).quests@[i].id == quest_id),
        r is Err ==> r == Err::<(), EngineError>(EngineError::QuestNotFound),
        final(board).quests_view() == crate::game::domain::board::without_id(old(board).quests_view(), quest_id),
        final(board).next_id == old(board).next_id,
        final(board).story_next_index == old(board).story_next_index,
        final(board).story_catalog_len == old(board).story_catalog_len,
{
    if !board.remove_quest(quest_id) {
        return Err(EngineError::QuestNotFound);
    }
    Ok(())
}

/// Create a chud for a Discord user, or respawn one for a player whose chud died, with
/// any pending head-start money. Refused when the player already has a chud.
pub fn add_chud(
    existing: Option<Player>,
    benefits: &mut StartingBenefits,
    discord_user_id: u64,
    name: String,
    description: String,
) -> (r: Result<AddChudResult, EngineError>)
    ensures
        (existing matches Some(p) && p.chud is Some) ==> r is Err && r == Err::<AddChudResult, EngineError>(EngineError::ChudExists)
            && final(benefits).entries@ == old(benefits).entries@,
        !(existing matches Some(p) && p.chud is Some) ==> (r matches Ok(res) && {
            let bonus = pending(old(benefits).entries@, discord_user_id);
            let base_cash: u32 = match existing {
                Some(p) => p.cash,
                None => 0,
            };
            &&& res.benefits_claimed == bonus
            &&& res.player.cash == (if base_cash + bonus > u32::MAX {
                u32::MAX as int
            } else {
                base_cash + bonus
            })
            &&& res.player.chud == Some(Chud {
                name,
                description,
                strength: 1,
                smarts: 1,
                stealth: 1,
                experience: 1,
                str_successes: 0,
                smt_successes: 0,
                sth_successes: 0,
                job_successes: 0,
                total_job_successes: 0,
                total_job_failures: 0,
                equipment: ChudEquipment { gear: None, weapon: None, misc: [None, None] },
            })
            &&& match existing {
                Some(p) => res.player.discord_user_id == p.discord_user_id && res.player.stash@ == p.stash@,
                None => res.player.discord_user_id == discord_user_id && res.player.stash@.len() == 0,
            }
            &&& final(benefits).entries@ == benefits_after_take(old(benefits).entries@, discord_user_id)
        }),
{
    match &existing {
        Some(p) => {
            if p.has_chud() {
                return Err(EngineError::ChudExists);
            }
        },
        None => {},
    }
    let bonus = benefits.take(discord_user_id);
    match existing {
        Some(mut player) => {
            let fresh = create_chud(discord_user_id, name, description);
            player.chud = fresh.chud;
            player.cash = player.cash.saturating_add(bonus);
            Ok(AddChudResult { player, benefits_claimed: bonus })
        },
        None => {
            let mut player = create_chud(discord_user_id, name, description);
            player.cash = player.cash.saturating_add(bonus);
            Ok(AddChudResult { player, benefits_claimed: bonus })
        },
    }
}

/// Is the chud's loadout locked (it is on a job or scouting)?
pub open spec fn locked_spec(board: Board, hospital: Hospital, uid: u64) -> bool {
    match busy_spec(board.quests_view(), hospital.entries@, uid) {
        Some(BusyReasonView::ActiveQuest(_)) => true,
        Some(BusyReasonView::Scouting) => true,
        _ => false,
    }
}

fn equipment_locked(board: &Board, hospital: &Hospital, uid: u64) -> (r: bool)
    ensures
        r == locked_spec(*board, *hospital, uid),
{
    is_equipment_locked(board, hospital, uid).is_some()
}

/// What assigning a chud to a quest does: refused without a chud, when busy, when no
/// quest has the id (board unchanged), or when the quest is already being run (quests
/// unchanged); else the first open quest with the id gets the chud's active state, counting
/// down one tick per trial, and its idle timeout restarts.
pub open spec fn assign_effect(
    before: Board,
    after: Board,
    player: Option<Player>,
    discord_user_id: u64,
    quest_id: u32,
    busy: bool,
    job_timeout_tick: u32,
    r: Result<AssignInfo, EngineError>,
) -> bool {
    let found = first_id_from(before.quests_view(), quest_id, 0);
    if !(player matches Some(p) && p.chud is Some) {
        r == Err::<AssignInfo, EngineError>(EngineError::NoChud) && after == before
    } else if busy {
        r == Err::<AssignInfo, EngineError>(EngineError::Busy) && after == before
    } else if found is None {
        r == Err::<AssignInfo, EngineError>(EngineError::QuestNotFound) && after == before
    } else if before.first_open(quest_id) is None {
        r == Err::<AssignInfo, EngineError>(EngineError::QuestUnavailable) && after == before
    } else {
        let q = before.quests_view()[found.unwrap()];
        let k = before.first_open(quest_id).unwrap();
        &&& r matches Ok(info) && info.player == player.unwrap()
            && info.quest_title == q.generated.quest_title
        &&& after.quests_view() == before.quests_view().update(
            k,
            BoardQuestView {
                states: before.quests@[k].states@.push(
                    crate::game::domain::board::QuestState::Active {
                        discord_user_id,
                        ticks_remaining: q.quest_data.trials@.len() as u32,
                    },
                ),
                timeout: job_timeout_tick,
                ..before.quests@[k]@
            },
        )
        &&& after.next_id == before.next_id
        &&& after.completed_results == before.completed_results
        &&& after.story_next_index == before.story_next_index
        &&& after.story_catalog_len == before.story_catalog_len
    }
}

/// Assign a chud to an open board quest, counting down one tick per trial. Refused when
/// the player has no chud, is busy (by the given snapshot, or else by the board and
/// hospital), when no quest has the id, or when the quest is already being run.
pub fn assign_chud_to_quest(
    board: &mut Board,
    hospital: &Hospital,
    player: Option<Player>,
    discord_user_id: u64,
    quest_id: u32,
    pre_assign_status: Option<&GuildHallStatus>,
    job_timeout_tick: u32,
) -> (r: Result<AssignInfo, EngineError>)
    ensures
        assign_effect(
            *old(board),
            *final(board),
            player,
            discord_user_id,
            quest_id,
            match pre_assign_status {
                Some(st) => st.reason_spec(discord_user_id) is Some,
                None => busy_spec(old(board).quests_view(), hospital.entries@, discord_user_id) is Some,
            },
            job_timeout_tick,
            r,
        ),
{
    let player = match player {
        Some(p) => {
            if !p.has_chud() {
                return Err(EngineError::NoChud);
            }
            p
        },
        None => {
            return Err(EngineError::NoChud);
        },
    };
    let busy = match pre_assign_status {
        Some(status) => status.is_busy(discord_user_id),
        None => is_player_busy(board, hospital, discord_user_id).is_some(),
    };
    if busy {
        return Err(EngineError::Busy);
    }
    let mut i: usize = 0;
    let ghost qs = board.quests_view();
    let mut found: Option<usize> = None;
    while i < board.quests.len() && found.is_none()
        invariant
            i <= board.quests@.len(),
            qs == board.quests_view(),
            found is None ==> first_id_from(qs, quest_id, 0) == first_id_from(qs, quest_id, i as int),
            found matches Some(k) ==> first_id_from(qs, quest_id, 0) == Some(k as int) && k < board.quests@.len(),
        decreases board.quests@.len() - i + (if found is None { 1int } else { 0int }),
    {
        assert(qs[i as int] == board.quests@[i as int]@);
        if board.quests[i].id == quest_id {
            found = Some(i);
        } else {
            i += 1;
        }
    }
    let k = match found {
        Some(k) => k,
        None => {
            return Err(EngineError::QuestNotFound);
        },
    };
    assert(qs[k as int] == board.quests@[k as int]@);
    let ticks_remaining = board.quests[k].quest_data.trials.len() as u32;
    let quest_title = board.quests[k].generated.quest_title.clone();
    if !board.assign(quest_id, discord_user_id, ticks_remaining, job_timeout_tick) {
        return Err(EngineError::QuestUnavailable);
    }
    Ok(AssignInfo { player, quest_title })
}

/// Is the item in one of the chud's equipment slots?
pub fn is_item_equipped(player: &Player, item_id: u32) -> (r: bool)
    requires
        player.chud is Some,
    ensures
        r == player.chud_of().equipment.ids().contains(item_id),
{
    let ids = player.chud_ref().equipment.all_ids();
    let mut i: usize = 0;
    while i < ids.len()
        invariant
            i <= ids@.len(),
            ids@ == player.chud_of().equipment.ids(),
            forall|j: int| 0 <= j < i ==> ids@[j] != item_id,
        decreases ids@.len() - i,
    {
        if ids[i] == item_id {
            assert(ids@[i as int] == item_id);
            return true;
        }
        i += 1;
    }
    false
}

/// The player with one equipment slot of the chud set.
pub open spec fn with_chud_slot(p: Player, slot: EquipmentSlot, v: Option<u32>) -> Player {
    Player {
        chud: Some(Chud { equipment: p.chud_of().equipment.with_slot(slot, v), ..p.chud_of() }),
        ..p
    }
}

fn set_chud_slot(player: &mut Player, slot: EquipmentSlot, v: Option<u32>) -> (r: Option<u32>)
    requires
        old(player).chud is Some,
    ensures
        r == old(player).chud_of().equipment.slot_value(slot),
        final(player).chud == with_chud_slot(*old(player), slot, v).chud,
        final(player).cash == old(player).cash,
        final(player).discord_user_id == old(player).discord_user_id,
        final(player).stash == old(player).stash,
{
    let mut chud = player.chud.take().unwrap();
    let prev = chud.equipment.set_slot(slot, v);
    player.chud = Some(chud);
    prev
}

/// Equip an item on the chud in the slot its kind goes to (a misc item takes the first
/// free misc slot, else the first), returning the id it replaced there, if any.
pub fn equip_item(player: &mut Player, item: Item) -> (r: Option<u32>)
    requires
        old(player).chud is Some,
    ensures
        ({
            let eq = old(player).chud_of().equipment;
            let slot = eq.equip_slot(item.item_type);
            &&& r == eq.slot_value(slot)
            &&& final(player).chud == with_chud_slot(*old(player), slot, Some(item.id)).chud
            &&& final(player).cash == old(player).cash
            &&& final(player).discord_user_id == old(player).discord_user_id
            &&& final(player).stash == old(player).stash
        }),
{
    let slot = player.chud_ref().equipment.slot_for_item_type(item.item_type);
    set_chud_slot(player, slot, Some(item.id))
}

/// The outcome of equipping `item_id` from the stash, as `equip_from_stash` promises it.
pub open spec fn equip_result(board: Board, hospital: Hospital, p0: Player, item_id: u32, registry: ItemRegistry, p1: Player, r: Result<(), EngineError>) -> bool {
    &&& (p1.discord_user_id == p0.discord_user_id)
    &&& (p1.cash == p0.cash)
    &&& (if locked_spec(board, hospital, p0.discord_user_id) {
            r == Err::<(), EngineError>(EngineError::EquipmentLocked) && p1 == p0
        } else if !p0.stash@.contains(item_id) {
            r == Err::<(), EngineError>(EngineError::ItemNotInStash) && p1 == p0
        } else if lookup(registry.items@, item_id) is None {
            r == Err::<(), EngineError>(EngineError::ItemNotFound) && p1 == p0
        } else {
            let eq = p0.chud_of().equipment;
            let slot = eq.equip_slot(lookup(registry.items@, item_id).unwrap().item_type);
            let s1 = remove_first(p0.stash@, item_id);
            &&& p1.chud == with_chud_slot(p0, slot, Some(item_id)).chud
            &&& match eq.slot_value(slot) {
                None => r is Ok && p1.stash@ == s1,
                Some(d) => if s1.len() < STASH_CAPACITY && !s1.contains(d) {
                    r is Ok && p1.stash@ == s1.push(d)
                } else {
                    r is Err && p1.stash@ == s1
                },
            }
        })
}

/// Move an item from stash into the slot its type goes to, swapping any displaced item
/// into the stash. Refused while the loadout is locked, for an item not in the stash, or
/// one the registry does not know. Should the stash refuse the displaced item, the swap
/// stands and the error is returned.
pub fn equip_from_stash(
    board: &Board,
    hospital: &Hospital,
    player: &mut Player,
    item_id: u32,
    registry: &ItemRegistry,
) -> (r: Result<(), EngineError>)
    requires
        old(player).chud is Some,
    ensures
        equip_result(*board, *hospital, *old(player), item_id, *registry, *final(player), r),
{
    if equipment_locked(board, hospital, player.discord_user_id) {
        return Err(EngineError::EquipmentLocked);
    }
    if !player.stash.contains(item_id) {
        return Err(EngineError::ItemNotInStash);
    }
    let item_type = match registry.get(item_id) {
        Some(item) => item.item_type,
        None => {
            return Err(EngineError::ItemNotFound);
        },
    };
    player.stash.remove(item_id);
    let slot = player.chud_ref().equipment.slot_for_item_type(item_type);
    let displaced = set_chud_slot(player, slot, Some(item_id));
    match displaced {
        Some(d) => match player.stash.push(d) {
            Ok(()) => Ok(()),
            Err(e) => Err(EngineError::Stash(e)),
        },
        None => Ok(()),
    }
}

/// The outcome of unequipping `slot`, as `unequip_slot` promises it.
pub open spec fn unequip_result(board: Board, hospital: Hospital, p0: Player, slot: EquipmentSlot, p1: Player, r: Result<(), EngineError>) -> bool {
    &&& (if locked_spec(board, hospital, p0.discord_user_id) {
            r == Err::<(), EngineError>(EngineError::EquipmentLocked) && p1 == p0
        } else {
            match p0.chud_of().equipment.slot_value(slot) {
                None => r == Err::<(), EngineError>(EngineError::SlotEmpty) && p1 == p0,
                Some(id) => if p0.stash@.len() >= STASH_CAPACITY {
                    r == Err::<(), EngineError>(EngineError::Stash(StashError::Full))
                        && p1.stash@ == p0.stash@ && p1.chud == p0.chud
                } else if p0.stash@.contains(id) {
                    r == Err::<(), EngineError>(EngineError::Stash(StashError::AlreadyPresent))
                        && p1.stash@ == p0.stash@ && p1.chud == p0.chud
                } else {
                    r is Ok && p1.stash@ == p0.stash@.push(id) && p1.chud
                        == with_chud_slot(p0, slot, None).chud
                },
            }
        })
    &&& (p1.discord_user_id == p0.discord_user_id)
    &&& (p1.cash == p0.cash)
}

/// Move an equipped item into the stash. Refused while the loadout is locked, for an empty
/// slot, or when the stash refuses the item.
pub fn unequip_slot(board: &Board, hospital: &Hospital, player: &mut Player, slot: EquipmentSlot) -> (r: Result<(), EngineError>)
    requires
        old(player).chud is Some,
    ensures
        unequip_result(*board, *hospital, *old(player), slot, *final(player), r),
{
    if equipment_locked(board, hospital, player.discord_user_id) {
        return Err(EngineError::EquipmentLocked);
    }
    let item_id = match player.chud_ref().equipment.item_id_in_slot(slot) {
        Some(id) => id,
        None => {
            return Err(EngineError::SlotEmpty);
        },
    };
    match player.stash.push(item_id) {
        Ok(()) => {},
        Err(e) => {
            return Err(EngineError::Stash(e));
        },
    }
    set_chud_slot(player, slot, None);
    Ok(())
}

/// The equipment once `id` is taken off: from the gear slot if it is there, else from
/// the weapon slot, else from every misc slot holding it.
pub open spec fn cleared(eq: ChudEquipment, id: u32) -> ChudEquipment {
    if eq.gear == Some(id) {
        ChudEquipment { gear: None, ..eq }
    } else if eq.weapon == Some(id) {
        ChudEquipment { weapon: None, ..eq }
    } else {
        ChudEquipment {
            misc: [
                if eq.misc[0] == Some(id) {
                    None
                } else {
                    eq.misc[0]
                },
                if eq.misc[1] == Some(id) {
                    None
                } else {
                    eq.misc[1]
                },
            ],
            ..eq
        }
    }
}

/// Does the player stash or wear the item?
pub open spec fn owns(p: Player, id: u32) -> bool {
    p.stash@.contains(id) || p.chud_of().equipment.ids().contains(id)
}

/// The player once the item leaves its stash and equipment.
pub open spec fn transferred(p: Player, id: u32) -> (Seq<u32>, ChudEquipment) {
    (remove_first(p.stash@, id), cleared(p.chud_of().equipment, id))
}

fn clear_equipped_item(player: &mut Player, item_id: u32)
    requires
        old(player).chud is Some,
    ensures
        final(player).chud == Some(Chud { equipment: cleared(old(player).chud_of().equipment, item_id), ..old(player).chud_of() }),
        final(player).stash == old(player).stash,
        final(player).cash == old(player).cash,
        final(player).discord_user_id == old(player).discord_user_id,
{
    let mut chud = player.chud.take().unwrap();
    if chud.equipment.gear == Some(item_id) {
        chud.equipment.gear = None;
    } else if chud.equipment.weapon == Some(item_id) {
        chud.equipment.weapon = None;
    } else {
        let a = if chud.equipment.misc[0] == Some(item_id) {
            None
        } else {
            chud.equipment.misc[0]
        };
        let b = if chud.equipment.misc[1] == Some(item_id) {
            None
        } else {
            chud.equipment.misc[1]
        };
        chud.equipment.misc = [a, b];
    }
    player.chud = Some(chud);
}

fn transfer_item_from_player(player: &mut Player, item_id: u32)
    requires
        old(player).chud is Some,
    ensures
        final(player).stash@ == transferred(*old(player), item_id).0,
        final(player).chud == Some(Chud { equipment: transferred(*old(player), item_id).1, ..old(player).chud_of() }),
        final(player).cash == old(player).cash,
        final(player).discord_user_id == old(player).discord_user_id,
{
    player.stash.remove(item_id);
    clear_equipped_item(player, item_id);
}

fn player_owns_item(player: &Player, item_id: u32) -> (r: bool)
    requires
        player.chud is Some,
    ensures
        r == owns(*player, item_id),
{
    player.stash.contains(item_id) || is_item_equipped(player, item_id)
}

pub open spec fn saturating_add(a: u32, b: u32) -> u32 {
    if a + b > u32::MAX {
        u32::MAX
    } else {
        (a + b) as u32
    }
}

/// Buy an item from the visiting merchant into the player's stash.
pub fn buy_merchant_item(merchant: &mut MerchantState, player: &mut Player, registry: &mut ItemRegistry, slot: usize) -> (r: Result<Item, BuyError>)
    ensures
        ({
            let m0 = *old(merchant);
            let p0 = *old(player);
            let reg = *old(registry);
            match crate::game::merchant::buy_precheck(m0, slot, p0, reg) {
                Some(e) => r == Err::<Item, BuyError>(e) && *final(merchant) == m0 && final(player).cash == p0.cash
                    && final(player).stash@ == p0.stash@,
                None => {
                    let id = m0.visit.unwrap().stock@[slot as int];
                    let item = lookup(reg.items@, id).unwrap();
                    &&& final(player).cash == p0.cash - item.value
                    &&& !p0.stash@.contains(id) ==> r == Ok::<Item, BuyError>(item) && final(player).stash@
                        == p0.stash@.push(id)
                    &&& p0.stash@.contains(id) ==> r == Err::<Item, BuyError>(BuyError::StashFull)
                        && final(player).stash@ == p0.stash@
                },
            }
        }),
        r == crate::game::merchant::buy_result(*old(merchant), slot, *old(player), *old(registry)),
        crate::game::merchant::buy_applied(*old(merchant), *final(merchant), *old(player), *final(player), slot, *old(registry)),
        *final(registry) == *old(registry),
{
    merchant.buy(slot, player, registry)
}

/// The outcome of selling `item_id`, as `sell_item` promises it.
pub open spec fn sell_result(board: Board, hospital: Hospital, p0: Player, registry: ItemRegistry, m0: MerchantState, item_id: u32, p1: Player, m1: MerchantState, r: Result<u32, EngineError>) -> bool {
    &&& (if !owns(p0, item_id) {
            r == Err::<u32, EngineError>(EngineError::ItemNotOwned) && p1 == p0
                && m1 == m0
        } else if p0.chud_of().equipment.ids().contains(item_id) && locked_spec(
            board,
            hospital,
            p0.discord_user_id,
        ) {
            r == Err::<u32, EngineError>(EngineError::EquipmentLocked) && p1 == p0
                && m1 == m0
        } else if lookup(registry.items@, item_id) is None {
            r == Err::<u32, EngineError>(EngineError::ItemNotFound) && p1 == p0
                && m1 == m0
        } else {
            let value = lookup(registry.items@, item_id).unwrap().value;
            &&& r == Ok::<u32, EngineError>(value)
            &&& p1.cash == saturating_add(p0.cash, value)
            &&& p1.stash@ == transferred(p0, item_id).0
            &&& p1.chud == Some(Chud { equipment: transferred(p0, item_id).1, ..p0.chud_of() })
            &&& p1.discord_user_id == p0.discord_user_id
            &&& recycled(m0, m1, item_id)
        })
}

/// Sell an item the player owns: its value (from the registry) is paid out (capped at
/// `u32::MAX`), it leaves the stash and equipment, and Dumpster Dave gets it. Refused for an
/// item the player does not own, an equipped one while the loadout is locked, or one the
/// registry does not know.
pub fn sell_item(
    board: &Board,
    hospital: &Hospital,
    player: &mut Player,
    registry: &ItemRegistry,
    merchant: &mut MerchantState,
    item_id: u32,
) -> (r: Result<u32, EngineError>)
    requires
        old(player).chud is Some,
    ensures
        sell_result(*board, *hospital, *old(player), *registry, *old(merchant), item_id, *final(player), *final(merchant), r),
{
    if !player_owns_item(player, item_id) {
        return Err(EngineError::ItemNotOwned);
    }
    if is_item_equipped(player, item_id) && equipment_locked(board, hospital, player.discord_user_id) {
        return Err(EngineError::EquipmentLocked);
    }
    let gold = match registry.get(item_id) {
        Some(item) => item.value,
        None => {
            return Err(EngineError::ItemNotFound);
        },
    };
    transfer_item_from_player(player, item_id);
    merchant.recycle_item(item_id);
    player.cash = player.cash.saturating_add(gold);
    Ok(gold)
}

/// After a sale, the sold item is gone from the player: it is no longer in the stash nor in
/// any equipment slot, every other stashed id stays, every slot that held something else
/// keeps it, the chud is otherwise the same, and the value was paid. (For a player whose
/// stash holds each id once and whose slots hold distinct ids.)
pub proof fn lemma_sold_item_leaves_player(
    board: Board,
    hospital: Hospital,
    p0: Player,
    registry: ItemRegistry,
    m0: MerchantState,
    item_id: u32,
    p1: Player,
    m1: MerchantState,
    r: Result<u32, EngineError>,
)
    requires
        sell_result(board, hospital, p0, registry, m0, item_id, p1, m1, r),
        r is Ok,
        p0.chud is Some,
        p0.stash@.no_duplicates(),
        p0.chud_of().equipment.ids().no_duplicates(),
    ensures
        !p1.stash@.contains(item_id),
        forall|x: u32| x != item_id ==> (p1.stash@.contains(x) <==> p0.stash@.contains(x)),
        p1.chud is Some,
        !p1.chud_of().equipment.ids().contains(item_id),
        p0.chud_of().equipment.gear != Some(item_id) ==> p1.chud_of().equipment.gear == p0.chud_of().equipment.gear,
        p0.chud_of().equipment.weapon != Some(item_id) ==> p1.chud_of().equipment.weapon == p0.chud_of().equipment.weapon,
        p0.chud_of().equipment.misc[0] != Some(item_id) ==> p1.chud_of().equipment.misc[0] == p0.chud_of().equipment.misc[0],
        p0.chud_of().equipment.misc[1] != Some(item_id) ==> p1.chud_of().equipment.misc[1] == p0.chud_of().equipment.misc[1],
        p1.chud_of().name == p0.chud_of().name,
        p1.chud_of().strength == p0.chud_of().strength,
        p1.cash as int == (if p0.cash + lookup(registry.items@, item_id).unwrap().value > u32::MAX {
            u32::MAX as int
        } else {
            p0.cash + lookup(registry.items@, item_id).unwrap().value
        }),
{
    let s0 = p0.stash@;
    lemma_remove_first_facts(s0, item_id);
    let e = p0.chud_of().equipment;
    let ids = e.ids();
    // At most one slot holds the sold id.
    if e.gear == Some(item_id) {
        assert(ids[0] == item_id);
        if e.weapon == Some(item_id) {
            assert(ids[1] == item_id);
        }
        if e.misc[0] == Some(item_id) {
            assert(ids[(1 + opt_seq(e.weapon).len()) as int] == item_id);
        }
        if e.misc[1] == Some(item_id) {
            assert(ids[(ids.len() - 1) as int] == item_id);
        }
    } else if e.weapon == Some(item_id) {
        assert(ids[opt_seq(e.gear).len() as int] == item_id);
        if e.misc[0] == Some(item_id) {
            assert(ids[(opt_seq(e.gear).len() + 1) as int] == item_id);
        }
        if e.misc[1] == Some(item_id) {
            assert(ids[(ids.len() - 1) as int] == item_id);
        }
    } else if e.misc[0] == Some(item_id) && e.misc[1] == Some(item_id) {
        assert(ids[(ids.len() - 2) as int] == item_id);
        assert(ids[(ids.len() - 1) as int] == item_id);
    }
    let e1 = p1.chud_of().equipment;
    assert(!e1.ids().contains(item_id)) by {
        if e1.ids().contains(item_id) {
            let k = choose|k: int| 0 <= k < e1.ids().len() && e1.ids()[k] == item_id;
            assert(e1.gear == Some(item_id) || e1.weapon == Some(item_id) || e1.misc[0] == Some(item_id)
                || e1.misc[1] == Some(item_id));
        }
    }
}

/// What removing the first occurrence of `id` does: without duplicates, `id` is gone and
/// every other element stays.
proof fn lemma_remove_first_facts(s: Seq<u32>, id: u32)
    requires
        s.no_duplicates(),
    ensures
        !remove_first(s, id).contains(id),
        forall|x: u32| x != id ==> (remove_first(s, id).contains(x) <==> s.contains(x)),
        remove_first(s, id).no_duplicates(),
    decreases s.len(),
{
    if s.len() > 0 {
        let t = s.drop_first();
        assert(t.no_duplicates()) by {
            assert forall|a: int, b: int| 0 <= a < t.len() && 0 <= b < t.len() && a != b implies t[a] != t[b] by {
                assert(t[a] == s[a + 1] && t[b] == s[b + 1]);
            }
        }
        lemma_remove_first_facts(t, id);
        if s[0] == id {
            assert(remove_first(s, id) == t);
            assert(!t.contains(id)) by {
                if t.contains(id) {
                    let k = choose|k: int| 0 <= k < t.len() && t[k] == id;
                    assert(s[k + 1] == id);
                }
            }
            assert forall|x: u32| x != id implies (t.contains(x) <==> s.contains(x)) by {
                if s.contains(x) {
                    let k = choose|k: int| 0 <= k < s.len() && s[k] == x;
                    assert(k > 0);
                    assert(t[k - 1] == x);
                }
                if t.contains(x) {
                    let k = choose|k: int| 0 <= k < t.len() && t[k] == x;
                    assert(s[k + 1] == x);
                }
            }
        } else {
            let rt = remove_first(t, id);
            let r = remove_first(s, id);
            assert(r == seq![s[0]] + rt);
            assert(!t.contains(s[0])) by {
                if t.contains(s[0]) {
                    let k = choose|k: int| 0 <= k < t.len() && t[k] == s[0];
                    assert(s[k + 1] == s[0]);
                }
            }
            assert forall|x: u32| x != id implies (r.contains(x) <==> s.contains(x)) by {
                if s.contains(x) {
                    let k = choose|k: int| 0 <= k < s.len() && s[k] == x;
                    if k == 0 {
                        assert(r[0] == x);
                    } else {
                        assert(t[k - 1] == x);
                        assert(t.contains(x));
                        assert(rt.contains(x));
                        let m = choose|m: int| 0 <= m < rt.len() && rt[m] == x;
                        assert(r[m + 1] == x);
                    }
                }
                if r.contains(x) {
                    let k = choose|k: int| 0 <= k < r.len() && r[k] == x;
                    if k == 0 {
                        assert(s[0] == x);
                    } else {
                        assert(rt[k - 1] == x);
                        assert(t.contains(x));
                        let m = choose|m: int| 0 <= m < t.len() && t[m] == x;
                        assert(s[m + 1] == x);
                    }
                }
            }
            assert(!r.contains(id)) by {
                if r.contains(id) {
                    let k = choose|k: int| 0 <= k < r.len() && r[k] == id;
                    if k > 0 {
                        assert(rt[k - 1] == id);
                    }
                }
            }
            assert(r.no_duplicates()) by {
                assert forall|a: int, b: int| 0 <= a < r.len() && 0 <= b < r.len() && a != b implies r[a] != r[b] by {
                    if a == 0 && b > 0 {
                        assert(rt[b - 1] == r[b]);
                        if r[b] == s[0] {
                            assert(rt.contains(s[0]));
                        }
                    } else if b == 0 && a > 0 {
                        assert(rt[a - 1] == r[a]);
                        if r[a] == s[0] {
                            assert(rt.contains(s[0]));
                        }
                    } else if a > 0 && b > 0 {
                        assert(rt[a - 1] == r[a] && rt[b - 1] == r[b]);
                    }
                }
            }
        }
    }
}

/// Register a quest item, then stash it when there is room, else equip it if a slot for
/// its type is empty, else sell it to Dumpster Dave for its value.
pub fn award_pending_item(
    registry: &mut ItemRegistry,
    merchant: &mut MerchantState,
    player: &mut Player,
    item: Item,
) -> (r: Result<(Item, ItemAwardDisposition), EngineError>)
    requires
        old(registry).next_id < u32::MAX,
        old(player).chud is Some || old(player).stash@.len() < STASH_CAPACITY,
    ensures
        ({
            let id = old(registry).next_id;
            let awarded = lookup(final(registry).items@, id).unwrap();
            &&& final(registry).items@ == old(registry).items@.push(Item { id, ..item })
            &&& final(registry).next_id == old(registry).next_id + 1
            &&& old(registry).wf() ==> awarded == (Item { id, ..item })
            &&& final(player).discord_user_id == old(player).discord_user_id
            &&& if old(player).stash@.len() < STASH_CAPACITY {
                if old(player).stash@.contains(id) {
                    r == Err::<(Item, ItemAwardDisposition), EngineError>(EngineError::Stash(StashError::AlreadyPresent))
                        && final(player).stash@ == old(player).stash@ && final(player).chud == old(player).chud
                        && final(player).cash == old(player).cash && *final(merchant) == *old(merchant)
                } else {
                    r == Ok::<(Item, ItemAwardDisposition), EngineError>((awarded, ItemAwardDisposition::Stashed))
                        && final(player).stash@ == old(player).stash@.push(id) && final(player).chud == old(player).chud
                        && final(player).cash == old(player).cash && *final(merchant) == *old(merchant)
                }
            } else {
                match old(player).chud_of().equipment.empty_slot(awarded.item_type) {
                    Some(slot) => r == Ok::<(Item, ItemAwardDisposition), EngineError>((awarded, ItemAwardDisposition::Equipped))
                        && final(player).chud == with_chud_slot(*old(player), slot, Some(id)).chud
                        && final(player).stash@ == old(player).stash@ && final(player).cash == old(player).cash
                        && *final(merchant) == *old(merchant),
                    None => r == Ok::<(Item, ItemAwardDisposition), EngineError>((awarded, ItemAwardDisposition::Sold(awarded.value)))
                        && final(player).cash == saturating_add(old(player).cash, awarded.value)
                        && final(player).stash@ == old(player).stash@ && final(player).chud == old(player).chud
                        && recycled(*old(merchant), *final(merchant), id),
                }
            }
        }),
{
    let id = registry.add_item(item);
    let awarded = match registry.get(id) {
        Some(found) => found.clone(),
        None => {
            proof {
                crate::game::persistence::item_registry::lemma_first_item_found(registry.items@, id, 0);
                assert(registry.items@[registry.items@.len() - 1].id == id);
            }
            return Err(EngineError::ItemNotFound);
        },
    };
    proof {
        if old(registry).wf() {
            crate::game::persistence::item_registry::lemma_registry_add_remove(old(registry).items@, id, item, id);
        }
    }
    if player.stash.has_room() {
        match player.stash.push(id) {
            Ok(()) => {},
            Err(e) => {
                return Err(EngineError::Stash(e));
            },
        }
        return Ok((awarded, ItemAwardDisposition::Stashed));
    }
    match player.chud_ref().equipment.empty_slot_for_item_type(awarded.item_type) {
        Some(slot) => {
            set_chud_slot(player, slot, Some(id));
            return Ok((awarded, ItemAwardDisposition::Equipped));
        },
        None => {},
    }
    let gold = awarded.value;
    merchant.recycle_item(id);
    player.cash = player.cash.saturating_add(gold);
    Ok((awarded, ItemAwardDisposition::Sold(gold)))
}

/// `acc` followed by each id of `extra` that is not already there, in order.
pub open spec fn append_new(acc: Seq<u32>, extra: Seq<u32>) -> Seq<u32>
    decreases extra.len(),
{
    if extra.len() == 0 {
        acc
    } else {
        let a = append_new(acc, extra.drop_last());
        if a.contains(extra.last()) {
            a
        } else {
            a.push(extra.last())
        }
    }
}

/// Every id the player owns: the stash in order, then equipped ids not in the stash.
pub open spec fn owned_ids(p: Player) -> Seq<u32> {
    append_new(p.stash@, p.chud_of().equipment.ids())
}

fn collect_owned_item_ids(player: &Player) -> (r: Vec<u32>)
    requires
        player.chud is Some,
    ensures
        r@ == owned_ids(*player),
{
    let mut ids: Vec<u32> = Vec::new();
    let items = player.stash.items();
    let mut i: usize = 0;
    while i < items.len()
        invariant
            i <= items@.len(),
            items@ == player.stash@,
            ids@ == items@.subrange(0, i as int),
        decreases items@.len() - i,
    {
        ids.push(items[i]);
        i += 1;
        assert(ids@ =~= items@.subrange(0, i as int));
    }
    assert(items@.subrange(0, i as int) =~= items@);
    let eq = player.chud_ref().equipment.all_ids();
    let mut j: usize = 0;
    while j < eq.len()
        invariant
            j <= eq@.len(),
            eq@ == player.chud_of().equipment.ids(),
            ids@ == append_new(player.stash@, eq@.subrange(0, j as int)),
        decreases eq@.len() - j,
    {
        assert(eq@.subrange(0, j + 1).drop_last() =~= eq@.subrange(0, j as int));
        let x = eq[j];
        let mut found = false;
        let mut k: usize = 0;
        while k < ids.len()
            invariant
                k <= ids@.len(),
                found == exists|t: int| 0 <= t < k && ids@[t] == x,
            decreases ids@.len() - k,
        {
            if ids[k] == x {
                found = true;
            }
            k += 1;
        }
        if !found {
            ids.push(x);
        }
        j += 1;
    }
    assert(eq@.subrange(0, j as int) =~= eq@);
    ids
}

/// Stash and equipment once every id of `ids` has left them, in order.
pub open spec fn transfer_all(stash: Seq<u32>, eq: ChudEquipment, ids: Seq<u32>) -> (Seq<u32>, ChudEquipment)
    decreases ids.len(),
{
    if ids.len() == 0 {
        (stash, eq)
    } else {
        let (s, e) = transfer_all(stash, eq, ids.drop_last());
        (remove_first(s, ids.last()), cleared(e, ids.last()))
    }
}

/// Sum of the registered values of `ids`, capped at `u32::MAX`.
pub open spec fn liquidation_total(ids: Seq<u32>, items: Seq<Item>) -> u32
    decreases ids.len(),
{
    if ids.len() == 0 {
        0
    } else {
        let prev = liquidation_total(ids.drop_last(), items);
        match lookup(items, ids.last()) {
            Some(item) => saturating_add(prev, item.value),
            None => prev,
        }
    }
}

/// Liquidation values add up: the total of two runs of item ids one after the other is the
/// sum of their totals, capped at `u32::MAX`.
pub proof fn lemma_liquidation_additive(a: Seq<u32>, b: Seq<u32>, items: Seq<Item>)
    ensures
        liquidation_total(a + b, items) == saturating_add(liquidation_total(a, items), liquidation_total(b, items)),
    decreases b.len(),
{
    if b.len() == 0 {
        assert(a + b =~= a);
    } else {
        lemma_liquidation_additive(a, b.drop_last(), items);
        assert((a + b).drop_last() =~= a + b.drop_last());
        assert((a + b).last() == b.last());
    }
}

/// One more owned item of registered value `v` raises the liquidation total by `v` (capped
/// at `u32::MAX`); an id the registry does not know adds nothing. So the total is the sum
/// of the registered values of all the ids, capped.
pub proof fn lemma_liquidation_one_more(ids: Seq<u32>, id: u32, items: Seq<Item>)
    ensures
        lookup(items, id) matches Some(item) ==> liquidation_total(ids.push(id), items) as int == if liquidation_total(ids, items) + item.value > u32::MAX {
            u32::MAX as int
        } else {
            liquidation_total(ids, items) + item.value
        },
        lookup(items, id) is None ==> liquidation_total(ids.push(id), items) == liquidation_total(ids, items),
        liquidation_total(seq![id], items) == match lookup(items, id) {
            Some(item) => item.value,
            None => 0u32,
        },
{
    assert(ids.push(id).drop_last() =~= ids);
    assert(seq![id].drop_last() =~= Seq::<u32>::empty());
    assert(liquidation_total(Seq::<u32>::empty(), items) == 0);
    assert(seq![id].last() == id);
    lemma_liquidation_additive(ids, seq![id], items);
    assert(ids + seq![id] =~= ids.push(id));
}

/// Liquidate everything the chud owns into Dumpster Dave's pool; returns the total
/// registered value (capped at `u32::MAX`), before any halving.
pub fn liquidate_chud_items(player: &mut Player, registry: &ItemRegistry, merchant: &mut MerchantState) -> (r: u32)
    requires
        old(player).chud is Some,
    ensures
        ({
            let ids = owned_ids(*old(player));
            let after = transfer_all(old(player).stash@, old(player).chud_of().equipment, ids);
            &&& r == liquidation_total(ids, registry.items@)
            &&& final(player).stash@ == after.0
            &&& final(player).chud == Some(Chud { equipment: after.1, ..old(player).chud_of() })
            &&& final(player).cash == old(player).cash
            &&& final(player).discord_user_id == old(player).discord_user_id
            &&& forall|k: int| 0 <= k < ids.len() ==> #[trigger] dave_holds(*final(merchant), ids[k])
            &&& ids.len() == 0 ==> *final(merchant) == *old(merchant)
        }),
{
    let item_ids = collect_owned_item_ids(player);
    let ghost ids = item_ids@;
    let ghost p0 = *player;
    let mut total: u32 = 0;
    let mut i: usize = 0;
    while i < item_ids.len()
        invariant
            i <= ids.len(),
            ids == item_ids@,
            player.chud is Some,
            total == liquidation_total(ids.subrange(0, i as int), registry.items@),
            player.stash@ == transfer_all(p0.stash@, p0.chud_of().equipment, ids.subrange(0, i as int)).0,
            player.chud == Some(Chud { equipment: transfer_all(p0.stash@, p0.chud_of().equipment, ids.subrange(0, i as int)).1, ..p0.chud_of() }),
            player.cash == p0.cash,
            player.discord_user_id == p0.discord_user_id,
            forall|k: int| 0 <= k < i ==> #[trigger] dave_holds(*merchant, ids[k]),
            i == 0 ==> *merchant == *old(merchant),
        decreases ids.len() - i,
    {
        assert(ids.subrange(0, i + 1).drop_last() =~= ids.subrange(0, i as int));
        let item_id = item_ids[i];
        match registry.get(item_id) {
            Some(item) => {
                total = total.saturating_add(item.value);
            },
            None => {},
        }
        transfer_item_from_player(player, item_id);
        let ghost m0 = *merchant;
        merchant.recycle_item(item_id);
        proof {
            lemma_recycled_has(m0, *merchant, item_id);
            assert forall|k: int| 0 <= k < i + 1 implies #[trigger] dave_holds(*merchant, ids[k]) by {
                if k < i {
                    lemma_recycled_holds(m0, *merchant, item_id, ids[k]);
                }
            }
        }
        i += 1;
    }
    assert(ids.subrange(0, i as int) =~= ids);
    total
}

/// The sync part of a chud's death: everything it owns is liquidated into Dumpster Dave's
/// pool, half the value (rounded down) becomes its player's head start, the chud is
/// buried (newest grave first, epitaph still empty), and the player is left without a
/// chud. Refused when there is no chud.
pub fn kill_chud_apply(
    player: Option<Player>,
    discord_user_id: u64,
    ctx: &DeathContext,
    graveyard: &mut Graveyard,
    starting_benefits: &mut StartingBenefits,
    registry: &ItemRegistry,
    merchant: &mut MerchantState,
) -> (r: Result<(KillChudPending, Player), EngineError>)
    ensures
        !(player matches Some(p) && p.chud is Some) ==> r == Err::<(KillChudPending, Player), EngineError>(EngineError::NoChud)
            && *final(graveyard) == *old(graveyard) && final(starting_benefits).entries@ == old(starting_benefits).entries@
            && *final(merchant) == *old(merchant),
        (player matches Some(p) && p.chud is Some) ==> (r matches Ok((pending, after)) && {
            let p = player.unwrap();
            let c = p.chud_of();
            let ids = owned_ids(p);
            let total = liquidation_total(ids, registry.items@);
            &&& pending.discord_user_id == discord_user_id
            &&& pending.chud == c
            &&& pending.chud_name == c.name
            &&& pending.benefits_awarded == total / 2
            &&& pending.death_trial == ctx.trial
            &&& pending.death_outcome == ctx.outcome
            &&& after.chud is None
            &&& after.stash@ == transfer_all(p.stash@, c.equipment, ids).0
            &&& after.cash == p.cash
            &&& after.discord_user_id == p.discord_user_id
            &&& final(starting_benefits).entries@ == benefits_after_add(old(starting_benefits).entries@, discord_user_id, total / 2)
            &&& final(graveyard).entries@.len() == old(graveyard).entries@.len() + 1
            &&& final(graveyard).entries@.subrange(1, final(graveyard).entries@.len() as int) == old(graveyard).entries@
            &&& final(graveyard).entries@[0].discord_user_id == discord_user_id
            &&& final(graveyard).entries@[0].chud == c
            &&& final(graveyard).entries@[0].epitaph@.len() == 0
            &&& final(graveyard).entries@[0].death_trial == ctx.trial
            &&& final(graveyard).entries@[0].death_outcome == ctx.outcome
            &&& forall|k: int| 0 <= k < ids.len() ==> #[trigger] dave_holds(*final(merchant), ids[k])
        }),
{
    let mut player = match player {
        Some(p) => {
            if !p.has_chud() {
                return Err(EngineError::NoChud);
            }
            p
        },
        None => {
            return Err(EngineError::NoChud);
        },
    };
    let chud = player.chud_ref().clone();
    let chud_name = chud.name.clone();
    let total = liquidate_chud_items(&mut player, registry, merchant);
    let benefits_awarded = total / 2;
    starting_benefits.add(discord_user_id, benefits_awarded);
    let entry = GraveyardEntry {
        discord_user_id,
        chud: chud.clone(),
        epitaph: String::new(),
        death_trial: ctx.trial.clone(),
        death_outcome: ctx.outcome.clone(),
    };
    graveyard.bury(entry);
    assert(graveyard.entries@.subrange(1, graveyard.entries@.len() as int) =~= old(graveyard).entries@);
    player.chud = None;
    let pending = KillChudPending {
        discord_user_id,
        chud_name,
        benefits_awarded,
        chud,
        death_trial: ctx.trial.clone(),
        death_outcome: ctx.outcome.clone(),
    };
    Ok((pending, player))
}

/// Total weight of the first `i` entries of a `len`-long queue when the entry at index `j`
/// weighs `len - j`.
pub open spec fn prefix_weight(len: int, i: int) -> int
    decreases i,
{
    if i <= 0 {
        0
    } else {
        prefix_weight(len, i - 1) + (len - (i - 1))
    }
}

pub proof fn lemma_prefix_weight(len: int, i: int)
    requires
        0 <= i <= len,
    ensures
        2 * prefix_weight(len, i) == i * (2 * len - i + 1),
        prefix_weight(len, i) >= 0,
    decreases i,
{
    if i > 0 {
        lemma_prefix_weight(len, i - 1);
        assert(i * (2 * len - i + 1) == (i - 1) * (2 * len - (i - 1) + 1) + 2 * (len - (i - 1))) by (nonlinear_arith);
    }
}

pub proof fn lemma_prefix_weight_mono(len: int, i: int, j: int)
    requires
        0 <= i <= j <= len,
    ensures
        prefix_weight(len, i) <= prefix_weight(len, j),
    decreases j - i,
{
    if i < j {
        lemma_prefix_weight_mono(len, i, j - 1);
    }
}

/// The entry a draw of `pick` below the total weight lands on, with linear age weighting:
/// the oldest entry (index 0) weighs `len`, the newest weighs 1.
pub fn weighted_pick(len: usize, pick: usize) -> (r: usize)
    requires
        len > 0,
        pick < prefix_weight(len as int, len as int),
    ensures
        r < len,
        prefix_weight(len as int, r as int) <= pick < prefix_weight(len as int, r as int + 1),
{
    let mut rest = pick;
    let mut index: usize = 0;
    while index < len
        invariant
            index <= len,
            pick == prefix_weight(len as int, index as int) + rest,
            pick < prefix_weight(len as int, len as int),
        decreases len - index,
    {
        let weight = len - index;
        if rest < weight {
            return index;
        }
        rest = rest - weight;
        index += 1;
    }
    proof {
        lemma_prefix_weight(len as int, len as int);
    }
    assert(false);
    len - 1
}

/// Pick an index into a `len`-long queue with linear age weighting: the oldest entry
/// (front, index 0) has weight `len`, the newest (back) has weight 1.
fn weighted_oldest_index(len: usize) -> (r: usize)
    requires
        len > 0,
        len * (len + 1) <= usize::MAX,
    ensures
        r < len,
{
    proof {
        lemma_prefix_weight(len as int, len as int);
        assert(len * (len + 1) == len * (2 * len - len + 1)) by (nonlinear_arith);
        assert(len + 1 <= usize::MAX) by (nonlinear_arith)
            requires
                len > 0,
                len * (len + 1) <= usize::MAX,
        ;
        assert(len * (len + 1) >= 2) by (nonlinear_arith)
            requires
                len > 0,
        ;
    }
    let total = len * (len + 1) / 2;
    let pick = crate::rng::gen_range_usize(0, total - 1);
    weighted_pick(len, pick)
}

/// Does the board wait for a story job (the catalog has one left and none is posted)?
pub open spec fn story_slot_open_spec(board: Board, catalog_len: usize) -> bool {
    catalog_len > 0 && board.story_next_index < catalog_len && !(exists|i: int|
        0 <= i < board.quests@.len() && board.quests@[i].story_index is Some)
}

pub fn story_slot_open(board: &Board, catalog_len: usize) -> (r: bool)
    ensures
        r == story_slot_open_spec(*board, catalog_len),
{
    catalog_len > 0 && board.story_next_index < catalog_len && !board.has_story_quest()
}

/// A regular job just posted under `id` with the given idle timeout.
pub open spec fn fresh_job(q: BoardQuestView, id: int, tick: u32) -> bool {
    q.id == id && q.states.len() == 0 && q.story_index is None && q.timeout == tick
}

/// How many queued jobs a refill moves to the board.
pub open spec fn refill_count(board_len: int, max_jobs: int, queue_len: int) -> int {
    if board_len >= max_jobs {
        0
    } else if max_jobs - board_len < queue_len {
        max_jobs - board_len
    } else {
        queue_len
    }
}

pub open spec fn queued_pair(q: QueuedQuest) -> (QuestData, GeneratedQuest) {
    (q.quest_data, q.generated)
}

pub open spec fn board_pair(q: BoardQuestView) -> (QuestData, GeneratedQuest) {
    (q.quest_data, q.generated)
}

/// What refilling the board does: nothing while a story slot is open; otherwise the board
/// keeps its quests and gains `r == refill_count(..)` fresh regular jobs with consecutive
/// ids, which are exactly jobs taken off the queue (as a multiset of contents).
pub open spec fn refill_effect(
    b0: Board,
    q0: JobQueue,
    b1: Board,
    q1: JobQueue,
    max_jobs: usize,
    job_timeout_tick: u32,
    catalog_len: usize,
    r: usize,
) -> bool {
    &&& story_slot_open_spec(b0, catalog_len) ==> r == 0 && b1 == b0 && q1.entries@ == q0.entries@
    &&& !story_slot_open_spec(b0, catalog_len) ==> {
        let n = refill_count(b0.quests@.len() as int, max_jobs as int, q0.entries@.len() as int);
        let added = b1.quests_view().subrange(b0.quests@.len() as int, b1.quests@.len() as int);
        &&& r == n
        &&& b1.quests@.len() == b0.quests@.len() + n
        &&& b1.quests_view().subrange(0, b0.quests@.len() as int) == b0.quests_view()
        &&& b1.next_id == b0.next_id + n
        &&& q1.entries@.len() == q0.entries@.len() - n
        &&& forall|j: int| 0 <= j < n ==> #[trigger] added[j].id == b0.next_id + j && added[j].states.len() == 0
            && added[j].story_index is None && added[j].timeout == job_timeout_tick
        &&& added.map_values(|q: BoardQuestView| board_pair(q)).to_multiset().add(
            q1.entries@.map_values(|q: QueuedQuest| queued_pair(q)).to_multiset(),
        ) == q0.entries@.map_values(|q: QueuedQuest| queued_pair(q)).to_multiset()
    }
    &&& b1.story_next_index == b0.story_next_index
    &&& b1.story_catalog_len == b0.story_catalog_len
}

/// Refill the board. While the catalog (of `catalog_len` story missions) has a story job
/// to post and none is on the board, nothing is pulled: its slot stays reserved for the
/// story job being generated. Otherwise queued jobs move to the board, until it holds
/// `max_jobs` or the queue is empty, each drawn at random with older entries favoured
/// (see `weighted_pick`), as new regular jobs with the given idle timeout. Returns the
/// number of jobs moved.
#[verifier::spinoff_prover]
pub fn refill_board(board: &mut Board, queue: &mut JobQueue, max_jobs: usize, job_timeout_tick: u32, catalog_len: usize) -> (r: usize)
    requires
        old(queue).entries@.len() * (old(queue).entries@.len() + 1) <= usize::MAX,
        old(board).next_id + refill_count(old(board).quests@.len() as int, max_jobs as int, old(queue).entries@.len() as int) < u32::MAX,
    ensures
        refill_effect(*old(board), *old(queue), *final(board), *final(queue), max_jobs, job_timeout_tick, catalog_len, r),
{
    if story_slot_open(board, catalog_len) {
        return 0;
    }
    broadcast use vstd::seq_lib::group_to_multiset_ensures;
    let ghost start_len = board.quests@.len();
    let ghost start_view = board.quests_view();
    let ghost start_pairs = queue.entries@.map_values(|q: QueuedQuest| queued_pair(q));
    let mut added: usize = 0;
    while board.quests.len() < max_jobs && queue.entries.len() > 0
        invariant
            board.quests@.len() == start_len + added,
            board.quests_view().subrange(0, start_len as int) == start_view,
            board.next_id == old(board).next_id + added,
            board.story_next_index == old(board).story_next_index,
            board.story_catalog_len == old(board).story_catalog_len,
            queue.entries@.len() == old(queue).entries@.len() - added,
            added <= refill_count(start_len as int, max_jobs as int, old(queue).entries@.len() as int),
            added == refill_count(start_len as int, max_jobs as int, old(queue).entries@.len() as int) ==> !(board.quests@.len() < max_jobs && queue.entries@.len() > 0),
            start_len == old(board).quests@.len(),
            old(queue).entries@.len() * (old(queue).entries@.len() + 1) <= usize::MAX,
            old(board).next_id + refill_count(start_len as int, max_jobs as int, old(queue).entries@.len() as int) < u32::MAX,
            start_pairs == old(queue).entries@.map_values(|q: QueuedQuest| queued_pair(q)),
            forall|j: int| 0 <= j < added ==> #[trigger] fresh_job(board.quests_view()[start_len + j], old(board).next_id + j, job_timeout_tick),
            board.quests_view().subrange(start_len as int, board.quests@.len() as int).map_values(
                |q: BoardQuestView| board_pair(q),
            ).to_multiset().add(queue.entries@.map_values(|q: QueuedQuest| queued_pair(q)).to_multiset())
                == start_pairs.to_multiset(),
        decreases queue.entries@.len(),
    {
        let len = queue.entries.len();
        proof {
            let m = old(queue).entries@.len();
            assert(len * (len + 1) <= m * (m + 1)) by (nonlinear_arith)
                requires
                    len <= m,
            ;
        }
        let index = weighted_oldest_index(len);
        let ghost qpairs = queue.entries@.map_values(|q: QueuedQuest| queued_pair(q));
        let ghost bview = board.quests_view();
        let ghost old_sum = bview.subrange(start_len as int, bview.len() as int).map_values(
            |q: BoardQuestView| board_pair(q),
        ).to_multiset().add(qpairs.to_multiset());
        let entry = queue.entries.remove(index);
        proof {
            assert(queue.entries@.map_values(|q: QueuedQuest| queued_pair(q)) =~= qpairs.remove(index as int));
            vstd::seq_lib::to_multiset_remove(qpairs, index as int);
        }
        let ghost pair = (entry.quest_data, entry.generated);
        assert(pair == qpairs[index as int]);
        board.add_quest(entry.quest_data, entry.generated, None, job_timeout_tick);
        proof {
            let nv = board.quests_view();
            assert(nv == bview.push(nv[nv.len() - 1]));
            assert(nv.subrange(0, start_len as int) =~= start_view);
            let old_added = bview.subrange(start_len as int, bview.len() as int);
            let new_added = nv.subrange(start_len as int, nv.len() as int);
            assert(new_added =~= old_added.push(nv[nv.len() - 1]));
            assert(new_added.map_values(|q: BoardQuestView| board_pair(q)) =~= old_added.map_values(
                |q: BoardQuestView| board_pair(q),
            ).push(pair));
            vstd::seq_lib::to_multiset_build(old_added.map_values(|q: BoardQuestView| board_pair(q)), pair);
            let a0 = old_added.map_values(|q: BoardQuestView| board_pair(q)).to_multiset();
            let q0 = qpairs.to_multiset();
            assert(q0.count(pair) > 0) by {
                assert(qpairs[index as int] == pair);
                assert(qpairs.contains(pair));
                qpairs.to_multiset_ensures();
            }
            assert(a0.insert(pair).add(q0.remove(pair)) =~= a0.add(q0));
            assert forall|j: int| 0 <= j < added + 1 implies #[trigger] fresh_job(nv[start_len + j], old(board).next_id + j, job_timeout_tick) by {
                if j < added {
                    assert(nv[start_len + j] == bview[start_len + j]);
                    assert(fresh_job(bview[start_len + j], old(board).next_id + j, job_timeout_tick));
                }
            }
        }
        added += 1;
    }
    proof {
        let nv = board.quests_view();
        let added_view = nv.subrange(start_len as int, nv.len() as int);
        assert forall|j: int| 0 <= j < added implies #[trigger] added_view[j].id == old(board).next_id + j
            && added_view[j].states.len() == 0 && added_view[j].story_index is None
            && added_view[j].timeout == job_timeout_tick by {
            assert(added_view[j] == nv[start_len + j]);
            assert(fresh_job(nv[start_len + j], old(board).next_id + j, job_timeout_tick));
        }
    }
    added
}


/// How a failed job ends for the chud, as rolled before the narration: the kind of the
/// failure-consequence record, whose own type (with the days in hospital) is missing from
/// the game's sources.
#[derive(Debug, Clone, Copy, PartialEq, Eq, Structural)]
pub enum FailureKind {
    Failed,
    Injured,
    Died,
}

/// The word the narrator is given for a failed job's outcome.
pub open spec fn failure_word(kind: FailureKind) -> Seq<char> {
    match kind {
        FailureKind::Died => "died"@,
        FailureKind::Injured => "injured"@,
        FailureKind::Failed => "failed"@,
    }
}

pub fn failure_outcome_word(kind: FailureKind) -> (r: String)
    ensures
        r@ == failure_word(kind),
{
    match kind {
        FailureKind::Died => crate::text::owned("died"),
        FailureKind::Injured => crate::text::owned("injured"),
        FailureKind::Failed => crate::text::owned("failed"),
    }
}

/// By how much the chud's roll beat (or missed) the trial's.
pub open spec fn margin_of(o: TrialOutcome) -> int {
    o.player_roll - o.trial_roll
}

/// The rolled trials as the narrator gets them: each with the situation written for it,
/// the stat used, the margin and whether it passed (as many as there are of both).
pub fn trial_results(played: &PlayedQuest, situations: &Vec<String>) -> (r: Vec<TrialResult>)
    ensures
        r@.len() == if played.outcomes@.len() < situations@.len() {
            played.outcomes@.len()
        } else {
            situations@.len()
        },
        forall|i: int| 0 <= i < r@.len() ==> {
            &&& (#[trigger] r@[i]).situation@ == situations@[i]@
            &&& r@[i].stat_used@ == played.outcomes@[i].stat_used.label_spec()
            &&& r@[i].margin == margin_of(played.outcomes@[i])
            &&& r@[i].passed == played.outcomes@[i].passed
        },
{
    let n = if played.outcomes.len() < situations.len() {
        played.outcomes.len()
    } else {
        situations.len()
    };
    let mut out: Vec<TrialResult> = Vec::new();
    let mut i: usize = 0;
    while i < n
        invariant
            i <= n,
            n <= played.outcomes@.len(),
            n <= situations@.len(),
            out@.len() == i,
            forall|k: int| 0 <= k < i ==> {
                &&& (#[trigger] out@[k]).situation@ == situations@[k]@
                &&& out@[k].stat_used@ == played.outcomes@[k].stat_used.label_spec()
                &&& out@[k].margin == margin_of(played.outcomes@[k])
                &&& out@[k].passed == played.outcomes@[k].passed
            },
        decreases n - i,
    {
        let o = &played.outcomes[i];
        out.push(TrialResult {
            situation: situations[i].clone(),
            stat_used: crate::text::owned(o.stat_used.label()),
            margin: o.player_roll as i16 - o.trial_roll as i16,
            passed: o.passed,
        });
        i += 1;
    }
    out
}

/// Whether every rolled trial passed (so a quest with none passes).
pub open spec fn all_passed(outcomes: Seq<TrialOutcome>) -> bool {
    forall|i: int| 0 <= i < outcomes.len() ==> (#[trigger] outcomes[i]).passed
}

fn every_passed(outcomes: &Vec<TrialOutcome>) -> (r: bool)
    ensures
        r == all_passed(outcomes@),
{
    let mut i: usize = 0;
    while i < outcomes.len()
        invariant
            i <= outcomes@.len(),
            forall|k: int| 0 <= k < i ==> (#[trigger] outcomes@[k]).passed,
        decreases outcomes@.len() - i,
    {
        if !outcomes[i].passed {
            return false;
        }
        i += 1;
    }
    true
}

/// The chud's bio with a sentence for each equipped item, as the narrator is given it.
pub fn adventurer_description(player: &Player, registry: &ItemRegistry) -> (r: String)
    requires
        player.chud is Some,
    ensures
        r@ == description_with(player.chud_of().description@, gear_of(*player, *registry)),
{
    let refs = equipped(player, registry);
    let mut items: Vec<Item> = Vec::new();
    let mut i: usize = 0;
    while i < refs.len()
        invariant
            i <= refs@.len(),
            items@ == refs@.map_values(|x: &Item| *x).subrange(0, i as int),
        decreases refs@.len() - i,
    {
        items.push(refs[i].clone());
        assert(items@ =~= refs@.map_values(|x: &Item| *x).subrange(0, i + 1));
        i += 1;
    }
    assert(items@ =~= refs@.map_values(|x: &Item| *x));
    player.generate_description(&items)
}

/// The rolls and the narrator's inputs for a job's result, made before the narration.
/// The record of a failure's consequences (death, days in hospital) is not held here: its
/// type and the roll that makes it belong to a module the game's sources do not contain,
/// so only the outcome word the narrator is given (from `FailureKind`) is kept.
#[derive(Debug)]
pub struct QuestResultPrep {
    pub played: PlayedQuest,
    pub effective: (u8, u8, u8),
    pub trial_results: Vec<TrialResult>,
    pub failure_outcome: Option<String>,
    pub adventurer_description: String,
}

/// Play the job for the chud and gather what the narrator needs: the rolls, the chud's
/// effective stats, the rolled trials with their situations, the outcome word when some
/// trial failed (from the consequence rolled for a failure), and the chud's description.
pub fn prepare_quest_result(
    item_registry: &ItemRegistry,
    board_quest: &BoardQuest,
    player: &Player,
    choices: &Vec<StatChoice>,
    failure: FailureKind,
) -> (r: QuestResultPrep)
    requires
        playable(board_quest.quest_data, board_quest.generated, *player, *item_registry, choices@),
    ensures
        played_by(r.played, board_quest.quest_data, board_quest.generated, *player, *item_registry, choices@),
        r.effective == (
            effective_stat_spec(*player, *item_registry, StatChoice::Strength),
            effective_stat_spec(*player, *item_registry, StatChoice::Smarts),
            effective_stat_spec(*player, *item_registry, StatChoice::Stealth),
        ),
        r.trial_results@.len() == r.played.outcomes@.len(),
        forall|i: int| 0 <= i < r.trial_results@.len() ==> {
            &&& (#[trigger] r.trial_results@[i]).situation@ == board_quest.generated.trials@[i]@
            &&& r.trial_results@[i].stat_used@ == r.played.outcomes@[i].stat_used.label_spec()
            &&& r.trial_results@[i].margin == margin_of(r.played.outcomes@[i])
            &&& r.trial_results@[i].passed == r.played.outcomes@[i].passed
        },
        all_passed(r.played.outcomes@) ==> r.failure_outcome is None,
        !all_passed(r.played.outcomes@) ==> (r.failure_outcome matches Some(w) && w@ == failure_word(failure)),
        r.adventurer_description@ == description_with(
            player.chud_of().description@,
            gear_of(*player, *item_registry),
        ),
{
    let played = play_quest(&board_quest.quest_data, &board_quest.generated, player, item_registry, choices);
    let effective = effective_stats(player, item_registry);
    let trial_results = trial_results(&played, &board_quest.generated.trials);
    let failure_outcome = if every_passed(&played.outcomes) {
        None
    } else {
        Some(failure_outcome_word(failure))
    };
    let adventurer_description = adventurer_description(player, item_registry);
    QuestResultPrep { played, effective, trial_results, failure_outcome, adventurer_description }
}

} // verus!

use vstd::prelude::*;

use crate::game::domain::board::Board;
use crate::game::domain::hospital::Hospital;
use crate::game::domain::player::Player;
use crate::game::guild_status::{busy_spec, compute_guild_hall_status};

verus! {

/// Reason why a player is busy and cannot take new quests.
#[derive(Debug)]
pub enum BusyReason {
    ActiveQuest { quest_title: String },
    Scouting,
    Hospitalized,
    ReturningFromJob,
}

/// A busy reason seen through the contents of its title.
pub enum BusyReasonView {
    ActiveQuest(Seq<char>),
    Scouting,
    Hospitalized,
    ReturningFromJob,
}

impl View for BusyReason {
    type V = BusyReasonView;

    open spec fn view(&self) -> BusyReasonView {
        match self {
            BusyReason::ActiveQuest { quest_title } => BusyReasonView::ActiveQuest(quest_title@),
            BusyReason::Scouting => BusyReasonView::Scouting,
            BusyReason::Hospitalized => BusyReasonView::Hospitalized,
            BusyReason::ReturningFromJob => BusyReasonView::ReturningFromJob,
        }
    }
}

pub open spec fn opt_reason_view(r: Option<BusyReason>) -> Option<BusyReasonView> {
    match r {
        Some(b) => Some(b@),
        None => None,
    }
}

/// Returns why the player is busy, or None if available.
/// Checks: Active quest → Scouting → Hospitalized. A fourth check, returning from a job,
/// never answers: neither the board nor the hospital records a chud on its way back.
pub fn is_player_busy(board: &Board, hospital: &Hospital, discord_user_id: u64) -> (r: Option<BusyReason>)
    ensures
        !(r matches Some(BusyReason::ReturningFromJob)),
        opt_reason_view(r) == busy_spec(board.quests_view(), hospital.entries@, discord_user_id),
{
    let players: Vec<Player> = Vec::new();
    let status = compute_guild_hall_status(board, hospital, &players);
    assert(status.reason_spec(discord_user_id) == busy_spec(board.quests_view(), hospital.entries@, discord_user_id));
    status.busy_reason(discord_user_id)
}

/// Returns why the chud's loadout is locked (active job or scouting).
/// Hospitalized and returning chuds may still change gear.
pub fn is_equipment_locked(board: &Board, hospital: &Hospital, discord_user_id: u64) -> (r: Option<BusyReason>)
    ensures
        opt_reason_view(r) == match busy_spec(board.quests_view(), hospital.entries@, discord_user_id) {
            Some(BusyReasonView::Hospitalized) => None,
            Some(BusyReasonView::ReturningFromJob) => None,
            other => other,
        },
{
    match is_player_busy(board, hospital, discord_user_id) {
        None => None,
        Some(BusyReason::Hospitalized) => None,
        Some(BusyReason::ReturningFromJob) => None,
        Some(reason) => Some(reason),
    }
}

} // verus!

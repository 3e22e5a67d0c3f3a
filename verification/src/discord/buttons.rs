use vstd::prelude::*;

use crate::discord::messages::{chud_msg_2, ChudMsg};
use crate::game::busy::BusyReason;
use crate::game::domain::board::Board;
use crate::game::domain::hospital::Hospital;
use crate::game::domain::player::Player;
use crate::game::engine::{assign_chud_to_quest, assign_effect, AssignInfo, EngineError, GenerationJob};
use crate::game::domain::board::first_id_from;
use crate::game::guild_status::{busy_spec, compute_guild_hall_status, hall_status, GuildHallStatus};
use crate::discord::commands::{parse_u64, u64_text_value};
use crate::game::domain::item::{parse_u32, u32_text_value};
use crate::text::{dec, first_word, first_word_of, owned, push_dec, push_str, strip_prefix, strip_prefix_spec};

verus! {

/// What a click on a job's Take button came to.
pub enum TakeOutcome {
    /// The chud is busy for this reason.
    Busy(BusyReason),
    /// The job is gone or already taken.
    Unavailable,
    /// The chud took the job; the guild-hall status after it.
    Taken { info: AssignInfo, status: GuildHallStatus },
}

/// A player with a chud takes a job: refused with the reason while the chud is busy (by
/// the board and hospital); else the chud is assigned to the job as `assign_chud_to_quest`
/// does, and the status is recomputed from the new board for the roster `players`.
pub fn take_quest(
    board: &mut Board,
    hospital: &Hospital,
    player: Player,
    players: &Vec<Player>,
    discord_user_id: u64,
    quest_id: u32,
    job_timeout_tick: u32,
) -> (r: TakeOutcome)
    requires
        player.chud is Some,
    ensures
        match busy_spec(old(board).quests_view(), hospital.entries@, discord_user_id) {
            Some(reason) => (r matches TakeOutcome::Busy(b) && b@ == reason) && *final(board) == *old(board),
            None => match r {
                TakeOutcome::Taken { info, status } => assign_effect(
                    *old(board),
                    *final(board),
                    Some(player),
                    discord_user_id,
                    quest_id,
                    false,
                    job_timeout_tick,
                    Ok(info),
                ) && hall_status(status, *final(board), *hospital, players@),
                TakeOutcome::Unavailable => exists|e: EngineError| #[trigger] assign_effect(
                    *old(board),
                    *final(board),
                    Some(player),
                    discord_user_id,
                    quest_id,
                    false,
                    job_timeout_tick,
                    Err::<AssignInfo, EngineError>(e),
                ),
                TakeOutcome::Busy(_) => false,
            },
        },
{
    let status = compute_guild_hall_status(board, hospital, players);
    match status.busy_reason(discord_user_id) {
        Some(reason) => {
            return TakeOutcome::Busy(reason);
        },
        None => {},
    }
    assert(status.reason_spec(discord_user_id) is None);
    match assign_chud_to_quest(board, hospital, Some(player), discord_user_id, quest_id, Some(&status), job_timeout_tick) {
        Ok(info) => {
            let status = compute_guild_hall_status(board, hospital, players);
            TakeOutcome::Taken { info, status }
        },
        Err(e) => TakeOutcome::Unavailable,
    }
}

/// What a click on a job's Scout button came to.
pub enum ScoutOutcome {
    Busy(BusyReason),
    Unavailable,
    /// The chud went scouting; the guild-hall status after it.
    Scouted { status: GuildHallStatus },
}

/// A chud goes scouting a job: refused with the reason while busy, or when no job has the
/// id; else the job gets the chud's scouting state and its idle timeout restarts.
pub fn scout_quest(
    board: &mut Board,
    hospital: &Hospital,
    players: &Vec<Player>,
    discord_user_id: u64,
    quest_id: u32,
    job_timeout_tick: u32,
) -> (r: ScoutOutcome)
    ensures
        match busy_spec(old(board).quests_view(), hospital.entries@, discord_user_id) {
            Some(reason) => (r matches ScoutOutcome::Busy(b) && b@ == reason) && *final(board) == *old(board),
            None => if old(board).first_with_id(quest_id) is None {
                r is Unavailable && final(board).quests_view() == old(board).quests_view()
            } else {
                let k = old(board).first_with_id(quest_id).unwrap();
                &&& r matches ScoutOutcome::Scouted { status } && hall_status(status, *final(board), *hospital, players@)
                &&& final(board).quests_view() == old(board).quests_view().update(
                    k,
                    crate::game::domain::board::BoardQuestView {
                        states: old(board).quests@[k].states@.push(
                            crate::game::domain::board::QuestState::Scouting { discord_user_id },
                        ),
                        timeout: job_timeout_tick,
                        ..old(board).quests@[k]@
                    },
                )
            },
        },
{
    let status = compute_guild_hall_status(board, hospital, players);
    match status.busy_reason(discord_user_id) {
        Some(reason) => {
            return ScoutOutcome::Busy(reason);
        },
        None => {},
    }
    if !board.scout(quest_id, discord_user_id, job_timeout_tick) {
        return ScoutOutcome::Unavailable;
    }
    let status = compute_guild_hall_status(board, hospital, players);
    ScoutOutcome::Scouted { status }
}

/// The activity line for a taken job: the chud's first name and the job's title.
pub fn take_log_line(info: &AssignInfo) -> (r: ChudMsg)
    requires
        info.player.chud is Some,
    ensures
        r.key == "chud_takes_job",
        r.args_view() == seq![first_word(info.player.chud.unwrap().name@), info.quest_title@],
{
    let first_name = first_word_of(info.player.chud_ref().name.as_str());
    chud_msg_2("chud_takes_job", first_name, info.quest_title.clone())
}

/// The activity line for a chud leaving to scout: its first name.
pub fn scout_log_line(player: &Player) -> (r: ChudMsg)
    requires
        player.chud is Some,
    ensures
        r.key == "chud_scouts_out",
        r.args_view() == seq![first_word(player.chud.unwrap().name@)],
{
    let first_name = first_word_of(player.chud_ref().name.as_str());
    crate::discord::messages::chud_msg_1("chud_scouts_out", first_name)
}

/// The result-generation job for a taken quest: a copy of the first board quest with the
/// id, the player who runs it and whether an item drop is forced; None when no quest has
/// the id.
pub fn quest_result_job(board: &Board, quest_id: u32, player: &Player, force_item_drop: bool) -> (r: Option<GenerationJob>)
    ensures
        match first_id_from(board.quests_view(), quest_id, 0) {
            None => r is None,
            Some(k) => r matches Some(GenerationJob::QuestResult { board_quest, player: p, force_item_drop: f }) && {
                &&& board_quest.id == quest_id
                &&& board_quest.states@ == board.quests@[k].states@
                &&& board_quest.story_index == board.quests@[k].story_index
                &&& board_quest.generated.quest_title == board.quests@[k].generated.quest_title
                &&& board_quest.quest_data.trials@ == board.quests@[k].quest_data.trials@
                &&& p.discord_user_id == player.discord_user_id && p.cash == player.cash && p.chud == player.chud
                    && p.stash@ == player.stash@
                &&& f == force_item_drop
            },
        },
{
    let ghost qs = board.quests_view();
    let mut i: usize = 0;
    while i < board.quests.len()
        invariant
            i <= board.quests@.len(),
            qs == board.quests_view(),
            first_id_from(qs, quest_id, 0) == first_id_from(qs, quest_id, i as int),
        decreases board.quests@.len() - i,
    {
        assert(qs[i as int] == board.quests@[i as int]@);
        if board.quests[i].id == quest_id {
            let q = board.quests[i].clone();
            return Some(GenerationJob::QuestResult { board_quest: q, player: player.clone(), force_item_drop });
        }
        i += 1;
    }
    None
}


/// The job id of a `take:` or `scout:` button: the rest after the prefix, read as a `u32`.
pub open spec fn button_id(custom_id: Seq<char>, prefix: Seq<char>) -> Option<u32> {
    match strip_prefix_spec(custom_id, prefix) {
        Some(rest) => match u32_text_value(rest) {
            Some(v) => Some(v as u32),
            None => None,
        },
        None => None,
    }
}

pub fn parse_button_id(custom_id: &str, prefix: &str) -> (r: Option<u32>)
    ensures
        r == button_id(custom_id@, prefix@),
{
    match strip_prefix(custom_id, prefix) {
        Some(rest) => parse_u32(rest.as_str()),
        None => None,
    }
}

/// The user a `heal:` button was made for.
pub open spec fn heal_button_user(custom_id: Seq<char>) -> Option<u64> {
    match strip_prefix_spec(custom_id, "heal:"@) {
        Some(rest) => match u64_text_value(rest) {
            Some(v) => Some(v as u64),
            None => None,
        },
        None => None,
    }
}

pub fn parse_heal_button(custom_id: &str) -> (r: Option<u64>)
    ensures
        r == heal_button_user(custom_id@),
{
    match strip_prefix(custom_id, "heal:") {
        Some(rest) => parse_u64(rest.as_str()),
        None => None,
    }
}

/// The id of the heal button offered to a user.
pub fn heal_button_id(user_id: u64) -> (r: String)
    ensures
        r@ == "heal:"@ + dec(user_id as nat),
{
    let mut s = owned("heal:");
    push_dec(&mut s, user_id);
    s
}

/// A stay in days: "1 day", else the number and "days".
pub open spec fn days_text(days: nat) -> Seq<char> {
    if days == 1 {
        "1 day"@
    } else {
        dec(days) + " days"@
    }
}

pub fn days_remaining_text(days: u64) -> (r: String)
    ensures
        r@ == days_text(days as nat),
{
    if days == 1 {
        owned("1 day")
    } else {
        let mut s = crate::text::dec_string(days);
        push_str(&mut s, " days");
        s
    }
}

/// The answer to a hospitalized chud's click: a message, with a heal button at the given
/// price when one is offered.
pub enum HospitalReply {
    Notice(ChudMsg),
    HealOffer { msg: ChudMsg, heal_price: u32 },
}

/// What a hospitalized chud is told: when a heal is priced and the player can pay it, the
/// stay with a heal button; when they cannot, that they lack the funds; when no heal is
/// priced, the stay alone. `days` is the stay left (none known counts as 0).
pub fn hospitalized_reply(player: &Player, days: u64, heal_price: Option<u32>) -> (r: HospitalReply)
    requires
        player.chud is Some,
    ensures
        match heal_price {
            Some(price) => if player.cash >= price {
                r matches HospitalReply::HealOffer { msg, heal_price: p } && p == price
                    && msg.key == "busy_hospitalized"
                    && msg.args_view() == seq![player.chud.unwrap().name@, days_text(days as nat)]
            } else {
                r matches HospitalReply::Notice(msg) && msg.key == "heal_insufficient_funds"
                    && msg.args_view() == seq![player.chud.unwrap().name@]
            },
            None => r matches HospitalReply::Notice(msg) && msg.key == "busy_hospitalized"
                && msg.args_view() == seq![player.chud.unwrap().name@, days_text(days as nat)],
        },
{
    let name = player.chud_ref().name.clone();
    match heal_price {
        Some(price) => {
            if player.cash >= price {
                let msg = chud_msg_2("busy_hospitalized", name, days_remaining_text(days));
                HospitalReply::HealOffer { msg, heal_price: price }
            } else {
                HospitalReply::Notice(crate::discord::messages::chud_msg_1("heal_insufficient_funds", name))
            }
        },
        None => HospitalReply::Notice(chud_msg_2("busy_hospitalized", name, days_remaining_text(days))),
    }
}

} // verus!

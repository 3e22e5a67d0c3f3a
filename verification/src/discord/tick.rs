use vstd::prelude::*;

use crate::discord::formatting::{oxford_join, strs_view};
use crate::game::domain::episode_stats::join_names;
use crate::discord::context::GameCompletion;
use crate::game::domain::player::LevelUp;
use crate::game::domain::session::{GamePhase, GameSession};
use crate::game::engine::{KillChudPending, KillResult};
use crate::game::merchant::{tick_effect, MerchantState, MerchantTickEvent};
use crate::text::{owned, push_str};

verus! {

/// The words for the stats that went up, in order: strength, smarts, stealth, experience.
pub open spec fn level_up_words(l: LevelUp) -> Seq<Seq<char>> {
    (if l.str_up { seq!["stronger"@] } else { Seq::empty() }) + (if l.smt_up {
        seq!["smarter"@]
    } else {
        Seq::empty()
    }) + (if l.sth_up { seq!["sneakier"@] } else { Seq::empty() }) + (if l.exp_up {
        seq!["more experienced"@]
    } else {
        Seq::empty()
    })
}

/// The activity line after a job that raised stats: "{name} seems stronger and smarter."
pub open spec fn level_up_text(player_name: Seq<char>, l: LevelUp) -> Seq<char> {
    player_name + " seems "@ + join_names(level_up_words(l)) + "."@
}

pub fn level_up_line(player_name: &str, level_up: &LevelUp) -> (r: Option<String>)
    ensures
        match r {
            Some(s) => (level_up.str_up || level_up.smt_up || level_up.sth_up || level_up.exp_up) && s@ == level_up_text(player_name@, *level_up),
            None => !(level_up.str_up || level_up.smt_up || level_up.sth_up || level_up.exp_up),
        },
{
    if !level_up.any() {
        return None;
    }
    let mut adjs: Vec<&str> = Vec::new();
    if level_up.str_up {
        adjs.push("stronger");
    }
    if level_up.smt_up {
        adjs.push("smarter");
    }
    if level_up.sth_up {
        adjs.push("sneakier");
    }
    if level_up.exp_up {
        adjs.push("more experienced");
    }
    assert(strs_view(adjs@) =~= level_up_words(*level_up));
    let joined = oxford_join(adjs.as_slice());
    let mut s = owned(player_name);
    push_str(&mut s, " seems ");
    push_str(&mut s, joined.as_str());
    push_str(&mut s, ".");
    Some(s)
}

/// The activity-line key for a chud coming back from a job: dead, hospitalized, or none.
pub fn return_message_key(died: bool, hospitalized: bool) -> (r: Option<&'static str>)
    ensures
        died ==> (r matches Some(k) && k@ == "return_died"@),
        !died && hospitalized ==> (r matches Some(k) && k@ == "return_hospitalized"@),
        !died && !hospitalized ==> r is None,
{
    if died {
        Some("return_died")
    } else if hospitalized {
        Some("return_hospitalized")
    } else {
        None
    }
}


/// Who finished the story series, as the completion screen is told: the last completer,
/// or user `0` and "a chud" where the tick did not record one.
pub fn story_completion(final_user_id: Option<u64>, final_chud_name: Option<String>) -> (r: GameCompletion)
    ensures
        r.user_id == match final_user_id {
            Some(u) => u,
            None => 0,
        },
        r.chud_name@ == match final_chud_name {
            Some(n) => n@,
            None => "a chud"@,
        },
{
    let user_id = match final_user_id {
        Some(u) => u,
        None => 0,
    };
    let chud_name = match final_chud_name {
        Some(n) => n,
        None => owned("a chud"),
    };
    GameCompletion { user_id, chud_name }
}

/// The death the tick buried for a chud that died on its job, if one is pending for that
/// user: the first pending death of that user.
pub fn pending_death_for(pending: &Vec<KillChudPending>, discord_user_id: u64) -> (r: Option<usize>)
    ensures
        match r {
            Some(i) => i < pending@.len() && pending@[i as int].discord_user_id == discord_user_id
                && forall|k: int| 0 <= k < i ==> (#[trigger] pending@[k]).discord_user_id != discord_user_id,
            None => forall|k: int| 0 <= k < pending@.len() ==> (#[trigger] pending@[k]).discord_user_id != discord_user_id,
        },
{
    let mut i: usize = 0;
    while i < pending.len()
        invariant
            i <= pending@.len(),
            forall|k: int| 0 <= k < i ==> (#[trigger] pending@[k]).discord_user_id != discord_user_id,
        decreases pending@.len() - i,
    {
        if pending[i].discord_user_id == discord_user_id {
            return Some(i);
        }
        i += 1;
    }
    None
}

/// The death report of a buried chud once its epitaph is written.
pub fn kill_result_of(pending: &KillChudPending, epitaph: String) -> (r: KillResult)
    ensures
        r.discord_user_id == pending.discord_user_id,
        r.chud_name@ == pending.chud_name@,
        r.benefits_awarded == pending.benefits_awarded,
        r.epitaph == epitaph,
{
    KillResult {
        discord_user_id: pending.discord_user_id,
        chud_name: pending.chud_name.clone(),
        benefits_awarded: pending.benefits_awarded,
        epitaph,
    }
}


/// Start a tick: outside the playing phase nothing happens; else the session counts one
/// more tick (stopping at the top of `u32`), and the new count is returned.
pub fn begin_tick(session: &mut GameSession) -> (r: Option<u32>)
    ensures
        old(session).phase != GamePhase::Playing ==> r is None && *final(session) == *old(session),
        old(session).phase == GamePhase::Playing ==> ({
            let n = if old(session).total_ticks == u32::MAX {
                u32::MAX
            } else {
                (old(session).total_ticks + 1) as u32
            };
            &&& r == Some(n)
            &&& *final(session) == (GameSession { total_ticks: n, ..*old(session) })
        }),
{
    if !session.is_playing() {
        return None;
    }
    session.total_ticks = session.total_ticks.saturating_add(1);
    Some(session.total_ticks)
}

/// The merchant's part of a tick: the armed forced spawn is used up (the flag cleared), then
/// the visit advances with it; returns what happened and the name of the merchant that was
/// visiting before, if any.
pub fn merchant_tick(merchant: &mut MerchantState) -> (r: (MerchantTickEvent, Option<String>))
    ensures
        !final(merchant).spawn_next_tick,
        tick_effect(
            MerchantState { spawn_next_tick: false, ..*old(merchant) },
            *final(merchant),
            old(merchant).spawn_next_tick,
            r.0,
        ),
        match old(merchant).visit {
            Some(v) => r.1 matches Some(n) && n@ == v.merchant_name@,
            None => r.1 is None,
        },
{
    let force = merchant.spawn_next_tick;
    merchant.spawn_next_tick = false;
    let departing = match &merchant.visit {
        Some(v) => Some(v.merchant_name.clone()),
        None => None,
    };
    let event = merchant.advance_tick(force);
    (event, departing)
}

} // verus!

use std::collections::HashMap;

use vstd::prelude::*;

use crate::game::domain::board::Board;
use crate::game::domain::player::Player;
use crate::game::domain::session::{GamePhase, GameSession};
use crate::game::merchant::{first_exact_from, normalized, MerchantCatalog, MerchantState};
use crate::game::persistence::chudmasters::Chudmasters;
use crate::game::persistence::item_registry::ItemRegistry;
use crate::game::persistence::merchants::{
    all_registered, catalog_matches_registry, catalog_registered, normalize_catalog,
    visit_matches_registry,
};
use crate::text::{eq_ignore_ascii_case, eq_ignore_case, str_eq, string_of, trim, trimmed_chars};

verus! {

/// New board with its story catalog length set from the current catalog.
pub fn fresh_board(catalog_len: usize) -> (r: Board)
    ensures
        r.quests@.len() == 0,
        r.next_id == 0,
        r.completed_results@.len() == 0,
        r.story_next_index == 0,
        r.story_catalog_len == catalog_len,
{
    let mut board = Board {
        quests: Vec::new(),
        next_id: 0,
        completed_results: HashMap::new(),
        story_next_index: 0,
        story_catalog_len: 0,
    };
    board.reconcile_story_catalog(catalog_len);
    board
}

/// Should a Complete session go back to Playing? Only when the story catalog grew after the
/// players had finished the old one.
pub open spec fn session_reopens(
    session: GameSession,
    board: Board,
    catalog_changed: bool,
    old_catalog_len: usize,
    live_catalog_len: usize,
) -> bool {
    &&& session.phase == GamePhase::Complete
    &&& !(board.catalog_len_spec(live_catalog_len) > 0 && board.story_next_index
        >= board.catalog_len_spec(live_catalog_len))
    &&& catalog_changed
    &&& old_catalog_len > 0
    &&& board.story_next_index >= old_catalog_len
}

/// Undo Complete only when the story catalog grew after the player had already finished it.
/// Admin-complete and normal restarts while Complete are left alone.
pub fn reconcile_session_story(
    session: &mut GameSession,
    board: &Board,
    catalog_changed: bool,
    old_catalog_len: usize,
    live_catalog_len: usize,
) -> (r: bool)
    ensures
        r == session_reopens(*old(session), *board, catalog_changed, old_catalog_len, live_catalog_len),
        r ==> final(session).phase == GamePhase::Playing && final(session).final_completer_user_id is None
            && final(session).final_completer_chud_name is None && final(session).game_start_at
            == old(session).game_start_at && final(session).total_ticks == old(session).total_ticks,
        !r ==> *final(session) == *old(session),
{
    if session.phase != GamePhase::Complete {
        return false;
    }
    if board.story_series_complete(live_catalog_len) {
        return false;
    }
    let had_finished_old_catalog = old_catalog_len > 0 && board.story_next_index >= old_catalog_len;
    if !catalog_changed || !had_finished_old_catalog {
        return false;
    }
    session.phase = GamePhase::Playing;
    session.final_completer_user_id = None;
    session.final_completer_chud_name = None;
    true
}

/// Reconcile persisted story progress with the reloaded catalog (of `catalog_len` story
/// missions) and the session phase. True when either changed, and both need saving.
pub fn resume_story_state(board: &mut Board, session: &mut GameSession, catalog_len: usize) -> (r: bool)
    ensures
        final(board).story_catalog_len == catalog_len,
        final(board).quests == old(board).quests,
        final(board).next_id == old(board).next_id,
        final(board).completed_results == old(board).completed_results,
        final(board).story_next_index == old(board).story_next_index,
        ({
            let reopened = session_reopens(
                *old(session),
                *final(board),
                old(board).story_catalog_len != catalog_len,
                old(board).story_catalog_len,
                catalog_len,
            );
            &&& r == (old(board).story_catalog_len != catalog_len || reopened)
            &&& reopened ==> final(session).phase == GamePhase::Playing
                && final(session).final_completer_user_id is None
                && final(session).final_completer_chud_name is None
            &&& !reopened ==> *final(session) == *old(session)
        }),
{
    let old_catalog_len = board.story_catalog_len;
    let catalog_changed = board.reconcile_story_catalog(catalog_len);
    let mut changed = catalog_changed;
    if reconcile_session_story(session, board, catalog_changed, old_catalog_len, catalog_len) {
        changed = true;
    }
    changed
}

/// Index of the first player at or after `i` with a chud named `name` (up to ASCII case).
pub open spec fn first_named_player(players: Seq<Player>, name: Seq<char>, i: int) -> Option<int>
    decreases players.len() - i,
{
    if i < 0 || i >= players.len() {
        None
    } else if players[i].chud is Some && eq_ignore_ascii_case(players[i].chud.unwrap().name@, name) {
        Some(i)
    } else {
        first_named_player(players, name, i + 1)
    }
}

/// The player whose chud name matches `name` (trimmed, case-insensitive), if any, among
/// the saved `players`.
pub fn find_player_by_name(players: Vec<Player>, name: &str) -> (r: Option<Player>)
    ensures
        trim(name@).len() == 0 ==> r is None,
        trim(name@).len() > 0 ==> match first_named_player(players@, trim(name@), 0) {
            Some(i) => r == Some(players@[i]),
            None => r is None,
        },
{
    let needle_chars = trimmed_chars(name);
    if needle_chars.len() == 0 {
        return None;
    }
    let needle = string_of(&needle_chars);
    let mut i: usize = 0;
    while i < players.len()
        invariant
            i <= players@.len(),
            needle@ == trim(name@),
            needle@.len() > 0,
            first_named_player(players@, needle@, 0) == first_named_player(players@, needle@, i as int),
        decreases players@.len() - i,
    {
        let hit = match &players[i].chud {
            Some(c) => eq_ignore_case(c.name.as_str(), needle.as_str()),
            None => false,
        };
        if hit {
            let mut players = players;
            return Some(players.remove(i));
        }
        i += 1;
    }
    None
}

/// A merchant state put together from its saved parts, with what loading it found.
#[derive(Debug)]
pub struct MerchantLoad {
    pub state: MerchantState,
    /// The stored roster names item ids the registry lacks; its file should be removed.
    pub clear_stored_roster: bool,
    /// The saved visit state was repaired and should be written back.
    pub repaired: bool,
}

/// Attach the stored roster to the saved merchant visit state. A roster naming ids the
/// registry lacks is dropped (and its file marked for removal); a kept roster is normalized
/// with Dumpster Dave first. A visit is re-pointed at its merchant's new index, and dropped
/// when that merchant is gone or its table names ids the registry lacks.
pub fn load_merchant_state(saved: MerchantState, stored_catalog: Option<MerchantCatalog>, registry: &ItemRegistry) -> (r: MerchantLoad)
    ensures
        r.clear_stored_roster == (stored_catalog matches Some(c) && !catalog_registered(c, *registry)),
        match stored_catalog {
            Some(c) => if catalog_registered(c, *registry) {
                r.state.catalog matches Some(d) && d.merchants_view() == normalized(c.merchants_view())
            } else {
                r.state.catalog is None
            },
            None => r.state.catalog is None,
        },
        r.state.spawn_next_tick == saved.spawn_next_tick,
        r.state.spawn_merchant_name == saved.spawn_merchant_name,
        ({
            let kept = stored_catalog matches Some(c) && catalog_registered(c, *registry);
            match saved.visit {
                None => r.state.visit is None && r.repaired == r.clear_stored_roster,
                Some(v) => if !kept {
                    r.state.visit == saved.visit && r.repaired == r.clear_stored_roster
                } else {
                    match first_exact_from(normalized(stored_catalog.unwrap().merchants_view()), v.merchant_name@, 0) {
                        None => r.state.visit is None && r.repaired,
                        Some(k) => if all_registered(v.stock@, *registry) {
                            r.state.visit matches Some(w) && w.merchant_index == k && w.merchant_name
                                == v.merchant_name && w.ticks_remaining == v.ticks_remaining && w.stock
                                == v.stock && r.repaired == (k != v.merchant_index)
                        } else {
                            r.state.visit is None && r.repaired
                        },
                    }
                },
            }
        }),
{
    let mut merchant = saved;
    let mut repaired = false;
    let mut clear = false;
    merchant.catalog = match stored_catalog {
        Some(catalog) => {
            if catalog_matches_registry(&catalog, registry) {
                Some(normalize_catalog(catalog))
            } else {
                clear = true;
                repaired = true;
                None
            }
        },
        None => None,
    };
    let cat = merchant.catalog.take();
    match cat {
        Some(catalog) => {
            let v = merchant.visit.take();
            match v {
                Some(mut visit) => {
                    let mut found: Option<usize> = None;
                    let mut i: usize = 0;
                    let ghost mv = catalog.merchants_view();
                    while i < catalog.merchants.len() && found.is_none()
                        invariant
                            i <= catalog.merchants@.len(),
                            mv == catalog.merchants_view(),
                            found is None ==> first_exact_from(mv, visit.merchant_name@, 0)
                                == first_exact_from(mv, visit.merchant_name@, i as int),
                            found matches Some(k) ==> first_exact_from(mv, visit.merchant_name@, 0) == Some(
                                k as int,
                            ),
                        decreases catalog.merchants@.len() - i + (if found is None { 1int } else { 0int }),
                    {
                        assert(mv[i as int] == catalog.merchants@[i as int]@);
                        if str_eq(catalog.merchants[i].name.as_str(), visit.merchant_name.as_str()) {
                            found = Some(i);
                        } else {
                            i += 1;
                        }
                    }
                    match found {
                        Some(new_index) => {
                            if visit.merchant_index != new_index {
                                visit.merchant_index = new_index;
                                repaired = true;
                            }
                            if visit_matches_registry(&visit, registry) {
                                merchant.visit = Some(visit);
                            } else {
                                repaired = true;
                            }
                        },
                        None => {
                            repaired = true;
                        },
                    }
                },
                None => {},
            }
            merchant.catalog = Some(catalog);
        },
        None => {},
    }
    MerchantLoad { state: merchant, clear_stored_roster: clear, repaired }
}

/// The ids other than `x`, in order.
pub open spec fn without_id(s: Seq<u64>, x: u64) -> Seq<u64>
    decreases s.len(),
{
    if s.len() == 0 {
        Seq::empty()
    } else {
        let prev = without_id(s.drop_last(), x);
        if s.last() == x {
            prev
        } else {
            prev.push(s.last())
        }
    }
}

/// Is the given Discord user ID a Chudmaster?
pub fn is_chudmaster(cms: &Chudmasters, discord_user_id: u64) -> (r: bool)
    ensures
        r == cms.ids@.contains(discord_user_id),
{
    let mut i: usize = 0;
    while i < cms.ids.len()
        invariant
            i <= cms.ids@.len(),
            forall|j: int| 0 <= j < i ==> cms.ids@[j] != discord_user_id,
        decreases cms.ids@.len() - i,
    {
        if cms.ids[i] == discord_user_id {
            return true;
        }
        i += 1;
    }
    false
}

/// Add a Discord user ID to the chudmasters list. Returns `false` if already present.
pub fn add_chudmaster(cms: &mut Chudmasters, discord_user_id: u64) -> (r: bool)
    ensures
        r == !old(cms).ids@.contains(discord_user_id),
        r ==> final(cms).ids@ == old(cms).ids@.push(discord_user_id),
        !r ==> final(cms).ids@ == old(cms).ids@,
{
    if is_chudmaster(cms, discord_user_id) {
        return false;
    }
    cms.ids.push(discord_user_id);
    true
}

/// Remove a Discord user ID (every occurrence) from the chudmasters list. Returns `false`
/// if it was not there.
pub fn remove_chudmaster(cms: &mut Chudmasters, discord_user_id: u64) -> (r: bool)
    ensures
        r == old(cms).ids@.contains(discord_user_id),
        final(cms).ids@ == without_id(old(cms).ids@, discord_user_id),
{
    let present = is_chudmaster(cms, discord_user_id);
    let ghost ids = cms.ids@;
    let mut kept: Vec<u64> = Vec::new();
    let mut i: usize = 0;
    while i < cms.ids.len()
        invariant
            i <= ids.len(),
            ids == cms.ids@,
            kept@ == without_id(ids.subrange(0, i as int), discord_user_id),
        decreases ids.len() - i,
    {
        assert(ids.subrange(0, i + 1).drop_last() =~= ids.subrange(0, i as int));
        if cms.ids[i] != discord_user_id {
            kept.push(cms.ids[i]);
        }
        i += 1;
    }
    assert(ids.subrange(0, i as int) =~= ids);
    cms.ids = kept;
    present
}

} // verus!

use vstd::prelude::*;

use crate::game::domain::session::{GamePhase, GameSession};

verus! {

/// Seconds to wait before a start scheduled at `at_unix`, from `now` (both unix seconds);
/// zero when the time has passed.
pub fn start_delay_secs(at_unix: i64, now: i64) -> (r: u64)
    requires
        i64::MIN <= at_unix - now <= i64::MAX,
    ensures
        r == (if at_unix - now > 0 { at_unix - now } else { 0 }),
{
    let d = at_unix - now;
    if d > 0 {
        d as u64
    } else {
        0
    }
}

/// A scheduled start firing: a game still in the attract phase starts playing; otherwise
/// nothing changes. Answers whether the game started.
pub fn begin_scheduled_start(session: &mut GameSession) -> (r: bool)
    ensures
        r == (old(session).phase == GamePhase::Attract),
        r ==> *final(session) == (GameSession { phase: GamePhase::Playing, ..*old(session) }),
        !r ==> *final(session) == *old(session),
{
    if session.phase != GamePhase::Attract {
        return false;
    }
    session.phase = GamePhase::Playing;
    true
}

} // verus!

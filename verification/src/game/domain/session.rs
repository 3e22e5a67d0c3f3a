use vstd::prelude::*;

verus! {

/// The overall phase of the game flow.
#[derive(Debug, Clone, Copy, PartialEq, Eq, Structural)]
pub enum GamePhase {
    /// Pre-game lobby: attract screen, players join, no simulation.
    Attract,
    /// Normal gameplay: ticks, generation, job board.
    Playing,
    /// Post-game: complete screen with final stats, no simulation.
    Complete,
}

impl Default for GamePhase {
    fn default() -> (r: Self)
        ensures
            r == GamePhase::Playing,
    {
        GamePhase::Playing
    }
}

/// Persisted game-flow session state, separate from board/merchant domain state.
#[derive(Debug)]
pub struct GameSession {
    pub phase: GamePhase,
    /// Unix seconds for the attract-screen countdown (`<t:..:R>`).
    pub game_start_at: Option<i64>,
    /// Total ticks elapsed this game.
    pub total_ticks: u32,
    /// Discord user ID of the chud that completed the final story mission.
    pub final_completer_user_id: Option<u64>,
    /// Name of the chud that completed the final story mission.
    pub final_completer_chud_name: Option<String>,
}

impl Default for GameSession {
    fn default() -> (r: Self)
        ensures
            r.phase == GamePhase::Playing,
            r.game_start_at is None,
            r.total_ticks == 0,
            r.final_completer_user_id is None,
            r.final_completer_chud_name is None,
    {
        GameSession {
            phase: GamePhase::Playing,
            game_start_at: None,
            total_ticks: 0,
            final_completer_user_id: None,
            final_completer_chud_name: None,
        }
    }
}

impl GameSession {
    pub fn is_playing(&self) -> (r: bool)
        ensures
            r == (self.phase == GamePhase::Playing),
    {
        self.phase == GamePhase::Playing
    }
}

} // verus!

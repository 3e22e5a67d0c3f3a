use vstd::prelude::*;

use crate::game::domain::player::Player;

verus! {

#[derive(Debug, Clone, Copy, PartialEq, Eq, Structural)]
pub enum SlotsError {
    InsufficientFunds,
}

/// One pull of the machine: the reels, the stake, the total payout and each winning
/// symbol with its count and payout.
#[derive(Debug)]
pub struct SlotsSpin {
    pub reels: Vec<char>,
    pub pay_in: u32,
    pub payout: i64,
    pub wins: Vec<(char, usize, i64)>,
}

/// Index of the first win of five at or after `i`.
pub open spec fn first_five_from(wins: Seq<(char, usize, i64)>, i: int) -> Option<int>
    decreases wins.len() - i,
{
    if i < 0 || i >= wins.len() {
        None
    } else if wins[i].1 == 5 {
        Some(i)
    } else {
        first_five_from(wins, i + 1)
    }
}

impl SlotsSpin {
    /// Five of the same symbol — mini-jackpot tier in the default pay table: the symbol of
    /// the first such win.
    pub fn mini_jackpot_symbol(&self) -> (r: Option<char>)
        ensures
            r == (match first_five_from(self.wins@, 0) {
                Some(i) => Some(self.wins@[i].0),
                None => None::<char>,
            }),
    {
        let mut i: usize = 0;
        while i < self.wins.len()
            invariant
                i <= self.wins@.len(),
                first_five_from(self.wins@, 0) == first_five_from(self.wins@, i as int),
            decreases self.wins@.len() - i,
        {
            if self.wins[i].1 == 5 {
                return Some(self.wins[i].0);
            }
            i += 1;
        }
        None
    }
}

/// A stake is taken only from a player who can cover it.
pub open spec fn spin_refused(player: Player, pay_in: u32) -> bool {
    player.cash < pay_in
}

/// Cash after staking `pay_in` and collecting the payout as a `u32` (a negative payout
/// collects nothing; a larger one keeps its low 32 bits), the sum capped at `u32::MAX`.
pub open spec fn cash_after_spin(cash: u32, pay_in: u32, payout: i64) -> u32 {
    let won: int = if payout <= 0 {
        0
    } else {
        (payout as int) % 0x1_0000_0000
    };
    if cash - pay_in + won > u32::MAX {
        u32::MAX
    } else {
        (cash - pay_in + won) as u32
    }
}

/// Settles a pull of `pay_in` for the player: refused when the cash does not cover the
/// stake; else the stake leaves the cash and the payout of `spin` (the machine's pull for
/// this stake) joins it.
pub fn spin_for_player(player: &mut Player, pay_in: u32, spin: SlotsSpin) -> (r: Result<SlotsSpin, SlotsError>)
    requires
        spin.pay_in == pay_in,
    ensures
        r matches Ok(s) ==> s.pay_in == pay_in,
        if spin_refused(*old(player), pay_in) {
            &&& r == Err::<SlotsSpin, SlotsError>(SlotsError::InsufficientFunds)
            &&& *final(player) == *old(player)
        } else {
            &&& r == Ok::<SlotsSpin, SlotsError>(spin)
            &&& *final(player) == (Player { cash: cash_after_spin(old(player).cash, pay_in, spin.payout), ..*old(player) })
        },
{
    if player.cash < pay_in {
        return Err(SlotsError::InsufficientFunds);
    }
    player.cash = player.cash - pay_in;
    let won: u32 = if spin.payout <= 0 {
        0
    } else {
        ((spin.payout as u64) % 0x1_0000_0000u64) as u32
    };
    player.cash = player.cash.saturating_add(won);
    Ok(spin)
}

} // verus!

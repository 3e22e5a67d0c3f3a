use vstd::prelude::*;

use crate::game::merchant::MerchantState;

verus! {

/// Persistent guild-hall state (merchant visits, etc.).
#[derive(Debug, Default)]
pub struct GuildHall {
    pub merchant: MerchantState,
}

} // verus!

use vstd::prelude::*;
use crate::lending_market::LendingMarket;

verus! {

/// Hands the market to the owner named by the last owner update.
pub fn process(market: &mut LendingMarket)
    ensures
        *final(market) == (LendingMarket { owner: old(market).owner_cached, ..*old(market) }),
{
    market.owner = market.owner_cached;
}

} // verus!

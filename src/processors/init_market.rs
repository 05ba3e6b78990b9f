use vstd::prelude::*;
use crate::lending_market::{InitLendingMarketParams, LendingMarket, initialized_market};

verus! {

/// Sets up a new market with the default risk settings.
pub fn process(market: &mut LendingMarket, params: InitLendingMarketParams)
    ensures
        initialized_market(*final(market), params),
{
    market.init(params);
}

} // verus!

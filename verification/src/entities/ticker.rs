//! A ticker of the catalog: an instrument listed on a market.

use vstd::prelude::*;

verus! {

/// One ticker row.
#[derive(Debug)]
pub struct Model {
    pub id: String,
    pub symbol: String,
    pub quote_symbol: Option<String>,
    pub market_id: String,
}

} // verus!

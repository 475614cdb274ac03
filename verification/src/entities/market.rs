//! A market of the catalog: its names and its trading calendar.

use vstd::prelude::*;

verus! {

/// One market row. The calendar fields are optional: a market without an
/// opening or a closing time has no trading window.
#[derive(Debug)]
pub struct Model {
    pub id: String,
    /// The name under which adapters are registered for the market.
    pub short_name: String,
    pub full_name: String,
    /// The name that tickers and quotes carry, where it differs from
    /// `short_name`.
    pub pub_name: Option<String>,
    /// First weekday of the trading week, 0 for Sunday to 6 for Saturday.
    pub opens_from: Option<u32>,
    /// Last weekday of the trading week, 0 for Sunday to 6 for Saturday.
    pub opens_till: Option<u32>,
    /// Opening time of day, `HH`, `HH:MM` or `HH:MM:SS`.
    pub open_time: Option<String>,
    /// Closing time of day, `HH`, `HH:MM` or `HH:MM:SS`.
    pub close_time: Option<String>,
    /// Hours before the opening time at which collection starts.
    pub pre_market_offset: Option<u32>,
    /// Hours after the closing time at which collection stops.
    pub post_market_offset: Option<u32>,
    /// Offset of the market's time zone. Kept with the row; the trading window
    /// is read in local time and does not consult it.
    pub time_zone_offset: Option<i32>,
}

impl Model {
    /// The name that tickers and quotes of this market carry: the public name
    /// where there is one, else the short name.
    pub open spec fn effective_name(&self) -> Seq<char> {
        match self.pub_name {
            Some(name) => name@,
            None => self.short_name@,
        }
    }
}

} // verus!

//! Adapters to upstream data sources ("rustlers"): the values they produce,
//! their life cycle, the registry that picks one for a market, and the
//! supervisor that schedules them.

pub mod quote;
pub mod rustler;
pub mod rustlerjar;
pub mod svc;
pub mod ticker;

pub use quote::{FloatText, MarketHourType, Quote, QuoteView};
pub use rustler::{RustlerAction, RustlerBase, RustlerOpts, RustlerState, RustlerStatus};
pub use ticker::{Ticker, TickerView};

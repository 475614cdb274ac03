//! The identity of a subscription: a symbol on a market.

use crate::entities::{market, ticker};
use vstd::prelude::*;
use vstd::std_specs::cmp::PartialEqSpecImpl;

verus! {

/// A symbol on a market, optionally with the asset it is quoted in.
#[derive(Debug)]
pub struct Ticker {
    pub symbol: String,
    /// The public name of the market.
    pub market: String,
    pub quote_asset: Option<String>,
}

/// What a ticker holds, as plain sequences.
pub struct TickerView {
    pub symbol: Seq<char>,
    pub market: Seq<char>,
    pub quote_asset: Option<Seq<char>>,
}

impl TickerView {
    /// The key of the ticker: the market, a colon and the symbol.
    pub open spec fn key(self) -> Seq<char> {
        self.market + seq![':'] + self.symbol
    }

    /// The ticker that a catalog row stands for on a market of the given
    /// effective name.
    pub open spec fn of_row(symbol: Seq<char>, quote_symbol: Option<Seq<char>>, market: Seq<char>) -> Self {
        TickerView { symbol, market, quote_asset: quote_symbol }
    }
}

impl View for Ticker {
    type V = TickerView;

    open spec fn view(&self) -> TickerView {
        TickerView {
            symbol: self.symbol@,
            market: self.market@,
            quote_asset: match self.quote_asset {
                Some(asset) => Some(asset@),
                None => None,
            },
        }
    }
}

impl Clone for Ticker {
    fn clone(&self) -> (copy: Self)
        ensures
            copy@ == self@,
    {
        Ticker {
            symbol: self.symbol.clone(),
            market: self.market.clone(),
            quote_asset: match &self.quote_asset {
                Some(asset) => Some(asset.clone()),
                None => None,
            },
        }
    }
}

impl PartialEq for Ticker {
    /// Two tickers are the same where symbol and market agree.
    fn eq(&self, other: &Self) -> (same: bool) {
        self.symbol == other.symbol && self.market == other.market
    }
}

impl Eq for Ticker {

}

impl PartialEqSpecImpl for Ticker {
    open spec fn obeys_eq_spec() -> bool {
        true
    }

    open spec fn eq_spec(&self, other: &Self) -> bool {
        self.symbol@ == other.symbol@ && self.market@ == other.market@
    }
}

impl Ticker {
    /// The ticker of a catalog row on its market. The market's name is the
    /// public name where the market has one, else its short name.
    pub fn from(t: &ticker::Model, m: &market::Model) -> (ticker: Self)
        ensures
            ticker@ == TickerView::of_row(
                t.symbol@,
                match t.quote_symbol {
                    Some(q) => Some(q@),
                    None => None,
                },
                m.effective_name(),
            ),
    {
        let market = match &m.pub_name {
            Some(name) => name.clone(),
            None => m.short_name.clone(),
        };
        Ticker {
            symbol: t.symbol.clone(),
            market,
            quote_asset: match &t.quote_symbol {
                Some(q) => Some(q.clone()),
                None => None,
            },
        }
    }

    /// The tickers of catalog rows on one market, in the order of the rows.
    pub fn many_from(tickers: &[ticker::Model], market: &market::Model) -> (out: Vec<Self>)
        ensures
            out.len() == tickers.len(),
            forall|i: int|
                0 <= i < out.len() ==> (#[trigger] out[i])@ == TickerView::of_row(
                    tickers[i].symbol@,
                    match tickers[i].quote_symbol {
                        Some(q) => Some(q@),
                        None => None,
                    },
                    market.effective_name(),
                ),
    {
        let mut out: Vec<Ticker> = Vec::new();
        let mut i: usize = 0;
        while i < tickers.len()
            invariant
                i <= tickers.len(),
                out.len() == i,
                forall|k: int|
                    0 <= k < i ==> (#[trigger] out[k])@ == TickerView::of_row(
                        tickers[k].symbol@,
                        match tickers[k].quote_symbol {
                            Some(q) => Some(q@),
                            None => None,
                        },
                        market.effective_name(),
                    ),
            decreases tickers.len() - i,
        {
            out.push(Ticker::from(&tickers[i], market));
            i += 1;
        }
        out
    }

    /// The key of the ticker: the market, a colon and the symbol.
    pub fn key(&self) -> (key: String)
        ensures
            key@ == self@.key(),
    {
        let mut key = self.market.clone();
        key.push(':');
        key.append(self.symbol.as_str());
        key
    }
}

} // verus!

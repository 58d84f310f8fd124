//! The order book of a market.

use crate::decimal::Decimal;
use vstd::prelude::*;

verus! {

/// The path of the order book.
pub const GET_ORDERBOOK: &'static str = "book";

/// One price level of an order book.
#[derive(Debug, Clone, Copy)]
pub struct OrderBookLevel {
    pub price: Decimal,
    /// The total amount at this price.
    pub amount: Decimal,
    /// How many orders stand at this price.
    pub orders: u64,
}

/// The order book of a market: its bids and its asks, level by level.
#[derive(Debug)]
pub struct OrderBook {
    pub symbol: String,
    /// The bids, then the asks.
    levels: [Vec<OrderBookLevel>; 2],
    /// When the book was read, in milliseconds since the Unix epoch.
    pub timestamp: u128,
}

impl OrderBook {
    /// The market of the book.
    pub closed spec fn spec_symbol(&self) -> Seq<char> {
        self.symbol@
    }

    /// The time at which the book was read.
    pub closed spec fn spec_timestamp(&self) -> u128 {
        self.timestamp
    }

    /// The levels of the bids.
    pub closed spec fn spec_bids(&self) -> Seq<OrderBookLevel> {
        self.levels[0]@
    }

    /// The levels of the asks.
    pub closed spec fn spec_asks(&self) -> Seq<OrderBookLevel> {
        self.levels[1]@
    }

    /// The book of a market with these bids and asks.
    pub fn new(
        symbol: String,
        bids: Vec<OrderBookLevel>,
        asks: Vec<OrderBookLevel>,
        timestamp: u128,
    ) -> (r: OrderBook)
        ensures
            r.spec_symbol() == symbol@,
            r.spec_bids() == bids@,
            r.spec_asks() == asks@,
            r.spec_timestamp() == timestamp,
    {
        OrderBook { symbol, levels: [bids, asks], timestamp }
    }

    /// The levels of the bids.
    pub fn bids(&self) -> (r: &[OrderBookLevel])
        ensures
            r@ == self.spec_bids(),
    {
        self.levels[0].as_slice()
    }

    /// The levels of the asks.
    pub fn asks(&self) -> (r: &[OrderBookLevel])
        ensures
            r@ == self.spec_asks(),
    {
        self.levels[1].as_slice()
    }
}

} // verus!

//! Orders and what they are written as.

use crate::decimal::Decimal;
use crate::json::{entries_view, lemma_object_view, Json, JsonView};
use crate::signature::{request_body, Operation, RequestError};
use crate::Client;
use vstd::prelude::*;

verus! {

/// The path on which a market order is created.
pub const CREATE_MARKET_ORDER: &'static str = "orders/create_market";

/// The path on which a limit order is created.
pub const CREATE_LIMIT_ORDER: &'static str = "orders/create";

/// The side of an order.
#[derive(Debug, Clone, Copy, PartialEq, Eq, Structural)]
pub enum Side {
    Ask,
    Bid,
}

impl Side {
    /// The side as it is written into a request.
    pub open spec fn wire(self) -> Seq<char> {
        match self {
            Side::Ask => "Ask"@,
            Side::Bid => "Bid"@,
        }
    }

    /// The side as it is written into a request.
    pub fn as_str(&self) -> (r: &'static str)
        ensures
            r@ == self.wire(),
    {
        match self {
            Side::Ask => "Ask",
            Side::Bid => "Bid",
        }
    }
}

/// For how long an order stays in force.
#[derive(Debug, Clone, Copy, PartialEq, Eq, Structural)]
pub enum Tif {
    /// Good till cancelled.
    Gtc,
    /// Immediate or cancel.
    Ioc,
    /// Post only.
    Alo,
}

impl Tif {
    /// The time in force as it is written into a request.
    pub open spec fn wire(self) -> Seq<char> {
        match self {
            Tif::Gtc => "Gtc"@,
            Tif::Ioc => "Ioc"@,
            Tif::Alo => "Alo"@,
        }
    }

    /// The time in force as it is written into a request.
    pub fn as_str(&self) -> (r: &'static str)
        ensures
            r@ == self.wire(),
    {
        match self {
            Tif::Gtc => "Gtc",
            Tif::Ioc => "Ioc",
            Tif::Alo => "Alo",
        }
    }
}

/// A market order.
#[derive(Debug)]
pub struct CreateMarketOrder {
    /// The trading pair.
    pub symbol: String,
    /// How much to trade.
    pub amount: Decimal,
    pub side: Side,
    /// The most slippage to accept, in percent: `0.5` is half a percent.
    pub slippage_percent: Decimal,
    /// Whether the order may only reduce a position.
    pub reduce_only: bool,
}

/// A limit order.
#[derive(Debug)]
pub struct CreateLimitOrder {
    /// The trading pair.
    pub symbol: String,
    pub price: Decimal,
    /// How much to trade.
    pub amount: Decimal,
    pub side: Side,
    pub tif: Tif,
    /// Whether the order may only reduce a position.
    pub reduce_only: bool,
}

impl CreateMarketOrder {
    /// The order as the payload of a request: its fields in their order, the
    /// numbers as text.
    pub open spec fn json_view(&self) -> JsonView {
        JsonView::Object(
            seq![
                ("symbol"@, JsonView::Str(self.symbol@)),
                ("amount"@, JsonView::Str(self.amount.text())),
                ("side"@, JsonView::Str(self.side.wire())),
                ("slippage_percent"@, JsonView::Str(self.slippage_percent.text())),
                ("reduce_only"@, JsonView::Bool(self.reduce_only)),
            ],
        )
    }

    /// The order as the payload of a request.
    pub fn to_json(&self) -> (r: Json)
        ensures
            r@ == self.json_view(),
    {
        let mut entries: Vec<(String, Json)> = Vec::new();
        entries.push(("symbol".to_string(), Json::Str(self.symbol.clone())));
        entries.push(("amount".to_string(), Json::Str(self.amount.to_string())));
        entries.push(("side".to_string(), Json::Str(self.side.as_str().to_string())));
        entries.push(
            ("slippage_percent".to_string(), Json::Str(self.slippage_percent.to_string())),
        );
        entries.push(("reduce_only".to_string(), Json::Bool(self.reduce_only)));
        proof {
            lemma_object_view(entries);
            assert(entries_view(entries@) =~= self.json_view()->Object_0);
        }
        Json::Object(entries)
    }
}

impl CreateLimitOrder {
    /// The order as the payload of a request: its fields in their order, the
    /// numbers as text.
    pub open spec fn json_view(&self) -> JsonView {
        JsonView::Object(
            seq![
                ("symbol"@, JsonView::Str(self.symbol@)),
                ("price"@, JsonView::Str(self.price.text())),
                ("amount"@, JsonView::Str(self.amount.text())),
                ("side"@, JsonView::Str(self.side.wire())),
                ("tif"@, JsonView::Str(self.tif.wire())),
                ("reduce_only"@, JsonView::Bool(self.reduce_only)),
            ],
        )
    }

    /// The order as the payload of a request.
    pub fn to_json(&self) -> (r: Json)
        ensures
            r@ == self.json_view(),
    {
        let mut entries: Vec<(String, Json)> = Vec::new();
        entries.push(("symbol".to_string(), Json::Str(self.symbol.clone())));
        entries.push(("price".to_string(), Json::Str(self.price.to_string())));
        entries.push(("amount".to_string(), Json::Str(self.amount.to_string())));
        entries.push(("side".to_string(), Json::Str(self.side.as_str().to_string())));
        entries.push(("tif".to_string(), Json::Str(self.tif.as_str().to_string())));
        entries.push(("reduce_only".to_string(), Json::Bool(self.reduce_only)));
        proof {
            lemma_object_view(entries);
            assert(entries_view(entries@) =~= self.json_view()->Object_0);
        }
        Json::Object(entries)
    }
}

impl Client {
    /// The signed body of the request that creates a market order, to be
    /// posted on [`CREATE_MARKET_ORDER`].
    pub fn create_market_order(&mut self, create_market_order: &CreateMarketOrder) -> (r: Result<
        Json,
        RequestError,
    >)
        ensures
            final(self)@ == old(self)@,
            exists|timestamp: u128|
                match r {
                    Ok(body) => #[trigger] request_body(
                        old(self)@,
                        Operation::CreateMarketOrder,
                        create_market_order.json_view(),
                        timestamp,
                    ) == Ok::<JsonView, RequestError>(body@),
                    Err(e) => request_body(
                        old(self)@,
                        Operation::CreateMarketOrder,
                        create_market_order.json_view(),
                        timestamp,
                    ) == Err::<JsonView, RequestError>(e),
                },
    {
        let payload = create_market_order.to_json();
        self.get_request_header(Operation::CreateMarketOrder, &payload)
    }

    /// The signed body of the request that creates a limit order, to be
    /// posted on [`CREATE_LIMIT_ORDER`].
    pub fn create_limit_order(&mut self, create_limit_order: &CreateLimitOrder) -> (r: Result<
        Json,
        RequestError,
    >)
        ensures
            final(self)@ == old(self)@,
            exists|timestamp: u128|
                match r {
                    Ok(body) => #[trigger] request_body(
                        old(self)@,
                        Operation::CreateLimitOrder,
                        create_limit_order.json_view(),
                        timestamp,
                    ) == Ok::<JsonView, RequestError>(body@),
                    Err(e) => request_body(
                        old(self)@,
                        Operation::CreateLimitOrder,
                        create_limit_order.json_view(),
                        timestamp,
                    ) == Err::<JsonView, RequestError>(e),
                },
    {
        let payload = create_limit_order.to_json();
        self.get_request_header(Operation::CreateLimitOrder, &payload)
    }
}

} // verus!

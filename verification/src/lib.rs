//! Shared trading value objects: orders, positions, trades, execution
//! reports, portfolios and the enums they share, with explicit pure
//! validation functions and a per-asset commission aggregation.
//!
//! Constructing a value never validates it; callers run the validation
//! functions when they need them.
use vstd::prelude::*;

pub mod commissions;
pub mod decimal;
pub mod validate;

pub use commissions::{aggregate_commissions_by_asset, asset_total, str_lt};
pub use decimal::{Decimal, DecimalError, MAX_SCALE};
pub use validate::{
    validate_created_before_updated, validate_gtd_deadline, validate_non_negative_quantities,
    validate_order, validate_order_prices, validate_quantity_balance, ValidationError,
};

verus! {

/// Structured instrument identity shared across layers: a venue and the
/// venue's native symbol. It is neither normalised nor validated.
#[derive(Debug, Clone, PartialEq, Eq, Hash)]
pub struct InstrumentKey {
    /// Venue or provider key (lower case, such as `binance`).
    pub exchange: String,
    /// The provider's native symbol (such as `BTCUSDT`).
    pub symbol: String,
}

/// Order identifier assigned by the venue.
pub type OrderId = String;

/// Trade identifier assigned by the venue.
pub type TradeId = String;

/// Execution report identifier.
pub type ReportId = String;

/// Position identifier.
pub type PositionId = String;

/// Portfolio identifier.
pub type PortfolioId = String;

/// Unix time in milliseconds since 1970-01-01 UTC.
pub type Timestamp = i64;

/// Side of an order or a trade.
#[non_exhaustive]
#[derive(Debug, Clone, PartialEq, Eq, Hash, Structural)]
pub enum OrderSide {
    /// Buy.
    Buy,
    /// Sell.
    Sell,
}

/// Order type.
#[non_exhaustive]
#[derive(Debug, Clone, PartialEq, Eq, Hash, Structural)]
pub enum OrderType {
    /// Fills at the available market price.
    Market,
    /// Fills at the given limit price or better.
    Limit,
    /// Becomes a market order once triggered.
    StopMarket,
    /// Becomes a limit order once triggered.
    StopLimit,
}

/// Order status.
#[non_exhaustive]
#[derive(Debug, Clone, PartialEq, Eq, Hash, Structural)]
pub enum OrderStatus {
    /// Accepted, nothing filled yet.
    New,
    /// Partly filled, some quantity remains.
    PartiallyFilled,
    /// The whole quantity is filled.
    Filled,
    /// Canceled.
    Canceled,
    /// Rejected.
    Rejected,
    /// Expired.
    Expired,
    /// Creation pending.
    PendingNew,
    /// Cancellation pending.
    PendingCancel,
    /// Replacement pending.
    PendingReplace,
}

/// Time-in-force policy of an order.
#[non_exhaustive]
#[derive(Debug, Clone, PartialEq, Eq, Hash, Structural)]
pub enum TimeInForce {
    /// Good till canceled.
    Gtc,
    /// Immediate or cancel the rest.
    Ioc,
    /// Fill everything at once or cancel everything.
    Fok,
    /// Good till the given UTC Unix millisecond deadline, which may not
    /// precede the order's creation time.
    Gtd(Timestamp),
}

/// Direction of a position.
#[non_exhaustive]
#[derive(Debug, Clone, PartialEq, Eq, Hash, Structural)]
pub enum PositionDirection {
    /// Long.
    Long,
    /// Short.
    Short,
    /// No direction, or no position.
    Flat,
}

/// Status of a position.
#[non_exhaustive]
#[derive(Debug, Clone, PartialEq, Eq, Hash, Structural)]
pub enum PositionStatus {
    /// Open.
    Open,
    /// Closed.
    Closed,
    /// Forcibly liquidated.
    Liquidated,
}

/// Execution type of an execution report.
#[non_exhaustive]
#[derive(Debug, Clone, PartialEq, Eq, Hash, Structural)]
pub enum ExecType {
    /// A new order was acknowledged.
    New,
    /// The order was canceled.
    Canceled,
    /// The order was replaced.
    Replaced,
    /// The order was rejected.
    Rejected,
    /// A fill happened.
    Trade,
    /// The order expired.
    Expired,
    /// An earlier fill was busted.
    TradeCancel,
    /// A status report that changes nothing.
    Status,
}

/// A commission charged on a fill.
#[derive(Debug, Clone, PartialEq, Eq, Hash)]
pub struct Commission {
    /// Amount charged.
    pub amount: Decimal,
    /// Asset the amount is denominated in.
    pub asset: String,
}

/// A trading order.
#[derive(Debug, Clone, PartialEq, Eq)]
pub struct Order {
    /// Venue-assigned order id.
    pub order_id: OrderId,
    /// Instrument.
    pub instrument: InstrumentKey,
    /// Buy or sell.
    pub side: OrderSide,
    /// Market, limit or stop order.
    pub order_type: OrderType,
    /// Current status.
    pub status: OrderStatus,
    /// Limit price; `None` for market orders.
    pub price: Option<Decimal>,
    /// Stop (trigger) price of stop-market and stop-limit orders.
    pub stop_price: Option<Decimal>,
    /// Ordered quantity.
    pub quantity: Decimal,
    /// Filled quantity.
    pub filled_quantity: Decimal,
    /// Quantity still open.
    pub remaining_quantity: Decimal,
    /// Average fill price, once something has filled.
    pub avg_fill_price: Option<Decimal>,
    /// Time-in-force policy.
    pub time_in_force: TimeInForce,
    /// Creation time, Unix milliseconds.
    pub created_at: Timestamp,
    /// Last update time, Unix milliseconds.
    pub updated_at: Timestamp,
    /// Client-side order id, if any.
    pub client_order_id: Option<String>,
}

/// A trading position.
#[derive(Debug, Clone, PartialEq, Eq)]
pub struct Position {
    /// Position id.
    pub position_id: PositionId,
    /// Instrument.
    pub instrument: InstrumentKey,
    /// Long, short or flat.
    pub direction: PositionDirection,
    /// Status; absent in older records.
    pub status: Option<PositionStatus>,
    /// Quantity held.
    pub quantity: Decimal,
    /// Average entry price.
    pub entry_price: Decimal,
    /// Current market price.
    pub current_price: Decimal,
    /// Unrealised profit and loss.
    pub unrealized_pnl: Decimal,
    /// Realised profit and loss.
    pub realized_pnl: Decimal,
    /// Creation time, Unix milliseconds.
    pub created_at: Timestamp,
    /// Last update time, Unix milliseconds.
    pub updated_at: Timestamp,
}

/// A matched trade.
#[derive(Debug, Clone, PartialEq, Eq)]
pub struct Trade {
    /// Trade id.
    pub trade_id: TradeId,
    /// Parent order id.
    pub order_id: OrderId,
    /// Instrument.
    pub instrument: InstrumentKey,
    /// Side.
    pub side: OrderSide,
    /// Price.
    pub price: Decimal,
    /// Quantity.
    pub quantity: Decimal,
    /// Commission, if any.
    pub commission: Option<Commission>,
    /// Execution time, Unix milliseconds.
    pub executed_at: Timestamp,
    /// Maker (`true`), taker (`false`) or unknown (`None`).
    pub is_maker: Option<bool>,
}

/// A venue's report on an order lifecycle event.
#[derive(Debug, Clone, PartialEq, Eq)]
pub struct ExecutionReport {
    /// Report id.
    pub report_id: ReportId,
    /// Order id.
    pub order_id: OrderId,
    /// What happened.
    pub exec_type: ExecType,
    /// Order status after the event.
    pub order_status: OrderStatus,
    /// Instrument.
    pub instrument: InstrumentKey,
    /// Side.
    pub side: OrderSide,
    /// Order type.
    pub order_type: OrderType,
    /// Limit price, if any.
    pub price: Option<Decimal>,
    /// Order quantity.
    pub quantity: Decimal,
    /// Price of the last fill, if any.
    pub last_filled_price: Option<Decimal>,
    /// Quantity of the last fill, if any.
    pub last_filled_quantity: Option<Decimal>,
    /// Cumulative filled quantity.
    pub cumulative_filled_quantity: Decimal,
    /// Remaining quantity.
    pub remaining_quantity: Decimal,
    /// Commission, if any.
    pub commission: Option<Commission>,
    /// Id of the last fill, if any.
    pub trade_id: Option<TradeId>,
    /// Rejection reason, if any.
    pub reject_reason: Option<String>,
    /// Event time, Unix milliseconds.
    pub occurred_at: Timestamp,
}

/// A portfolio of positions with aggregate profit and loss.
#[derive(Debug, Clone, PartialEq, Eq)]
pub struct Portfolio {
    /// Portfolio id.
    pub portfolio_id: PortfolioId,
    /// Owning account id.
    pub account_id: String,
    /// Positions held.
    pub positions: Vec<Position>,
    /// Sum of the positions' unrealised profit and loss.
    pub total_unrealized_pnl: Decimal,
    /// Sum of the positions' realised profit and loss.
    pub total_realized_pnl: Decimal,
    /// Total commission, in one asset or in the caller's main asset.
    pub total_commission: Decimal,
    /// Commissions per asset (may be empty; kept beside `total_commission`).
    pub commissions: Vec<Commission>,
    /// Number of executed trades.
    pub total_trades: u64,
    /// Last update time, Unix milliseconds.
    pub updated_at: Timestamp,
}

} // verus!

//! The mathematical model of the ledger: what buying, selling and closing do
//! to cash, position and cost totals, over unbounded integers.
//!
//! All amounts are fixed-point numbers (see the module `fixed`). The
//! executable ledger refines this model: an operation succeeds exactly when
//! the order is valid and every amount of the model's result can be stored.

use vstd::prelude::*;
use crate::error::BacktestError;
use crate::fixed::SCALE;
use crate::fixed::fits_i64;
use crate::fixed::floor_div;
use crate::fixed::scaled_mul;
use crate::fixed::lemma_div_exact;
use crate::fixed::lemma_div_monotonic;

verus! {

/// The direction of an order.
#[derive(Clone, Copy, Debug, PartialEq, Eq, Structural)]
pub enum Side {
    Buy,
    Sell,
}

/// The exposure of a ledger: none, long or short, never both.
pub enum Exposure {
    Flat,
    Long { quantity: int, entry: int },
    Short { quantity: int, entry: int },
}

/// The state of a ledger.
pub struct Ledger {
    pub cash: int,
    pub initial_balance: int,
    pub final_balance: int,
    pub commission_rate: int,
    pub slippage_rate: int,
    pub risk_fraction: int,
    pub cumulative_commission: int,
    pub cumulative_slippage: int,
    pub position: Exposure,
    pub started: bool,
}

/// The amounts of one execution.
pub struct Execution {
    /// Execution price, after slippage.
    pub price: int,
    /// Quantity executed.
    pub quantity: int,
    /// Execution price times quantity.
    pub notional: int,
    /// Commission charged on the notional value.
    pub commission: int,
    /// Slippage cost charged on the notional value.
    pub slippage: int,
}

/// What a ledger reports once a run is complete.
pub struct Report {
    pub net_pnl: int,
    pub return_pct: int,
    pub cumulative_commission: int,
    pub cumulative_slippage: int,
}

impl Exposure {
    /// While not flat, quantity and entry price are strictly positive.
    pub open spec fn wf(self) -> bool {
        match self {
            Exposure::Flat => true,
            Exposure::Long { quantity, entry } => quantity > 0 && entry > 0,
            Exposure::Short { quantity, entry } => quantity > 0 && entry > 0,
        }
    }

    /// Outstanding quantity; zero when flat.
    pub open spec fn quantity(self) -> int {
        match self {
            Exposure::Flat => 0,
            Exposure::Long { quantity, entry } => quantity,
            Exposure::Short { quantity, entry } => quantity,
        }
    }

    /// Quantity and entry price can be stored.
    pub open spec fn fits(self) -> bool {
        match self {
            Exposure::Flat => true,
            Exposure::Long { quantity, entry } => fits_i64(quantity) && fits_i64(entry),
            Exposure::Short { quantity, entry } => fits_i64(quantity) && fits_i64(entry),
        }
    }

    /// The side of the order that reduces this exposure.
    pub open spec fn closing_side(self) -> Side {
        match self {
            Exposure::Short { quantity, entry } => Side::Buy,
            _ => Side::Sell,
        }
    }

    /// This exposure with another quantity outstanding.
    pub open spec fn with_quantity(self, quantity: int) -> Exposure {
        match self {
            Exposure::Flat => Exposure::Flat,
            Exposure::Long { quantity: q, entry } => Exposure::Long { quantity, entry },
            Exposure::Short { quantity: q, entry } => Exposure::Short { quantity, entry },
        }
    }
}

impl Ledger {
    /// Every amount of the state can be stored.
    pub open spec fn fits(self) -> bool {
        &&& fits_i64(self.cash)
        &&& fits_i64(self.initial_balance)
        &&& fits_i64(self.final_balance)
        &&& fits_i64(self.commission_rate)
        &&& fits_i64(self.slippage_rate)
        &&& fits_i64(self.risk_fraction)
        &&& fits_i64(self.cumulative_commission)
        &&& fits_i64(self.cumulative_slippage)
        &&& self.position.fits()
    }
}

impl Execution {
    /// Every amount of the execution can be stored.
    pub open spec fn fits(self) -> bool {
        &&& fits_i64(self.price)
        &&& fits_i64(self.quantity)
        &&& fits_i64(self.notional)
        &&& fits_i64(self.commission)
        &&& fits_i64(self.slippage)
    }
}

/// The price at which an order executes: slippage raises what a buyer pays
/// and lowers what a seller receives.
pub open spec fn adjusted_price(side: Side, price: int, slippage_rate: int) -> int {
    match side {
        Side::Buy => scaled_mul(price, SCALE + slippage_rate),
        Side::Sell => scaled_mul(price, SCALE - slippage_rate),
    }
}

/// The amounts of executing `quantity` at `price`. Commission and slippage
/// cost are both charged on the notional value at the adjusted price.
pub open spec fn execution(l: Ledger, side: Side, price: int, quantity: int) -> Execution {
    let adjusted = adjusted_price(side, price, l.slippage_rate);
    let notional = scaled_mul(adjusted, quantity);
    Execution {
        price: adjusted,
        quantity,
        notional,
        commission: scaled_mul(l.commission_rate, notional),
        slippage: scaled_mul(l.slippage_rate, notional),
    }
}

/// The effect on cash of trading a principal amount: a buyer pays it, a
/// seller receives it.
pub open spec fn principal(side: Side, amount: int) -> int {
    match side {
        Side::Buy => -amount,
        Side::Sell => amount,
    }
}

/// The exposure that an order opens from flat.
pub open spec fn opened(side: Side, quantity: int, entry: int) -> Exposure {
    match side {
        Side::Buy => Exposure::Long { quantity, entry },
        Side::Sell => Exposure::Short { quantity, entry },
    }
}

/// Whether an order on `side` adds to the exposure `p`.
pub open spec fn adds_to(p: Exposure, side: Side) -> bool {
    match (p, side) {
        (Exposure::Long { quantity, entry }, Side::Buy) => true,
        (Exposure::Short { quantity, entry }, Side::Sell) => true,
        _ => false,
    }
}

/// Entry price after adding `quantity` at `price` to `old_quantity` held at
/// `old_entry`: the average of both cost bases, weighted by quantity.
pub open spec fn average_entry(old_entry: int, old_quantity: int, price: int, quantity: int) -> int {
    (old_entry * old_quantity + price * quantity) / (old_quantity + quantity)
}

/// Profit realized by an order on `side` that covers `covered` units held at
/// `entry` on the opposite side.
pub open spec fn realized_pnl(side: Side, entry: int, price: int, covered: int) -> int {
    match side {
        Side::Buy => scaled_mul(entry - price, covered),
        Side::Sell => scaled_mul(price - entry, covered),
    }
}

/// The smaller of two integers.
pub open spec fn min_int(a: int, b: int) -> int {
    if a <= b {
        a
    } else {
        b
    }
}

/// The exposure after an order on `side` for `quantity` executes at `price`.
pub open spec fn traded_position(p: Exposure, side: Side, price: int, quantity: int) -> Exposure {
    if p is Flat {
        opened(side, quantity, price)
    } else if adds_to(p, side) {
        match p {
            Exposure::Long { quantity: q, entry } => Exposure::Long {
                quantity: q + quantity,
                entry: average_entry(entry, q, price, quantity),
            },
            Exposure::Short { quantity: q, entry } => Exposure::Short {
                quantity: q + quantity,
                entry: average_entry(entry, q, price, quantity),
            },
            Exposure::Flat => p,
        }
    } else if quantity < p.quantity() {
        p.with_quantity(p.quantity() - quantity)
    } else if quantity == p.quantity() {
        Exposure::Flat
    } else {
        opened(side, quantity - p.quantity(), price)
    }
}

/// The change of cash, before costs, when an order on `side` for `quantity`
/// executes at `price` against the exposure `p`.
///
/// Opening or adding trades the whole principal. Against an opposite
/// exposure the order realizes profit on the covered part and trades the
/// principal of the excess, which opens the new exposure.
pub open spec fn traded_cash(p: Exposure, side: Side, price: int, quantity: int) -> int {
    if p is Flat || adds_to(p, side) {
        principal(side, scaled_mul(price, quantity))
    } else {
        let covered = min_int(quantity, p.quantity());
        let entry = match p {
            Exposure::Long { quantity: q, entry } => entry,
            Exposure::Short { quantity: q, entry } => entry,
            Exposure::Flat => 0,
        };
        realized_pnl(side, entry, price, covered) + principal(
            side,
            scaled_mul(price, quantity - covered),
        )
    }
}

/// The ledger after an order on `side` for `quantity` at `price`.
pub open spec fn trade(l: Ledger, side: Side, price: int, quantity: int) -> Ledger {
    let e = execution(l, side, price, quantity);
    Ledger {
        cash: l.cash + traded_cash(l.position, side, e.price, quantity) - e.commission - e.slippage,
        cumulative_commission: l.cumulative_commission + e.commission,
        cumulative_slippage: l.cumulative_slippage + e.slippage,
        position: traded_position(l.position, side, e.price, quantity),
        started: true,
        ..l
    }
}

/// Price and quantity are positive, and so is the price after slippage.
pub open spec fn order_valid(l: Ledger, side: Side, price: int, quantity: int) -> bool {
    price > 0 && quantity > 0 && adjusted_price(side, price, l.slippage_rate) > 0
}

/// What an order on `side` does: the new ledger, or the reason for refusal.
pub open spec fn trade_outcome(l: Ledger, side: Side, price: int, quantity: int) -> Result<
    Ledger,
    BacktestError,
> {
    if !order_valid(l, side, price, quantity) {
        Err(BacktestError::InvalidOrder)
    } else if !(execution(l, side, price, quantity).fits() && trade(l, side, price, quantity).fits()) {
        Err(BacktestError::Overflow)
    } else {
        Ok(trade(l, side, price, quantity))
    }
}

/// The quantity that a close for `quantity` executes: never more than is
/// outstanding.
pub open spec fn closed_quantity(p: Exposure, quantity: int) -> int {
    min_int(quantity, p.quantity())
}

/// The amounts of closing up to `quantity` at `price`.
pub open spec fn close_execution(l: Ledger, price: int, quantity: int) -> Execution {
    execution(l, l.position.closing_side(), price, closed_quantity(l.position, quantity))
}

/// The ledger after closing up to `quantity` at `price`. The proceeds of
/// selling out of a long are credited, the cost of buying back a short is
/// debited, and costs are charged in the same update.
pub open spec fn close(l: Ledger, price: int, quantity: int) -> Ledger {
    if l.position is Flat {
        l
    } else {
        let e = close_execution(l, price, quantity);
        let rest = l.position.quantity() - e.quantity;
        Ledger {
            cash: l.cash + principal(l.position.closing_side(), e.notional) - e.commission
                - e.slippage,
            cumulative_commission: l.cumulative_commission + e.commission,
            cumulative_slippage: l.cumulative_slippage + e.slippage,
            position: if rest == 0 {
                Exposure::Flat
            } else {
                l.position.with_quantity(rest)
            },
            started: true,
            ..l
        }
    }
}

/// What a close does: the new ledger, or the reason for refusal.
pub open spec fn close_outcome(l: Ledger, price: int, quantity: int) -> Result<
    Ledger,
    BacktestError,
> {
    if price <= 0 || quantity <= 0 {
        Err(BacktestError::InvalidOrder)
    } else if l.position is Flat {
        Ok(l)
    } else if close_execution(l, price, quantity).price <= 0 {
        Err(BacktestError::InvalidOrder)
    } else if !(close_execution(l, price, quantity).fits() && close(l, price, quantity).fits()) {
        Err(BacktestError::Overflow)
    } else {
        Ok(close(l, price, quantity))
    }
}

/// What completing a run does, given the close of the last bar (`None` for an
/// empty series): any open position is closed in full at that price, and the
/// final balance becomes the cash balance.
pub open spec fn run_outcome(l: Ledger, last_close: Option<int>) -> Result<Ledger, BacktestError> {
    match last_close {
        None => Err(BacktestError::NoData),
        Some(price) => if l.position is Flat {
            Ok(Ledger { final_balance: l.cash, ..l })
        } else {
            match close_outcome(l, price, l.position.quantity()) {
                Ok(c) => Ok(Ledger { final_balance: c.cash, ..c }),
                Err(e) => Err(e),
            }
        },
    }
}

/// Net profit, and return as a percentage of the initial balance.
pub open spec fn report(l: Ledger) -> Report {
    let net = l.final_balance - l.initial_balance;
    Report {
        net_pnl: net,
        return_pct: floor_div(net * 100 * SCALE, l.initial_balance),
        cumulative_commission: l.cumulative_commission,
        cumulative_slippage: l.cumulative_slippage,
    }
}

/// The report of a ledger, or the reason why it has none.
pub open spec fn stats_outcome(l: Ledger) -> Result<Report, BacktestError> {
    if l.initial_balance == 0 {
        Err(BacktestError::DivisionByZero)
    } else if !(fits_i64(report(l).net_pnl) && fits_i64(report(l).return_pct)) {
        Err(BacktestError::Overflow)
    } else {
        Ok(report(l))
    }
}

/// The weighted average of two positive entry prices is positive.
pub proof fn lemma_average_entry_positive(old_entry: int, old_quantity: int, price: int, quantity: int)
    requires
        old_entry > 0,
        old_quantity > 0,
        price > 0,
        quantity > 0,
    ensures
        average_entry(old_entry, old_quantity, price, quantity) > 0,
{
    let total = old_quantity + quantity;
    assert(old_entry * old_quantity + price * quantity >= 1 * total) by (nonlinear_arith)
        requires
            old_entry >= 1,
            old_quantity > 0,
            price >= 1,
            quantity > 0,
            total == old_quantity + quantity,
    ;
    lemma_div_monotonic(1 * total, old_entry * old_quantity + price * quantity, total);
    lemma_div_exact(1, total);
}

/// A valid order keeps the position well-formed: after it the ledger is
/// flat, long or short, with a positive quantity and entry price unless flat.
pub proof fn lemma_trade_keeps_position(l: Ledger, side: Side, price: int, quantity: int)
    requires
        l.position.wf(),
        order_valid(l, side, price, quantity),
    ensures
        trade(l, side, price, quantity).position.wf(),
{
    let e = execution(l, side, price, quantity);
    match l.position {
        Exposure::Flat => {},
        Exposure::Long { quantity: q, entry } => {
            if side == Side::Buy {
                lemma_average_entry_positive(entry, q, e.price, quantity);
            }
        },
        Exposure::Short { quantity: q, entry } => {
            if side == Side::Sell {
                lemma_average_entry_positive(entry, q, e.price, quantity);
            }
        },
    }
}

/// A close keeps the position well-formed, and never raises the quantity
/// outstanding.
pub proof fn lemma_close_keeps_position(l: Ledger, price: int, quantity: int)
    requires
        l.position.wf(),
        quantity > 0,
    ensures
        close(l, price, quantity).position.wf(),
        0 <= close(l, price, quantity).position.quantity() <= l.position.quantity(),
        quantity >= l.position.quantity() ==> close(l, price, quantity).position is Flat,
{
}

/// An order given to a ledger.
pub enum Order {
    Buy { price: int, quantity: int },
    Sell { price: int, quantity: int },
    Close { price: int, quantity: int },
}

/// The ledger after an order: what the order made of it, or the ledger as
/// it was where the order was refused.
pub open spec fn after(l: Ledger, order: Order) -> Ledger {
    match order {
        Order::Buy { price, quantity } => match trade_outcome(l, Side::Buy, price, quantity) {
            Ok(next) => next,
            Err(_) => l,
        },
        Order::Sell { price, quantity } => match trade_outcome(l, Side::Sell, price, quantity) {
            Ok(next) => next,
            Err(_) => l,
        },
        Order::Close { price, quantity } => match close_outcome(l, price, quantity) {
            Ok(next) => next,
            Err(_) => l,
        },
    }
}

/// The ledger after a sequence of orders, given one after the other.
pub open spec fn after_all(l: Ledger, orders: Seq<Order>) -> Ledger
    decreases orders.len(),
{
    if orders.len() == 0 {
        l
    } else {
        after(after_all(l, orders.drop_last()), orders.last())
    }
}

/// After any sequence of buy, sell and close orders the position is
/// well-formed: flat, long or short, never two of them, with a positive
/// quantity and entry price unless flat.
pub proof fn lemma_position_invariant(l: Ledger, orders: Seq<Order>)
    requires
        l.position.wf(),
    ensures
        after_all(l, orders).position.wf(),
        after_all(l, orders).position.quantity() >= 0,
    decreases orders.len(),
{
    if orders.len() > 0 {
        let before = after_all(l, orders.drop_last());
        lemma_position_invariant(l, orders.drop_last());
        match orders.last() {
            Order::Buy { price, quantity } => {
                if trade_outcome(before, Side::Buy, price, quantity) is Ok {
                    lemma_trade_keeps_position(before, Side::Buy, price, quantity);
                }
            },
            Order::Sell { price, quantity } => {
                if trade_outcome(before, Side::Sell, price, quantity) is Ok {
                    lemma_trade_keeps_position(before, Side::Sell, price, quantity);
                }
            },
            Order::Close { price, quantity } => {},
        }
    }
}

/// Buying `quantity` and closing `quantity` at once, at one price and with no
/// commission or slippage, returns the cash balance to what it was, for a
/// ledger that is flat or long: in the model, and whenever both orders are
/// accepted.
pub proof fn lemma_buy_close_round_trip(l: Ledger, price: int, quantity: int)
    requires
        l.position.wf(),
        !(l.position is Short),
        l.commission_rate == 0,
        l.slippage_rate == 0,
        price > 0,
        quantity > 0,
    ensures
        order_valid(l, Side::Buy, price, quantity),
        close(trade(l, Side::Buy, price, quantity), price, quantity).cash == l.cash,
        l.position is Flat ==> close(trade(l, Side::Buy, price, quantity), price, quantity).position
            is Flat,
        forall|bought: Ledger, closed: Ledger|
            trade_outcome(l, Side::Buy, price, quantity) == Ok::<Ledger, BacktestError>(bought)
                && close_outcome(bought, price, quantity) == Ok::<Ledger, BacktestError>(closed)
                ==> closed.cash == l.cash,
{
    let bought = trade(l, Side::Buy, price, quantity);
    let e = execution(l, Side::Buy, price, quantity);
    let c = close_execution(bought, price, quantity);
}

/// The report of a ledger depends on the ledger alone: asking twice, with no
/// trade in between, gives the same answer.
pub proof fn lemma_stats_idempotent(l: Ledger, first: Result<Report, BacktestError>, second: Result<
    Report,
    BacktestError,
>)
    requires
        first == stats_outcome(l),
        second == stats_outcome(l),
    ensures
        first == second,
{
}

} // verus!

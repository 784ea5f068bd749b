//! The executable ledger: cash, position and cost totals of one simulation,
//! changed only by buying, selling and closing.

use vstd::prelude::*;
use vstd::hash_map::StringHashMap;
use crate::data::DataFeed;
use crate::error::BacktestError;
use crate::fixed::SCALE;
use crate::fixed::div_floor;
use crate::fixed::mul_scaled;
use crate::fixed::narrow;
use crate::ledger::Execution;
use crate::ledger::Exposure;
use crate::ledger::Ledger;
use crate::ledger::Report;
use crate::ledger::Side;
use crate::ledger::adjusted_price;
use crate::ledger::close_execution;
use crate::ledger::close_outcome;
use crate::ledger::execution;
use crate::ledger::lemma_average_entry_positive;
use crate::ledger::run_outcome;
use crate::ledger::stats_outcome;
use crate::ledger::trade_outcome;

verus! {

/// The exposure of the ledger. Exactly one of the three holds at any time.
#[derive(Clone, Copy, Debug, PartialEq, Eq, Structural)]
pub enum Position {
    Flat,
    Long { quantity: i64, average_entry_price: i64 },
    Short { quantity: i64, average_entry_price: i64 },
}

/// What one order executed: the amounts to report for it.
#[derive(Clone, Copy, Debug, PartialEq, Eq, Structural)]
pub struct Fill {
    pub side: Side,
    pub timestamp: i64,
    /// Execution price, after slippage.
    pub price: i64,
    /// Quantity executed.
    pub quantity: i64,
    pub commission: i64,
    pub slippage: i64,
}

/// The results of a completed run.
#[derive(Clone, Copy, Debug, PartialEq, Eq, Structural)]
pub struct Stats {
    /// Final balance less initial balance.
    pub net_pnl: i64,
    /// Net profit as a percentage of the initial balance.
    pub return_pct: i64,
    pub cumulative_commission: i64,
    pub cumulative_slippage: i64,
}

/// The value of a named parameter.
#[derive(Clone, Copy, Debug, PartialEq, Eq, Structural)]
pub enum PramVal {
    /// A fixed-point number.
    Decimal(i64),
    Int(i32),
    Bool(bool),
}

/// Named parameters of a simulation.
pub struct Prams {
    pub data: StringHashMap<PramVal>,
}

/// The ledger of one simulation, with the bar series it runs over.
pub struct Backtest {
    pub ohlcv: DataFeed,
    pub cash_balance: i64,
    pub initial_balance: i64,
    pub final_balance: i64,
    pub commission_rate: i64,
    pub slippage_rate: i64,
    pub risk_fraction: i64,
    pub cumulative_commission: i64,
    pub cumulative_slippage: i64,
    pub position: Position,
    /// Whether an order has executed.
    pub started: bool,
}

/// Something that advances step by step.
pub trait IteratorLike {
    fn next(&mut self);
}

/// The cash balance of a ledger that has not been configured: 100000.
pub const DEFAULT_BALANCE: i64 = 100_000_000_000;

/// The fixed-point number that `params` gives for `key`, or `current` where
/// it gives none.
pub open spec fn param_or(params: Map<Seq<char>, PramVal>, key: Seq<char>, current: i64) -> i64 {
    if params.contains_key(key) {
        match params[key] {
            PramVal::Decimal(v) => v,
            _ => current,
        }
    } else {
        current
    }
}

impl Prams {
    /// No parameters.
    pub fn new() -> (p: Prams)
        ensures
            p.data@ == Map::<Seq<char>, PramVal>::empty(),
    {
        Prams { data: StringHashMap::new() }
    }

    /// Gives `key` the value `value`.
    pub fn insert(&mut self, key: String, value: PramVal)
        ensures
            final(self).data@ == old(self).data@.insert(key@, value),
    {
        self.data.insert(key, value);
    }

    /// The fixed-point number given for `key`, or `current` where none is.
    pub fn decimal_or(&self, key: &str, current: i64) -> (v: i64)
        ensures
            v == param_or(self.data@, key@, current),
    {
        match self.data.get(key) {
            Some(PramVal::Decimal(v)) => *v,
            _ => current,
        }
    }
}

impl View for Position {
    type V = Exposure;

    open spec fn view(&self) -> Exposure {
        match *self {
            Position::Flat => Exposure::Flat,
            Position::Long { quantity, average_entry_price } => Exposure::Long {
                quantity: quantity as int,
                entry: average_entry_price as int,
            },
            Position::Short { quantity, average_entry_price } => Exposure::Short {
                quantity: quantity as int,
                entry: average_entry_price as int,
            },
        }
    }
}

impl Position {
    /// While not flat, quantity and entry price are strictly positive.
    pub open spec fn wf(&self) -> bool {
        self@.wf()
    }

    /// Tests the invariant of the position.
    pub fn is_well_formed(&self) -> (ok: bool)
        ensures
            ok == self.wf(),
    {
        match *self {
            Position::Flat => true,
            Position::Long { quantity, average_entry_price } => quantity > 0
                && average_entry_price > 0,
            Position::Short { quantity, average_entry_price } => quantity > 0
                && average_entry_price > 0,
        }
    }

    /// Whether a position is open.
    pub fn is_open(&self) -> (open: bool)
        ensures
            open == !(self@ is Flat),
    {
        match *self {
            Position::Flat => false,
            _ => true,
        }
    }

    /// Outstanding quantity; zero when flat.
    pub fn quantity(&self) -> (q: i64)
        ensures
            q == self@.quantity(),
    {
        match *self {
            Position::Flat => 0,
            Position::Long { quantity, average_entry_price } => quantity,
            Position::Short { quantity, average_entry_price } => quantity,
        }
    }

    /// The side held, with its quantity and entry price.
    fn held(&self) -> (r: Option<(Side, i64, i64)>)
        ensures
            match r {
                None => self@ is Flat,
                Some((side, quantity, entry)) => self@ == crate::ledger::opened(
                    side,
                    quantity as int,
                    entry as int,
                ),
            },
    {
        match *self {
            Position::Flat => None,
            Position::Long { quantity, average_entry_price } => Some(
                (Side::Buy, quantity, average_entry_price),
            ),
            Position::Short { quantity, average_entry_price } => Some(
                (Side::Sell, quantity, average_entry_price),
            ),
        }
    }

    /// The position that an order on `side` opens.
    pub fn opened(side: Side, quantity: i64, entry: i64) -> (p: Position)
        ensures
            p@ == crate::ledger::opened(side, quantity as int, entry as int),
    {
        match side {
            Side::Buy => Position::Long { quantity, average_entry_price: entry },
            Side::Sell => Position::Short { quantity, average_entry_price: entry },
        }
    }
}

impl Side {
    /// The other side.
    pub fn opposite(self) -> (r: Side)
        ensures
            r == match self {
                Side::Buy => Side::Sell,
                Side::Sell => Side::Buy,
            },
    {
        match self {
            Side::Buy => Side::Sell,
            Side::Sell => Side::Buy,
        }
    }
}

impl Fill {
    /// The fill reports the amounts of `e`, executed on `side` at `timestamp`.
    pub open spec fn reports(self, side: Side, timestamp: i64, e: Execution) -> bool {
        &&& self.side == side
        &&& self.timestamp == timestamp
        &&& self.price == e.price
        &&& self.quantity == e.quantity
        &&& self.commission == e.commission
        &&& self.slippage == e.slippage
    }
}

impl View for Stats {
    type V = Report;

    open spec fn view(&self) -> Report {
        Report {
            net_pnl: self.net_pnl as int,
            return_pct: self.return_pct as int,
            cumulative_commission: self.cumulative_commission as int,
            cumulative_slippage: self.cumulative_slippage as int,
        }
    }
}

impl View for Backtest {
    type V = Ledger;

    open spec fn view(&self) -> Ledger {
        Ledger {
            cash: self.cash_balance as int,
            initial_balance: self.initial_balance as int,
            final_balance: self.final_balance as int,
            commission_rate: self.commission_rate as int,
            slippage_rate: self.slippage_rate as int,
            risk_fraction: self.risk_fraction as int,
            cumulative_commission: self.cumulative_commission as int,
            cumulative_slippage: self.cumulative_slippage as int,
            position: self.position@,
            started: self.started,
        }
    }
}

/// The effect on cash of trading a principal amount.
fn signed_principal(side: Side, amount: i128) -> (r: i128)
    requires
        amount != i128::MIN,
    ensures
        r == crate::ledger::principal(side, amount as int),
{
    match side {
        Side::Buy => -amount,
        Side::Sell => amount,
    }
}

impl Backtest {
    /// The position is well-formed and so is the bar series.
    pub open spec fn wf(&self) -> bool {
        self.position.wf() && self.ohlcv.wf()
    }

    /// Tests the invariant of the ledger.
    pub fn is_well_formed(&self) -> (ok: bool)
        ensures
            ok == self.wf(),
    {
        self.position.is_well_formed() && self.ohlcv.is_well_formed()
    }

    /// The state of a new ledger: flat, with the default cash balance, no
    /// initial balance recorded and all rates zero.
    pub open spec fn new_ledger() -> Ledger {
        Ledger {
            cash: DEFAULT_BALANCE as int,
            initial_balance: 0,
            final_balance: 0,
            commission_rate: 0,
            slippage_rate: 0,
            risk_fraction: 0,
            cumulative_commission: 0,
            cumulative_slippage: 0,
            position: Exposure::Flat,
            started: false,
        }
    }

    /// This ledger with the named parameters `balance`, `commission`,
    /// `slippage` and `risk_fraction` applied, each where `params` gives it a
    /// fixed-point number.
    pub open spec fn with_params(self, params: Map<Seq<char>, PramVal>) -> Backtest {
        Backtest {
            cash_balance: param_or(params, "balance"@, self.cash_balance),
            initial_balance: param_or(params, "balance"@, self.initial_balance),
            commission_rate: param_or(params, "commission"@, self.commission_rate),
            slippage_rate: param_or(params, "slippage"@, self.slippage_rate),
            risk_fraction: param_or(params, "risk_fraction"@, self.risk_fraction),
            ..self
        }
    }

    /// A new ledger over `data`.
    pub fn new(data: DataFeed) -> (b: Self)
        ensures
            b.ohlcv == data,
            b.position.wf(),
            b@ == Backtest::new_ledger(),
    {
        Backtest {
            ohlcv: data,
            cash_balance: DEFAULT_BALANCE,
            initial_balance: 0,
            final_balance: 0,
            commission_rate: 0,
            slippage_rate: 0,
            risk_fraction: 0,
            cumulative_commission: 0,
            cumulative_slippage: 0,
            position: Position::Flat,
            started: false,
        }
    }

    /// Sets the starting state. Refused once an order has executed.
    pub fn configure(
        &mut self,
        initial_balance: i64,
        commission_rate: i64,
        slippage_rate: i64,
        risk_fraction: i64,
    ) -> (r: Result<(), BacktestError>)
        ensures
            r is Ok <==> !old(self).started,
            r is Err ==> r == Err::<(), BacktestError>(BacktestError::ConfigurationError)
                && *final(self) == *old(self),
            r is Ok ==> *final(self) == (Backtest {
                cash_balance: initial_balance,
                initial_balance,
                commission_rate,
                slippage_rate,
                risk_fraction,
                ..*old(self)
            }),
    {
        if self.started {
            return Err(BacktestError::ConfigurationError);
        }
        self.cash_balance = initial_balance;
        self.initial_balance = initial_balance;
        self.commission_rate = commission_rate;
        self.slippage_rate = slippage_rate;
        self.risk_fraction = risk_fraction;
        Ok(())
    }

    /// Sets cash balance and initial balance. Refused once an order has
    /// executed.
    pub fn set_balance(&mut self, cash: i64) -> (r: Result<(), BacktestError>)
        ensures
            r is Ok <==> !old(self).started,
            r is Err ==> r == Err::<(), BacktestError>(BacktestError::ConfigurationError)
                && *final(self) == *old(self),
            r is Ok ==> *final(self) == (Backtest {
                cash_balance: cash,
                initial_balance: cash,
                ..*old(self)
            }),
    {
        if self.started {
            return Err(BacktestError::ConfigurationError);
        }
        self.cash_balance = cash;
        self.initial_balance = cash;
        Ok(())
    }

    /// Sets the commission rate. Refused once an order has executed.
    pub fn set_comission(&mut self, commission: i64) -> (r: Result<(), BacktestError>)
        ensures
            r is Ok <==> !old(self).started,
            r is Err ==> r == Err::<(), BacktestError>(BacktestError::ConfigurationError)
                && *final(self) == *old(self),
            r is Ok ==> *final(self) == (Backtest { commission_rate: commission, ..*old(self) }),
    {
        if self.started {
            return Err(BacktestError::ConfigurationError);
        }
        self.commission_rate = commission;
        Ok(())
    }

    /// Sets the slippage rate. Refused once an order has executed.
    pub fn set_slippage(&mut self, slippage: i64) -> (r: Result<(), BacktestError>)
        ensures
            r is Ok <==> !old(self).started,
            r is Err ==> r == Err::<(), BacktestError>(BacktestError::ConfigurationError)
                && *final(self) == *old(self),
            r is Ok ==> *final(self) == (Backtest { slippage_rate: slippage, ..*old(self) }),
    {
        if self.started {
            return Err(BacktestError::ConfigurationError);
        }
        self.slippage_rate = slippage;
        Ok(())
    }

    /// Sets the fraction of cash that an order risks. Refused once an order
    /// has executed.
    pub fn set_sizer(&mut self, sizer: i64) -> (r: Result<(), BacktestError>)
        ensures
            r is Ok <==> !old(self).started,
            r is Err ==> r == Err::<(), BacktestError>(BacktestError::ConfigurationError)
                && *final(self) == *old(self),
            r is Ok ==> *final(self) == (Backtest { risk_fraction: sizer, ..*old(self) }),
    {
        if self.started {
            return Err(BacktestError::ConfigurationError);
        }
        self.risk_fraction = sizer;
        Ok(())
    }

    /// Applies the named parameters `balance`, `commission`, `slippage` and
    /// `risk_fraction`, each where `prams` gives it a fixed-point number.
    /// Other names and other kinds of value are ignored. Refused once an
    /// order has executed.
    pub fn set_params(&mut self, prams: Prams) -> (r: Result<(), BacktestError>)
        ensures
            r is Ok <==> !old(self).started,
            r is Err ==> r == Err::<(), BacktestError>(BacktestError::ConfigurationError)
                && *final(self) == *old(self),
            r is Ok ==> *final(self) == old(self).with_params(prams.data@),
    {
        if self.started {
            return Err(BacktestError::ConfigurationError);
        }
        self.cash_balance = prams.decimal_or("balance", self.cash_balance);
        self.initial_balance = prams.decimal_or("balance", self.initial_balance);
        self.commission_rate = prams.decimal_or("commission", self.commission_rate);
        self.slippage_rate = prams.decimal_or("slippage", self.slippage_rate);
        self.risk_fraction = prams.decimal_or("risk_fraction", self.risk_fraction);
        Ok(())
    }

    /// The price at which an order on `side` executes.
    fn adjust(&self, side: Side, price: i64) -> (r: i128)
        ensures
            r == adjusted_price(side, price as int, self.slippage_rate as int),
            -0x1000_0000_0000_0000_0000_0000_0000 <= r <= 0x1000_0000_0000_0000_0000_0000_0000,
    {
        let factor: i128 = match side {
            Side::Buy => SCALE as i128 + self.slippage_rate as i128,
            Side::Sell => SCALE as i128 - self.slippage_rate as i128,
        };
        assert(-0x8000_0000_0000_0000_0000_0000_0000_0000 < price * factor
            < 0x8000_0000_0000_0000_0000_0000_0000_0000) by (nonlinear_arith)
            requires
                -0x8000_0000_0000_0000 <= price <= 0x7fff_ffff_ffff_ffff,
                -0x8000_0000_0000_0000 - 1_000_000 <= factor <= 0x8000_0000_0000_0000 + 1_000_000,
        ;
        let product: i128 = price as i128 * factor;
        div_floor(product, SCALE as i128)
    }

    /// The amounts of executing `quantity` on `side` at `price`.
    fn execute(&self, side: Side, timestamp: i64, price: i64, quantity: i64) -> (r: Result<
        (Fill, i64),
        BacktestError,
    >)
        ensures
            match r {
                Ok((fill, notional)) => {
                    &&& execution(self@, side, price as int, quantity as int).price > 0
                    &&& execution(self@, side, price as int, quantity as int).fits()
                    &&& fill.reports(
                        side,
                        timestamp,
                        execution(self@, side, price as int, quantity as int),
                    )
                    &&& notional == execution(self@, side, price as int, quantity as int).notional
                },
                Err(e) => if execution(self@, side, price as int, quantity as int).price <= 0 {
                    e == BacktestError::InvalidOrder
                } else {
                    e == BacktestError::Overflow && !execution(
                        self@,
                        side,
                        price as int,
                        quantity as int,
                    ).fits()
                },
            },
    {
        let adjusted = self.adjust(side, price);
        if adjusted <= 0 {
            return Err(BacktestError::InvalidOrder);
        }
        let adjusted = match narrow(adjusted) {
            Some(v) => v,
            None => {
                return Err(BacktestError::Overflow);
            },
        };
        let notional = match narrow(mul_scaled(adjusted, quantity)) {
            Some(v) => v,
            None => {
                return Err(BacktestError::Overflow);
            },
        };
        let commission = match narrow(mul_scaled(self.commission_rate, notional)) {
            Some(v) => v,
            None => {
                return Err(BacktestError::Overflow);
            },
        };
        let slippage = match narrow(mul_scaled(self.slippage_rate, notional)) {
            Some(v) => v,
            None => {
                return Err(BacktestError::Overflow);
            },
        };
        Ok((Fill { side, timestamp, price: adjusted, quantity, commission, slippage }, notional))
    }

    /// Executes an order on `side`.
    fn trade(&mut self, side: Side, timestamp: i64, price: i64, quantity: i64) -> (r: Result<
        Fill,
        BacktestError,
    >)
        requires
            old(self).position.wf(),
        ensures
            final(self).position.wf(),
            final(self).ohlcv == old(self).ohlcv,
            match trade_outcome(old(self)@, side, price as int, quantity as int) {
                Ok(l) => {
                    &&& final(self)@ == l
                    &&& r is Ok
                    &&& r->Ok_0.reports(
                        side,
                        timestamp,
                        execution(old(self)@, side, price as int, quantity as int),
                    )
                },
                Err(e) => r == Err::<Fill, BacktestError>(e) && *final(self) == *old(self),
            },
    {
        if price <= 0 || quantity <= 0 {
            return Err(BacktestError::InvalidOrder);
        }
        let (fill, notional) = match self.execute(side, timestamp, price, quantity) {
            Ok(x) => x,
            Err(e) => {
                return Err(e);
            },
        };
        let position: Position;
        let delta: i128;
        match self.position.held() {
            None => {
                position = Position::opened(side, quantity, fill.price);
                delta = signed_principal(side, notional as i128);
            },
            Some((held, outstanding, entry)) => {
                if held == side {
                    let total = match outstanding.checked_add(quantity) {
                        Some(t) => t,
                        None => {
                            return Err(BacktestError::Overflow);
                        },
                    };
                    assert(0 < entry * outstanding <= 0x4000_0000_0000_0000_0000_0000_0000_0000
                        && 0 < fill.price * quantity
                        <= 0x4000_0000_0000_0000_0000_0000_0000_0000) by (nonlinear_arith)
                        requires
                            0 < entry <= 0x7fff_ffff_ffff_ffff,
                            0 < outstanding <= 0x7fff_ffff_ffff_ffff,
                            0 < fill.price <= 0x7fff_ffff_ffff_ffff,
                            0 < quantity <= 0x7fff_ffff_ffff_ffff,
                    ;
                    let cost: i128 = entry as i128 * outstanding as i128 + fill.price as i128
                        * quantity as i128;
                    let average = match narrow(div_floor(cost, total as i128)) {
                        Some(v) => v,
                        None => {
                            return Err(BacktestError::Overflow);
                        },
                    };
                    proof {
                        lemma_average_entry_positive(
                            entry as int,
                            outstanding as int,
                            fill.price as int,
                            quantity as int,
                        );
                    }
                    position = Position::opened(held, total, average);
                    delta = signed_principal(side, notional as i128);
                } else {
                    let covered = if quantity < outstanding {
                        quantity
                    } else {
                        outstanding
                    };
                    let gain: i128 = match side {
                        Side::Buy => entry as i128 - fill.price as i128,
                        Side::Sell => fill.price as i128 - entry as i128,
                    };
                    assert(-0x4000_0000_0000_0000_0000_0000_0000_0000 <= gain * covered
                        <= 0x4000_0000_0000_0000_0000_0000_0000_0000) by (nonlinear_arith)
                        requires
                            -0x8000_0000_0000_0000 <= gain <= 0x8000_0000_0000_0000,
                            0 < covered <= 0x7fff_ffff_ffff_ffff,
                    ;
                    let pnl = div_floor(gain * covered as i128, SCALE as i128);
                    let excess = mul_scaled(fill.price, quantity - covered);
                    delta = pnl + signed_principal(side, excess);
                    position = if quantity < outstanding {
                        Position::opened(held, outstanding - quantity, entry)
                    } else if quantity == outstanding {
                        Position::Flat
                    } else {
                        Position::opened(side, quantity - outstanding, fill.price)
                    };
                }
            },
        }
        let cash = match narrow(
            self.cash_balance as i128 + delta - fill.commission as i128 - fill.slippage as i128,
        ) {
            Some(v) => v,
            None => {
                return Err(BacktestError::Overflow);
            },
        };
        let commission = match self.cumulative_commission.checked_add(fill.commission) {
            Some(v) => v,
            None => {
                return Err(BacktestError::Overflow);
            },
        };
        let slippage = match self.cumulative_slippage.checked_add(fill.slippage) {
            Some(v) => v,
            None => {
                return Err(BacktestError::Overflow);
            },
        };
        self.cash_balance = cash;
        self.cumulative_commission = commission;
        self.cumulative_slippage = slippage;
        self.position = position;
        self.started = true;
        Ok(fill)
    }

    /// Buys `quantity` at `price`. Slippage raises the execution price.
    ///
    /// From flat the order opens a long position; on a long position it adds
    /// to it at the weighted average entry price; on a short position it
    /// covers, realizes the profit of the covered part, and opens a long
    /// position with any excess.
    pub fn buy(&mut self, timestamp: i64, price: i64, quantity: i64) -> (r: Result<
        Fill,
        BacktestError,
    >)
        requires
            old(self).position.wf(),
        ensures
            final(self).position.wf(),
            final(self).ohlcv == old(self).ohlcv,
            match trade_outcome(old(self)@, Side::Buy, price as int, quantity as int) {
                Ok(l) => {
                    &&& final(self)@ == l
                    &&& r is Ok
                    &&& r->Ok_0.reports(
                        Side::Buy,
                        timestamp,
                        execution(old(self)@, Side::Buy, price as int, quantity as int),
                    )
                },
                Err(e) => r == Err::<Fill, BacktestError>(e) && *final(self) == *old(self),
            },
    {
        self.trade(Side::Buy, timestamp, price, quantity)
    }

    /// Sells `quantity` at `price`. Slippage lowers the execution price.
    ///
    /// From flat the order opens a short position; on a short position it
    /// adds to it at the weighted average entry price; on a long position it
    /// reduces it, realizes the profit of the part sold, and opens a short
    /// position with any excess.
    pub fn sell(&mut self, timestamp: i64, price: i64, quantity: i64) -> (r: Result<
        Fill,
        BacktestError,
    >)
        requires
            old(self).position.wf(),
        ensures
            final(self).position.wf(),
            final(self).ohlcv == old(self).ohlcv,
            match trade_outcome(old(self)@, Side::Sell, price as int, quantity as int) {
                Ok(l) => {
                    &&& final(self)@ == l
                    &&& r is Ok
                    &&& r->Ok_0.reports(
                        Side::Sell,
                        timestamp,
                        execution(old(self)@, Side::Sell, price as int, quantity as int),
                    )
                },
                Err(e) => r == Err::<Fill, BacktestError>(e) && *final(self) == *old(self),
            },
    {
        self.trade(Side::Sell, timestamp, price, quantity)
    }

    /// Closes up to `quantity` of the open position at `price`: never more
    /// than is outstanding. Selling out of a long lowers the execution price
    /// by slippage, buying back a short raises it. Proceeds or cost are
    /// settled in cash at once, with commission and slippage cost. With no
    /// position open nothing is executed and nothing is returned.
    pub fn close(&mut self, timestamp: i64, price: i64, quantity: i64) -> (r: Result<
        Option<Fill>,
        BacktestError,
    >)
        requires
            old(self).position.wf(),
        ensures
            final(self).position.wf(),
            final(self).ohlcv == old(self).ohlcv,
            match close_outcome(old(self)@, price as int, quantity as int) {
                Ok(l) => {
                    &&& final(self)@ == l
                    &&& match r {
                        Ok(None) => old(self)@.position is Flat,
                        Ok(Some(fill)) => !(old(self)@.position is Flat) && fill.reports(
                            old(self)@.position.closing_side(),
                            timestamp,
                            close_execution(old(self)@, price as int, quantity as int),
                        ),
                        Err(_) => false,
                    }
                },
                Err(e) => r == Err::<Option<Fill>, BacktestError>(e) && *final(self) == *old(self),
            },
    {
        if price <= 0 || quantity <= 0 {
            return Err(BacktestError::InvalidOrder);
        }
        let (held, outstanding, entry) = match self.position.held() {
            None => {
                return Ok(None);
            },
            Some(x) => x,
        };
        let side = held.opposite();
        let closed = if quantity < outstanding {
            quantity
        } else {
            outstanding
        };
        let (fill, notional) = match self.execute(side, timestamp, price, closed) {
            Ok(x) => x,
            Err(e) => {
                return Err(e);
            },
        };
        let cash = match narrow(
            self.cash_balance as i128 + signed_principal(side, notional as i128)
                - fill.commission as i128 - fill.slippage as i128,
        ) {
            Some(v) => v,
            None => {
                return Err(BacktestError::Overflow);
            },
        };
        let commission = match self.cumulative_commission.checked_add(fill.commission) {
            Some(v) => v,
            None => {
                return Err(BacktestError::Overflow);
            },
        };
        let slippage = match self.cumulative_slippage.checked_add(fill.slippage) {
            Some(v) => v,
            None => {
                return Err(BacktestError::Overflow);
            },
        };
        self.cash_balance = cash;
        self.cumulative_commission = commission;
        self.cumulative_slippage = slippage;
        self.position = if closed == outstanding {
            Position::Flat
        } else {
            Position::opened(held, outstanding - closed, entry)
        };
        self.started = true;
        Ok(Some(fill))
    }

    /// The close of the last bar; `None` for an empty series.
    pub open spec fn last_close(&self) -> Option<int> {
        if self.ohlcv.close@.len() == 0 {
            None
        } else {
            Some(self.ohlcv.close@.last() as int)
        }
    }

    /// Completes the run: closes any open position in full at the close of
    /// the last bar, then records the cash balance as the final balance.
    /// Returns what the forced close executed, if there was one.
    pub fn run(&mut self) -> (r: Result<Option<Fill>, BacktestError>)
        requires
            old(self).wf(),
        ensures
            final(self).wf(),
            final(self).ohlcv == old(self).ohlcv,
            match run_outcome(old(self)@, old(self).last_close()) {
                Ok(l) => {
                    &&& final(self)@ == l
                    &&& match r {
                        Ok(None) => old(self)@.position is Flat,
                        Ok(Some(fill)) => !(old(self)@.position is Flat) && fill.reports(
                            old(self)@.position.closing_side(),
                            old(self).ohlcv.timestamp@.last(),
                            close_execution(
                                old(self)@,
                                old(self).ohlcv.close@.last() as int,
                                old(self)@.position.quantity(),
                            ),
                        ),
                        Err(_) => false,
                    }
                },
                Err(e) => r == Err::<Option<Fill>, BacktestError>(e) && *final(self) == *old(self),
            },
    {
        let n = self.ohlcv.close.len();
        if n == 0 {
            return Err(BacktestError::NoData);
        }
        let timestamp = self.ohlcv.timestamp[n - 1];
        let price = self.ohlcv.close[n - 1];
        let forced = if self.position.is_open() {
            let quantity = self.position.quantity();
            match self.close(timestamp, price, quantity) {
                Ok(fill) => fill,
                Err(e) => {
                    return Err(e);
                },
            }
        } else {
            None
        };
        self.final_balance = self.cash_balance;
        Ok(forced)
    }

    /// Net profit, return on the initial balance in percent, and the cost
    /// totals. The ledger is not changed.
    pub fn stats(&self) -> (r: Result<Stats, BacktestError>)
        ensures
            match stats_outcome(self@) {
                Ok(report) => r is Ok && r->Ok_0@ == report,
                Err(e) => r == Err::<Stats, BacktestError>(e),
            },
    {
        if self.initial_balance == 0 {
            return Err(BacktestError::DivisionByZero);
        }
        let net: i128 = self.final_balance as i128 - self.initial_balance as i128;
        let pct = div_floor(net * 100 * (SCALE as i128), self.initial_balance as i128);
        let net_pnl = match narrow(net) {
            Some(v) => v,
            None => {
                return Err(BacktestError::Overflow);
            },
        };
        let return_pct = match narrow(pct) {
            Some(v) => v,
            None => {
                return Err(BacktestError::Overflow);
            },
        };
        Ok(
            Stats {
                net_pnl,
                return_pct,
                cumulative_commission: self.cumulative_commission,
                cumulative_slippage: self.cumulative_slippage,
            },
        )
    }
}

impl IteratorLike for Backtest {
    /// A ledger takes no step of its own: orders are what change it.
    fn next(&mut self)
        ensures
            *final(self) == *old(self),
    {
    }
}

} // verus!

//! The strategy driver: one pass over the bars that turns trade intents into
//! orders on the ledger.
//!
//! A signal rule is a function from a snapshot of indicator values to a
//! trade intent. The driver executes one intent per bar, whatever rule they
//! come from, through [`Strategy::follow`] and [`Strategy::step`]. The rule
//! that this module provides is the crossover of two moving averages;
//! another rule needs no change to the ledger or to the indicators.

use vstd::prelude::*;
use crate::backtest::Backtest;
use crate::backtest::Fill;
use crate::backtest::Prams;
use crate::backtest::Stats;
use crate::data::DataFeed;
use crate::error::BacktestError;
use crate::fixed::div_floor;
use crate::fixed::fits_i64;
use crate::fixed::narrow;
use crate::indicators::period_valid;
use crate::indicators::sma_at;
use crate::indicators::sma_over;
use crate::ledger::Ledger;
use crate::ledger::Side;
use crate::ledger::close_outcome;
use crate::ledger::run_outcome;
use crate::ledger::stats_outcome;
use crate::ledger::trade_outcome;
use crate::series::max2;

verus! {

/// What a signal rule asks of the ledger for one bar.
#[derive(Clone, Copy, Debug, PartialEq, Eq, Structural)]
pub enum Intent {
    /// Buy the quantity that the sizing rule gives.
    Buy,
    /// Sell the quantity that the sizing rule gives.
    Sell,
    /// No signal: close whatever position is open.
    Hold,
}

/// The two moving averages at the last two bars before the one that is
/// traded.
#[derive(Clone, Copy, Debug, PartialEq, Eq, Structural)]
pub struct Snapshot {
    /// Short-period average two bars back.
    pub short_before: i64,
    /// Long-period average two bars back.
    pub long_before: i64,
    /// Short-period average one bar back.
    pub short_last: i64,
    /// Long-period average one bar back.
    pub long_last: i64,
}

/// A strategy over one bar series, with its ledger.
pub struct Strategy {
    pub backtest: Backtest,
}

/// The crossover rule: buy one bar after the short average has crossed above
/// the long one, sell one bar after it has crossed below, hold otherwise.
pub open spec fn crossover_intent(s: Snapshot) -> Intent {
    if s.short_last > s.long_last && s.short_before < s.long_before {
        Intent::Buy
    } else if s.short_last < s.long_last && s.short_before > s.long_before {
        Intent::Sell
    } else {
        Intent::Hold
    }
}

/// The crossover rule.
pub fn crossover(s: Snapshot) -> (intent: Intent)
    ensures
        intent == crossover_intent(s),
{
    if s.short_last > s.long_last && s.short_before < s.long_before {
        Intent::Buy
    } else if s.short_last < s.long_last && s.short_before > s.long_before {
        Intent::Sell
    } else {
        Intent::Hold
    }
}

/// The simple moving averages over `short` and `long` values of `close`, as
/// bar `i` sees them: at bars `i - 2` and `i - 1`.
pub open spec fn sma_snapshot(close: Seq<i64>, short: int, long: int, i: int) -> Snapshot {
    Snapshot {
        short_before: sma_at(close, short, i - 2) as i64,
        long_before: sma_at(close, long, i - 2) as i64,
        short_last: sma_at(close, short, i - 1) as i64,
        long_last: sma_at(close, long, i - 1) as i64,
    }
}

/// The quantity of an order at `price`: the fraction of cash that the ledger
/// risks, divided by the price, and never less than zero.
pub open spec fn order_quantity(l: Ledger, price: int) -> int {
    if price > 0 {
        max2(0, (l.risk_fraction * l.cash) / price)
    } else {
        0
    }
}

/// What executing `intent` at `price` does to a ledger: a signal trades the
/// quantity of the sizing rule, and no signal closes an open position in
/// full.
pub open spec fn step_outcome(l: Ledger, intent: Intent, price: int) -> Result<
    Ledger,
    BacktestError,
> {
    match intent {
        Intent::Buy => if fits_i64(order_quantity(l, price)) {
            trade_outcome(l, Side::Buy, price, order_quantity(l, price))
        } else {
            Err(BacktestError::Overflow)
        },
        Intent::Sell => if fits_i64(order_quantity(l, price)) {
            trade_outcome(l, Side::Sell, price, order_quantity(l, price))
        } else {
            Err(BacktestError::Overflow)
        },
        Intent::Hold => if l.position is Flat {
            Ok(l)
        } else {
            close_outcome(l, price, l.position.quantity())
        },
    }
}

/// The first bar at which both averages have a value two bars back.
pub open spec fn first_traded_bar(short: int, long: int) -> int {
    max2(short, long) + 1
}

/// The two series `short` and `long` as bar `i` sees them: at bars `i - 2`
/// and `i - 1`.
pub open spec fn snapshot_at(short: Seq<i64>, long: Seq<i64>, i: int) -> Snapshot {
    Snapshot {
        short_before: short[i - 2],
        long_before: long[i - 2],
        short_last: short[i - 1],
        long_last: long[i - 1],
    }
}

/// The intent of the crossover rule for bar `i`: to hold before the bar
/// `first`, and from there on what the crossing of `short` and `long` says.
pub open spec fn crossover_signal(short: Seq<i64>, long: Seq<i64>, first: int, i: int) -> Intent {
    if i < first {
        Intent::Hold
    } else {
        crossover_intent(snapshot_at(short, long, i))
    }
}

/// The intents of the crossover of the simple moving averages over `short`
/// and `long` values of `close`, one for each bar.
pub open spec fn sma_signals(close: Seq<i64>, short: int, long: int) -> Seq<Intent> {
    Seq::new(
        close.len(),
        |i: int|
            if i < first_traded_bar(short, long) {
                Intent::Hold
            } else {
                crossover_intent(sma_snapshot(close, short, long, i))
            },
    )
}

/// The ledger after the intents of bars `i, ..., n - 1` have been executed
/// at the opening prices of their bars, and the failure that stopped the
/// pass, if one did. A failure leaves the ledger as the bar before it left
/// it.
pub open spec fn drive(l: Ledger, open: Seq<i64>, intents: Seq<Intent>, i: int, n: int) -> (
    Ledger,
    Option<BacktestError>,
)
    decreases n - i,
{
    if i >= n {
        (l, None)
    } else {
        match step_outcome(l, intents[i], open[i] as int) {
            Ok(next) => drive(next, open, intents, i + 1, n),
            Err(e) => (l, Some(e)),
        }
    }
}

/// What a pass of the crossover rule with the periods `short` and `long`
/// does to a ledger.
pub open spec fn pass_outcome(l: Ledger, open: Seq<i64>, close: Seq<i64>, short: int, long: int) -> (
    Ledger,
    Option<BacktestError>,
) {
    if period_valid(short, close.len() as int) && period_valid(long, close.len() as int) {
        drive(
            l,
            open,
            sma_signals(close, short, long),
            first_traded_bar(short, long),
            close.len() as int,
        )
    } else {
        (l, Some(BacktestError::InvalidPeriod))
    }
}

/// The intents of the crossover rule for two series, one for each bar: to
/// hold before the bar `first`, and from there on what the crossing of the
/// series behind the bar says.
pub fn crossover_signals(short: &Vec<i64>, long: &Vec<i64>, first: usize) -> (intents: Vec<Intent>)
    requires
        short@.len() == long@.len(),
        2 <= first,
    ensures
        intents@.len() == short@.len(),
        forall|i: int|
            0 <= i < intents@.len() ==> intents@[i] == crossover_signal(
                short@,
                long@,
                first as int,
                i,
            ),
{
    let n = short.len();
    let mut intents: Vec<Intent> = Vec::new();
    let mut i: usize = 0;
    while i < n
        invariant
            i <= n,
            n == short@.len(),
            n == long@.len(),
            2 <= first,
            intents@.len() == i,
            forall|j: int|
                0 <= j < i ==> intents@[j] == crossover_signal(short@, long@, first as int, j),
        decreases n - i,
    {
        let intent = if i < first {
            Intent::Hold
        } else {
            crossover(
                Snapshot {
                    short_before: short[i - 2],
                    long_before: long[i - 2],
                    short_last: short[i - 1],
                    long_last: long[i - 1],
                },
            )
        };
        intents.push(intent);
        i += 1;
    }
    intents
}

impl Strategy {
    /// A strategy over `data`, with a new ledger.
    pub fn new(data: DataFeed) -> (s: Self)
        ensures
            s.backtest.ohlcv == data,
            s.backtest.position.wf(),
            s.backtest@ == Backtest::new_ledger(),
    {
        Strategy { backtest: Backtest::new(data) }
    }

    /// Applies named parameters to the ledger: see [`Backtest::set_params`].
    pub fn set_params(&mut self, prams: Prams) -> (r: Result<(), BacktestError>)
        ensures
            r is Ok <==> !old(self).backtest.started,
            r is Err ==> r == Err::<(), BacktestError>(BacktestError::ConfigurationError)
                && *final(self) == *old(self),
            r is Ok ==> final(self).backtest == old(self).backtest.with_params(prams.data@),
    {
        self.backtest.set_params(prams)
    }

    /// The quantity of an order at `price`, where it can be stored.
    pub fn order_size(&self, price: i64) -> (r: Option<i64>)
        ensures
            match r {
                Some(q) => q == order_quantity(self.backtest@, price as int),
                None => !fits_i64(order_quantity(self.backtest@, price as int)),
            },
    {
        if price <= 0 {
            return Some(0);
        }
        let risk = self.backtest.risk_fraction;
        let cash = self.backtest.cash_balance;
        assert(-0x4000_0000_0000_0000_0000_0000_0000_0000 <= risk * cash
            <= 0x4000_0000_0000_0000_0000_0000_0000_0000) by (nonlinear_arith)
            requires
                -0x8000_0000_0000_0000 <= risk <= 0x7fff_ffff_ffff_ffff,
                -0x8000_0000_0000_0000 <= cash <= 0x7fff_ffff_ffff_ffff,
        ;
        let quantity = div_floor(risk as i128 * cash as i128, price as i128);
        if quantity < 0 {
            Some(0)
        } else {
            narrow(quantity)
        }
    }

    /// Executes `intent` at the opening price of bar `i`. Returns what was
    /// executed, if anything was.
    pub fn step(&mut self, i: usize, intent: Intent) -> (r: Result<Option<Fill>, BacktestError>)
        requires
            old(self).backtest.wf(),
            i < old(self).backtest.ohlcv@.len(),
        ensures
            final(self).backtest.wf(),
            final(self).backtest.ohlcv == old(self).backtest.ohlcv,
            match step_outcome(
                old(self).backtest@,
                intent,
                old(self).backtest.ohlcv.open@[i as int] as int,
            ) {
                Ok(l) => r is Ok && final(self).backtest@ == l,
                Err(e) => r == Err::<Option<Fill>, BacktestError>(e) && *final(self) == *old(self),
            },
    {
        let timestamp = self.backtest.ohlcv.timestamp[i];
        let price = self.backtest.ohlcv.open[i];
        match intent {
            Intent::Buy => {
                let quantity = match self.order_size(price) {
                    Some(q) => q,
                    None => {
                        return Err(BacktestError::Overflow);
                    },
                };
                match self.backtest.buy(timestamp, price, quantity) {
                    Ok(fill) => Ok(Some(fill)),
                    Err(e) => Err(e),
                }
            },
            Intent::Sell => {
                let quantity = match self.order_size(price) {
                    Some(q) => q,
                    None => {
                        return Err(BacktestError::Overflow);
                    },
                };
                match self.backtest.sell(timestamp, price, quantity) {
                    Ok(fill) => Ok(Some(fill)),
                    Err(e) => Err(e),
                }
            },
            Intent::Hold => {
                if self.backtest.position.is_open() {
                    let quantity = self.backtest.position.quantity();
                    self.backtest.close(timestamp, price, quantity)
                } else {
                    Ok(None)
                }
            },
        }
    }

    /// Executes the intents of the bars from `start` on, one for each bar
    /// and each at the opening price of its bar. The first order that fails
    /// ends the pass with its failure, and the ledger stays as the bars
    /// before left it.
    ///
    /// The intents may come from any signal rule.
    pub fn follow(&mut self, intents: &Vec<Intent>, start: usize) -> (r: Result<(), BacktestError>)
        requires
            old(self).backtest.wf(),
            intents@.len() == old(self).backtest.ohlcv@.len(),
        ensures
            final(self).backtest.wf(),
            final(self).backtest.ohlcv == old(self).backtest.ohlcv,
            final(self).backtest@ == drive(
                old(self).backtest@,
                old(self).backtest.ohlcv.open@,
                intents@,
                start as int,
                intents@.len() as int,
            ).0,
            r == match drive(
                old(self).backtest@,
                old(self).backtest.ohlcv.open@,
                intents@,
                start as int,
                intents@.len() as int,
            ).1 {
                None => Ok::<(), BacktestError>(()),
                Some(e) => Err::<(), BacktestError>(e),
            },
    {
        let n = intents.len();
        let mut i: usize = start;
        while i < n
            invariant
                self.backtest.wf(),
                self.backtest.ohlcv == old(self).backtest.ohlcv,
                n == intents@.len(),
                n == self.backtest.ohlcv@.len(),
                start <= i,
                drive(
                    self.backtest@,
                    old(self).backtest.ohlcv.open@,
                    intents@,
                    i as int,
                    n as int,
                ) == drive(
                    old(self).backtest@,
                    old(self).backtest.ohlcv.open@,
                    intents@,
                    start as int,
                    n as int,
                ),
            decreases n - i,
        {
            match self.step(i, intents[i]) {
                Ok(_) => {},
                Err(e) => {
                    return Err(e);
                },
            }
            i += 1;
        }
        Ok(())
    }

    /// Trades every bar by the crossover of the simple moving averages over
    /// `period1` (short) and `period2` (long) closing prices.
    ///
    /// The pass starts at the first bar that has both averages two bars
    /// back. A bar with an upward crossing behind it buys, one with a
    /// downward crossing sells, and any other closes an open position in
    /// full, all at the bar's opening price. The first order that fails ends
    /// the pass with its failure, and the ledger stays as the bars before
    /// left it.
    pub fn next(&mut self, period1: usize, period2: usize) -> (r: Result<(), BacktestError>)
        requires
            old(self).backtest.wf(),
        ensures
            final(self).backtest.wf(),
            final(self).backtest.ohlcv == old(self).backtest.ohlcv,
            final(self).backtest@ == pass_outcome(
                old(self).backtest@,
                old(self).backtest.ohlcv.open@,
                old(self).backtest.ohlcv.close@,
                period1 as int,
                period2 as int,
            ).0,
            r == match pass_outcome(
                old(self).backtest@,
                old(self).backtest.ohlcv.open@,
                old(self).backtest.ohlcv.close@,
                period1 as int,
                period2 as int,
            ).1 {
                None => Ok::<(), BacktestError>(()),
                Some(e) => Err::<(), BacktestError>(e),
            },
    {
        let n = self.backtest.ohlcv.close.len();
        if period1 < 1 || period1 > n || period2 < 1 || period2 > n {
            return Err(BacktestError::InvalidPeriod);
        }
        let longest = if period1 > period2 {
            period1
        } else {
            period2
        };
        if longest == n {
            return Ok(());
        }
        let short = sma_over(&self.backtest.ohlcv.close, period1);
        let long = sma_over(&self.backtest.ohlcv.close, period2);
        let intents = crossover_signals(&short, &long, longest + 1);
        assert(intents@ =~= sma_signals(
            self.backtest.ohlcv.close@,
            period1 as int,
            period2 as int,
        ));
        self.follow(&intents, longest + 1)
    }

    /// Completes the run: see [`Backtest::run`].
    pub fn run(&mut self) -> (r: Result<Option<Fill>, BacktestError>)
        requires
            old(self).backtest.wf(),
        ensures
            final(self).backtest.wf(),
            final(self).backtest.ohlcv == old(self).backtest.ohlcv,
            match run_outcome(old(self).backtest@, old(self).backtest.last_close()) {
                Ok(l) => final(self).backtest@ == l && r is Ok,
                Err(e) => r == Err::<Option<Fill>, BacktestError>(e) && *final(self) == *old(self),
            },
    {
        self.backtest.run()
    }

    /// The results of the run: see [`Backtest::stats`].
    pub fn stats(&self) -> (r: Result<Stats, BacktestError>)
        ensures
            match stats_outcome(self.backtest@) {
                Ok(report) => r is Ok && r->Ok_0@ == report,
                Err(e) => r == Err::<Stats, BacktestError>(e),
            },
    {
        self.backtest.stats()
    }
}

} // verus!

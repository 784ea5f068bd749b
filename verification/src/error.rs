//! Failures that the engine reports to its caller.

use vstd::prelude::*;

verus! {

/// Why an operation of the engine was refused. Every failure is local and
/// leaves the state it was called on as it found it, unless the operation
/// says otherwise.
#[derive(Clone, Copy, Debug, PartialEq, Eq, Structural)]
pub enum BacktestError {
    /// An order with a non-positive price or quantity, or whose execution
    /// price after slippage is not positive.
    InvalidOrder,
    /// An indicator period that is not positive or exceeds the series.
    InvalidPeriod,
    /// A derived series is too short for the smoothing asked of it.
    InsufficientData,
    /// A run was asked for on an empty bar series.
    NoData,
    /// The ledger was configured after trading had begun.
    ConfigurationError,
    /// A ratio over a zero initial balance.
    DivisionByZero,
    /// A result that does not fit the fixed-point range.
    Overflow,
}

/// Why the bar series refused a request.
#[derive(Clone, Copy, Debug, PartialEq, Eq, Structural)]
pub enum DataError {
    /// A bar whose timestamp does not follow the last one of the series.
    OutOfOrder,
    /// No bar carries the timestamp asked for.
    NotFound,
    /// A range whose start lies after its end.
    InvalidRange,
    /// A size that does not fit the type it is reported in.
    TooLarge,
    /// A line with fewer fields than a bar has.
    MissingField,
    /// A field that is no date.
    InvalidDate,
    /// A field that is no number, or a number out of range.
    InvalidNumber,
    /// A text that is no table of comma-separated values.
    Malformed,
}

impl BacktestError {
    /// A short description of the failure, for reports.
    pub fn message(&self) -> (s: String)
        ensures
            s@ == match *self {
                BacktestError::InvalidOrder => "invalid quantity or price"@,
                BacktestError::InvalidPeriod => "period is not positive or exceeds data length"@,
                BacktestError::InsufficientData => "not enough data"@,
                BacktestError::NoData => "no data available"@,
                BacktestError::ConfigurationError => "trading has already begun"@,
                BacktestError::DivisionByZero => "initial balance is zero"@,
                BacktestError::Overflow => "value out of range"@,
            },
    {
        match self {
            BacktestError::InvalidOrder => "invalid quantity or price".to_string(),
            BacktestError::InvalidPeriod => "period is not positive or exceeds data length".to_string(),
            BacktestError::InsufficientData => "not enough data".to_string(),
            BacktestError::NoData => "no data available".to_string(),
            BacktestError::ConfigurationError => "trading has already begun".to_string(),
            BacktestError::DivisionByZero => "initial balance is zero".to_string(),
            BacktestError::Overflow => "value out of range".to_string(),
        }
    }
}

impl DataError {
    /// A short description of the failure, for reports.
    pub fn message(&self) -> (s: String)
        ensures
            s@ == match *self {
                DataError::OutOfOrder => "timestamp does not follow the last bar"@,
                DataError::NotFound => "timestamp not found"@,
                DataError::InvalidRange => "start must not lie after end"@,
                DataError::TooLarge => "size out of range"@,
                DataError::MissingField => "missing field"@,
                DataError::InvalidDate => "invalid date"@,
                DataError::InvalidNumber => "invalid number"@,
                DataError::Malformed => "malformed table"@,
            },
    {
        match self {
            DataError::OutOfOrder => "timestamp does not follow the last bar".to_string(),
            DataError::NotFound => "timestamp not found".to_string(),
            DataError::InvalidRange => "start must not lie after end".to_string(),
            DataError::TooLarge => "size out of range".to_string(),
            DataError::MissingField => "missing field".to_string(),
            DataError::InvalidDate => "invalid date".to_string(),
            DataError::InvalidNumber => "invalid number".to_string(),
            DataError::Malformed => "malformed table".to_string(),
        }
    }
}

} // verus!

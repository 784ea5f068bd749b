//! The bar series: ordered price bars, held column by column.

use vstd::prelude::*;
use crate::error::DataError;
use crate::fixed::fits_i64;
use crate::table::csv_table;
use crate::table::read_table;
use crate::text::date_ordinal;
use crate::text::decimal_value;
use crate::text::digits_value;
use crate::text::is_date;
use crate::text::is_decimal;
use crate::text::is_unsigned;
use crate::text::parse_date;
use crate::text::parse_decimal;
use crate::text::parse_unsigned;

verus! {

/// One price sample for a fixed interval. Prices are fixed-point numbers;
/// the timestamp is an ordinal that grows with time.
#[derive(Clone, Copy, Debug, PartialEq, Eq, Structural)]
pub struct Bar {
    pub timestamp: i64,
    pub open: i64,
    pub high: i64,
    pub low: i64,
    pub close: i64,
    pub adj_close: i64,
    pub volume: u64,
}

impl Bar {
    /// The low is no higher than open and close, and the high no lower. A
    /// series tolerates bars of which this does not hold.
    pub open spec fn consistent(self) -> bool {
        &&& self.low <= self.open <= self.high
        &&& self.low <= self.close <= self.high
    }

    /// Tests whether low, open, close and high are in order.
    pub fn is_consistent(&self) -> (ok: bool)
        ensures
            ok == self.consistent(),
    {
        self.low <= self.open && self.open <= self.high && self.low <= self.close && self.close
            <= self.high
    }
}

/// A series of bars. Index `i` of every column belongs to the same bar.
#[derive(Debug)]
pub struct DataFeed {
    pub timestamp: Vec<i64>,
    pub open: Vec<i64>,
    pub high: Vec<i64>,
    pub low: Vec<i64>,
    pub close: Vec<i64>,
    pub adj_close: Vec<i64>,
    pub volume: Vec<u64>,
}

/// `s` grows strictly from each element to the next.
pub open spec fn strictly_increasing(s: Seq<i64>) -> bool {
    forall|i: int, j: int| 0 <= i < j < s.len() ==> s[i] < s[j]
}

/// The date that field 0 of a line holds.
pub open spec fn date_field(line: Seq<Seq<u8>>) -> Result<i64, DataError> {
    if line.len() <= 0 {
        Err(DataError::MissingField)
    } else if is_date(line[0]) {
        Ok(date_ordinal(line[0]) as i64)
    } else {
        Err(DataError::InvalidDate)
    }
}

/// The price that field `i` of a line holds.
pub open spec fn price_field(line: Seq<Seq<u8>>, i: int) -> Result<i64, DataError> {
    if line.len() <= i {
        Err(DataError::MissingField)
    } else if is_decimal(line[i]) && fits_i64(decimal_value(line[i])) {
        Ok(decimal_value(line[i]) as i64)
    } else {
        Err(DataError::InvalidNumber)
    }
}

/// The volume that field `i` of a line holds.
pub open spec fn volume_field(line: Seq<Seq<u8>>, i: int) -> Result<u64, DataError> {
    if line.len() <= i {
        Err(DataError::MissingField)
    } else if is_unsigned(line[i]) && digits_value(line[i], 0, line[i].len() as int) <= u64::MAX {
        Ok(digits_value(line[i], 0, line[i].len() as int) as u64)
    } else {
        Err(DataError::InvalidNumber)
    }
}

/// The bar that a line holds in its fields date, open, high, low, close,
/// adjusted close and volume, or the first thing that is wrong with the line,
/// going through the fields in that order. Fields after these are ignored.
pub open spec fn line_bar(line: Seq<Seq<u8>>) -> Result<Bar, DataError> {
    match date_field(line) {
        Err(e) => Err(e),
        Ok(timestamp) => match price_field(line, 1) {
            Err(e) => Err(e),
            Ok(open) => match price_field(line, 2) {
                Err(e) => Err(e),
                Ok(high) => match price_field(line, 3) {
                    Err(e) => Err(e),
                    Ok(low) => match price_field(line, 4) {
                        Err(e) => Err(e),
                        Ok(close) => match price_field(line, 5) {
                            Err(e) => Err(e),
                            Ok(adj_close) => match volume_field(line, 6) {
                                Err(e) => Err(e),
                                Ok(volume) => Ok(
                                    Bar { timestamp, open, high, low, close, adj_close, volume },
                                ),
                            },
                        },
                    },
                },
            },
        },
    }
}

/// The series after a line is appended to it: the bars with the bar of the
/// line at their end, or the reason why the line is refused. A line is
/// refused for what is wrong with its fields, and then for a date that does
/// not follow the last bar.
pub open spec fn line_outcome(bars: Seq<Bar>, line: Seq<Seq<u8>>) -> Result<Seq<Bar>, DataError> {
    match line_bar(line) {
        Err(e) => Err(e),
        Ok(bar) => if bars.len() > 0 && bar.timestamp <= bars.last().timestamp {
            Err(DataError::OutOfOrder)
        } else {
            Ok(bars.push(bar))
        },
    }
}

/// The series after the lines `rows[i], rows[i + 1], ...` are appended to it
/// one by one, and the failure of the first line that is refused, if one is.
/// The lines before that one stay appended.
pub open spec fn lines_outcome(bars: Seq<Bar>, rows: Seq<Seq<Seq<u8>>>, i: int) -> (
    Seq<Bar>,
    Option<DataError>,
)
    decreases rows.len() - i,
{
    if i >= rows.len() {
        (bars, None)
    } else {
        match line_outcome(bars, rows[i]) {
            Ok(next) => lines_outcome(next, rows, i + 1),
            Err(e) => (bars, Some(e)),
        }
    }
}

/// The fields of a line as sequences of bytes.
proof fn lemma_fields(line: &Vec<Vec<u8>>)
    ensures
        line.deep_view().len() == line@.len(),
        forall|i: int| 0 <= i < line@.len() ==> #[trigger] line.deep_view()[i] == line@[i]@,
{
}

/// Reads the date in field 0 of a line.
fn read_date(line: &Vec<Vec<u8>>) -> (r: Result<i64, DataError>)
    ensures
        r == date_field(line.deep_view()),
{
    if line.len() == 0 {
        return Err(DataError::MissingField);
    }
    match parse_date(line[0].as_slice()) {
        Some(t) => Ok(t),
        None => Err(DataError::InvalidDate),
    }
}

/// Reads the price in field `i` of a line.
fn read_price(line: &Vec<Vec<u8>>, i: usize) -> (r: Result<i64, DataError>)
    ensures
        r == price_field(line.deep_view(), i as int),
{
    proof {
        lemma_fields(line);
    }
    if line.len() <= i {
        return Err(DataError::MissingField);
    }
    match parse_decimal(line[i].as_slice()) {
        Some(v) => Ok(v),
        None => Err(DataError::InvalidNumber),
    }
}

/// Reads the volume in field `i` of a line.
fn read_volume(line: &Vec<Vec<u8>>, i: usize) -> (r: Result<u64, DataError>)
    ensures
        r == volume_field(line.deep_view(), i as int),
{
    proof {
        lemma_fields(line);
    }
    if line.len() <= i {
        return Err(DataError::MissingField);
    }
    match parse_unsigned(line[i].as_slice()) {
        Some(v) => Ok(v),
        None => Err(DataError::InvalidNumber),
    }
}

impl View for DataFeed {
    type V = Seq<Bar>;

    /// The bars of the series, in order.
    open spec fn view(&self) -> Seq<Bar> {
        Seq::new(self.timestamp@.len(), |i: int| self.bar_at(i))
    }
}

impl DataFeed {
    /// All columns have one length, and timestamps grow strictly.
    pub open spec fn wf(&self) -> bool {
        &&& self.open@.len() == self.timestamp@.len()
        &&& self.high@.len() == self.timestamp@.len()
        &&& self.low@.len() == self.timestamp@.len()
        &&& self.close@.len() == self.timestamp@.len()
        &&& self.adj_close@.len() == self.timestamp@.len()
        &&& self.volume@.len() == self.timestamp@.len()
        &&& strictly_increasing(self.timestamp@)
    }

    /// The bar at index `i`.
    pub open spec fn bar_at(&self, i: int) -> Bar {
        Bar {
            timestamp: self.timestamp@[i],
            open: self.open@[i],
            high: self.high@[i],
            low: self.low@[i],
            close: self.close@[i],
            adj_close: self.adj_close@[i],
            volume: self.volume@[i],
        }
    }

    /// An empty series.
    pub fn new() -> (feed: Self)
        ensures
            feed.wf(),
            feed@ == Seq::<Bar>::empty(),
    {
        let feed = DataFeed {
            timestamp: Vec::new(),
            open: Vec::new(),
            high: Vec::new(),
            low: Vec::new(),
            close: Vec::new(),
            adj_close: Vec::new(),
            volume: Vec::new(),
        };
        feed
    }

    /// Tests the invariant of the series.
    pub fn is_well_formed(&self) -> (ok: bool)
        ensures
            ok == self.wf(),
    {
        let n = self.timestamp.len();
        if self.open.len() != n || self.high.len() != n || self.low.len() != n
            || self.close.len() != n || self.adj_close.len() != n || self.volume.len() != n {
            return false;
        }
        let mut i: usize = 1;
        while i < n
            invariant
                1 <= i,
                n == self.timestamp@.len(),
                forall|a: int, b: int| 0 <= a < b < i && b < n ==> self.timestamp@[a] < self.timestamp@[b],
            decreases n - i,
        {
            if self.timestamp[i - 1] >= self.timestamp[i] {
                return false;
            }
            i += 1;
        }
        true
    }

    /// Appends a bar. The bar's timestamp must follow the last one.
    pub fn push_bar(&mut self, bar: Bar) -> (r: Result<(), DataError>)
        requires
            old(self).wf(),
        ensures
            final(self).wf(),
            match r {
                Ok(_) => final(self)@ == old(self)@.push(bar),
                Err(e) => e == DataError::OutOfOrder && *final(self) == *old(self),
            },
            r is Err <==> old(self)@.len() > 0 && bar.timestamp <= old(self)@.last().timestamp,
    {
        let n = self.timestamp.len();
        if n > 0 && bar.timestamp <= self.timestamp[n - 1] {
            return Err(DataError::OutOfOrder);
        }
        self.timestamp.push(bar.timestamp);
        self.open.push(bar.open);
        self.high.push(bar.high);
        self.low.push(bar.low);
        self.close.push(bar.close);
        self.adj_close.push(bar.adj_close);
        self.volume.push(bar.volume);
        Ok(())
    }

    /// Reads a bar from the fields of a line and appends it.
    ///
    /// The fields are date, open, high, low, close, adjusted close and
    /// volume, in that order; fields after these are ignored. The first
    /// field that is missing or cannot be read refuses the line, and so does
    /// a date that does not follow the last bar.
    pub fn parse_line(&mut self, line: &Vec<Vec<u8>>) -> (r: Result<(), DataError>)
        requires
            old(self).wf(),
        ensures
            final(self).wf(),
            match line_outcome(old(self)@, line.deep_view()) {
                Ok(bars) => r is Ok && final(self)@ == bars,
                Err(e) => r == Err::<(), DataError>(e) && *final(self) == *old(self),
            },
    {
        let timestamp = match read_date(line) {
            Ok(v) => v,
            Err(e) => {
                return Err(e);
            },
        };
        let open = match read_price(line, 1) {
            Ok(v) => v,
            Err(e) => {
                return Err(e);
            },
        };
        let high = match read_price(line, 2) {
            Ok(v) => v,
            Err(e) => {
                return Err(e);
            },
        };
        let low = match read_price(line, 3) {
            Ok(v) => v,
            Err(e) => {
                return Err(e);
            },
        };
        let close = match read_price(line, 4) {
            Ok(v) => v,
            Err(e) => {
                return Err(e);
            },
        };
        let adj_close = match read_price(line, 5) {
            Ok(v) => v,
            Err(e) => {
                return Err(e);
            },
        };
        let volume = match read_volume(line, 6) {
            Ok(v) => v,
            Err(e) => {
                return Err(e);
            },
        };
        self.push_bar(Bar { timestamp, open, high, low, close, adj_close, volume })
    }

    /// Appends the bars of the lines `rows`, one by one. The first line that
    /// is refused ends the reading with its failure; the lines before it stay
    /// appended.
    pub fn append_lines(&mut self, rows: &Vec<Vec<Vec<u8>>>) -> (r: Result<(), DataError>)
        requires
            old(self).wf(),
        ensures
            final(self).wf(),
            final(self)@ == lines_outcome(old(self)@, rows.deep_view(), 0).0,
            r == match lines_outcome(old(self)@, rows.deep_view(), 0).1 {
                None => Ok::<(), DataError>(()),
                Some(e) => Err::<(), DataError>(e),
            },
    {
        let n = rows.len();
        let mut i: usize = 0;
        while i < n
            invariant
                i <= n,
                n == rows@.len(),
                self.wf(),
                lines_outcome(self@, rows.deep_view(), i as int) == lines_outcome(
                    old(self)@,
                    rows.deep_view(),
                    0,
                ),
            decreases n - i,
        {
            match self.parse_line(&rows[i]) {
                Ok(_) => {},
                Err(e) => {
                    return Err(e);
                },
            }
            i += 1;
        }
        Ok(())
    }

    /// Reads a table of comma-separated values: a header row, then one line
    /// for each bar. Returns the header row.
    ///
    /// The text is split into rows and fields by the `csv` crate. A text that
    /// it refuses leaves the series as it is. Otherwise the lines are
    /// appended as [`DataFeed::append_lines`] does.
    pub fn read_csv(&mut self, text: &[u8]) -> (r: Result<Vec<Vec<u8>>, DataError>)
        requires
            old(self).wf(),
        ensures
            final(self).wf(),
            match csv_table(text@) {
                None => r == Err::<Vec<Vec<u8>>, DataError>(DataError::Malformed) && *final(self)
                    == *old(self),
                Some((header, rows)) => {
                    &&& final(self)@ == lines_outcome(old(self)@, rows, 0).0
                    &&& match lines_outcome(old(self)@, rows, 0).1 {
                        None => r is Ok && r->Ok_0.deep_view() == header,
                        Some(e) => r == Err::<Vec<Vec<u8>>, DataError>(e),
                    }
                },
            },
    {
        let (header, rows) = match read_table(text) {
            Ok(table) => table,
            Err(_) => {
                return Err(DataError::Malformed);
            },
        };
        match self.append_lines(&rows) {
            Ok(_) => Ok(header),
            Err(e) => Err(e),
        }
    }

    /// The bar at index `i`, if the series has one.
    pub fn get_bar(&self, i: usize) -> (r: Option<Bar>)
        requires
            self.wf(),
        ensures
            r == if i < self@.len() {
                Some(self@[i as int])
            } else {
                None
            },
    {
        if i < self.timestamp.len() {
            Some(
                Bar {
                    timestamp: self.timestamp[i],
                    open: self.open[i],
                    high: self.high[i],
                    low: self.low[i],
                    close: self.close[i],
                    adj_close: self.adj_close[i],
                    volume: self.volume[i],
                },
            )
        } else {
            None
        }
    }

    /// A copy of the series.
    pub fn get_ohlcv(&self) -> (copy: DataFeed)
        ensures
            copy.timestamp@ == self.timestamp@,
            copy.open@ == self.open@,
            copy.high@ == self.high@,
            copy.low@ == self.low@,
            copy.close@ == self.close@,
            copy.adj_close@ == self.adj_close@,
            copy.volume@ == self.volume@,
            copy@ == self@,
            copy.wf() == self.wf(),
    {
        let copy = DataFeed {
            timestamp: self.timestamp.clone(),
            open: self.open.clone(),
            high: self.high.clone(),
            low: self.low.clone(),
            close: self.close.clone(),
            adj_close: self.adj_close.clone(),
            volume: self.volume.clone(),
        };
        copy
    }

    /// Empties the series.
    pub fn clear_ohclv(&mut self) -> (r: Result<(), DataError>)
        ensures
            r is Ok,
            final(self).wf(),
            final(self)@ == Seq::<Bar>::empty(),
    {
        *self = DataFeed::new();
        Ok(())
    }

    /// The number of bars.
    pub fn get_size(&self) -> (r: Result<i32, DataError>)
        ensures
            match r {
                Ok(n) => n == self@.len(),
                Err(e) => e == DataError::TooLarge && self@.len() > i32::MAX,
            },
    {
        let n = self.timestamp.len();
        if n > i32::MAX as usize {
            Err(DataError::TooLarge)
        } else {
            Ok(n as i32)
        }
    }

    /// The index of the bar that carries `timestamp`.
    pub fn position_of(&self, timestamp: i64) -> (r: Option<usize>)
        requires
            self.wf(),
        ensures
            match r {
                Some(i) => i < self@.len() && self@[i as int].timestamp == timestamp,
                None => forall|j: int| 0 <= j < self@.len() ==> self@[j].timestamp != timestamp,
            },
    {
        let n = self.timestamp.len();
        let mut i: usize = 0;
        while i < n
            invariant
                i <= n,
                n == self.timestamp@.len(),
                forall|j: int| 0 <= j < i ==> self.timestamp@[j] != timestamp,
            decreases n - i,
        {
            if self.timestamp[i] == timestamp {
                return Some(i);
            }
            i += 1;
        }
        None
    }

    /// The indices of the bars that carry `start` and `end`, in that order.
    pub fn find_range(&self, start: i64, end: i64) -> (r: Result<(usize, usize), DataError>)
        requires
            self.wf(),
        ensures
            match r {
                Ok((first, last)) => {
                    &&& first <= last < self@.len()
                    &&& self@[first as int].timestamp == start
                    &&& self@[last as int].timestamp == end
                },
                Err(DataError::NotFound) => (forall|j: int|
                    0 <= j < self@.len() ==> self@[j].timestamp != start) || (forall|j: int|
                    0 <= j < self@.len() ==> self@[j].timestamp != end),
                Err(DataError::InvalidRange) => {
                    &&& start > end
                    &&& exists|j: int| 0 <= j < self@.len() && self@[j].timestamp == start
                    &&& exists|j: int| 0 <= j < self@.len() && self@[j].timestamp == end
                },
                Err(_) => false,
            },
            r is Ok <==> start <= end && (exists|j: int|
                0 <= j < self@.len() && self@[j].timestamp == start) && (exists|j: int|
                0 <= j < self@.len() && self@[j].timestamp == end),
    {
        let first = match self.position_of(start) {
            Some(i) => i,
            None => {
                return Err(DataError::NotFound);
            },
        };
        let last = match self.position_of(end) {
            Some(i) => i,
            None => {
                return Err(DataError::NotFound);
            },
        };
        if first > last {
            return Err(DataError::InvalidRange);
        }
        Ok((first, last))
    }
}

} // verus!

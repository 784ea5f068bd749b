use backtester::data::Bar;
use backtester::data::DataFeed;
use backtester::error::DataError;
use backtester::text::parse_date;
use backtester::text::parse_decimal;
use backtester::text::parse_unsigned;

fn line(fields: &[&str]) -> Vec<Vec<u8>> {
    fields.iter().map(|f| f.as_bytes().to_vec()).collect()
}

#[test]
fn parse_decimal_reads_whole_numbers() {
    assert_eq!(parse_decimal(b"0"), Some(0));
    assert_eq!(parse_decimal(b"7"), Some(7_000_000));
    assert_eq!(parse_decimal(b"100000"), Some(100_000_000_000));
    assert_eq!(parse_decimal(b"007"), Some(7_000_000));
    assert_eq!(parse_decimal(b"00000000000000000000000000000000012"), Some(12_000_000));
}

#[test]
fn parse_decimal_reads_fractions() {
    assert_eq!(parse_decimal(b"465.864014"), Some(465_864_014));
    assert_eq!(parse_decimal(b"0.002"), Some(2_000));
    assert_eq!(parse_decimal(b"0.0005"), Some(500));
    assert_eq!(parse_decimal(b"1.5"), Some(1_500_000));
    assert_eq!(parse_decimal(b"1.000001"), Some(1_000_001));
    assert_eq!(parse_decimal(b"12.345678"), Some(12_345_678));
    assert_eq!(parse_decimal(b"5."), Some(5_000_000));
    assert_eq!(parse_decimal(b"5.0"), Some(5_000_000));
}

#[test]
fn parse_decimal_drops_digits_after_the_sixth() {
    assert_eq!(parse_decimal(b"0.1234567"), Some(123_456));
    assert_eq!(parse_decimal(b"0.9999999999"), Some(999_999));
    assert_eq!(parse_decimal(b"-0.1234569"), Some(-123_456));
    assert_eq!(parse_decimal(b"3.00000099"), Some(3_000_000));
}

#[test]
fn parse_decimal_reads_signs() {
    assert_eq!(parse_decimal(b"-1.5"), Some(-1_500_000));
    assert_eq!(parse_decimal(b"+1.5"), Some(1_500_000));
    assert_eq!(parse_decimal(b"-0"), Some(0));
    assert_eq!(parse_decimal(b"-0.000001"), Some(-1));
}

#[test]
fn parse_decimal_refuses_what_is_no_decimal() {
    assert_eq!(parse_decimal(b""), None);
    assert_eq!(parse_decimal(b"-"), None);
    assert_eq!(parse_decimal(b"+"), None);
    assert_eq!(parse_decimal(b"."), None);
    assert_eq!(parse_decimal(b".5"), None);
    assert_eq!(parse_decimal(b"-.5"), None);
    assert_eq!(parse_decimal(b"1.2.3"), None);
    assert_eq!(parse_decimal(b"1..2"), None);
    assert_eq!(parse_decimal(b"--1"), None);
    assert_eq!(parse_decimal(b"+-1"), None);
    assert_eq!(parse_decimal(b"1-"), None);
    assert_eq!(parse_decimal(b"1e5"), None);
    assert_eq!(parse_decimal(b"12a"), None);
    assert_eq!(parse_decimal(b"a12"), None);
    assert_eq!(parse_decimal(b"1.2x"), None);
    assert_eq!(parse_decimal(b"1.2345678x"), None);
    assert_eq!(parse_decimal(b" 1"), None);
    assert_eq!(parse_decimal(b"1 "), None);
    assert_eq!(parse_decimal(b"1,5"), None);
    assert_eq!(parse_decimal(b"null"), None);
    assert_eq!(parse_decimal(b"NaN"), None);
    assert_eq!(parse_decimal("1\u{663}".as_bytes()), None);
}

#[test]
fn parse_decimal_at_the_edges_of_the_range() {
    assert_eq!(parse_decimal(b"9223372036854.775807"), Some(i64::MAX));
    assert_eq!(parse_decimal(b"9223372036854.775808"), None);
    assert_eq!(parse_decimal(b"-9223372036854.775808"), Some(i64::MIN));
    assert_eq!(parse_decimal(b"-9223372036854.775809"), None);
    assert_eq!(parse_decimal(b"9223372036855"), None);
    assert_eq!(parse_decimal(b"-9223372036855"), None);
    assert_eq!(parse_decimal(b"9223372036854"), Some(9_223_372_036_854_000_000));
    assert_eq!(parse_decimal(b"99999999999999999999999999999999999999999999"), None);
    assert_eq!(parse_decimal(b"99999999999999999999999999999999999999999999x"), None);
}

#[test]
fn parse_unsigned_reads_digits() {
    assert_eq!(parse_unsigned(b"0"), Some(0));
    assert_eq!(parse_unsigned(b"21056800"), Some(21_056_800));
    assert_eq!(parse_unsigned(b"000123"), Some(123));
    assert_eq!(parse_unsigned(b"18446744073709551615"), Some(u64::MAX));
}

#[test]
fn parse_unsigned_refuses_what_is_no_number_or_too_large() {
    assert_eq!(parse_unsigned(b""), None);
    assert_eq!(parse_unsigned(b"-1"), None);
    assert_eq!(parse_unsigned(b"+1"), None);
    assert_eq!(parse_unsigned(b"1.0"), None);
    assert_eq!(parse_unsigned(b"12 "), None);
    assert_eq!(parse_unsigned(b"1x"), None);
    assert_eq!(parse_unsigned(b"18446744073709551616"), None);
    assert_eq!(parse_unsigned(b"184467440737095516150"), None);
    assert_eq!(parse_unsigned(b"99999999999999999999x"), None);
}

#[test]
fn parse_date_reads_the_ordinal() {
    assert_eq!(parse_date(b"2014-09-17"), Some(20_140_917));
    assert_eq!(parse_date(b"1999-12-31"), Some(19_991_231));
    assert_eq!(parse_date(b"0000-01-01"), Some(101));
    assert_eq!(parse_date(b"9999-12-31"), Some(99_991_231));
}

#[test]
fn parse_date_orders_dates_as_the_calendar_does() {
    let dates: [&[u8]; 6] =
        [b"1999-12-31", b"2000-01-01", b"2000-01-02", b"2000-02-01", b"2000-12-31", b"2001-01-01"];
    for i in 0..5 {
        assert!(parse_date(dates[i]).unwrap() < parse_date(dates[i + 1]).unwrap());
    }
}

#[test]
fn parse_date_refuses_what_is_no_date() {
    assert_eq!(parse_date(b""), None);
    assert_eq!(parse_date(b"2014-09-1"), None);
    assert_eq!(parse_date(b"2014-09-171"), None);
    assert_eq!(parse_date(b"2014/09/17"), None);
    assert_eq!(parse_date(b"20140917"), None);
    assert_eq!(parse_date(b"2014-00-17"), None);
    assert_eq!(parse_date(b"2014-13-17"), None);
    assert_eq!(parse_date(b"2014-09-00"), None);
    assert_eq!(parse_date(b"2014-09-32"), None);
    assert_eq!(parse_date(b"201x-09-17"), None);
    assert_eq!(parse_date(b"2014-0x-17"), None);
    assert_eq!(parse_date(b"2014-09-1x"), None);
    assert_eq!(parse_date(b"17-09-2014"), None);
    assert_eq!(parse_date(b"Date      "), None);
}

#[test]
fn parse_line_appends_a_bar() {
    let mut feed = DataFeed::new();
    let fields = line(&[
        "2014-09-17",
        "465.864014",
        "468.174011",
        "452.421997",
        "457.334015",
        "457.334015",
        "21056800",
    ]);
    assert_eq!(feed.parse_line(&fields), Ok(()));
    assert_eq!(
        feed.get_bar(0),
        Some(Bar {
            timestamp: 20_140_917,
            open: 465_864_014,
            high: 468_174_011,
            low: 452_421_997,
            close: 457_334_015,
            adj_close: 457_334_015,
            volume: 21_056_800,
        })
    );
    assert_eq!(feed.get_size(), Ok(1));
    let next = line(&["2014-09-18", "456.86", "456.86", "413.104004", "424.44", "424.44", "34483200"]);
    assert_eq!(feed.parse_line(&next), Ok(()));
    assert_eq!(feed.timestamp, vec![20_140_917, 20_140_918]);
    assert_eq!(feed.open, vec![465_864_014, 456_860_000]);
    assert_eq!(feed.volume, vec![21_056_800, 34_483_200]);
    assert!(feed.is_well_formed());
}

#[test]
fn parse_line_ignores_fields_after_the_volume() {
    let mut feed = DataFeed::new();
    let fields = line(&["2020-01-01", "1", "2", "3", "4", "5", "6", "extra", ""]);
    assert_eq!(feed.parse_line(&fields), Ok(()));
    assert_eq!(
        feed.get_bar(0),
        Some(Bar {
            timestamp: 20_200_101,
            open: 1_000_000,
            high: 2_000_000,
            low: 3_000_000,
            close: 4_000_000,
            adj_close: 5_000_000,
            volume: 6,
        })
    );
}

#[test]
fn parse_line_refuses_a_line_with_a_missing_field() {
    let mut feed = DataFeed::new();
    assert_eq!(feed.parse_line(&line(&[])), Err(DataError::MissingField));
    assert_eq!(feed.parse_line(&line(&["2020-01-01"])), Err(DataError::MissingField));
    assert_eq!(feed.parse_line(&line(&["2020-01-01", "1", "2"])), Err(DataError::MissingField));
    assert_eq!(
        feed.parse_line(&line(&["2020-01-01", "1", "2", "3", "4", "5"])),
        Err(DataError::MissingField)
    );
    assert_eq!(feed.get_size(), Ok(0));
}

#[test]
fn parse_line_refuses_a_field_that_cannot_be_read() {
    let mut feed = DataFeed::new();
    assert_eq!(
        feed.parse_line(&line(&["Date", "1", "2", "3", "4", "5", "6"])),
        Err(DataError::InvalidDate)
    );
    assert_eq!(
        feed.parse_line(&line(&["2020-01-01", "x", "2", "3", "4", "5", "6"])),
        Err(DataError::InvalidNumber)
    );
    assert_eq!(
        feed.parse_line(&line(&["2020-01-01", "1", "2", "3", "4", "null", "6"])),
        Err(DataError::InvalidNumber)
    );
    assert_eq!(
        feed.parse_line(&line(&["2020-01-01", "1", "2", "3", "4", "5", "6.5"])),
        Err(DataError::InvalidNumber)
    );
    assert_eq!(
        feed.parse_line(&line(&["2020-01-01", "1", "2", "3", "4", "5", "-6"])),
        Err(DataError::InvalidNumber)
    );
    assert_eq!(feed.get_size(), Ok(0));
    assert!(feed.is_well_formed());
}

#[test]
fn parse_line_reports_the_first_thing_that_is_wrong() {
    let mut feed = DataFeed::new();
    assert_eq!(feed.parse_line(&line(&["nonsense"])), Err(DataError::InvalidDate));
    assert_eq!(feed.parse_line(&line(&["2020-01-01", "x"])), Err(DataError::InvalidNumber));
    assert_eq!(feed.parse_line(&line(&["2020-01-01", "1", "x", "y"])), Err(DataError::InvalidNumber));
    assert_eq!(feed.parse_line(&line(&["2020-01-01", "1", "2", "3"])), Err(DataError::MissingField));
}

#[test]
fn parse_line_refuses_a_date_that_does_not_follow() {
    let mut feed = DataFeed::new();
    assert_eq!(feed.parse_line(&line(&["2020-01-02", "1", "2", "3", "4", "5", "6"])), Ok(()));
    assert_eq!(
        feed.parse_line(&line(&["2020-01-02", "1", "2", "3", "4", "5", "6"])),
        Err(DataError::OutOfOrder)
    );
    assert_eq!(
        feed.parse_line(&line(&["2019-12-31", "1", "2", "3", "4", "5", "6"])),
        Err(DataError::OutOfOrder)
    );
    assert_eq!(feed.get_size(), Ok(1));
    assert_eq!(feed.parse_line(&line(&["2020-01-03", "1", "2", "3", "4", "5", "6"])), Ok(()));
    assert_eq!(feed.get_size(), Ok(2));
}

#[test]
fn line_error_messages() {
    assert_eq!(DataError::MissingField.message(), "missing field");
    assert_eq!(DataError::InvalidDate.message(), "invalid date");
    assert_eq!(DataError::InvalidNumber.message(), "invalid number");
}

fn rows(lines: &[&[&str]]) -> Vec<Vec<Vec<u8>>> {
    lines.iter().map(|l| line(l)).collect()
}

#[test]
fn append_lines_appends_every_line() {
    let mut feed = DataFeed::new();
    let table = rows(&[
        &["2020-01-01", "1", "2", "3", "4", "5", "6"],
        &["2020-01-02", "1.5", "2.5", "3.5", "4.5", "5.5", "7"],
        &["2020-01-03", "10", "20", "30", "40", "50", "8"],
    ]);
    assert_eq!(feed.append_lines(&table), Ok(()));
    assert_eq!(feed.timestamp, vec![20_200_101, 20_200_102, 20_200_103]);
    assert_eq!(feed.open, vec![1_000_000, 1_500_000, 10_000_000]);
    assert_eq!(feed.close, vec![4_000_000, 4_500_000, 40_000_000]);
    assert_eq!(feed.volume, vec![6, 7, 8]);
    assert_eq!(feed.append_lines(&rows(&[])), Ok(()));
    assert_eq!(feed.get_size(), Ok(3));
}

#[test]
fn append_lines_stops_at_the_first_line_that_is_refused() {
    let mut feed = DataFeed::new();
    let table = rows(&[
        &["2020-01-01", "1", "2", "3", "4", "5", "6"],
        &["2020-01-02", "1", "2", "3", "4", "5", "6"],
        &["2020-01-03", "1", "oops", "3", "4", "5", "6"],
        &["2020-01-04", "1", "2", "3", "4", "5", "6"],
    ]);
    assert_eq!(feed.append_lines(&table), Err(DataError::InvalidNumber));
    assert_eq!(feed.timestamp, vec![20_200_101, 20_200_102]);
    assert!(feed.is_well_formed());
    let again = rows(&[
        &["2020-01-05", "1", "2", "3", "4", "5", "6"],
        &["2020-01-05", "1", "2", "3", "4", "5", "6"],
    ]);
    assert_eq!(feed.append_lines(&again), Err(DataError::OutOfOrder));
    assert_eq!(feed.timestamp, vec![20_200_101, 20_200_102, 20_200_105]);
}

#[test]
fn read_csv_reads_a_price_file() {
    let text = "Date,Open,High,Low,Close,Adj Close,Volume\n\
                2014-09-17,465.864014,468.174011,452.421997,457.334015,457.334015,21056800\n\
                2014-09-18,456.859985,456.859985,413.104004,424.440002,424.440002,34483200\n";
    let mut feed = DataFeed::new();
    let header = feed.read_csv(text.as_bytes()).unwrap();
    assert_eq!(header, line(&["Date", "Open", "High", "Low", "Close", "Adj Close", "Volume"]));
    assert_eq!(feed.get_size(), Ok(2));
    assert_eq!(
        feed.get_bar(0),
        Some(Bar {
            timestamp: 20_140_917,
            open: 465_864_014,
            high: 468_174_011,
            low: 452_421_997,
            close: 457_334_015,
            adj_close: 457_334_015,
            volume: 21_056_800,
        })
    );
    assert_eq!(
        feed.get_bar(1),
        Some(Bar {
            timestamp: 20_140_918,
            open: 456_859_985,
            high: 456_859_985,
            low: 413_104_004,
            close: 424_440_002,
            adj_close: 424_440_002,
            volume: 34_483_200,
        })
    );
    assert!(feed.is_well_formed());
}

#[test]
fn read_csv_takes_quoted_fields_and_other_line_ends() {
    let text = "Date,Open,High,Low,Close,Adj Close,Volume\r\n\
                \"2020-01-01\",\"1\",2,3,4,5,6\r\n\
                2020-01-02,1,2,3,4,5,6";
    let mut feed = DataFeed::new();
    assert!(feed.read_csv(text.as_bytes()).is_ok());
    assert_eq!(feed.timestamp, vec![20_200_101, 20_200_102]);
    assert_eq!(feed.open, vec![1_000_000, 1_000_000]);
}

#[test]
fn read_csv_does_not_read_the_header_as_a_bar() {
    let mut feed = DataFeed::new();
    let header = feed.read_csv(b"2020-01-01,1,2,3,4,5,6\n2020-01-02,1,2,3,4,5,6\n").unwrap();
    assert_eq!(header, line(&["2020-01-01", "1", "2", "3", "4", "5", "6"]));
    assert_eq!(feed.timestamp, vec![20_200_102]);
}

#[test]
fn read_csv_of_a_text_without_lines() {
    let mut feed = DataFeed::new();
    assert_eq!(feed.read_csv(b""), Ok(line(&[])));
    assert_eq!(feed.get_size(), Ok(0));
    let header = feed.read_csv(b"Date,Open,High,Low,Close,Adj Close,Volume\n").unwrap();
    assert_eq!(header.len(), 7);
    assert_eq!(feed.get_size(), Ok(0));
}

#[test]
fn read_csv_adds_to_the_bars_that_are_there() {
    let mut feed = DataFeed::new();
    assert!(feed.read_csv(b"h,h,h,h,h,h,h\n2020-01-01,1,2,3,4,5,6\n").is_ok());
    assert!(feed.read_csv(b"h,h,h,h,h,h,h\n2020-01-02,1,2,3,4,5,6\n").is_ok());
    assert_eq!(feed.timestamp, vec![20_200_101, 20_200_102]);
    assert_eq!(
        feed.read_csv(b"h,h,h,h,h,h,h\n2020-01-02,1,2,3,4,5,6\n"),
        Err(DataError::OutOfOrder)
    );
    assert_eq!(feed.get_size(), Ok(2));
}

#[test]
fn read_csv_refuses_rows_of_different_length() {
    let mut feed = DataFeed::new();
    let text = "Date,Open,High,Low,Close,Adj Close,Volume\n\
                2020-01-01,1,2,3,4,5,6\n\
                2020-01-02,1,2,3\n";
    assert_eq!(feed.read_csv(text.as_bytes()), Err(DataError::Malformed));
    assert_eq!(feed.get_size(), Ok(0));
}

#[test]
fn read_csv_refuses_text_that_is_not_utf8() {
    let mut feed = DataFeed::new();
    let mut text: Vec<u8> = b"Date,Open,High,Low,Close,Adj Close,Volume\n2020-01-01,1,2,3,4,5,".to_vec();
    text.push(0xff);
    text.push(b'\n');
    assert_eq!(feed.read_csv(&text), Err(DataError::Malformed));
    assert_eq!(feed.get_size(), Ok(0));
}

#[test]
fn read_csv_stops_at_the_first_line_that_is_refused() {
    let mut feed = DataFeed::new();
    let text = "Date,Open,High,Low,Close,Adj Close,Volume\n\
                2020-01-01,1,2,3,4,5,6\n\
                2020-01-02,1,2,3,4,null,6\n\
                2020-01-03,1,2,3,4,5,6\n";
    assert_eq!(feed.read_csv(text.as_bytes()), Err(DataError::InvalidNumber));
    assert_eq!(feed.timestamp, vec![20_200_101]);
    let short = "a,b\n2020-01-01,1\n";
    assert_eq!(feed.read_csv(short.as_bytes()), Err(DataError::MissingField));
    assert_eq!(DataError::Malformed.message(), "malformed table");
}

use backtester::data::DataFeed;
use backtester::error::BacktestError;
use backtester::indicators::atr;
use backtester::indicators::bbands;
use backtester::indicators::ema;
use backtester::indicators::macd;
use backtester::indicators::sma;
use backtester::indicators::sma_over;
use backtester::indicators::stochastic;
use backtester::indicators::williams;
use backtester::indicators::Indicators;

const S: i64 = 1_000_000;

fn closes() -> Vec<i64> {
    vec![10 * S, 11 * S, 12 * S, 11 * S, 10 * S, 9 * S, 10 * S, 12 * S, 15 * S, 14 * S, 13 * S, 16 * S]
}

fn highs() -> Vec<i64> {
    vec![
        10_500_000, 11_800_000, 12_300_000, 11_200_000, 10_800_000, 9_500_000, 10_400_000,
        12_500_000, 15_200_000, 14_900_000, 13_300_000, 16_500_000,
    ]
}

fn lows() -> Vec<i64> {
    vec![
        9_500_000, 10_800_000, 11_700_000, 10_400_000, 9_700_000, 8_800_000, 9_600_000,
        11_800_000, 14_700_000, 13_600_000, 12_700_000, 15_800_000,
    ]
}

fn feed() -> DataFeed {
    let close = closes();
    let n = close.len();
    DataFeed {
        timestamp: (0..n as i64).collect(),
        open: close.clone(),
        high: highs(),
        low: lows(),
        close,
        adj_close: closes(),
        volume: vec![100; n],
    }
}

fn pseudo_random(n: usize, seed: u64) -> Vec<i64> {
    let mut state: u64 = seed;
    let mut out: Vec<i64> = Vec::new();
    for _ in 0..n {
        state = state.wrapping_mul(6364136223846793005).wrapping_add(1442695040888963407);
        out.push(((state >> 20) % 2_000_000_000) as i64 - 1_000_000_000);
    }
    out
}

fn naive_mean(data: &[i64], lo: usize, hi: usize) -> i64 {
    let mut sum: i128 = 0;
    for j in lo..hi {
        sum += data[j] as i128;
    }
    sum.div_euclid((hi - lo) as i128) as i64
}

#[test]
fn sma_of_a_short_series() {
    assert_eq!(sma(&vec![1, 2, 3, 4, 5], 3), Ok(vec![0, 0, 2, 3, 4]));
    assert_eq!(sma(&vec![1, 2, 3, 4, 5], 1), Ok(vec![1, 2, 3, 4, 5]));
    assert_eq!(sma(&vec![4, 8], 2), Ok(vec![0, 6]));
}

#[test]
fn sma_known_values() {
    assert_eq!(
        sma(&closes(), 3),
        Ok(vec![
            0, 0, 11_000_000, 11_333_333, 11_000_000, 10_000_000, 9_666_666, 10_333_333,
            12_333_333, 13_666_666, 14_000_000, 14_333_333,
        ])
    );
    assert_eq!(
        sma(&closes(), 5),
        Ok(vec![
            0, 0, 0, 0, 10_800_000, 10_600_000, 10_400_000, 10_400_000, 11_200_000, 12_000_000,
            12_800_000, 14_000_000,
        ])
    );
}

#[test]
fn sma_rounds_the_mean_down() {
    assert_eq!(sma(&vec![-1, -2, -4, 7], 2), Ok(vec![0, -2, -3, 1]));
    assert_eq!(sma(&vec![1, 2], 2), Ok(vec![0, 1]));
}

#[test]
fn sma_equals_the_mean_of_each_window() {
    let data = pseudo_random(200, 7);
    let periods: [usize; 6] = [1, 2, 3, 10, 57, 200];
    for p in periods {
        let out = sma(&data, p as i64).unwrap();
        assert_eq!(out.len(), data.len());
        for i in 0..data.len() {
            if i + 1 < p {
                assert_eq!(out[i], 0);
            } else {
                assert_eq!(out[i], naive_mean(&data, i + 1 - p, i + 1));
            }
        }
    }
}

#[test]
fn sma_with_a_period_longer_than_the_series_fails() {
    assert_eq!(sma(&vec![1, 2, 3], 4), Err(BacktestError::InvalidPeriod));
    assert_eq!(sma(&vec![], 1), Err(BacktestError::InvalidPeriod));
    assert_eq!(sma(&closes(), 13), Err(BacktestError::InvalidPeriod));
    assert_eq!(sma(&closes(), i64::MAX), Err(BacktestError::InvalidPeriod));
}

#[test]
fn sma_with_a_period_that_is_not_positive_fails() {
    assert_eq!(sma(&vec![1, 2, 3], 0), Err(BacktestError::InvalidPeriod));
    assert_eq!(sma(&vec![1, 2, 3], -1), Err(BacktestError::InvalidPeriod));
    assert_eq!(sma(&vec![1, 2, 3], i64::MIN), Err(BacktestError::InvalidPeriod));
}

#[test]
fn sma_with_a_period_as_long_as_the_series_has_one_value() {
    assert_eq!(sma(&vec![3, 6, 9], 3), Ok(vec![0, 0, 6]));
    let out = sma(&closes(), 12).unwrap();
    for i in 0..11 {
        assert_eq!(out[i], 0);
    }
    assert_eq!(out[11], naive_mean(&closes(), 0, 12));
    assert_eq!(out[11], 11_916_666);
}

#[test]
fn sma_of_extreme_values_does_not_overflow() {
    assert_eq!(sma(&vec![i64::MAX, i64::MAX, i64::MAX], 3), Ok(vec![0, 0, i64::MAX]));
    assert_eq!(sma(&vec![i64::MIN, i64::MIN, i64::MIN], 2), Ok(vec![0, i64::MIN, i64::MIN]));
    assert_eq!(sma(&vec![i64::MAX, i64::MIN, i64::MAX], 2), Ok(vec![0, -1, -1]));
}

#[test]
fn sma_over_takes_a_valid_period() {
    assert_eq!(sma_over(&vec![1, 2, 3, 4, 5], 3), vec![0, 0, 2, 3, 4]);
    assert_eq!(sma_over(&vec![5], 1), vec![5]);
}

#[test]
fn ema_known_values() {
    assert_eq!(
        ema(&closes(), 3),
        Ok(vec![
            0, 0, 11_000_000, 11_000_000, 10_500_000, 9_750_000, 9_875_000, 10_937_500,
            12_968_750, 13_484_375, 13_242_187, 14_621_093,
        ])
    );
    assert_eq!(
        ema(&closes(), 4),
        Ok(vec![
            0, 0, 0, 11_000_000, 10_600_000, 9_960_000, 9_976_000, 10_785_600, 12_471_360,
            13_082_816, 13_049_689, 14_229_813,
        ])
    );
}

#[test]
fn ema_of_a_short_series() {
    assert_eq!(ema(&vec![10, 20, 30, 40], 3), Ok(vec![0, 0, 20, 30]));
    assert_eq!(ema(&vec![-10, -3, -8, 5, -1], 2), Ok(vec![0, -7, -8, 0, -1]));
}

#[test]
fn ema_with_period_one_follows_the_price() {
    let data = pseudo_random(50, 3);
    assert_eq!(ema(&data, 1), Ok(data.clone()));
}

#[test]
fn ema_seed_equals_sma_seed() {
    let data = pseudo_random(120, 11);
    let mut p: usize = 1;
    while p <= 120 {
        let e = ema(&data, p as i64).unwrap();
        let s = sma(&data, p as i64).unwrap();
        assert_eq!(e[p - 1], s[p - 1]);
        for i in 0..p - 1 {
            assert_eq!(e[i], 0);
        }
        p += 7;
    }
}

#[test]
fn ema_is_a_recurrence_on_the_previous_value_and_the_price() {
    let data = pseudo_random(80, 5);
    let p: i64 = 6;
    let out = ema(&data, p).unwrap();
    for i in 6..80 {
        let change: i128 = (2 * (data[i] as i128 - out[i - 1] as i128)).div_euclid(p as i128 + 1);
        assert_eq!(out[i] as i128, out[i - 1] as i128 + change);
    }
}

#[test]
fn ema_does_not_depend_on_later_prices() {
    let data = pseudo_random(60, 9);
    let mut changed = data.clone();
    for i in 40..60 {
        changed[i] = -changed[i] + 17;
    }
    let a = ema(&data, 5).unwrap();
    let b = ema(&changed, 5).unwrap();
    for i in 0..40 {
        assert_eq!(a[i], b[i]);
    }
    assert_ne!(a[40], b[40]);
}

#[test]
fn ema_of_extreme_values_does_not_overflow() {
    assert_eq!(
        ema(&vec![i64::MAX, i64::MIN, i64::MAX, i64::MIN], 1),
        Ok(vec![i64::MAX, i64::MIN, i64::MAX, i64::MIN])
    );
    assert_eq!(
        ema(&vec![i64::MAX, i64::MIN, i64::MAX, i64::MIN], 2),
        Ok(vec![0, -1, 6148914691236517204, -4099276460824344804])
    );
}

#[test]
fn ema_with_an_invalid_period_fails() {
    assert_eq!(ema(&vec![1, 2, 3], 4), Err(BacktestError::InvalidPeriod));
    assert_eq!(ema(&vec![1, 2, 3], 0), Err(BacktestError::InvalidPeriod));
    assert_eq!(ema(&vec![1, 2, 3], -2), Err(BacktestError::InvalidPeriod));
    assert_eq!(ema(&vec![], 1), Err(BacktestError::InvalidPeriod));
}

#[test]
fn macd_of_a_rising_series() {
    let (line, signal) = macd(&vec![10, 20, 30, 40, 50], 2, 2, 3).unwrap();
    assert_eq!(line, vec![0, 0, 5, 5, 5]);
    assert_eq!(signal, vec![0, 0, 0, 5, 5]);
}

#[test]
fn macd_known_values() {
    let (line, signal) = macd(&closes(), 3, 2, 4).unwrap();
    assert_eq!(
        line,
        vec![
            0, 0, 0, 166_666, -211_112, -497_038, -155_013, 488_062, 1_286_527, 836_479, 256_742,
            872_330,
        ]
    );
    assert_eq!(
        signal,
        vec![0, 0, 0, 0, 0, -180_495, -167_754, 160_154, 723_340, 779_909, 518_325, 695_327]
    );
}

#[test]
fn macd_line_is_the_difference_of_the_averages() {
    let data = pseudo_random(90, 21);
    let (line, _) = macd(&data, 9, 12, 26).unwrap();
    let fast = ema(&data, 12).unwrap();
    let slow = ema(&data, 26).unwrap();
    for i in 0..90 {
        if i < 25 {
            assert_eq!(line[i], 0);
        } else {
            assert_eq!(line[i], fast[i] - slow[i]);
        }
    }
}

#[test]
fn macd_signal_starts_from_the_mean_of_the_first_values_of_the_line() {
    let data = pseudo_random(90, 22);
    let (line, signal) = macd(&data, 9, 12, 26).unwrap();
    for i in 0..33 {
        assert_eq!(signal[i], 0);
    }
    assert_eq!(signal[33], naive_mean(&line, 25, 34));
    for i in 34..90 {
        let change: i128 = (2 * (line[i] as i128 - signal[i - 1] as i128)).div_euclid(10);
        assert_eq!(signal[i] as i128, signal[i - 1] as i128 + change);
    }
}

#[test]
fn macd_with_the_fast_period_longer_than_the_slow_one() {
    let (line, signal) = macd(&vec![10, 20, 30, 40, 50], 2, 3, 2).unwrap();
    assert_eq!(line, vec![0, 0, -5, -5, -5]);
    assert_eq!(signal, vec![0, 0, 0, -5, -5]);
}

#[test]
fn macd_with_too_few_values_for_the_signal_fails() {
    assert_eq!(macd(&vec![10, 20, 30, 40, 50], 4, 2, 3), Err(BacktestError::InsufficientData));
    assert_eq!(macd(&vec![10, 20, 30, 40, 50], 6, 1, 1), Err(BacktestError::InsufficientData));
    assert_eq!(macd(&closes(), 10, 2, 4), Err(BacktestError::InsufficientData));
    assert!(macd(&vec![10, 20, 30, 40, 50], 3, 2, 3).is_ok());
    assert!(macd(&closes(), 9, 2, 4).is_ok());
}

#[test]
fn macd_with_an_invalid_period_fails() {
    assert_eq!(macd(&vec![10, 20, 30], 1, 4, 2), Err(BacktestError::InvalidPeriod));
    assert_eq!(macd(&vec![10, 20, 30], 1, 2, 4), Err(BacktestError::InvalidPeriod));
    assert_eq!(macd(&vec![10, 20, 30], 1, 0, 2), Err(BacktestError::InvalidPeriod));
    assert_eq!(macd(&vec![10, 20, 30], 1, 2, -1), Err(BacktestError::InvalidPeriod));
    assert_eq!(macd(&vec![10, 20, 30], 0, 1, 2), Err(BacktestError::InvalidPeriod));
    assert_eq!(macd(&vec![10, 20, 30], -3, 1, 2), Err(BacktestError::InvalidPeriod));
    assert_eq!(macd(&vec![], 1, 1, 1), Err(BacktestError::InvalidPeriod));
}

#[test]
fn macd_with_a_difference_out_of_range_fails() {
    assert_eq!(macd(&vec![i64::MIN, i64::MAX], 1, 1, 2), Err(BacktestError::Overflow));
}

#[test]
fn atr_known_values() {
    assert_eq!(
        atr(&highs(), &lows(), &closes(), 3),
        Ok(vec![
            0, 0, 0, 1_566_666, 1_477_777, 1_385_184, 1_390_122, 1_760_081, 2_240_054, 1_960_036,
            1_740_024, 2_326_682,
        ])
    );
}

#[test]
fn atr_with_period_one_is_the_true_range() {
    assert_eq!(
        atr(&highs(), &lows(), &closes(), 1),
        Ok(vec![
            0, 1_800_000, 1_300_000, 1_600_000, 1_300_000, 1_200_000, 1_400_000, 2_500_000,
            3_200_000, 1_400_000, 1_300_000, 3_500_000,
        ])
    );
}

#[test]
fn atr_takes_the_distance_from_the_close_before() {
    let high: Vec<i64> = vec![10, 5, 7];
    let low: Vec<i64> = vec![8, 4, 3];
    let close: Vec<i64> = vec![9, 4, 6];
    assert_eq!(atr(&high, &low, &close, 1), Ok(vec![0, 5, 4]));
    assert_eq!(atr(&high, &low, &close, 2), Ok(vec![0, 0, 4]));
}

#[test]
fn atr_of_a_short_series() {
    let high: Vec<i64> = vec![10, 12, 13, 15];
    let low: Vec<i64> = vec![8, 9, 11, 12];
    let close: Vec<i64> = vec![9, 11, 12, 14];
    assert_eq!(atr(&high, &low, &close, 2), Ok(vec![0, 0, 2, 2]));
}

#[test]
fn atr_with_a_period_as_long_as_the_series_has_no_value() {
    let high: Vec<i64> = vec![10, 12, 13, 15];
    let low: Vec<i64> = vec![8, 9, 11, 12];
    let close: Vec<i64> = vec![9, 11, 12, 14];
    assert_eq!(atr(&high, &low, &close, 4), Ok(vec![0, 0, 0, 0]));
    assert_eq!(atr(&vec![5], &vec![3], &vec![4], 1), Ok(vec![0]));
}

#[test]
fn atr_follows_wilder_smoothing() {
    let out = atr(&highs(), &lows(), &closes(), 4).unwrap();
    let ranges = atr(&highs(), &lows(), &closes(), 1).unwrap();
    for i in 0..4 {
        assert_eq!(out[i], 0);
    }
    assert_eq!(out[4], (ranges[1] + ranges[2] + ranges[3] + ranges[4]) / 4);
    for i in 5..12 {
        assert_eq!(out[i], (out[i - 1] * 3 + ranges[i]) / 4);
    }
}

#[test]
fn atr_with_an_invalid_period_fails() {
    assert_eq!(atr(&highs(), &lows(), &closes(), 0), Err(BacktestError::InvalidPeriod));
    assert_eq!(atr(&highs(), &lows(), &closes(), -1), Err(BacktestError::InvalidPeriod));
    assert_eq!(atr(&highs(), &lows(), &closes(), 13), Err(BacktestError::InvalidPeriod));
    assert_eq!(atr(&vec![], &vec![], &vec![], 1), Err(BacktestError::InvalidPeriod));
}

#[test]
fn atr_with_a_true_range_out_of_range_fails() {
    assert_eq!(
        atr(&vec![0, i64::MAX], &vec![0, i64::MIN], &vec![0, 0], 1),
        Err(BacktestError::Overflow)
    );
}

#[test]
fn bbands_known_values() {
    assert_eq!(
        bbands(&closes(), 3),
        Ok(vec![
            0, 0, 612_372, -353_554, -612_373, -612_373, 353_554, 668_153, 648_885, 133_630,
            -612_373, 668_153,
        ])
    );
    assert_eq!(
        bbands(&closes(), 5),
        Ok(vec![
            0, 0, 0, 0, -534_523, -784_466, -196_117, 784_465, 889_756, 438_529, 58_123, 707_107,
        ])
    );
}

#[test]
fn bbands_of_three_prices() {
    assert_eq!(bbands(&vec![S, 2 * S, 3 * S], 3), Ok(vec![0, 0, 612_372]));
}

#[test]
fn bbands_of_a_constant_series_is_zero() {
    let data: Vec<i64> = vec![42 * S; 30];
    let periods: [i64; 5] = [1, 2, 5, 29, 30];
    for p in periods {
        assert_eq!(bbands(&data, p), Ok(vec![0; 30]));
    }
}

#[test]
fn bbands_is_zero_where_the_window_is_constant() {
    let data: Vec<i64> = vec![5 * S, 7 * S, 7 * S, 7 * S, 9 * S];
    let out = bbands(&data, 3).unwrap();
    assert_eq!(out[3], 0);
    assert_ne!(out[2], 0);
    assert_ne!(out[4], 0);
}

#[test]
fn bbands_with_period_one_is_zero() {
    assert_eq!(bbands(&closes(), 1), Ok(vec![0; 12]));
}

#[test]
fn bbands_with_an_invalid_period_fails() {
    assert_eq!(bbands(&closes(), 0), Err(BacktestError::InvalidPeriod));
    assert_eq!(bbands(&closes(), 13), Err(BacktestError::InvalidPeriod));
    assert_eq!(bbands(&closes(), -4), Err(BacktestError::InvalidPeriod));
}

#[test]
fn bbands_with_squares_out_of_range_fails() {
    assert_eq!(
        bbands(&vec![i64::MAX, i64::MIN, i64::MAX, i64::MIN, i64::MAX], 5),
        Err(BacktestError::Overflow)
    );
    assert_eq!(bbands(&vec![i64::MAX, i64::MIN], 2), Ok(vec![0, -500_000]));
}

#[test]
fn stochastic_known_values() {
    assert_eq!(
        stochastic(&highs(), &lows(), &closes(), 3),
        Ok(vec![
            0, 0, 89_285_714, 31_578_947, 11_538_461, 8_333_333, 60_000_000, 86_486_486,
            96_428_571, 64_705_882, 12_000_000, 86_842_105,
        ])
    );
    assert_eq!(
        stochastic(&highs(), &lows(), &closes(), 5),
        Ok(vec![
            0, 0, 0, 0, 17_857_142, 5_714_285, 34_285_714, 86_486_486, 96_875_000, 81_250_000,
            60_714_285, 89_361_702,
        ])
    );
}

#[test]
fn stochastic_of_a_short_series() {
    let high: Vec<i64> = vec![10, 12, 14];
    let low: Vec<i64> = vec![8, 9, 10];
    let close: Vec<i64> = vec![9, 11, 13];
    assert_eq!(stochastic(&high, &low, &close, 3), Ok(vec![0, 0, 83_333_333]));
}

#[test]
fn stochastic_of_a_flat_window_is_zero() {
    let flat: Vec<i64> = vec![7, 7, 7, 7];
    assert_eq!(stochastic(&flat, &flat, &flat, 2), Ok(vec![0, 0, 0, 0]));
    assert_eq!(stochastic(&flat, &flat, &vec![1, 2, 3, 4], 3), Ok(vec![0, 0, 0, 0]));
}

#[test]
fn stochastic_tolerates_highs_below_lows() {
    assert_eq!(stochastic(&vec![5, 3], &vec![9, 8], &vec![7, 6], 2), Ok(vec![0, 66_666_666]));
}

#[test]
fn stochastic_with_an_invalid_period_fails() {
    assert_eq!(stochastic(&highs(), &lows(), &closes(), 0), Err(BacktestError::InvalidPeriod));
    assert_eq!(stochastic(&highs(), &lows(), &closes(), 13), Err(BacktestError::InvalidPeriod));
    assert_eq!(stochastic(&highs(), &lows(), &closes(), -1), Err(BacktestError::InvalidPeriod));
}

#[test]
fn stochastic_with_a_value_out_of_range_fails() {
    assert_eq!(stochastic(&vec![1], &vec![0], &vec![i64::MAX], 1), Err(BacktestError::Overflow));
    assert_eq!(
        stochastic(&vec![0, 1], &vec![0, 0], &vec![0, i64::MAX], 1),
        Err(BacktestError::Overflow)
    );
}

#[test]
fn williams_known_values() {
    assert_eq!(
        williams(&closes(), 3),
        Ok(vec![0, 0, 0, 1_000_000, 1_000_000, 1_000_000, 0, 0, 0, 333_333, 1_000_000, 0])
    );
    assert_eq!(
        williams(&closes(), 4),
        Ok(vec![0, 0, 0, 500_000, 1_000_000, 1_000_000, 500_000, 0, 0, 200_000, 666_666, 0])
    );
}

#[test]
fn williams_of_a_short_series() {
    assert_eq!(williams(&vec![1, 3, 2], 3), Ok(vec![0, 0, 500_000]));
}

#[test]
fn williams_of_a_flat_window_is_zero() {
    assert_eq!(williams(&vec![4, 4, 4, 4], 2), Ok(vec![0, 0, 0, 0]));
    assert_eq!(williams(&closes(), 1), Ok(vec![0; 12]));
}

#[test]
fn williams_lies_between_zero_and_one() {
    let data = pseudo_random(150, 33);
    let periods: [i64; 4] = [2, 3, 14, 150];
    for p in periods {
        let out = williams(&data, p).unwrap();
        for v in out {
            assert!(0 <= v && v <= S);
        }
    }
}

#[test]
fn williams_of_extreme_values_does_not_overflow() {
    assert_eq!(williams(&vec![i64::MAX, i64::MIN, 0], 3), Ok(vec![0, 0, 499_999]));
    assert_eq!(williams(&vec![i64::MIN, i64::MAX], 2), Ok(vec![0, 0]));
    assert_eq!(williams(&vec![i64::MAX, i64::MIN], 2), Ok(vec![0, S]));
}

#[test]
fn williams_with_an_invalid_period_fails() {
    assert_eq!(williams(&closes(), 0), Err(BacktestError::InvalidPeriod));
    assert_eq!(williams(&closes(), 13), Err(BacktestError::InvalidPeriod));
    assert_eq!(williams(&closes(), -9), Err(BacktestError::InvalidPeriod));
}

#[test]
fn rolling_extremes_equal_a_scan_of_each_window() {
    let close = pseudo_random(70, 41);
    let out = williams(&close, 6).unwrap();
    for i in 5..70 {
        let window = &close[i - 5..i + 1];
        let highest: i128 = *window.iter().max().unwrap() as i128;
        let lowest: i128 = *window.iter().min().unwrap() as i128;
        let expected: i128 = if highest == lowest {
            0
        } else {
            ((highest - close[i] as i128) * S as i128).div_euclid(highest - lowest)
        };
        assert_eq!(out[i] as i128, expected);
    }
}

#[test]
fn indicators_read_the_columns_of_the_feed() {
    let indicators = Indicators::new(feed());
    assert_eq!(indicators.SMA(3), sma(&closes(), 3));
    assert_eq!(indicators.EMA(3), ema(&closes(), 3));
    assert_eq!(indicators.MACD(3, 2, 4), macd(&closes(), 3, 2, 4));
    assert_eq!(indicators.ATR(3), atr(&highs(), &lows(), &closes(), 3));
    assert_eq!(indicators.BBANDS(3), bbands(&closes(), 3));
    assert_eq!(indicators.STOCHASTIC(3), stochastic(&highs(), &lows(), &closes(), 3));
    assert_eq!(indicators.WILLIAMS(3), williams(&closes(), 3));
}

#[test]
fn indicators_report_invalid_periods() {
    let indicators = Indicators::new(feed());
    assert_eq!(indicators.SMA(13), Err(BacktestError::InvalidPeriod));
    assert_eq!(indicators.EMA(0), Err(BacktestError::InvalidPeriod));
    assert_eq!(indicators.MACD(3, 13, 4), Err(BacktestError::InvalidPeriod));
    assert_eq!(indicators.MACD(10, 2, 4), Err(BacktestError::InsufficientData));
    assert_eq!(indicators.ATR(-1), Err(BacktestError::InvalidPeriod));
    assert_eq!(indicators.BBANDS(13), Err(BacktestError::InvalidPeriod));
    assert_eq!(indicators.STOCHASTIC(0), Err(BacktestError::InvalidPeriod));
    assert_eq!(indicators.WILLIAMS(13), Err(BacktestError::InvalidPeriod));
}

#[test]
fn indicators_of_an_empty_feed() {
    let indicators = Indicators::new(DataFeed::new());
    assert_eq!(indicators.SMA(1), Err(BacktestError::InvalidPeriod));
    assert_eq!(indicators.ATR(1), Err(BacktestError::InvalidPeriod));
    assert_eq!(indicators.ohlcv.get_size(), Ok(0));
}

fn isqrt_naive(n: u128) -> u128 {
    let mut r: u128 = 0;
    while (r + 1) * (r + 1) <= n {
        r += 1;
    }
    r
}

#[test]
fn atr_equals_a_recomputation_from_the_bars() {
    let close = pseudo_random(60, 51);
    let spread = pseudo_random(60, 52);
    let high: Vec<i64> = (0..60).map(|i| close[i] + spread[i].rem_euclid(1000)).collect();
    let low: Vec<i64> = (0..60).map(|i| close[i] - spread[i].rem_euclid(777)).collect();
    let p: usize = 5;
    let out = atr(&high, &low, &close, p as i64).unwrap();
    let mut ranges: Vec<i64> = vec![0];
    for i in 1..60 {
        let a = high[i] - low[i];
        let b = (high[i] - close[i - 1]).abs();
        let c = (close[i - 1] - low[i]).abs();
        ranges.push(a.max(b).max(c));
    }
    for i in 0..p {
        assert_eq!(out[i], 0);
    }
    let seed: i64 = ranges[1..p + 1].iter().sum::<i64>() / p as i64;
    assert_eq!(out[p], seed);
    for i in p + 1..60 {
        assert_eq!(out[i], (out[i - 1] * (p as i64 - 1) + ranges[i]) / p as i64);
    }
}

#[test]
fn bbands_equals_a_recomputation_of_each_window() {
    let data: Vec<i64> = pseudo_random(40, 61).iter().map(|x| x.rem_euclid(50_000)).collect();
    let p: usize = 7;
    let out = bbands(&data, p as i64).unwrap();
    for i in 0..40 {
        if i + 1 < p {
            assert_eq!(out[i], 0);
            continue;
        }
        let mean: i128 = naive_mean(&data, i + 1 - p, i + 1) as i128;
        let mut squares: u128 = 0;
        for j in i + 1 - p..i + 1 {
            let d: i128 = data[j] as i128 - mean;
            squares += (d * d) as u128;
        }
        let deviation: i128 = isqrt_naive(squares / p as u128) as i128;
        let expected: i128 = if deviation == 0 {
            0
        } else {
            (S as i128 * (data[i] as i128 - mean)).div_euclid(2 * deviation)
        };
        assert_eq!(out[i] as i128, expected);
    }
}

#[test]
fn stochastic_equals_a_scan_of_each_window() {
    let close = pseudo_random(50, 71);
    let spread = pseudo_random(50, 72);
    let high: Vec<i64> = (0..50).map(|i| close[i] + spread[i].rem_euclid(1000)).collect();
    let low: Vec<i64> = (0..50).map(|i| close[i] - spread[i].rem_euclid(777)).collect();
    let p: usize = 4;
    let out = stochastic(&high, &low, &close, p as i64).unwrap();
    for i in 0..50 {
        if i + 1 < p {
            assert_eq!(out[i], 0);
            continue;
        }
        let highest: i128 = *high[i + 1 - p..i + 1].iter().max().unwrap() as i128;
        let lowest: i128 = *low[i + 1 - p..i + 1].iter().min().unwrap() as i128;
        let expected: i128 = if highest == lowest {
            0
        } else {
            ((close[i] as i128 - lowest) * 100 * S as i128).div_euclid(highest - lowest)
        };
        assert_eq!(out[i] as i128, expected);
        assert!(0 <= out[i] && out[i] <= 100 * S);
    }
}

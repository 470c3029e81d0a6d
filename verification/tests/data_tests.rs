use backtest::binance_data::{advance_date, binance_data_url, parse_binance_kline};
use backtest::rational::Rat;
use chrono::NaiveDate;

fn ts_hms(year: i32, month: u32, day: u32, h: u32, m: u32, s: u32) -> i64 {
    NaiveDate::from_ymd_opt(year, month, day)
        .unwrap()
        .and_hms_opt(h, m, s)
        .unwrap()
        .and_utc()
        .timestamp()
}

#[test]
fn test_parse_binance_kline() {
    let test_string: &str = "1635739200000,4191.50000000,4320.00000000,4146.30000000,4302.93000000,88831.99690000,1635753599999,376834938.78850900,216236,45666.95420000,193846769.34658200,0";
    let result = parse_binance_kline(test_string).unwrap();
    assert_eq!(result.start_time, ts_hms(2021, 11, 1, 4, 0, 0));
    assert!(result.open.equals(&Rat::new(41915, 10)));
    assert!(result.close.equals(&Rat::new(4320, 1)));
    assert!(result.high.equals(&Rat::new(41463, 10)));
    assert!(result.low.equals(&Rat::new(430293, 100)));
    assert!(result.volume.equals(&Rat::new(888319969, 10000)));
    assert_eq!(result.end_time, ts_hms(2021, 11, 1, 7, 59, 59));
}

#[test]
fn test_parse_rejects_lines_without_separator() {
    assert!(parse_binance_kline("").is_none());
    assert!(parse_binance_kline("not a kline").is_none());
    assert!(parse_binance_kline("1635739200000").is_none());
}

#[test]
fn test_parse_rejects_short_lines() {
    // Six fields: the end timestamp is missing.
    assert!(parse_binance_kline("1000,1,2,3,4,5").is_none());
}

#[test]
fn test_parse_minimal_line() {
    let k = parse_binance_kline("1000,1,2,3,4,5,2000").unwrap();
    assert_eq!(k.start_time, 1);
    assert_eq!(k.end_time, 2);
    assert!(k.open.equals(&Rat::new(1, 1)));
    assert!(k.close.equals(&Rat::new(2, 1)));
    assert!(k.high.equals(&Rat::new(3, 1)));
    assert!(k.low.equals(&Rat::new(4, 1)));
    assert!(k.volume.equals(&Rat::new(5, 1)));
}

#[test]
fn test_parse_decimal_edges() {
    // A trailing point and a leading point are both plain decimals.
    let k = parse_binance_kline("1000,1.,2,3,4,.5,2000").unwrap();
    assert!(k.open.equals(&Rat::new(1, 1)));
    assert!(k.volume.equals(&Rat::new(5, 10)));
    // Two points in one number are not.
    assert!(parse_binance_kline("1000,1.5.2,2,3,4,5,2000").is_none());
    // Scientific notation is not part of the archive's format.
    assert!(parse_binance_kline("1000,1e5,2,3,4,5,2000").is_none());
    // An empty price field is rejected.
    assert!(parse_binance_kline("1000,,2,3,4,5,2000").is_none());
}

#[test]
fn test_parse_rejects_bad_timestamps() {
    // A non-digit timestamp.
    assert!(parse_binance_kline("10a0,1,2,3,4,5,2000").is_none());
    // Milliseconds that no longer fit a 64-bit count.
    assert!(parse_binance_kline("99999999999999999999,1,2,3,4,5,2000").is_none());
    // Seconds beyond the supported calendar range.
    assert!(parse_binance_kline("9223372036854775000,1,2,3,4,5,2000").is_none());
}

#[test]
fn test_advance_date_within_current_month() {
    assert_eq!(advance_date(2021, 9, 14, true), (2021, 9, 15));
    assert_eq!(advance_date(2021, 9, 30, true), (2021, 10, 1));
    assert_eq!(advance_date(2021, 12, 31, true), (2022, 1, 1));
    // Leap-year February.
    assert_eq!(advance_date(2020, 2, 28, true), (2020, 2, 29));
    assert_eq!(advance_date(2021, 2, 28, true), (2021, 3, 1));
    assert_eq!(advance_date(1900, 2, 28, true), (1900, 3, 1));
    assert_eq!(advance_date(2000, 2, 28, true), (2000, 2, 29));
}

#[test]
fn test_advance_date_past_month_steps_to_next_month() {
    assert_eq!(advance_date(2021, 3, 5, false), (2021, 4, 1));
    assert_eq!(advance_date(2021, 12, 25, false), (2022, 1, 1));
}

#[test]
fn test_binance_data_url_monthly() {
    let url = binance_data_url("ETHUSDT", "1h", 2021, 9, 14, false);
    assert_eq!(
        url,
        "https://data.binance.vision/data/spot/monthly/klines/ETHUSDT/1h/ETHUSDT-1h-2021-09.zip"
    );
}

#[test]
fn test_binance_data_url_daily() {
    let url = binance_data_url("BTCUSDT", "1h", 2021, 11, 3, true);
    assert_eq!(
        url,
        "https://data.binance.vision/data/spot/daily/klines/BTCUSDT/1h/BTCUSDT-1h-2021-11-03.zip"
    );
}

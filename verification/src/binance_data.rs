//! The price-bar record fed to the execution loop, and parsing of the
//! exchange's CSV kline lines into it.
//!
//! A kline (candle) aggregates one interval: open/high/low/close prices,
//! traded volume, and the interval's start and end timestamps in seconds
//! since the UNIX epoch.

use crate::rational::Rat;
use vstd::prelude::*;
use vstd::slice::{slice_index_get, slice_subrange};
use vstd::string::StringSliceAdditionalSpecFns;

verus! {

/// Timestamps the core works with: non-negative seconds since the UNIX
/// epoch, no later than the year 9999.
pub open spec fn valid_timestamp(t: int) -> bool {
    0 <= t <= 253_402_207_200
}

/// One interval's aggregated price record.
#[derive(Clone, Copy, Debug)]
pub struct BinanceKline {
    pub start_time: i64,
    pub open: Rat,
    pub close: Rat,
    pub high: Rat,
    pub low: Rat,
    pub volume: Rat,
    pub end_time: i64,
}

impl BinanceKline {
    /// All amounts are well-formed rationals and both timestamps are in
    /// the supported range.
    pub open spec fn wf(self) -> bool {
        &&& self.open.wf()
        &&& self.close.wf()
        &&& self.high.wf()
        &&& self.low.wf()
        &&& self.volume.wf()
        &&& valid_timestamp(self.start_time as int)
        &&& valid_timestamp(self.end_time as int)
    }

    /// The interval's opening price.
    pub fn open(&self) -> (r: Rat)
        ensures
            r == self.open,
    {
        self.open
    }

    /// The interval's closing price.
    pub fn close(&self) -> (r: Rat)
        ensures
            r == self.close,
    {
        self.close
    }

    /// The interval's highest price.
    pub fn high(&self) -> (r: Rat)
        ensures
            r == self.high,
    {
        self.high
    }

    /// The interval's lowest price.
    pub fn low(&self) -> (r: Rat)
        ensures
            r == self.low,
    {
        self.low
    }

    /// The interval's traded volume.
    pub fn volume(&self) -> (r: Rat)
        ensures
            r == self.volume,
    {
        self.volume
    }
}

// ---------------------------------------------------------------------------
// Calendar stepping for the archive download schedule.
// ---------------------------------------------------------------------------

/// The Gregorian leap-year rule.
pub open spec fn is_leap_year(y: int) -> bool {
    (y % 4 == 0 && y % 100 != 0) || y % 400 == 0
}

/// How many days the month has.
pub open spec fn days_in_month_spec(y: int, m: int) -> int {
    if m == 2 {
        if is_leap_year(y) {
            29
        } else {
            28
        }
    } else if m == 4 || m == 6 || m == 9 || m == 11 {
        30
    } else {
        31
    }
}

/// How many days the month has.
pub fn days_in_month(year: i32, month: u32) -> (d: u32)
    requires
        year >= 1,
        1 <= month <= 12,
    ensures
        d == days_in_month_spec(year as int, month as int),
{
    if month == 2 {
        if (year % 4 == 0 && year % 100 != 0) || year % 400 == 0 {
            29
        } else {
            28
        }
    } else if month == 4 || month == 6 || month == 9 || month == 11 {
        30
    } else {
        31
    }
}

/// Whether a year and month are the month a clock currently reads. The
/// caller supplies the current year and month; the archive offers
/// daily files for the running month and monthly files for past months.
pub fn is_current_month(year: i32, month: u32, current_year: i32, current_month: u32) -> (b: bool)
    ensures
        b == (year == current_year && month == current_month),
{
    year == current_year && month == current_month
}

/// Steps the download schedule forward: by one whole month for a past
/// month (to the first day of the next month), and by one day within the
/// running month.
pub fn advance_date(year: i32, month: u32, day: u32, in_current_month: bool) -> (r: (
    i32,
    u32,
    u32,
))
    requires
        1 <= year < 0x7fff_ffff,
        1 <= month <= 12,
        1 <= day <= days_in_month_spec(year as int, month as int),
    ensures
        !in_current_month ==> r == (if month < 12 {
            ((year) as i32, (month + 1) as u32, 1u32)
        } else {
            ((year + 1) as i32, 1u32, 1u32)
        }),
        in_current_month ==> r == (if day < days_in_month_spec(year as int, month as int) {
            ((year) as i32, (month) as u32, (day + 1) as u32)
        } else if month < 12 {
            ((year) as i32, (month + 1) as u32, 1u32)
        } else {
            ((year + 1) as i32, 1u32, 1u32)
        }),
{
    if !in_current_month {
        if month < 12 {
            (year, month + 1, 1)
        } else {
            (year + 1, 1, 1)
        }
    } else {
        let dim: u32 = days_in_month(year, month);
        if day < dim {
            (year, month, day + 1)
        } else if month < 12 {
            (year, month + 1, 1)
        } else {
            (year + 1, 1, 1)
        }
    }
}

// ---------------------------------------------------------------------------
// The archive's URL scheme.
// ---------------------------------------------------------------------------

/// The character of one decimal digit.
pub open spec fn digit_char(d: int) -> char {
    if d == 0 {
        '0'
    } else if d == 1 {
        '1'
    } else if d == 2 {
        '2'
    } else if d == 3 {
        '3'
    } else if d == 4 {
        '4'
    } else if d == 5 {
        '5'
    } else if d == 6 {
        '6'
    } else if d == 7 {
        '7'
    } else if d == 8 {
        '8'
    } else {
        '9'
    }
}

/// The decimal digits of a non-negative integer, most significant first.
pub open spec fn dec_chars(n: int) -> Seq<char>
    decreases n,
{
    if n < 10 {
        seq![digit_char(n)]
    } else {
        dec_chars(n / 10).push(digit_char(n % 10))
    }
}

/// The decimal digits, zero-padded to at least two places.
pub open spec fn dec2_chars(n: int) -> Seq<char> {
    if n < 10 {
        seq!['0', digit_char(n)]
    } else {
        dec_chars(n)
    }
}

/// The name of one archive file: `symbol-interval-year-month.zip` for a
/// past month, `symbol-interval-year-month-day.zip` for a day of the
/// running month, with month and day zero-padded to two places.
pub open spec fn kline_file_name(
    symbol: Seq<char>,
    interval: Seq<char>,
    year: int,
    month: int,
    day: int,
    daily: bool,
) -> Seq<char> {
    let base = symbol + "-"@ + interval + "-"@ + dec_chars(year) + "-"@ + dec2_chars(month);
    if daily {
        base + "-"@ + dec2_chars(day) + ".zip"@
    } else {
        base + ".zip"@
    }
}

/// The full URL of one archive file.
pub open spec fn kline_url(
    symbol: Seq<char>,
    interval: Seq<char>,
    year: int,
    month: int,
    day: int,
    daily: bool,
) -> Seq<char> {
    "https://data.binance.vision/data/spot/"@ + (if daily {
        "daily"@
    } else {
        "monthly"@
    }) + "/klines/"@ + symbol + "/"@ + interval + "/"@ + kline_file_name(
        symbol,
        interval,
        year,
        month,
        day,
        daily,
    )
}

/// One decimal digit as a string slice.
fn digit_str(d: u32) -> (r: &'static str)
    requires
        d < 10,
    ensures
        r@ == seq![digit_char(d as int)],
{
    let r: &'static str = if d == 0 {
        "0"
    } else if d == 1 {
        "1"
    } else if d == 2 {
        "2"
    } else if d == 3 {
        "3"
    } else if d == 4 {
        "4"
    } else if d == 5 {
        "5"
    } else if d == 6 {
        "6"
    } else if d == 7 {
        "7"
    } else if d == 8 {
        "8"
    } else {
        "9"
    };
    proof {
        reveal_strlit("0");
        reveal_strlit("1");
        reveal_strlit("2");
        reveal_strlit("3");
        reveal_strlit("4");
        reveal_strlit("5");
        reveal_strlit("6");
        reveal_strlit("7");
        reveal_strlit("8");
        reveal_strlit("9");
        assert(r@ =~= seq![digit_char(d as int)]);
    }
    r
}

/// Renders a number in decimal.
fn u32_to_string(n: u32) -> (r: String)
    ensures
        r@ == dec_chars(n as int),
    decreases n,
{
    if n < 10 {
        let s: String = digit_str(n).to_owned();
        s
    } else {
        let mut s: String = u32_to_string(n / 10);
        s.append(digit_str(n % 10));
        proof {
            assert(s@ =~= dec_chars(n as int));
        }
        s
    }
}

/// Renders a number in decimal, zero-padded to at least two places.
fn u32_to_string2(n: u32) -> (r: String)
    ensures
        r@ == dec2_chars(n as int),
{
    if n < 10 {
        let mut s: String = String::from_str("0");
        s.append(digit_str(n));
        proof {
            reveal_strlit("0");
            assert(s@ =~= dec2_chars(n as int));
        }
        s
    } else {
        u32_to_string(n)
    }
}

/// Builds the URL of the archive file covering a date: the monthly file
/// for a past month, the daily file within the running month.
pub fn binance_data_url(
    symbol: &str,
    interval: &str,
    year: i32,
    month: u32,
    day: u32,
    in_current_month: bool,
) -> (url: String)
    requires
        1 <= year,
        1 <= month <= 12,
        1 <= day <= 31,
    ensures
        url@ == kline_url(
            symbol@,
            interval@,
            year as int,
            month as int,
            day as int,
            in_current_month,
        ),
{
    let mut url: String = String::from_str("https://data.binance.vision/data/spot/");
    if in_current_month {
        url.append("daily");
    } else {
        url.append("monthly");
    }
    url.append("/klines/");
    url.append(symbol);
    url.append("/");
    url.append(interval);
    url.append("/");
    url.append(symbol);
    url.append("-");
    url.append(interval);
    url.append("-");
    let ys: String = u32_to_string(year as u32);
    url.append(ys.as_str());
    url.append("-");
    let ms: String = u32_to_string2(month);
    url.append(ms.as_str());
    if in_current_month {
        url.append("-");
        let ds: String = u32_to_string2(day);
        url.append(ds.as_str());
    }
    url.append(".zip");
    proof {
        assert(url@ =~= kline_url(
            symbol@,
            interval@,
            year as int,
            month as int,
            day as int,
            in_current_month,
        ));
    }
    url
}

// ---------------------------------------------------------------------------
// The grammar of one CSV kline line.
// ---------------------------------------------------------------------------

/// The byte is an ASCII decimal digit.
pub open spec fn is_digit(b: u8) -> bool {
    48 <= b <= 57
}

/// Every byte of the sequence is an ASCII decimal digit.
pub open spec fn all_digits(s: Seq<u8>) -> bool {
    forall|i: int| 0 <= i < s.len() ==> is_digit(#[trigger] s[i])
}

/// The number a sequence of decimal digits denotes, most significant
/// first; zero for the empty sequence.
pub open spec fn digits_val(s: Seq<u8>) -> int
    decreases s.len(),
{
    if s.len() == 0 {
        0
    } else {
        digits_val(s.drop_last()) * 10 + (s.last() - 48)
    }
}

/// Ten to the `n`-th power.
pub open spec fn pow10(n: nat) -> int
    decreases n,
{
    if n == 0 {
        1
    } else {
        pow10((n - 1) as nat) * 10
    }
}

/// The position of the first occurrence of `b` in `s`, or `s.len()` when
/// `b` does not occur.
pub open spec fn first_byte(s: Seq<u8>, b: u8) -> int
    decreases s.len(),
{
    if s.len() == 0 {
        0
    } else if s[0] == b {
        0
    } else {
        1 + first_byte(s.drop_first(), b)
    }
}

/// `first_byte` finds the first occurrence: everything before it differs
/// from `b`, and the position itself holds `b` when one occurs.
pub proof fn lemma_first_byte(s: Seq<u8>, b: u8)
    ensures
        0 <= first_byte(s, b) <= s.len(),
        first_byte(s, b) < s.len() ==> s[first_byte(s, b)] == b,
        forall|j: int| 0 <= j < first_byte(s, b) ==> s[j] != b,
    decreases s.len(),
{
    if s.len() > 0 && s[0] != b {
        lemma_first_byte(s.drop_first(), b);
        assert forall|j: int| 0 <= j < first_byte(s, b) implies s[j] != b by {
            if j >= 1 {
                assert(s.drop_first()[j - 1] == s[j]);
            }
        }
    }
}

/// The sequence contains a separator.
pub open spec fn has_comma(s: Seq<u8>) -> bool {
    first_byte(s, 44) < s.len()
}

/// What is left of a line after dropping its first `k` comma-separated
/// fields (with their separators).
pub open spec fn rest_after(s: Seq<u8>, k: int) -> Seq<u8>
    decreases k,
{
    if k <= 0 {
        s
    } else {
        let t = rest_after(s, k - 1);
        t.skip(first_byte(t, 44) + 1)
    }
}

/// The `k`-th comma-separated field of a line.
pub open spec fn kline_field(s: Seq<u8>, k: int) -> Seq<u8> {
    let t = rest_after(s, k);
    t.take(first_byte(t, 44))
}

/// The field is a non-empty run of digits whose value fits in `i64`.
pub open spec fn int_field_ok(f: Seq<u8>) -> bool {
    f.len() > 0 && all_digits(f) && digits_val(f) <= i64::MAX
}

/// The field is a plain decimal number: digits with at most one point
/// and at least one digit.
pub open spec fn valid_decimal(s: Seq<u8>) -> bool {
    let d = first_byte(s, 46);
    if d == s.len() {
        s.len() > 0 && all_digits(s)
    } else {
        all_digits(s.take(d)) && all_digits(s.skip(d + 1)) && s.len() > 1
    }
}

/// The numerator of the decimal field: all its digits read as one
/// number.
pub open spec fn decimal_num(s: Seq<u8>) -> int {
    let d = first_byte(s, 46);
    if d == s.len() {
        digits_val(s)
    } else {
        digits_val(s.take(d)) * pow10(s.skip(d + 1).len()) + digits_val(s.skip(d + 1))
    }
}

/// The denominator of the decimal field: ten to the number of fractional
/// digits.
pub open spec fn decimal_den(s: Seq<u8>) -> int {
    let d = first_byte(s, 46);
    if d == s.len() {
        1
    } else {
        pow10(s.skip(d + 1).len())
    }
}

/// The field is a decimal number both of whose exact components fit in
/// `i64`.
pub open spec fn dec_field_ok(f: Seq<u8>) -> bool {
    valid_decimal(f) && decimal_num(f) <= i64::MAX && decimal_den(f) <= i64::MAX
}

/// The timestamp field holds milliseconds whose second count is in the
/// supported range.
pub open spec fn ts_field_ok(f: Seq<u8>) -> bool {
    int_field_ok(f) && valid_timestamp(digits_val(f) / 1000)
}

/// The whole line parses: seven comma-separated fields — start time,
/// open, close, high, low, volume, end time — with both timestamps in
/// range and every decimal exactly representable.
pub open spec fn kline_line_ok(s: Seq<u8>) -> bool {
    &&& has_comma(rest_after(s, 0))
    &&& has_comma(rest_after(s, 1))
    &&& has_comma(rest_after(s, 2))
    &&& has_comma(rest_after(s, 3))
    &&& has_comma(rest_after(s, 4))
    &&& has_comma(rest_after(s, 5))
    &&& ts_field_ok(kline_field(s, 0))
    &&& dec_field_ok(kline_field(s, 1))
    &&& dec_field_ok(kline_field(s, 2))
    &&& dec_field_ok(kline_field(s, 3))
    &&& dec_field_ok(kline_field(s, 4))
    &&& dec_field_ok(kline_field(s, 5))
    &&& ts_field_ok(kline_field(s, 6))
}

// ---------------------------------------------------------------------------
// Digit scanning.
// ---------------------------------------------------------------------------

/// The number obtained by continuing to read digits after an accumulated
/// prefix value.
pub open spec fn scan_val(acc: int, s: Seq<u8>) -> int
    decreases s.len(),
{
    if s.len() == 0 {
        acc
    } else {
        scan_val(acc, s.drop_last()) * 10 + (s.last() - 48)
    }
}

/// Scanning from an accumulator shifts the accumulator past the new
/// digits: `scan_val(acc, s) == acc * 10^|s| + digits_val(s)`.
proof fn lemma_scan_val(acc: int, s: Seq<u8>)
    ensures
        scan_val(acc, s) == acc * pow10(s.len()) + digits_val(s),
    decreases s.len(),
{
    if s.len() == 0 {
        assert(acc * 1 == acc) by (nonlinear_arith);
    } else {
        lemma_scan_val(acc, s.drop_last());
        let p: int = pow10(s.drop_last().len());
        assert((acc * p + digits_val(s.drop_last())) * 10 + (s.last() - 48) == acc * (p * 10)
            + digits_val(s.drop_last()) * 10 + (s.last() - 48)) by (nonlinear_arith);
    }
}

/// With non-negative accumulator and digits, the scanned value only grows
/// as more digits are read.
proof fn lemma_scan_val_monotone(acc: int, s: Seq<u8>, i: int)
    requires
        acc >= 0,
        all_digits(s),
        0 <= i <= s.len(),
    ensures
        scan_val(acc, s.take(i)) >= acc,
        scan_val(acc, s) >= scan_val(acc, s.take(i)),
        scan_val(acc, s.take(i)) >= 0,
    decreases s.len() - i,
{
    if i == s.len() {
        assert(s.take(i) =~= s);
        lemma_scan_val_rising(acc, s);
    } else {
        lemma_scan_val_monotone(acc, s, i + 1);
        assert(s.take(i + 1).drop_last() =~= s.take(i));
        assert(s.take(i + 1).last() == s[i]);
        lemma_scan_val_rising(acc, s.take(i));
    }
}

/// With non-negative accumulator and digits, the scanned value is at
/// least the accumulator and non-negative.
proof fn lemma_scan_val_rising(acc: int, s: Seq<u8>)
    requires
        acc >= 0,
        all_digits(s),
    ensures
        scan_val(acc, s) >= acc,
        scan_val(acc, s) >= 0,
    decreases s.len(),
{
    if s.len() > 0 {
        assert(all_digits(s.drop_last())) by {
            assert(forall|j: int| 0 <= j < s.len() - 1 ==> s.drop_last()[j] == s[j]);
        }
        lemma_scan_val_rising(acc, s.drop_last());
        assert(is_digit(s.last()));
    }
}

/// Reads a run of digits, continuing from an already-accumulated value;
/// fails exactly on a non-digit or when the value leaves `i64`.
fn scan_digits(s: &[u8], acc0: i64) -> (r: Option<i64>)
    requires
        acc0 >= 0,
    ensures
        r is Some <==> all_digits(s@) && scan_val(acc0 as int, s@) <= i64::MAX,
        r matches Some(v) ==> v >= 0 && v as int == scan_val(acc0 as int, s@),
{
    let ghost whole = s@;
    let n: usize = s.len();
    let mut acc: i64 = acc0;
    let mut i: usize = 0;
    while i < n
        invariant
            0 <= i <= n,
            n == s@.len(),
            acc0 >= 0,
            acc >= 0,
            all_digits(s@.take(i as int)),
            acc as int == scan_val(acc0 as int, s@.take(i as int)),
        decreases n - i,
    {
        let c: u8 = *slice_index_get(s, i);
        proof {
            assert(s@.take(i as int + 1).drop_last() =~= s@.take(i as int));
            assert(s@.take(i as int + 1).last() == s@[i as int]);
        }
        if c < 48 || c > 57 {
            proof {
                assert(!is_digit(s@[i as int]));
            }
            return None;
        }
        let d: i64 = (c - 48) as i64;
        if acc > (i64::MAX - d) / 10 {
            proof {
                assert(acc * 10 + d > i64::MAX) by (nonlinear_arith)
                    requires
                        acc > (0x7fff_ffff_ffff_ffff - d) / 10,
                        0 <= d <= 9,
                        acc >= 0,
                ;
                if all_digits(s@) {
                    lemma_scan_val_monotone(acc0 as int, s@, i as int + 1);
                }
            }
            return None;
        }
        acc = acc * 10 + d;
        i = i + 1;
    }
    proof {
        assert(s@.take(n as int) =~= s@);
    }
    Some(acc)
}

/// Finds the first occurrence of a byte.
fn find_byte(s: &[u8], b: u8) -> (r: Option<usize>)
    ensures
        r matches Some(i) ==> i as int == first_byte(s@, b) && i < s@.len(),
        r is None ==> first_byte(s@, b) == s@.len(),
{
    proof {
        lemma_first_byte(s@, b);
    }
    let n: usize = s.len();
    let mut i: usize = 0;
    while i < n
        invariant
            0 <= i <= n,
            n == s@.len(),
            forall|j: int| 0 <= j < i ==> s@[j] != b,
        decreases n - i,
    {
        if *slice_index_get(s, i) == b {
            proof {
                lemma_first_byte(s@, b);
                let fb = first_byte(s@, b);
                if fb < i {
                    assert(s@[fb] != b);
                }
                if fb > i {
                    assert(s@[i as int] != b);
                }
            }
            return Some(i);
        }
        i = i + 1;
    }
    None
}

/// Computes ten to the `n`-th power; fails exactly when it leaves `i64`.
fn pow10_exec(n: usize) -> (r: Option<i64>)
    ensures
        r is Some <==> pow10(n as nat) <= i64::MAX,
        r matches Some(v) ==> v >= 1 && v as int == pow10(n as nat),
{
    proof {
        lemma_pow10_pos(n as nat);
    }
    let mut acc: i64 = 1;
    let mut i: usize = 0;
    while i < n
        invariant
            0 <= i <= n,
            acc >= 1,
            acc as int == pow10(i as nat),
        decreases n - i,
    {
        proof {
            lemma_pow10_pos(i as nat + 1);
        }
        if acc > 0x7fff_ffff_ffff_ffffi64 / 10 {
            proof {
                assert(acc * 10 > i64::MAX) by (nonlinear_arith)
                    requires
                        acc > 0x7fff_ffff_ffff_ffffint / 10,
                        acc >= 1,
                ;
                lemma_pow10_monotone(i as nat + 1, n as nat);
            }
            return None;
        }
        acc = acc * 10;
        i = i + 1;
    }
    Some(acc)
}

/// Ten to any power is positive.
proof fn lemma_pow10_pos(n: nat)
    ensures
        pow10(n) >= 1,
    decreases n,
{
    if n > 0 {
        lemma_pow10_pos((n - 1) as nat);
        assert(pow10((n - 1) as nat) * 10 >= 10) by (nonlinear_arith)
            requires
                pow10((n - 1) as nat) >= 1,
        ;
    }
}

/// Powers of ten grow with the exponent.
proof fn lemma_pow10_monotone(a: nat, b: nat)
    requires
        a <= b,
    ensures
        pow10(a) <= pow10(b),
    decreases b,
{
    if a < b {
        lemma_pow10_monotone(a, (b - 1) as nat);
        lemma_pow10_pos((b - 1) as nat);
        assert(pow10((b - 1) as nat) * 10 >= pow10((b - 1) as nat)) by (nonlinear_arith)
            requires
                pow10((b - 1) as nat) >= 1,
        ;
    }
}

/// Parses a non-empty run of digits as an `i64`.
fn parse_digits_i64(s: &[u8]) -> (r: Option<i64>)
    ensures
        r is Some <==> int_field_ok(s@),
        r matches Some(v) ==> v >= 0 && v as int == digits_val(s@),
{
    proof {
        lemma_scan_val(0, s@);
    }
    if s.len() == 0 {
        return None;
    }
    scan_digits(s, 0)
}

/// Parses a decimal field into an exact rational.
fn parse_decimal(s: &[u8]) -> (r: Option<Rat>)
    ensures
        r is Some <==> dec_field_ok(s@),
        r matches Some(q) ==> q.wf() && q.v() == (decimal_num(s@), decimal_den(s@)),
{
    proof {
        lemma_first_byte(s@, 46);
    }
    match find_byte(s, 46) {
        None => match parse_digits_i64(s) {
            Some(v) => Some(Rat::new(v, 1)),
            None => None,
        },
        Some(d) => {
            if s.len() <= 1 {
                return None;
            }
            let ip: &[u8] = slice_subrange(s, 0, d);
            let fp: &[u8] = slice_subrange(s, d + 1, s.len());
            let ghost ipv = digits_val(s@.take(d as int));
            let ghost fpl = s@.skip(d as int + 1).len();
            let iv: i64 = match scan_digits(ip, 0) {
                Some(v) => v,
                None => {
                    proof {
                        lemma_scan_val(0, ip@);
                        if all_digits(ip@) && all_digits(fp@) {
                            // An integer part too large for i64 makes the
                            // whole numerator too large.
                            lemma_scan_val(0, fp@);
                            lemma_scan_val_rising(0, fp@);
                            lemma_pow10_pos(fpl);
                            assert(ipv * pow10(fpl) >= ipv) by (nonlinear_arith)
                                requires
                                    pow10(fpl) >= 1,
                                    ipv > 0x7fff_ffff_ffff_ffffint,
                            ;
                        }
                    }
                    return None;
                },
            };
            proof {
                lemma_scan_val(0, ip@);
                lemma_scan_val(iv as int, fp@);
            }
            let num: i64 = match scan_digits(fp, iv) {
                Some(v) => v,
                None => { return None },
            };
            let den: i64 = match pow10_exec(fp.len()) {
                Some(v) => v,
                None => { return None },
            };
            Some(Rat::new(num, den))
        },
    }
}

// ---------------------------------------------------------------------------
// Parsing one kline line.
// ---------------------------------------------------------------------------

/// Splits off the first comma-separated field; fails when the input has
/// no separator.
fn split_first_field<'a>(s: &'a [u8]) -> (r: Option<(&'a [u8], &'a [u8])>)
    ensures
        r matches Some(p) ==> has_comma(s@) && p.0@ == s@.take(first_byte(s@, 44)) && p.1@
            == s@.skip(first_byte(s@, 44) + 1),
        r is None ==> !has_comma(s@),
{
    proof {
        lemma_first_byte(s@, 44);
    }
    let n: usize = s.len();
    match find_byte(s, 44) {
        Some(i) => {
            let head: &[u8] = slice_subrange(s, 0, i);
            let tail: &[u8] = slice_subrange(s, i + 1, n);
            Some((head, tail))
        },
        None => None,
    }
}

/// Parses a timestamp field: milliseconds as digits, reduced to seconds,
/// which must be in the supported range.
fn parse_ts_field(s: &[u8]) -> (r: Option<i64>)
    ensures
        r is Some <==> ts_field_ok(s@),
        r matches Some(v) ==> v as int == digits_val(s@) / 1000 && valid_timestamp(v as int),
{
    let ms: i64 = match parse_digits_i64(s) {
        Some(v) => v,
        None => { return None },
    };
    let secs: i64 = ms / 1000;
    if secs > 253_402_207_200 {
        return None;
    }
    Some(secs)
}

/// Parses one CSV line of the exchange's kline archive into a price bar:
/// start time (ms), open, close, high, low, volume, end time (ms); any
/// further fields are ignored. Returns `None` exactly when the line does
/// not have this shape, a decimal does not fit the exact representation,
/// or a timestamp is out of range.
pub fn parse_binance_kline(data: &str) -> (r: Option<BinanceKline>)
    ensures
        r is Some <==> kline_line_ok(data.spec_bytes()),
        r matches Some(k) ==> {
            let s = data.spec_bytes();
            &&& k.wf()
            &&& k.start_time as int == digits_val(kline_field(s, 0)) / 1000
            &&& k.open.v() == (decimal_num(kline_field(s, 1)), decimal_den(kline_field(s, 1)))
            &&& k.close.v() == (decimal_num(kline_field(s, 2)), decimal_den(kline_field(s, 2)))
            &&& k.high.v() == (decimal_num(kline_field(s, 3)), decimal_den(kline_field(s, 3)))
            &&& k.low.v() == (decimal_num(kline_field(s, 4)), decimal_den(kline_field(s, 4)))
            &&& k.volume.v() == (decimal_num(kline_field(s, 5)), decimal_den(kline_field(s, 5)))
            &&& k.end_time as int == digits_val(kline_field(s, 6)) / 1000
        },
{
    let bytes: &[u8] = data.as_bytes();
    let ghost s = data.spec_bytes();
    let (f0, rest1): (&[u8], &[u8]) = match split_first_field(bytes) {
        Some(p) => p,
        None => { return None },
    };
    let (f1, rest2): (&[u8], &[u8]) = match split_first_field(rest1) {
        Some(p) => p,
        None => { return None },
    };
    let (f2, rest3): (&[u8], &[u8]) = match split_first_field(rest2) {
        Some(p) => p,
        None => { return None },
    };
    let (f3, rest4): (&[u8], &[u8]) = match split_first_field(rest3) {
        Some(p) => p,
        None => { return None },
    };
    let (f4, rest5): (&[u8], &[u8]) = match split_first_field(rest4) {
        Some(p) => p,
        None => { return None },
    };
    let (f5, rest6): (&[u8], &[u8]) = match split_first_field(rest5) {
        Some(p) => p,
        None => { return None },
    };
    let f6: &[u8] = match split_first_field(rest6) {
        Some(p) => p.0,
        None => rest6,
    };
    proof {
        assert(rest_after(s, 0) == s);
        assert(rest_after(s, 1) == rest1@);
        assert(rest_after(s, 2) == rest2@);
        assert(rest_after(s, 3) == rest3@);
        assert(rest_after(s, 4) == rest4@);
        assert(rest_after(s, 5) == rest5@);
        assert(rest_after(s, 6) == rest6@);
        assert(kline_field(s, 0) == f0@);
        assert(kline_field(s, 1) == f1@);
        assert(kline_field(s, 2) == f2@);
        assert(kline_field(s, 3) == f3@);
        assert(kline_field(s, 4) == f4@);
        assert(kline_field(s, 5) == f5@);
        lemma_first_byte(rest6@, 44);
        assert(kline_field(s, 6) == f6@) by {
            if !has_comma(rest6@) {
                assert(rest6@.take(first_byte(rest6@, 44)) =~= rest6@);
            }
        }
    }
    let start_time: i64 = match parse_ts_field(f0) {
        Some(v) => v,
        None => { return None },
    };
    let open: Rat = match parse_decimal(f1) {
        Some(v) => v,
        None => { return None },
    };
    let close: Rat = match parse_decimal(f2) {
        Some(v) => v,
        None => { return None },
    };
    let high: Rat = match parse_decimal(f3) {
        Some(v) => v,
        None => { return None },
    };
    let low: Rat = match parse_decimal(f4) {
        Some(v) => v,
        None => { return None },
    };
    let volume: Rat = match parse_decimal(f5) {
        Some(v) => v,
        None => { return None },
    };
    let end_time: i64 = match parse_ts_field(f6) {
        Some(v) => v,
        None => { return None },
    };
    Some(BinanceKline { start_time, open, close, high, low, volume, end_time })
}

} // verus!

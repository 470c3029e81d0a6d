//! The crate's own signal generators: buy-and-hold and
//! periodic-accumulation. Each advances one price bar at a time and emits
//! an ordered list of trade actions.

use crate::binance_data::{valid_timestamp, BinanceKline};
use crate::rational::Rat;
use vstd::prelude::*;

verus! {

/// A trading action emitted by a signal generator. `Hold` stands for the
/// absence of a signal; the strength payload is carried through but never
/// interpreted by the core.
#[derive(Clone, Copy, Debug, PartialEq, Eq, Structural)]
pub enum Action {
    Hold,
    Buy(u8),
    Sell(u8),
}

/// Why an indicator configuration was rejected.
#[derive(Clone, Copy, Debug, PartialEq, Eq, Structural)]
pub enum IndicatorError {
    InvalidConfig,
}

/// What one advance of an indicator yields: raw indicator values and an
/// ordered list of actions.
#[derive(Debug)]
pub struct IndicatorResult {
    pub values: Vec<Rat>,
    pub signals: Vec<Action>,
}

impl IndicatorResult {
    /// The ordered list of actions of this advance.
    pub fn signals(&self) -> (r: &Vec<Action>)
        ensures
            r == &self.signals,
    {
        &self.signals
    }
}

/// The calendar month (1 to 12), in UTC, of a UNIX timestamp.
pub uninterp spec fn month_of(t: int) -> int;

/// Relies on chrono's `DateTime::<Utc>::from_timestamp` and
/// `Datelike::month`: the calendar month in UTC is a function of the
/// timestamp alone and ranges over 1 to 12. `from_timestamp` is documented
/// to fail only on an out-of-range number of seconds, and every timestamp
/// up to the year 9999 is in range.
#[verifier::external_body]
pub(crate) fn timestamp_month(t: i64) -> (m: u32)
    requires
        valid_timestamp(t as int),
    ensures
        m as int == month_of(t as int),
        1 <= m <= 12,
{
    let dt = chrono::DateTime::<chrono::Utc>::from_timestamp(t, 0).expect("timestamp in range");
    chrono::Datelike::month(&dt)
}

/// A stateful signal generator consumed by the execution loop: one advance
/// per price bar.
pub trait BinanceIndicatorInstance: Sized {
    /// The indicator's validity invariant.
    spec fn wf(&self) -> bool;

    /// The actions the next advance will emit.
    spec fn next_signals_spec(&self, candle: BinanceKline) -> Seq<Action>;

    /// The raw indicator values the next advance will emit.
    spec fn next_values_spec(&self, candle: BinanceKline) -> Seq<Rat>;

    /// The indicator state after the next advance.
    spec fn advanced_spec(&self, candle: BinanceKline) -> Self;

    /// Advances the indicator by one bar and yields its actions.
    fn next_binance_kline(&mut self, candle: &BinanceKline) -> (r: IndicatorResult)
        requires
            old(self).wf(),
            candle.wf(),
        ensures
            r.signals@ == old(self).next_signals_spec(*candle),
            r.values@ == old(self).next_values_spec(*candle),
            *final(self) == old(self).advanced_spec(*candle),
            final(self).wf(),
    ;
}

// ---------------------------------------------------------------------------
// Buy-and-hold.
// ---------------------------------------------------------------------------

/// Configuration of the buy-and-hold signal: no parameters.
#[derive(Clone, Copy, Debug)]
pub struct HODL {}

/// The (stateless) buy-and-hold signal generator: it signals a buy on
/// every bar.
#[derive(Clone, Copy, Debug)]
pub struct HODLInstance {
    pub cfg: HODL,
}

impl HODL {
    /// Primes an instance from the first bar.
    pub fn init(self, _candle: &BinanceKline) -> (r: Result<HODLInstance, IndicatorError>)
        ensures
            r is Ok,
            r matches Ok(i) ==> i.wf(),
    {
        Ok(HODLInstance { cfg: self })
    }

    /// The configuration is always acceptable.
    pub fn validate(&self) -> (b: bool)
        ensures
            b,
    {
        true
    }

    /// There are no parameters to set; every assignment is accepted and
    /// ignored.
    pub fn set(&mut self, _name: &str, _value: String) -> (r: Result<(), IndicatorError>)
        ensures
            r is Ok,
            *final(self) == *old(self),
    {
        Ok(())
    }

    /// Zero raw values and one signal per advance.
    pub fn size(&self) -> (r: (u8, u8))
        ensures
            r == (0u8, 1u8),
    {
        (0, 1)
    }
}

impl Default for HODL {
    fn default() -> (r: Self)
        ensures
            r == (HODL {  }),
    {
        HODL {  }
    }
}

impl HODLInstance {
    /// The configuration this instance was built from.
    pub fn config(&self) -> (r: &HODL)
        ensures
            r == &self.cfg,
    {
        &self.cfg
    }
}

impl BinanceIndicatorInstance for HODLInstance {
    open spec fn wf(&self) -> bool {
        true
    }

    open spec fn next_signals_spec(&self, candle: BinanceKline) -> Seq<Action> {
        seq![Action::Buy(1u8)]
    }

    open spec fn next_values_spec(&self, candle: BinanceKline) -> Seq<Rat> {
        Seq::empty()
    }

    open spec fn advanced_spec(&self, candle: BinanceKline) -> Self {
        *self
    }

    fn next_binance_kline(&mut self, candle: &BinanceKline) -> (r: IndicatorResult) {
        let mut signals: Vec<Action> = Vec::new();
        signals.push(Action::Buy(1));
        proof {
            assert(signals@ =~= seq![Action::Buy(1u8)]);
        }
        IndicatorResult { values: Vec::new(), signals }
    }
}

// ---------------------------------------------------------------------------
// Periodic accumulation.
// ---------------------------------------------------------------------------

/// Configuration of the periodic-accumulation signal: no parameters.
#[derive(Clone, Copy, Debug)]
pub struct DCA {}

/// The periodic-accumulation signal generator: it signals a buy on the
/// first bar of each new calendar month.
#[derive(Clone, Copy, Debug)]
pub struct DCAInstance {
    pub cfg: DCA,
    pub last_timestamp: i64,
}

impl DCA {
    /// Primes an instance from the first bar: the bar's start time becomes
    /// the reference point for month changes.
    pub fn init(self, candle: &BinanceKline) -> (r: Result<DCAInstance, IndicatorError>)
        requires
            candle.wf(),
        ensures
            r is Ok,
            r matches Ok(i) ==> i.wf() && i.last_timestamp == candle.start_time,
    {
        Ok(DCAInstance { cfg: self, last_timestamp: candle.start_time })
    }

    /// The configuration is always acceptable.
    pub fn validate(&self) -> (b: bool)
        ensures
            b,
    {
        true
    }

    /// There are no parameters to set; every assignment is accepted and
    /// ignored.
    pub fn set(&mut self, _name: &str, _value: String) -> (r: Result<(), IndicatorError>)
        ensures
            r is Ok,
            *final(self) == *old(self),
    {
        Ok(())
    }

    /// Zero raw values and one signal per advance.
    pub fn size(&self) -> (r: (u8, u8))
        ensures
            r == (0u8, 1u8),
    {
        (0, 1)
    }
}

impl Default for DCA {
    fn default() -> (r: Self)
        ensures
            r == (DCA {  }),
    {
        DCA {  }
    }
}

impl DCAInstance {
    /// The configuration this instance was built from.
    pub fn config(&self) -> (r: &DCA)
        ensures
            r == &self.cfg,
    {
        &self.cfg
    }
}

impl BinanceIndicatorInstance for DCAInstance {
    open spec fn wf(&self) -> bool {
        valid_timestamp(self.last_timestamp as int)
    }

    open spec fn next_signals_spec(&self, candle: BinanceKline) -> Seq<Action> {
        if month_of(candle.start_time as int) != month_of(self.last_timestamp as int) {
            seq![Action::Buy(1u8)]
        } else {
            seq![Action::Hold]
        }
    }

    open spec fn next_values_spec(&self, candle: BinanceKline) -> Seq<Rat> {
        Seq::empty()
    }

    open spec fn advanced_spec(&self, candle: BinanceKline) -> Self {
        DCAInstance { cfg: self.cfg, last_timestamp: candle.start_time }
    }

    fn next_binance_kline(&mut self, candle: &BinanceKline) -> (r: IndicatorResult) {
        let current_month: u32 = timestamp_month(candle.start_time);
        let last_month: u32 = timestamp_month(self.last_timestamp);
        let action: Action = if current_month != last_month {
            Action::Buy(1)
        } else {
            Action::Hold
        };
        self.last_timestamp = candle.start_time;
        let mut signals: Vec<Action> = Vec::new();
        signals.push(action);
        proof {
            assert(signals@ =~= seq![action]);
        }
        IndicatorResult { values: Vec::new(), signals }
    }
}

} // verus!

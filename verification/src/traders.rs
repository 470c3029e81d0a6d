//! The execution layer: fee and stake-sizing models, the resolution of a
//! signal into a buy or sell, and the per-bar trading session that couples
//! a strategy to the account ledger.

use crate::account::{
    close_fits, close_result, mark_fits, mark_result, open_fits, open_result, Account,
    AccountError, AccountState, BuySellIndicator, Position,
};
use crate::binance_data::BinanceKline;
use crate::indicators::{Action, BinanceIndicatorInstance, DCAInstance, HODLInstance, DCA, HODL};
use crate::rational::{
    fits_i64, lemma_nonzero_product, lemma_pos_product, lemma_qdiv_cong, lemma_qeq_sign,
    lemma_qeq_trans, lemma_qmul_cong, lemma_rat_of_exact, nadd, ndiv, nmul, nsub, qadd, qdiv,
    qeq, qint, qmul, qnonneg, qpos, qsub, rat_of, Rat,
};
use vstd::prelude::*;

verus! {

/// The fee policy of a backtest run.
#[derive(Clone, Copy, Debug)]
pub enum TradingFee {
    /// A constant fee per trade, regardless of size.
    FixFee(Rat),
    /// A rate applied to the trade's notional. On the buy side the rate is
    /// grossed up (`stake * rate / (1 - rate)`); on the sell side it is
    /// charged directly on the proceeds.
    PercentageFee(Rat),
}

/// The position-sizing policy of a backtest run; used on the buy path
/// only, a sell always closes the whole position.
#[derive(Clone, Copy, Debug)]
pub enum StakeSize {
    /// Always stake this absolute notional.
    FixAmount(Rat),
    /// Stake this fraction of the available fund.
    FixPercentage(Rat),
}

impl TradingFee {
    /// The configured amount or rate is a well-formed rational; a
    /// percentage rate of exactly one is excluded, since the buy-side
    /// gross-up divides by `1 - rate`.
    pub open spec fn wf(self) -> bool {
        match self {
            TradingFee::FixFee(f) => f.wf(),
            TradingFee::PercentageFee(p) => p.wf() && !qeq(p.v(), qint(1)),
        }
    }
}

impl StakeSize {
    /// The configured amount or fraction is a well-formed rational.
    pub open spec fn wf(self) -> bool {
        match self {
            StakeSize::FixAmount(a) => a.wf(),
            StakeSize::FixPercentage(p) => p.wf(),
        }
    }
}

// ---------------------------------------------------------------------------
// Stake and fee computation.
// ---------------------------------------------------------------------------

/// The intended notional of a buy: what [`compute_stake`] returns.
pub open spec fn stake_val(ss: StakeSize, fund: (int, int)) -> (int, int) {
    match ss {
        StakeSize::FixAmount(a) => a.v(),
        StakeSize::FixPercentage(p) => nmul(fund, p.v()),
    }
}

/// The stake computation stays representable.
pub open spec fn stake_ok(ss: StakeSize, fund: (int, int)) -> bool {
    match ss {
        StakeSize::FixAmount(_) => true,
        StakeSize::FixPercentage(p) => fits_i64(nmul(fund, p.v())),
    }
}

/// The buy-side fee: what [`compute_buy_fee`] returns.
pub open spec fn buy_fee_val(tf: TradingFee, stake: (int, int)) -> (int, int) {
    match tf {
        TradingFee::FixFee(f) => f.v(),
        TradingFee::PercentageFee(p) => ndiv(nmul(stake, p.v()), nsub(qint(1), p.v())),
    }
}

/// The buy-side fee computation stays representable.
pub open spec fn buy_fee_ok(tf: TradingFee, stake: (int, int)) -> bool {
    match tf {
        TradingFee::FixFee(_) => true,
        TradingFee::PercentageFee(p) => fits_i64(nsub(qint(1), p.v())) && fits_i64(
            nmul(stake, p.v()),
        ) && fits_i64(ndiv(nmul(stake, p.v()), nsub(qint(1), p.v()))),
    }
}

/// The sell-side fee: what [`compute_sell_fee`] returns.
pub open spec fn sell_fee_val(tf: TradingFee, price: (int, int), qty: (int, int)) -> (int, int) {
    match tf {
        TradingFee::FixFee(f) => f.v(),
        TradingFee::PercentageFee(p) => nmul(nmul(price, qty), p.v()),
    }
}

/// The sell-side fee computation stays representable.
pub open spec fn sell_fee_ok(tf: TradingFee, price: (int, int), qty: (int, int)) -> bool {
    match tf {
        TradingFee::FixFee(_) => true,
        TradingFee::PercentageFee(p) => fits_i64(nmul(price, qty)) && fits_i64(
            nmul(nmul(price, qty), p.v()),
        ),
    }
}

/// Resolves the sizing policy against the available fund.
pub fn compute_stake(stake_size: &StakeSize, fund: &Rat) -> (r: Result<Rat, AccountError>)
    requires
        stake_size.wf(),
        fund.wf(),
    ensures
        r is Ok <==> stake_ok(*stake_size, fund.v()),
        r is Err ==> r == Err::<Rat, AccountError>(AccountError::Overflow),
        r matches Ok(s) ==> s.wf() && s.v() == stake_val(*stake_size, fund.v()) && qeq(
            s.v(),
            match *stake_size {
                StakeSize::FixAmount(a) => a.v(),
                StakeSize::FixPercentage(p) => qmul(fund.v(), p.v()),
            },
        ),
{
    match stake_size {
        StakeSize::FixAmount(amount) => Ok(*amount),
        StakeSize::FixPercentage(pct) => match fund.mul(pct) {
            Some(v) => Ok(v),
            None => Err(AccountError::Overflow),
        },
    }
}

/// Computes the buy-side fee for a given stake: constant, or the grossed
/// up `stake * rate / (1 - rate)` so that `stake + fee` is the total cash
/// the buy consumes.
pub fn compute_buy_fee(trading_fee: &TradingFee, stake: &Rat) -> (r: Result<Rat, AccountError>)
    requires
        trading_fee.wf(),
        stake.wf(),
    ensures
        r is Ok <==> buy_fee_ok(*trading_fee, stake.v()),
        r is Err ==> r == Err::<Rat, AccountError>(AccountError::Overflow),
        r matches Ok(f) ==> f.wf() && f.v() == buy_fee_val(*trading_fee, stake.v()) && qeq(
            f.v(),
            match *trading_fee {
                TradingFee::FixFee(ff) => ff.v(),
                TradingFee::PercentageFee(p) => qdiv(
                    qmul(stake.v(), p.v()),
                    qsub(qint(1), p.v()),
                ),
            },
        ),
{
    match trading_fee {
        TradingFee::FixFee(fixed) => Ok(*fixed),
        TradingFee::PercentageFee(pct) => {
            let one: Rat = Rat::from_int(1);
            let om: Rat = match one.sub(pct) {
                Some(v) => v,
                None => { return Err(AccountError::Overflow) },
            };
            let t: Rat = match stake.mul(pct) {
                Some(v) => v,
                None => { return Err(AccountError::Overflow) },
            };
            proof {
                // 1 - rate is non-zero because the rate is not one.
                let b = qsub(qint(1), pct.v());
                assert(b.0 != 0);
                lemma_qeq_sign(om.v(), b);
                assert(om.v().0 != 0);
            }
            let fee: Rat = match t.div(&om) {
                Some(v) => v,
                None => { return Err(AccountError::Overflow) },
            };
            proof {
                lemma_qmul_cong(stake.v(), stake.v(), pct.v(), pct.v());
                lemma_qdiv_cong(t.v(), qmul(stake.v(), pct.v()), om.v(), qsub(qint(1), pct.v()));
                lemma_nonzero_product(t.v().1, om.v().0);
                lemma_qeq_trans(
                    fee.v(),
                    qdiv(t.v(), om.v()),
                    qdiv(qmul(stake.v(), pct.v()), qsub(qint(1), pct.v())),
                );
            }
            Ok(fee)
        },
    }
}

/// Computes the sell-side fee for closing `qty` at `price`: constant, or
/// exactly `price * qty * rate` on the full proceeds.
pub fn compute_sell_fee(trading_fee: &TradingFee, price: &Rat, qty: &Rat) -> (r: Result<
    Rat,
    AccountError,
>)
    requires
        trading_fee.wf(),
        price.wf(),
        qty.wf(),
    ensures
        r is Ok <==> sell_fee_ok(*trading_fee, price.v(), qty.v()),
        r is Err ==> r == Err::<Rat, AccountError>(AccountError::Overflow),
        r matches Ok(f) ==> f.wf() && f.v() == sell_fee_val(*trading_fee, price.v(), qty.v())
            && qeq(
            f.v(),
            match *trading_fee {
                TradingFee::FixFee(ff) => ff.v(),
                TradingFee::PercentageFee(p) => qmul(qmul(price.v(), qty.v()), p.v()),
            },
        ),
{
    match trading_fee {
        TradingFee::FixFee(fixed) => Ok(*fixed),
        TradingFee::PercentageFee(pct) => {
            let t: Rat = match price.mul(qty) {
                Some(v) => v,
                None => { return Err(AccountError::Overflow) },
            };
            let fee: Rat = match t.mul(pct) {
                Some(v) => v,
                None => { return Err(AccountError::Overflow) },
            };
            proof {
                lemma_qmul_cong(t.v(), qmul(price.v(), qty.v()), pct.v(), pct.v());
                lemma_pos_product(t.v().1, pct.v().1);
                lemma_qeq_trans(
                    fee.v(),
                    qmul(t.v(), pct.v()),
                    qmul(qmul(price.v(), qty.v()), pct.v()),
                );
            }
            Ok(fee)
        },
    }
}

// ---------------------------------------------------------------------------
// Buy and sell execution.
// ---------------------------------------------------------------------------

/// The quantity a buy acquires: `(stake + fee) / price`.
pub open spec fn buy_quantity_val(ss: StakeSize, tf: TradingFee, fund: (int, int), price: (
    int,
    int,
)) -> (int, int) {
    ndiv(nadd(stake_val(ss, fund), buy_fee_val(tf, stake_val(ss, fund))), price)
}

/// A buy succeeds: the price is positive, every intermediate stays
/// representable, and — whenever a positive quantity results — the fee is
/// non-negative and the ledger's own `open` succeeds.
pub open spec fn execute_buy_ok(ss: StakeSize, tf: TradingFee, st: AccountState, price: (
    int,
    int,
)) -> bool {
    let fund = st.available_fund.v();
    let sv = stake_val(ss, fund);
    let fv = buy_fee_val(tf, sv);
    let sfv = nadd(sv, fv);
    let qv = ndiv(sfv, price);
    &&& qpos(price)
    &&& stake_ok(ss, fund)
    &&& buy_fee_ok(tf, sv)
    &&& fits_i64(sfv)
    &&& fits_i64(qv)
    &&& (qpos(qv) ==> qnonneg(fv) && open_fits(
        st.quantity.v(),
        st.cost.v(),
        fund,
        qv,
        price,
        fv,
    ))
}

/// The exact state a successful buy leaves behind: the position opened
/// with the computed quantity and fee when the quantity is positive, the
/// state untouched otherwise.
pub open spec fn buy_result(
    ss: StakeSize,
    tf: TradingFee,
    st: AccountState,
    timestamp: i64,
    price: Rat,
) -> AccountState {
    let fund = st.available_fund.v();
    let sv = stake_val(ss, fund);
    let fv = buy_fee_val(tf, sv);
    let qv = ndiv(nadd(sv, fv), price.v());
    if qpos(qv) {
        open_result(st, timestamp, rat_of(qv), price, rat_of(fv))
    } else {
        st
    }
}

/// The ledger change a successful buy with a positive quantity performs.
pub open spec fn buy_applied(
    ss: StakeSize,
    tf: TradingFee,
    acc0: Account,
    acc1: Account,
    timestamp: i64,
    price: (int, int),
) -> bool {
    let fund = acc0.available_fund.v();
    let sv = stake_val(ss, fund);
    let fv = buy_fee_val(tf, sv);
    let qv = buy_quantity_val(ss, tf, fund, price);
    &&& acc1.trade_history@.len() == acc0.trade_history@.len() + 1
    &&& forall|i: int|
        0 <= i < acc0.trade_history@.len() ==> acc1.trade_history@[i] == acc0.trade_history@[i]
    &&& acc1.trade_history@.last().buy_sell_indicator == BuySellIndicator::Buy
    &&& acc1.trade_history@.last().timestamp == timestamp
    &&& acc1.trade_history@.last().quantity.v() == qv
    &&& acc1.trade_history@.last().price.v() == price
    &&& acc1.trade_history@.last().fee.v() == fv
    &&& qeq(acc1.position.quantity.v(), qadd(acc0.position.quantity.v(), qv))
    &&& qeq(
        acc1.position.cost.v(),
        qdiv(
            qadd(qmul(acc0.position.quantity.v(), acc0.position.cost.v()), qmul(qv, price)),
            qadd(acc0.position.quantity.v(), qv),
        ),
    )
    &&& qeq(acc1.available_fund.v(), qsub(fund, fv))
    &&& acc1.profit_and_loss_history@ == acc0.profit_and_loss_history@
}

/// Sizes a buy from the available fund, computes its fee, and opens the
/// position when the resulting quantity is positive; otherwise the ledger
/// is left untouched.
pub fn execute_buy(
    stake_size: &StakeSize,
    trading_fee: &TradingFee,
    timestamp: i64,
    price: &Rat,
    account: &mut Account,
) -> (r: Result<(), AccountError>)
    requires
        stake_size.wf(),
        trading_fee.wf(),
        price.wf(),
        old(account).wf(),
    ensures
        final(account).wf(),
        r is Ok <==> execute_buy_ok(*stake_size, *trading_fee, old(account).st(), price.v()),
        r is Ok ==> final(account).st() == buy_result(
            *stake_size,
            *trading_fee,
            old(account).st(),
            timestamp,
            *price,
        ),
        r is Err ==> *final(account) == *old(account),
        !qpos(price.v()) ==> r == Err::<(), AccountError>(AccountError::InvalidPrice),
        r is Ok && qpos(
            buy_quantity_val(
                *stake_size,
                *trading_fee,
                old(account).available_fund.v(),
                price.v(),
            ),
        ) ==> buy_applied(
            *stake_size,
            *trading_fee,
            *old(account),
            *final(account),
            timestamp,
            price.v(),
        ),
        r is Ok && !qpos(
            buy_quantity_val(
                *stake_size,
                *trading_fee,
                old(account).available_fund.v(),
                price.v(),
            ),
        ) ==> *final(account) == *old(account),
{
    if !price.is_positive() {
        return Err(AccountError::InvalidPrice);
    }
    let fund: Rat = account.available_fund;
    let stake: Rat = match compute_stake(stake_size, &fund) {
        Ok(v) => v,
        Err(e) => { return Err(e) },
    };
    let fee: Rat = match compute_buy_fee(trading_fee, &stake) {
        Ok(v) => v,
        Err(e) => { return Err(e) },
    };
    let sf: Rat = match stake.add(&fee) {
        Some(v) => v,
        None => { return Err(AccountError::Overflow) },
    };
    let quantity: Rat = match sf.div(price) {
        Some(v) => v,
        None => { return Err(AccountError::Overflow) },
    };
    proof {
        let ghost fund_v = old(account).available_fund.v();
        let ghost sv = stake_val(*stake_size, fund_v);
        let ghost fv = buy_fee_val(*trading_fee, sv);
        lemma_rat_of_exact(quantity, ndiv(nadd(sv, fv), price.v()));
        lemma_rat_of_exact(fee, fv);
    }
    if quantity.is_positive() {
        account.open(timestamp, quantity, *price, fee)
    } else {
        Ok(())
    }
}

/// A sell succeeds: the fee stays representable, and — whenever a
/// position is actually held — the price and fee are acceptable to the
/// ledger's own `close`, which stays representable too.
pub open spec fn execute_sell_ok(tf: TradingFee, st: AccountState, price: (int, int)) -> bool {
    let qty = st.quantity.v();
    let fv = sell_fee_val(tf, price, qty);
    &&& sell_fee_ok(tf, price, qty)
    &&& (qpos(qty) ==> qnonneg(price) && qnonneg(fv) && close_fits(
        qty,
        st.cost.v(),
        st.available_fund.v(),
        qty,
        price,
        fv,
    ))
}

/// The exact state a successful sell leaves behind: the whole position
/// closed at the computed fee when one is held, the state untouched
/// otherwise.
pub open spec fn sell_result(tf: TradingFee, st: AccountState, timestamp: i64, price: Rat) -> AccountState {
    let fv = sell_fee_val(tf, price.v(), st.quantity.v());
    if qpos(st.quantity.v()) {
        close_result(st, timestamp, st.quantity, price, rat_of(fv))
    } else {
        st
    }
}

/// The ledger change a successful sell of a held position performs.
pub open spec fn sell_applied(
    tf: TradingFee,
    acc0: Account,
    acc1: Account,
    timestamp: i64,
    price: (int, int),
) -> bool {
    let qty = acc0.position.quantity.v();
    let fv = sell_fee_val(tf, price, qty);
    &&& acc1.trade_history@.len() == acc0.trade_history@.len() + 1
    &&& forall|i: int|
        0 <= i < acc0.trade_history@.len() ==> acc1.trade_history@[i] == acc0.trade_history@[i]
    &&& acc1.trade_history@.last().buy_sell_indicator == BuySellIndicator::Sell
    &&& acc1.trade_history@.last().timestamp == timestamp
    &&& acc1.trade_history@.last().quantity == acc0.position.quantity
    &&& acc1.trade_history@.last().price.v() == price
    &&& acc1.trade_history@.last().fee.v() == fv
    &&& acc1.profit_and_loss_history@.len() == acc0.profit_and_loss_history@.len() + 1
    &&& forall|i: int|
        0 <= i < acc0.profit_and_loss_history@.len() ==> acc1.profit_and_loss_history@[i]
            == acc0.profit_and_loss_history@[i]
    &&& acc1.profit_and_loss_history@.last().timestamp
        == acc0.profit_and_loss_history@.last().timestamp
    &&& acc1.profit_and_loss_history@.last().unrealised_pnl
        == acc0.profit_and_loss_history@.last().unrealised_pnl
    &&& qeq(
        acc1.profit_and_loss_history@.last().realised_pnl.v(),
        qmul(qty, qsub(price, acc0.position.cost.v())),
    )
    &&& acc1.position.quantity.v().0 == 0
    &&& acc1.position.cost == acc0.position.cost
    &&& qeq(acc1.available_fund.v(), qsub(qadd(acc0.available_fund.v(), qmul(qty, price)), fv))
}

/// Computes the sell-side fee on the whole held position and closes it
/// when a position is held; otherwise the ledger is left untouched.
pub fn execute_sell(
    trading_fee: &TradingFee,
    timestamp: i64,
    price: &Rat,
    account: &mut Account,
) -> (r: Result<(), AccountError>)
    requires
        trading_fee.wf(),
        price.wf(),
        old(account).wf(),
    ensures
        final(account).wf(),
        r is Ok <==> execute_sell_ok(*trading_fee, old(account).st(), price.v()),
        r is Ok ==> final(account).st() == sell_result(
            *trading_fee,
            old(account).st(),
            timestamp,
            *price,
        ),
        r is Err ==> *final(account) == *old(account),
        r is Ok && qpos(old(account).position.quantity.v()) ==> sell_applied(
            *trading_fee,
            *old(account),
            *final(account),
            timestamp,
            price.v(),
        ),
        r is Ok && !qpos(old(account).position.quantity.v()) ==> *final(account) == *old(account),
{
    let current_position: Rat = account.position.quantity;
    let fee: Rat = match compute_sell_fee(trading_fee, price, &current_position) {
        Ok(v) => v,
        Err(e) => { return Err(e) },
    };
    proof {
        lemma_rat_of_exact(
            fee,
            sell_fee_val(*trading_fee, price.v(), old(account).position.quantity.v()),
        );
    }
    if current_position.is_positive() {
        let r = account.close(timestamp, current_position, *price, fee);
        proof {
            if r is Ok {
                // The whole position was sold, so what remains denotes zero.
                let oldq = old(account).position.quantity.v();
                assert(qsub(oldq, oldq).0 == 0);
                lemma_pos_product(oldq.1, oldq.1);
                lemma_qeq_sign(account.position.quantity.v(), qsub(oldq, oldq));
            }
        }
        r
    } else {
        Ok(())
    }
}

// ---------------------------------------------------------------------------
// The generic trader and its per-bar session.
// ---------------------------------------------------------------------------

/// One strategy: a fee policy, a sizing policy, a signal generator, and
/// the strategy-specific rule for which position of the action list to
/// read.
pub trait GenericTrader: Sized {
    /// The trader's validity invariant.
    spec fn wf(&self) -> bool;

    /// The configured sizing policy.
    spec fn stake_size_spec(&self) -> StakeSize;

    /// The configured fee policy.
    spec fn trading_fee_spec(&self) -> TradingFee;

    /// Which position of the action list this strategy reads.
    spec fn signal_index_spec() -> int;

    /// The actions the strategy's signal generator will emit for a bar.
    spec fn next_signals_spec(&self, candle: BinanceKline) -> Seq<Action>;

    /// The trader's state after advancing past a bar.
    spec fn advanced_spec(&self, candle: BinanceKline) -> Self;

    /// The configured sizing policy.
    fn stake_size(&self) -> (r: StakeSize)
        requires
            self.wf(),
        ensures
            r == self.stake_size_spec(),
            r.wf(),
    ;

    /// The configured fee policy.
    fn trading_fee(&self) -> (r: TradingFee)
        requires
            self.wf(),
        ensures
            r == self.trading_fee_spec(),
            r.wf(),
    ;

    /// Which position of the action list this strategy reads.
    fn signal_index() -> (i: usize)
        ensures
            i as int == Self::signal_index_spec(),
    ;

    /// Resolves an action list into the action this strategy acts on.
    fn determine_trade(signals: &Vec<Action>) -> (a: Action)
        requires
            0 <= Self::signal_index_spec() < signals@.len(),
        ensures
            a == signals@[Self::signal_index_spec()],
    ;

    /// Advances the strategy's signal generator by one bar.
    fn advance_indicator(&mut self, candle: &BinanceKline) -> (r: Vec<Action>)
        requires
            old(self).wf(),
            candle.wf(),
        ensures
            r@ == old(self).next_signals_spec(*candle),
            *final(self) == old(self).advanced_spec(*candle),
            final(self).wf(),
    ;
}

/// The action a session acts on: the strategy's slot of the action list,
/// or `Hold` when the list is too short to have that slot.
pub open spec fn session_action(signals: Seq<Action>, idx: int) -> Action {
    if 0 <= idx < signals.len() {
        signals[idx]
    } else {
        Action::Hold
    }
}

/// One session succeeds: whatever the resolved action asks of the ledger
/// stays representable and acceptable; a `Hold` always succeeds.
pub open spec fn session_ok(
    ss: StakeSize,
    tf: TradingFee,
    signals: Seq<Action>,
    idx: int,
    st: AccountState,
    price: (int, int),
) -> bool {
    match session_action(signals, idx) {
        Action::Buy(_) => execute_buy_ok(ss, tf, st, price),
        Action::Sell(_) => execute_sell_ok(tf, st, price),
        Action::Hold => true,
    }
}

/// The exact state one successful session leaves behind.
pub open spec fn session_result(
    ss: StakeSize,
    tf: TradingFee,
    signals: Seq<Action>,
    idx: int,
    st: AccountState,
    timestamp: i64,
    price: Rat,
) -> AccountState {
    match session_action(signals, idx) {
        Action::Buy(_) => buy_result(ss, tf, st, timestamp, price),
        Action::Sell(_) => sell_result(tf, st, timestamp, price),
        Action::Hold => st,
    }
}

/// Runs one bar through a strategy: advances its signal generator,
/// resolves the action, and executes the resulting buy or sell against
/// the account. A `Hold` (or an action list without the strategy's slot)
/// leaves the ledger untouched.
pub fn next_trade_session<T: GenericTrader>(
    trader: &mut T,
    kline: &BinanceKline,
    account: &mut Account,
) -> (r: Result<(), AccountError>)
    requires
        old(trader).wf(),
        old(account).wf(),
        kline.wf(),
    ensures
        final(trader).wf(),
        final(account).wf(),
        *final(trader) == old(trader).advanced_spec(*kline),
        r is Err ==> *final(account) == *old(account),
        r is Ok <==> session_ok(
            old(trader).stake_size_spec(),
            old(trader).trading_fee_spec(),
            old(trader).next_signals_spec(*kline),
            T::signal_index_spec(),
            old(account).st(),
            kline.close.v(),
        ),
        r is Ok ==> final(account).st() == session_result(
            old(trader).stake_size_spec(),
            old(trader).trading_fee_spec(),
            old(trader).next_signals_spec(*kline),
            T::signal_index_spec(),
            old(account).st(),
            kline.end_time,
            kline.close,
        ),
        ({
            let act = session_action(
                old(trader).next_signals_spec(*kline),
                T::signal_index_spec(),
            );
            let ss = old(trader).stake_size_spec();
            let tf = old(trader).trading_fee_spec();
            &&& (act is Hold ==> r is Ok && *final(account) == *old(account))
            &&& (act is Buy && r is Ok && qpos(
                buy_quantity_val(ss, tf, old(account).available_fund.v(), kline.close.v()),
            ) ==> buy_applied(
                ss,
                tf,
                *old(account),
                *final(account),
                kline.end_time,
                kline.close.v(),
            ))
            &&& (act is Buy && r is Ok && !qpos(
                buy_quantity_val(ss, tf, old(account).available_fund.v(), kline.close.v()),
            ) ==> *final(account) == *old(account))
            &&& (act is Sell && r is Ok && qpos(old(account).position.quantity.v())
                ==> sell_applied(
                tf,
                *old(account),
                *final(account),
                kline.end_time,
                kline.close.v(),
            ))
            &&& (act is Sell && r is Ok && !qpos(old(account).position.quantity.v()) ==> *final(account) == *old(account))
        }),
        old(account).trade_history@.len() <= final(account).trade_history@.len() <= old(account).trade_history@.len() + 1,
        old(account).profit_and_loss_history@.len() <= final(account).profit_and_loss_history@.len() <= old(account).profit_and_loss_history@.len() + 1,
        forall|i: int|
            0 <= i < old(account).trade_history@.len() ==> final(account).trade_history@[i] == old(account).trade_history@[i],
        forall|i: int|
            0 <= i < old(account).profit_and_loss_history@.len() ==> final(account).profit_and_loss_history@[i] == old(account).profit_and_loss_history@[i],
{
    let stake_size: StakeSize = trader.stake_size();
    let trading_fee: TradingFee = trader.trading_fee();
    let signals: Vec<Action> = trader.advance_indicator(kline);
    let idx: usize = T::signal_index();
    if idx < signals.len() {
        let action: Action = T::determine_trade(&signals);
        match action {
            Action::Buy(_) => execute_buy(
                &stake_size,
                &trading_fee,
                kline.end_time,
                &kline.close,
                account,
            ),
            Action::Sell(_) => execute_sell(&trading_fee, kline.end_time, &kline.close, account),
            Action::Hold => Ok(()),
        }
    } else {
        Ok(())
    }
}

/// The mark-to-market of one bar stays representable on a given state.
pub open spec fn replay_mark_ok(st: AccountState, price: Rat) -> bool {
    mark_fits(st.quantity.v(), st.cost.v(), price.v())
}

/// The exact trader and ledger state after replaying a whole feed, one
/// bar at a time: each bar runs one trading session (on the trader state
/// and signals of that moment) and is then marked to market at its
/// closing price and end time.
pub open spec fn replay_result<T: GenericTrader>(
    tr: T,
    st: AccountState,
    ks: Seq<BinanceKline>,
) -> (T, AccountState)
    decreases ks.len(),
{
    if ks.len() == 0 {
        (tr, st)
    } else {
        let prev = replay_result(tr, st, ks.drop_last());
        let k = ks.last();
        let st1 = session_result(
            prev.0.stake_size_spec(),
            prev.0.trading_fee_spec(),
            prev.0.next_signals_spec(k),
            T::signal_index_spec(),
            prev.1,
            k.end_time,
            k.close,
        );
        (prev.0.advanced_spec(k), mark_result(st1, k.close, k.end_time))
    }
}

/// Every step of the replay — each bar's session and its mark-to-market
/// — stays representable and acceptable.
pub open spec fn replay_ok<T: GenericTrader>(tr: T, st: AccountState, ks: Seq<BinanceKline>) -> bool
    decreases ks.len(),
{
    if ks.len() == 0 {
        true
    } else {
        let prev = replay_result(tr, st, ks.drop_last());
        let k = ks.last();
        let st1 = session_result(
            prev.0.stake_size_spec(),
            prev.0.trading_fee_spec(),
            prev.0.next_signals_spec(k),
            T::signal_index_spec(),
            prev.1,
            k.end_time,
            k.close,
        );
        replay_ok(tr, st, ks.drop_last()) && session_ok(
            prev.0.stake_size_spec(),
            prev.0.trading_fee_spec(),
            prev.0.next_signals_spec(k),
            T::signal_index_spec(),
            prev.1,
            k.close.v(),
        ) && replay_mark_ok(st1, k.close)
    }
}

/// A replay that fails on some prefix fails on the whole feed.
proof fn lemma_replay_ok_prefix<T: GenericTrader>(
    tr: T,
    st: AccountState,
    ks: Seq<BinanceKline>,
    i: int,
)
    requires
        0 <= i <= ks.len(),
        !replay_ok(tr, st, ks.take(i)),
    ensures
        !replay_ok(tr, st, ks),
    decreases ks.len() - i,
{
    if i == ks.len() {
        assert(ks.take(i) =~= ks);
    } else {
        assert(ks.take(i + 1).drop_last() =~= ks.take(i));
        lemma_replay_ok_prefix(tr, st, ks, i + 1);
    }
}

/// Replays every bar of the feed through the strategy, marking the ledger
/// to market at each bar's close — so every bar, traded or not, produces
/// an unrealised-profit observation with that bar's end time and closing
/// price. Succeeds exactly when every step of the replay stays
/// representable, and then leaves trader and account in exactly the
/// replayed state; it stops at the first rejected operation, and both
/// histories only ever grow.
pub fn loop_kline<T: GenericTrader>(
    klines: &Vec<BinanceKline>,
    trader: &mut T,
    account: &mut Account,
) -> (r: Result<(), AccountError>)
    requires
        old(trader).wf(),
        old(account).wf(),
        forall|i: int| 0 <= i < klines@.len() ==> (#[trigger] klines@[i]).wf(),
    ensures
        final(trader).wf(),
        final(account).wf(),
        forall|i: int|
            0 <= i < old(account).trade_history@.len() ==> final(account).trade_history@[i] == old(account).trade_history@[i],
        forall|i: int|
            0 <= i < old(account).profit_and_loss_history@.len() ==> final(account).profit_and_loss_history@[i] == old(account).profit_and_loss_history@[i],
        old(account).trade_history@.len() <= final(account).trade_history@.len() <= old(account).trade_history@.len() + klines@.len(),
        final(account).profit_and_loss_history@.len() >= old(account).profit_and_loss_history@.len(),
        final(account).profit_and_loss_history@.len() <= old(account).profit_and_loss_history@.len() + 2 * klines@.len(),
        r is Ok ==> final(account).profit_and_loss_history@.len() >= old(account).profit_and_loss_history@.len() + klines@.len(),
        r is Ok <==> replay_ok(*old(trader), old(account).st(), klines@),
        r is Ok ==> *final(trader) == replay_result(*old(trader), old(account).st(), klines@).0,
        r is Ok ==> final(account).st() == replay_result(
            *old(trader),
            old(account).st(),
            klines@,
        ).1,
{
    let n: usize = klines.len();
    let mut i: usize = 0;
    while i < n
        invariant
            0 <= i <= n,
            n == klines@.len(),
            trader.wf(),
            account.wf(),
            forall|k: int| 0 <= k < klines@.len() ==> (#[trigger] klines@[k]).wf(),
            forall|k: int|
                0 <= k < old(account).trade_history@.len() ==> account.trade_history@[k] == old(account).trade_history@[k],
            forall|k: int|
                0 <= k < old(account).profit_and_loss_history@.len()
                    ==> account.profit_and_loss_history@[k] == old(account).profit_and_loss_history@[k],
            old(account).trade_history@.len() <= account.trade_history@.len() <= old(account).trade_history@.len() + i,
            old(account).profit_and_loss_history@.len() + i <= account.profit_and_loss_history@.len()
                <= old(account).profit_and_loss_history@.len() + 2 * i,
            replay_ok(*old(trader), old(account).st(), klines@.take(i as int)),
            *trader == replay_result(*old(trader), old(account).st(), klines@.take(i as int)).0,
            account.st() == replay_result(*old(trader), old(account).st(), klines@.take(i as int)).1,
        decreases n - i,
    {
        let kline: BinanceKline = klines[i];
        proof {
            assert(klines@.take(i as int + 1).drop_last() =~= klines@.take(i as int));
            assert(klines@.take(i as int + 1).last() == klines@[i as int]);
        }
        match next_trade_session(trader, &kline, account) {
            Ok(()) => {},
            Err(e) => {
                proof {
                    lemma_replay_ok_prefix(
                        *old(trader),
                        old(account).st(),
                        klines@,
                        i as int + 1,
                    );
                }
                return Err(e)
            },
        };
        match account.mark_to_market(kline.close, kline.end_time) {
            Ok(()) => {},
            Err(e) => {
                proof {
                    lemma_replay_ok_prefix(
                        *old(trader),
                        old(account).st(),
                        klines@,
                        i as int + 1,
                    );
                }
                return Err(e)
            },
        };
        i = i + 1;
    }
    proof {
        assert(klines@.take(n as int) =~= klines@);
    }
    Ok(())
}

// ---------------------------------------------------------------------------
// The concrete strategies.
// ---------------------------------------------------------------------------

/// Buy-and-hold: signals a buy on every bar and stakes the whole
/// available fund.
#[derive(Clone, Copy, Debug)]
pub struct HODLTrader {
    pub trading_fee: TradingFee,
    pub stake_size: StakeSize,
    pub indicator: HODLInstance,
}

impl HODLTrader {
    /// Builds the trader, priming its signal generator from the feed's
    /// first bar. The sizing policy is always the full fund.
    pub fn new(first_kline: &BinanceKline, trading_fee: TradingFee) -> (r: Self)
        requires
            first_kline.wf(),
            trading_fee.wf(),
        ensures
            r.wf(),
            r.trading_fee == trading_fee,
            r.stake_size matches StakeSize::FixPercentage(p) && p.v() == qint(1),
    {
        let hodl = HODL::default();
        let hodl: HODLInstance = hodl.init(first_kline).unwrap();
        Self {
            indicator: hodl,
            trading_fee,
            stake_size: StakeSize::FixPercentage(Rat::from_int(1)),
        }
    }
}

impl GenericTrader for HODLTrader {
    open spec fn wf(&self) -> bool {
        self.trading_fee.wf() && self.stake_size.wf() && self.indicator.wf()
    }

    open spec fn stake_size_spec(&self) -> StakeSize {
        self.stake_size
    }

    open spec fn trading_fee_spec(&self) -> TradingFee {
        self.trading_fee
    }

    open spec fn signal_index_spec() -> int {
        0
    }

    open spec fn next_signals_spec(&self, candle: BinanceKline) -> Seq<Action> {
        self.indicator.next_signals_spec(candle)
    }

    open spec fn advanced_spec(&self, candle: BinanceKline) -> Self {
        HODLTrader {
            trading_fee: self.trading_fee,
            stake_size: self.stake_size,
            indicator: self.indicator.advanced_spec(candle),
        }
    }

    fn stake_size(&self) -> StakeSize {
        self.stake_size
    }

    fn trading_fee(&self) -> TradingFee {
        self.trading_fee
    }

    fn signal_index() -> usize {
        0
    }

    fn determine_trade(signals: &Vec<Action>) -> Action {
        signals[0]
    }

    fn advance_indicator(&mut self, candle: &BinanceKline) -> Vec<Action> {
        let r = self.indicator.next_binance_kline(candle);
        r.signals
    }
}

/// Periodic accumulation: stakes a fixed notional on the first bar of
/// each new calendar month.
#[derive(Clone, Copy, Debug)]
pub struct DCATrader {
    pub trading_fee: TradingFee,
    pub stake_size: StakeSize,
    pub indicator: DCAInstance,
}

impl DCATrader {
    /// Builds the trader, priming its signal generator from the feed's
    /// first bar. The sizing policy is always a fixed notional of 100.
    pub fn new(first_kline: &BinanceKline, trading_fee: TradingFee) -> (r: Self)
        requires
            first_kline.wf(),
            trading_fee.wf(),
        ensures
            r.wf(),
            r.trading_fee == trading_fee,
            r.stake_size matches StakeSize::FixAmount(a) && a.v() == qint(100),
            r.indicator.last_timestamp == first_kline.start_time,
    {
        let dca = DCA::default();
        let dca: DCAInstance = dca.init(first_kline).unwrap();
        Self {
            indicator: dca,
            trading_fee,
            stake_size: StakeSize::FixAmount(Rat::from_int(100)),
        }
    }
}

impl GenericTrader for DCATrader {
    open spec fn wf(&self) -> bool {
        self.trading_fee.wf() && self.stake_size.wf() && self.indicator.wf()
    }

    open spec fn stake_size_spec(&self) -> StakeSize {
        self.stake_size
    }

    open spec fn trading_fee_spec(&self) -> TradingFee {
        self.trading_fee
    }

    open spec fn signal_index_spec() -> int {
        0
    }

    open spec fn next_signals_spec(&self, candle: BinanceKline) -> Seq<Action> {
        self.indicator.next_signals_spec(candle)
    }

    open spec fn advanced_spec(&self, candle: BinanceKline) -> Self {
        DCATrader {
            trading_fee: self.trading_fee,
            stake_size: self.stake_size,
            indicator: self.indicator.advanced_spec(candle),
        }
    }

    fn stake_size(&self) -> StakeSize {
        self.stake_size
    }

    fn trading_fee(&self) -> TradingFee {
        self.trading_fee
    }

    fn signal_index() -> usize {
        0
    }

    fn determine_trade(signals: &Vec<Action>) -> Action {
        signals[0]
    }

    fn advance_indicator(&mut self, candle: &BinanceKline) -> Vec<Action> {
        let r = self.indicator.next_binance_kline(candle);
        r.signals
    }
}

// ---------------------------------------------------------------------------
// Backtest setup.
// ---------------------------------------------------------------------------

/// Sets up the account of a backtest run: a starting fund of 1000, a flat
/// position, and the first bar's start time as the initial snapshot's
/// timestamp.
pub fn initialise_acount(klines: &Vec<BinanceKline>) -> (r: Account)
    requires
        klines@.len() > 0,
        klines@[0].wf(),
    ensures
        r.wf(),
        r.available_fund.v() == qint(1000),
        r.position.quantity.v() == qint(0),
        r.position.cost.v() == qint(0),
        r.trade_history@.len() == 0,
        r.profit_and_loss_history@.len() == 1,
        r.profit_and_loss_history@[0].timestamp == klines@[0].start_time,
        r.profit_and_loss_history@[0].realised_pnl.v() == qint(0),
        r.profit_and_loss_history@[0].unrealised_pnl.v() == qint(0),
{
    let first_kline: &BinanceKline = &klines[0];
    let start_time: i64 = first_kline.start_time;
    let start_fund: Rat = Rat::from_int(1000);
    let start_position = Position { quantity: Rat::from_int(0), cost: Rat::from_int(0) };
    Account::new(start_fund, start_position, start_time)
}

/// Sets up a buy-and-hold trader with the standard percentage fee of
/// one half of one percent.
pub fn initialise_hodl_trader(first_kline: &BinanceKline) -> (r: HODLTrader)
    requires
        first_kline.wf(),
    ensures
        r.wf(),
        r.trading_fee matches TradingFee::PercentageFee(p) && p.v() == (5int, 1000int),
    {
    let trading_fee = TradingFee::PercentageFee(Rat::new(5, 1000));
    HODLTrader::new(first_kline, trading_fee)
}

/// Sets up a periodic-accumulation trader with the standard percentage
/// fee of one half of one percent.
pub fn initialise_dca_trader(first_kline: &BinanceKline) -> (r: DCATrader)
    requires
        first_kline.wf(),
    ensures
        r.wf(),
        r.trading_fee matches TradingFee::PercentageFee(p) && p.v() == (5int, 1000int),
    {
    let trading_fee = TradingFee::PercentageFee(Rat::new(5, 1000));
    DCATrader::new(first_kline, trading_fee)
}

} // verus!

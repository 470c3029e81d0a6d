//! The account ledger: one position, a cash balance, and two append-only
//! histories (profit-and-loss snapshots and executed trades).
//!
//! Each mutating operation either succeeds with the exact accounting
//! behaviour stated in its contract, or rejects the call and leaves the
//! account untouched. Rejection happens on invalid arguments (fail fast
//! rather than corrupt the accounting invariants) and when an exact
//! rational result no longer fits the fixed-width representation.

use crate::rational::{
    fits_i64, lemma_nonzero_product, lemma_pos_product, lemma_qadd_cong, lemma_qdiv_cong,
    lemma_qeq_sign, lemma_qeq_trans, lemma_qmul_cong, lemma_qsub_cong, lemma_rat_of_exact, nadd,
    ndiv, nmul, nsub, qadd, qdiv, qeq, qint, qle, qmul, qnonneg, qpos, qsub, rat_of, Rat,
};
use vstd::prelude::*;

verus! {

/// A point-in-time profit-and-loss snapshot.
#[derive(Clone, Copy, Debug)]
pub struct TimeValue {
    pub timestamp: i64,
    pub realised_pnl: Rat,
    pub unrealised_pnl: Rat,
}

/// The currently held quantity and its volume-weighted average entry price.
#[derive(Clone, Copy, Debug)]
pub struct Position {
    pub quantity: Rat,
    pub cost: Rat,
}

/// One executed buy or sell, recorded exactly once and never changed.
#[derive(Clone, Copy, Debug)]
pub struct Trade {
    pub timestamp: i64,
    pub buy_sell_indicator: BuySellIndicator,
    pub quantity: Rat,
    pub price: Rat,
    pub fee: Rat,
}

/// Which side a trade was on.
#[derive(Clone, Copy, Debug, PartialEq, Eq, Structural)]
pub enum BuySellIndicator {
    Buy,
    Sell,
}

/// Why a ledger operation was rejected. A rejected operation leaves the
/// account exactly as it was.
#[derive(Clone, Copy, Debug, PartialEq, Eq, Structural)]
pub enum AccountError {
    /// The trade quantity was not strictly positive.
    InvalidQuantity,
    /// The price was negative.
    InvalidPrice,
    /// The fee was negative.
    InvalidFee,
    /// A close asked for more than the held quantity.
    InsufficientPosition,
    /// An exact intermediate result left the representable range.
    Overflow,
}

impl TimeValue {
    /// Both recorded amounts are well-formed rationals.
    pub open spec fn wf(self) -> bool {
        self.realised_pnl.wf() && self.unrealised_pnl.wf()
    }
}

impl Position {
    /// The held quantity is a well-formed, non-negative rational and the
    /// cost basis is well-formed.
    pub open spec fn wf(self) -> bool {
        self.quantity.wf() && self.cost.wf() && qnonneg(self.quantity.v())
    }
}

impl Trade {
    /// All recorded amounts are well-formed rationals.
    pub open spec fn wf(self) -> bool {
        self.quantity.wf() && self.price.wf() && self.fee.wf()
    }
}

/// The one mutable entity of the core: cash, position, and the two
/// append-only histories.
#[derive(Debug)]
pub struct Account {
    pub available_fund: Rat,
    pub position: Position,
    pub profit_and_loss_history: Vec<TimeValue>,
    pub trade_history: Vec<Trade>,
}

// ---------------------------------------------------------------------------
// Specification helpers shared by the operations' contracts.
// ---------------------------------------------------------------------------

/// The arguments of an `open` are acceptable: positive quantity,
/// non-negative price and fee.
pub open spec fn trade_args_ok(q: (int, int), p: (int, int), f: (int, int)) -> bool {
    qpos(q) && qnonneg(p) && qnonneg(f)
}

/// The error reported for unacceptable trade arguments, first failing
/// check (quantity, then price, then fee) wins.
pub open spec fn trade_arg_error(q: (int, int), p: (int, int), f: (int, int)) -> AccountError {
    if !qpos(q) {
        AccountError::InvalidQuantity
    } else if !qnonneg(p) {
        AccountError::InvalidPrice
    } else {
        AccountError::InvalidFee
    }
}

/// Every exact intermediate result of an `open` stays representable.
/// The chain mirrors the order in which the operation computes.
pub open spec fn open_fits(
    oldq: (int, int),
    oldc: (int, int),
    fund: (int, int),
    q: (int, int),
    p: (int, int),
    f: (int, int),
) -> bool {
    let t1 = nmul(oldq, oldc);
    let t2 = nmul(q, p);
    let num = nadd(t1, t2);
    let newq = nadd(oldq, q);
    fits_i64(t1) && fits_i64(t2) && fits_i64(num) && fits_i64(newq) && fits_i64(ndiv(num, newq))
        && fits_i64(nsub(fund, f))
}

/// Every exact intermediate result of a `close` stays representable.
pub open spec fn close_fits(
    oldq: (int, int),
    oldc: (int, int),
    fund: (int, int),
    q: (int, int),
    p: (int, int),
    f: (int, int),
) -> bool {
    let t1 = nsub(p, oldc);
    let delta = nmul(q, t1);
    let t2 = nmul(q, p);
    let f1 = nadd(fund, t2);
    fits_i64(t1) && fits_i64(delta) && fits_i64(t2) && fits_i64(f1) && fits_i64(nsub(f1, f))
        && fits_i64(nsub(oldq, q))
}

/// Every exact intermediate result of a `mark_to_market` stays
/// representable.
pub open spec fn mark_fits(oldq: (int, int), oldc: (int, int), p: (int, int)) -> bool {
    let t1 = nsub(p, oldc);
    fits_i64(t1) && fits_i64(nmul(oldq, t1))
}

// ---------------------------------------------------------------------------
// The exact machine state of an account, and what each successful
// operation leaves behind.
// ---------------------------------------------------------------------------

/// The account's state as one specification-level value: the stored
/// rationals and the contents of the two histories. The `..._result`
/// functions below pin, for each successful operation, the exact state it
/// leaves behind; the laws module works instead with the operations'
/// real-number semantics.
pub struct AccountState {
    pub available_fund: Rat,
    pub quantity: Rat,
    pub cost: Rat,
    pub pnl: Seq<TimeValue>,
    pub trades: Seq<Trade>,
}

/// The exact state a successful `open` leaves behind.
pub open spec fn open_result(
    st: AccountState,
    timestamp: i64,
    quantity: Rat,
    price: Rat,
    fee: Rat,
) -> AccountState {
    let oldq = st.quantity.v();
    let oldc = st.cost.v();
    let newq = nadd(oldq, quantity.v());
    AccountState {
        available_fund: rat_of(nsub(st.available_fund.v(), fee.v())),
        quantity: rat_of(newq),
        cost: rat_of(ndiv(nadd(nmul(oldq, oldc), nmul(quantity.v(), price.v())), newq)),
        pnl: st.pnl,
        trades: st.trades.push(
            Trade { timestamp, buy_sell_indicator: BuySellIndicator::Buy, quantity, price, fee },
        ),
    }
}

/// The exact state a successful `close` leaves behind.
pub open spec fn close_result(
    st: AccountState,
    timestamp: i64,
    quantity: Rat,
    price: Rat,
    fee: Rat,
) -> AccountState {
    let oldq = st.quantity.v();
    let oldc = st.cost.v();
    AccountState {
        available_fund: rat_of(
            nsub(nadd(st.available_fund.v(), nmul(quantity.v(), price.v())), fee.v()),
        ),
        quantity: rat_of(nsub(oldq, quantity.v())),
        cost: st.cost,
        pnl: st.pnl.push(
            TimeValue {
                timestamp: st.pnl.last().timestamp,
                realised_pnl: rat_of(nmul(quantity.v(), nsub(price.v(), oldc))),
                unrealised_pnl: st.pnl.last().unrealised_pnl,
            },
        ),
        trades: st.trades.push(
            Trade { timestamp, buy_sell_indicator: BuySellIndicator::Sell, quantity, price, fee },
        ),
    }
}

/// The exact state a successful `mark_to_market` leaves behind.
pub open spec fn mark_result(st: AccountState, closing_price: Rat, timestamp: i64) -> AccountState {
    AccountState {
        available_fund: st.available_fund,
        quantity: st.quantity,
        cost: st.cost,
        pnl: st.pnl.push(
            TimeValue {
                timestamp,
                realised_pnl: st.pnl.last().realised_pnl,
                unrealised_pnl: rat_of(
                    nmul(st.quantity.v(), nsub(closing_price.v(), st.cost.v())),
                ),
            },
        ),
        trades: st.trades,
    }
}

impl Account {
    /// The account's exact machine state.
    pub open spec fn st(self) -> AccountState {
        AccountState {
            available_fund: self.available_fund,
            quantity: self.position.quantity,
            cost: self.position.cost,
            pnl: self.profit_and_loss_history@,
            trades: self.trade_history@,
        }
    }

    /// The account's internal invariant: all amounts are well-formed
    /// rationals, the position is non-negative, and the profit-and-loss
    /// history holds at least its initial snapshot.
    pub open spec fn wf(self) -> bool {
        &&& self.available_fund.wf()
        &&& self.position.wf()
        &&& self.profit_and_loss_history@.len() >= 1
        &&& forall|i: int|
            0 <= i < self.profit_and_loss_history@.len() ==> (
            #[trigger] self.profit_and_loss_history@[i]).wf()
        &&& forall|i: int|
            0 <= i < self.trade_history@.len() ==> (#[trigger] self.trade_history@[i]).wf()
    }

    /// Creates an account with a starting fund, a starting position and a
    /// single initial profit-and-loss snapshot of zero at the starting
    /// timestamp.
    pub fn new(fund: Rat, initial_position: Position, start_timestamp: i64) -> (r: Account)
        requires
            fund.wf(),
            initial_position.wf(),
        ensures
            r.wf(),
            r.available_fund == fund,
            r.position == initial_position,
            r.trade_history@.len() == 0,
            r.profit_and_loss_history@.len() == 1,
            r.profit_and_loss_history@[0].timestamp == start_timestamp,
            r.profit_and_loss_history@[0].realised_pnl.v() == qint(0),
            r.profit_and_loss_history@[0].unrealised_pnl.v() == qint(0),
    {
        let initial_pnl = TimeValue {
            timestamp: start_timestamp,
            realised_pnl: Rat::from_int(0),
            unrealised_pnl: Rat::from_int(0),
        };
        let mut history: Vec<TimeValue> = Vec::new();
        history.push(initial_pnl);
        Account {
            available_fund: fund,
            position: initial_position,
            profit_and_loss_history: history,
            trade_history: Vec::new(),
        }
    }

    /// Increases the position by `quantity` bought at `price`.
    ///
    /// The new cost basis is the volume-weighted average of the old
    /// position and the new lot; the available fund decreases by the fee
    /// only (the notional is treated as already allocated); a `Buy` trade
    /// is appended; the profit-and-loss history is untouched.
    pub fn open(&mut self, timestamp: i64, quantity: Rat, price: Rat, fee: Rat) -> (r: Result<
        (),
        AccountError,
    >)
        requires
            old(self).wf(),
            quantity.wf(),
            price.wf(),
            fee.wf(),
        ensures
            final(self).wf(),
            r is Ok <==> trade_args_ok(quantity.v(), price.v(), fee.v()) && open_fits(
                old(self).position.quantity.v(),
                old(self).position.cost.v(),
                old(self).available_fund.v(),
                quantity.v(),
                price.v(),
                fee.v(),
            ),
            r is Err ==> *final(self) == *old(self),
            !trade_args_ok(quantity.v(), price.v(), fee.v()) ==> r == Err::<(), AccountError>(
                trade_arg_error(quantity.v(), price.v(), fee.v()),
            ),
            trade_args_ok(quantity.v(), price.v(), fee.v()) && !open_fits(
                old(self).position.quantity.v(),
                old(self).position.cost.v(),
                old(self).available_fund.v(),
                quantity.v(),
                price.v(),
                fee.v(),
            ) ==> r == Err::<(), AccountError>(AccountError::Overflow),
            r is Ok ==> {
                &&& qeq(
                    final(self).position.quantity.v(),
                    qadd(old(self).position.quantity.v(), quantity.v()),
                )
                &&& qpos(final(self).position.quantity.v())
                &&& qeq(
                    final(self).position.cost.v(),
                    qdiv(
                        qadd(
                            qmul(old(self).position.quantity.v(), old(self).position.cost.v()),
                            qmul(quantity.v(), price.v()),
                        ),
                        qadd(old(self).position.quantity.v(), quantity.v()),
                    ),
                )
                &&& qeq(final(self).available_fund.v(), qsub(old(self).available_fund.v(), fee.v()))
                &&& final(self).trade_history@ == old(self).trade_history@.push(
                    Trade {
                        timestamp,
                        buy_sell_indicator: BuySellIndicator::Buy,
                        quantity,
                        price,
                        fee,
                    },
                )
                &&& final(self).profit_and_loss_history@ == old(self).profit_and_loss_history@
                &&& final(self).st() == open_result(old(self).st(), timestamp, quantity, price, fee)
            },
    {
        if !quantity.is_positive() {
            return Err(AccountError::InvalidQuantity);
        }
        if !price.is_nonneg() {
            return Err(AccountError::InvalidPrice);
        }
        if !fee.is_nonneg() {
            return Err(AccountError::InvalidFee);
        }
        let ghost oldq = self.position.quantity.v();
        let ghost oldc = self.position.cost.v();
        let t1: Rat = match self.position.quantity.mul(&self.position.cost) {
            Some(v) => v,
            None => { return Err(AccountError::Overflow) },
        };
        let t2: Rat = match quantity.mul(&price) {
            Some(v) => v,
            None => { return Err(AccountError::Overflow) },
        };
        let num: Rat = match t1.add(&t2) {
            Some(v) => v,
            None => { return Err(AccountError::Overflow) },
        };
        let newq: Rat = match self.position.quantity.add(&quantity) {
            Some(v) => v,
            None => { return Err(AccountError::Overflow) },
        };
        proof {
            // The enlarged position is strictly positive, so the division
            // below is by a non-zero number.
            lemma_pos_product(oldq.1, quantity.v().1);
            assert(oldq.0 * quantity.v().1 + quantity.v().0 * oldq.1 > 0) by (nonlinear_arith)
                requires
                    oldq.0 >= 0,
                    oldq.1 > 0,
                    quantity.v().0 > 0,
                    quantity.v().1 > 0,
            ;
            assert(qpos(qadd(oldq, quantity.v())));
            lemma_qeq_sign(newq.v(), qadd(oldq, quantity.v()));
        }
        let newc: Rat = match num.div(&newq) {
            Some(v) => v,
            None => { return Err(AccountError::Overflow) },
        };
        let newfund: Rat = match self.available_fund.sub(&fee) {
            Some(v) => v,
            None => { return Err(AccountError::Overflow) },
        };
        proof {
            // Relate the normalized chain back to the raw weighted-average
            // formula from the design.
            let rawnum = qadd(qmul(oldq, oldc), qmul(quantity.v(), price.v()));
            let rawq = qadd(oldq, quantity.v());
            lemma_qadd_cong(t1.v(), qmul(oldq, oldc), t2.v(), qmul(quantity.v(), price.v()));
            lemma_pos_product(t1.v().1, t2.v().1);
            lemma_qeq_trans(num.v(), qadd(t1.v(), t2.v()), rawnum);
            lemma_qdiv_cong(num.v(), rawnum, newq.v(), rawq);
            lemma_nonzero_product(num.v().1, newq.v().0);
            lemma_qeq_trans(newc.v(), qdiv(num.v(), newq.v()), qdiv(rawnum, rawq));
            // The committed values are exactly the reduced chain results.
            lemma_rat_of_exact(newq, nadd(oldq, quantity.v()));
            lemma_rat_of_exact(
                newc,
                ndiv(nadd(nmul(oldq, oldc), nmul(quantity.v(), price.v())), nadd(oldq, quantity.v())),
            );
            lemma_rat_of_exact(newfund, nsub(self.available_fund.v(), fee.v()));
        }
        self.position.cost = newc;
        self.position.quantity = newq;
        self.available_fund = newfund;
        self.trade_history.push(
            Trade { timestamp, buy_sell_indicator: BuySellIndicator::Buy, quantity, price, fee },
        );
        Ok(())
    }

    /// Books the profit or loss of selling `quantity` at `price`.
    ///
    /// A snapshot is appended whose realised component is
    /// `quantity * (price - cost)` while the timestamp and unrealised
    /// component are carried forward verbatim from the previous snapshot.
    /// The position shrinks by `quantity` with its cost basis unchanged;
    /// the fund grows by the proceeds and shrinks by the fee; a `Sell`
    /// trade is appended. Selling more than is held is rejected.
    pub fn close(&mut self, timestamp: i64, quantity: Rat, price: Rat, fee: Rat) -> (r: Result<
        (),
        AccountError,
    >)
        requires
            old(self).wf(),
            quantity.wf(),
            price.wf(),
            fee.wf(),
        ensures
            final(self).wf(),
            r is Ok <==> trade_args_ok(quantity.v(), price.v(), fee.v()) && qle(
                quantity.v(),
                old(self).position.quantity.v(),
            ) && close_fits(
                old(self).position.quantity.v(),
                old(self).position.cost.v(),
                old(self).available_fund.v(),
                quantity.v(),
                price.v(),
                fee.v(),
            ),
            r is Err ==> *final(self) == *old(self),
            !trade_args_ok(quantity.v(), price.v(), fee.v()) ==> r == Err::<(), AccountError>(
                trade_arg_error(quantity.v(), price.v(), fee.v()),
            ),
            trade_args_ok(quantity.v(), price.v(), fee.v()) && !qle(
                quantity.v(),
                old(self).position.quantity.v(),
            ) ==> r == Err::<(), AccountError>(AccountError::InsufficientPosition),
            trade_args_ok(quantity.v(), price.v(), fee.v()) && qle(
                quantity.v(),
                old(self).position.quantity.v(),
            ) && !close_fits(
                old(self).position.quantity.v(),
                old(self).position.cost.v(),
                old(self).available_fund.v(),
                quantity.v(),
                price.v(),
                fee.v(),
            ) ==> r == Err::<(), AccountError>(AccountError::Overflow),
            r is Ok ==> {
                &&& final(self).profit_and_loss_history@.len() == old(self).profit_and_loss_history@.len() + 1
                &&& forall|i: int|
                    0 <= i < old(self).profit_and_loss_history@.len() ==> final(self).profit_and_loss_history@[i] == old(self).profit_and_loss_history@[i]
                &&& final(self).profit_and_loss_history@.last().timestamp == old(self).profit_and_loss_history@.last().timestamp
                &&& final(self).profit_and_loss_history@.last().unrealised_pnl == old(self).profit_and_loss_history@.last().unrealised_pnl
                &&& final(self).profit_and_loss_history@.last().realised_pnl.wf()
                &&& qeq(
                    final(self).profit_and_loss_history@.last().realised_pnl.v(),
                    qmul(quantity.v(), qsub(price.v(), old(self).position.cost.v())),
                )
                &&& qeq(
                    final(self).position.quantity.v(),
                    qsub(old(self).position.quantity.v(), quantity.v()),
                )
                &&& qnonneg(final(self).position.quantity.v())
                &&& final(self).position.cost == old(self).position.cost
                &&& qeq(
                    final(self).available_fund.v(),
                    qsub(
                        qadd(
                            old(self).available_fund.v(),
                            qmul(quantity.v(), price.v()),
                        ),
                        fee.v(),
                    ),
                )
                &&& final(self).trade_history@ == old(self).trade_history@.push(
                    Trade {
                        timestamp,
                        buy_sell_indicator: BuySellIndicator::Sell,
                        quantity,
                        price,
                        fee,
                    },
                )
                &&& final(self).st() == close_result(
                    old(self).st(),
                    timestamp,
                    quantity,
                    price,
                    fee,
                )
            },
    {
        if !quantity.is_positive() {
            return Err(AccountError::InvalidQuantity);
        }
        if !price.is_nonneg() {
            return Err(AccountError::InvalidPrice);
        }
        if !fee.is_nonneg() {
            return Err(AccountError::InvalidFee);
        }
        if !quantity.le(&self.position.quantity) {
            return Err(AccountError::InsufficientPosition);
        }
        let ghost oldq = self.position.quantity.v();
        let ghost oldc = self.position.cost.v();
        let ghost oldfund = self.available_fund.v();
        let t1: Rat = match price.sub(&self.position.cost) {
            Some(v) => v,
            None => { return Err(AccountError::Overflow) },
        };
        let delta: Rat = match quantity.mul(&t1) {
            Some(v) => v,
            None => { return Err(AccountError::Overflow) },
        };
        let t2: Rat = match quantity.mul(&price) {
            Some(v) => v,
            None => { return Err(AccountError::Overflow) },
        };
        let f1: Rat = match self.available_fund.add(&t2) {
            Some(v) => v,
            None => { return Err(AccountError::Overflow) },
        };
        let newfund: Rat = match f1.sub(&fee) {
            Some(v) => v,
            None => { return Err(AccountError::Overflow) },
        };
        let newq: Rat = match self.position.quantity.sub(&quantity) {
            Some(v) => v,
            None => { return Err(AccountError::Overflow) },
        };
        proof {
            // Realised component: delta denotes quantity * (price - cost).
            lemma_qmul_cong(quantity.v(), quantity.v(), t1.v(), qsub(price.v(), oldc));
            lemma_pos_product(quantity.v().1, t1.v().1);
            lemma_qeq_trans(
                delta.v(),
                qmul(quantity.v(), t1.v()),
                qmul(quantity.v(), qsub(price.v(), oldc)),
            );
            // Fund: newfund denotes fund + quantity * price - fee.
            lemma_qadd_cong(oldfund, oldfund, t2.v(), qmul(quantity.v(), price.v()));
            lemma_pos_product(oldfund.1, t2.v().1);
            lemma_qeq_trans(
                f1.v(),
                qadd(oldfund, t2.v()),
                qadd(oldfund, qmul(quantity.v(), price.v())),
            );
            lemma_qsub_cong(
                f1.v(),
                qadd(oldfund, qmul(quantity.v(), price.v())),
                fee.v(),
                fee.v(),
            );
            lemma_pos_product(f1.v().1, fee.v().1);
            lemma_qeq_trans(
                newfund.v(),
                qsub(f1.v(), fee.v()),
                qsub(qadd(oldfund, qmul(quantity.v(), price.v())), fee.v()),
            );
            // Position: the remaining quantity is non-negative.
            lemma_pos_product(oldq.1, quantity.v().1);
            assert(qnonneg(qsub(oldq, quantity.v())));
            lemma_qeq_sign(newq.v(), qsub(oldq, quantity.v()));
            // The committed values are exactly the reduced chain results.
            lemma_rat_of_exact(newq, nsub(oldq, quantity.v()));
            lemma_rat_of_exact(delta, nmul(quantity.v(), nsub(price.v(), oldc)));
            lemma_rat_of_exact(
                newfund,
                nsub(nadd(oldfund, nmul(quantity.v(), price.v())), fee.v()),
            );
        }
        let n: usize = self.profit_and_loss_history.len();
        let last: TimeValue = self.profit_and_loss_history[n - 1];
        let current = TimeValue {
            timestamp: last.timestamp,
            realised_pnl: delta,
            unrealised_pnl: last.unrealised_pnl,
        };
        self.profit_and_loss_history.push(current);
        self.position.quantity = newq;
        self.available_fund = newfund;
        self.trade_history.push(
            Trade { timestamp, buy_sell_indicator: BuySellIndicator::Sell, quantity, price, fee },
        );
        Ok(())
    }

    /// Appends a snapshot whose unrealised component is
    /// `quantity * (closing_price - cost)` at the given timestamp, carrying
    /// the realised component forward unchanged. Position, fund and trade
    /// history are untouched.
    pub fn mark_to_market(&mut self, closing_price: Rat, timestamp: i64) -> (r: Result<
        (),
        AccountError,
    >)
        requires
            old(self).wf(),
            closing_price.wf(),
        ensures
            final(self).wf(),
            r is Ok <==> mark_fits(
                old(self).position.quantity.v(),
                old(self).position.cost.v(),
                closing_price.v(),
            ),
            r is Err ==> *final(self) == *old(self) && r == Err::<(), AccountError>(
                AccountError::Overflow,
            ),
            r is Ok ==> {
                &&& final(self).profit_and_loss_history@.len() == old(self).profit_and_loss_history@.len() + 1
                &&& forall|i: int|
                    0 <= i < old(self).profit_and_loss_history@.len() ==> final(self).profit_and_loss_history@[i] == old(self).profit_and_loss_history@[i]
                &&& final(self).profit_and_loss_history@.last().timestamp == timestamp
                &&& final(self).profit_and_loss_history@.last().realised_pnl == old(self).profit_and_loss_history@.last().realised_pnl
                &&& final(self).profit_and_loss_history@.last().unrealised_pnl.wf()
                &&& qeq(
                    final(self).profit_and_loss_history@.last().unrealised_pnl.v(),
                    qmul(
                        old(self).position.quantity.v(),
                        qsub(closing_price.v(), old(self).position.cost.v()),
                    ),
                )
                &&& final(self).position == old(self).position
                &&& final(self).available_fund == old(self).available_fund
                &&& final(self).trade_history@ == old(self).trade_history@
                &&& final(self).st() == mark_result(old(self).st(), closing_price, timestamp)
            },
    {
        let ghost oldq = self.position.quantity.v();
        let ghost oldc = self.position.cost.v();
        let t1: Rat = match closing_price.sub(&self.position.cost) {
            Some(v) => v,
            None => { return Err(AccountError::Overflow) },
        };
        let unrealised: Rat = match self.position.quantity.mul(&t1) {
            Some(v) => v,
            None => { return Err(AccountError::Overflow) },
        };
        proof {
            lemma_qmul_cong(oldq, oldq, t1.v(), qsub(closing_price.v(), oldc));
            lemma_pos_product(oldq.1, t1.v().1);
            lemma_qeq_trans(
                unrealised.v(),
                qmul(oldq, t1.v()),
                qmul(oldq, qsub(closing_price.v(), oldc)),
            );
            // The appended value is exactly the reduced chain result.
            lemma_rat_of_exact(unrealised, nmul(oldq, nsub(closing_price.v(), oldc)));
        }
        let n: usize = self.profit_and_loss_history.len();
        let last: TimeValue = self.profit_and_loss_history[n - 1];
        let current = TimeValue {
            timestamp,
            realised_pnl: last.realised_pnl,
            unrealised_pnl: unrealised,
        };
        self.profit_and_loss_history.push(current);
        Ok(())
    }
}

} // verus!

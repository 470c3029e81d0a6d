//! Ledger laws: properties of arbitrary sequences of ledger operations.
//!
//! The ledger is modelled here as a specification-level state
//! ([`LedgerModel`]) transformed by [`apply_op`], whose clauses restate,
//! formula for formula, what the contracts of [`crate::account::Account`]'s
//! `open`, `close` and `mark_to_market` ensure of a successful call. The
//! proof functions below state what holds of every sequence of such
//! operations: the cost basis is always the volume-weighted average of all
//! entries, histories only grow and are append-only, trades record exactly
//! their arguments, and the realised and unrealised components each change
//! only through their own operation.

use crate::account::BuySellIndicator;
use crate::rational::{
    lemma_qadd_cong, lemma_qdiv_cong, qadd, qdiv, qeq, qmul, qnonneg, qpos, qsub, qwf,
};
use vstd::prelude::*;

verus! {

/// A recorded trade, at the model level.
pub struct TradeRecord {
    pub timestamp: int,
    pub side: BuySellIndicator,
    pub quantity: (int, int),
    pub price: (int, int),
    pub fee: (int, int),
}

/// A profit-and-loss snapshot, at the model level.
pub struct Snapshot {
    pub timestamp: int,
    pub realised: (int, int),
    pub unrealised: (int, int),
}

/// The ledger state, at the model level.
pub struct LedgerModel {
    pub fund: (int, int),
    pub quantity: (int, int),
    pub cost: (int, int),
    pub pnl: Seq<Snapshot>,
    pub trades: Seq<TradeRecord>,
}

/// One ledger operation.
pub enum LedgerOp {
    Open { timestamp: int, quantity: (int, int), price: (int, int), fee: (int, int) },
    Close { timestamp: int, quantity: (int, int), price: (int, int), fee: (int, int) },
    Mark { timestamp: int, price: (int, int) },
}

/// What one successful ledger operation does, exactly as the operations'
/// contracts state it: an open re-averages the cost basis, deducts only
/// the fee, and records a buy; a close books `quantity * (price - cost)`
/// as the realised component (carrying the snapshot's other fields
/// forward), shrinks the position at unchanged cost, credits the proceeds
/// net of fee, and records a sell; a mark-to-market appends a snapshot
/// with unrealised profit `quantity * (price - cost)` and the realised
/// component carried forward.
pub open spec fn apply_op(m: LedgerModel, op: LedgerOp) -> LedgerModel {
    match op {
        LedgerOp::Open { timestamp, quantity, price, fee } => LedgerModel {
            fund: qsub(m.fund, fee),
            quantity: qadd(m.quantity, quantity),
            cost: qdiv(
                qadd(qmul(m.quantity, m.cost), qmul(quantity, price)),
                qadd(m.quantity, quantity),
            ),
            pnl: m.pnl,
            trades: m.trades.push(
                TradeRecord { timestamp, side: BuySellIndicator::Buy, quantity, price, fee },
            ),
        },
        LedgerOp::Close { timestamp, quantity, price, fee } => LedgerModel {
            fund: qsub(qadd(m.fund, qmul(quantity, price)), fee),
            quantity: qsub(m.quantity, quantity),
            cost: m.cost,
            pnl: m.pnl.push(
                Snapshot {
                    timestamp: m.pnl.last().timestamp,
                    realised: qmul(quantity, qsub(price, m.cost)),
                    unrealised: m.pnl.last().unrealised,
                },
            ),
            trades: m.trades.push(
                TradeRecord { timestamp, side: BuySellIndicator::Sell, quantity, price, fee },
            ),
        },
        LedgerOp::Mark { timestamp, price } => LedgerModel {
            fund: m.fund,
            quantity: m.quantity,
            cost: m.cost,
            pnl: m.pnl.push(
                Snapshot {
                    timestamp,
                    realised: m.pnl.last().realised,
                    unrealised: qmul(m.quantity, qsub(price, m.cost)),
                },
            ),
            trades: m.trades,
        },
    }
}

/// A sequence of operations, applied left to right.
pub open spec fn apply_ops(m: LedgerModel, ops: Seq<LedgerOp>) -> LedgerModel
    decreases ops.len(),
{
    if ops.len() == 0 {
        m
    } else {
        apply_op(apply_ops(m, ops.drop_last()), ops.last())
    }
}

// ---------------------------------------------------------------------------
// The cost basis is the volume-weighted average of all entries.
// ---------------------------------------------------------------------------

/// Every operation is an `Open` with a positive well-formed quantity and
/// a well-formed price.
pub open spec fn all_opens(ops: Seq<LedgerOp>) -> bool {
    forall|i: int|
        0 <= i < ops.len() ==> ((#[trigger] ops[i]) matches LedgerOp::Open { quantity, price, .. }
            && qwf(quantity) && qpos(quantity) && qwf(price))
}

/// The total notional of the starting position plus all entries:
/// `q0*c0 + sum of quantity * price`.
pub open spec fn total_notional(m: LedgerModel, ops: Seq<LedgerOp>) -> (int, int)
    decreases ops.len(),
{
    if ops.len() == 0 {
        qmul(m.quantity, m.cost)
    } else {
        match ops.last() {
            LedgerOp::Open { quantity, price, .. } => qadd(
                total_notional(m, ops.drop_last()),
                qmul(quantity, price),
            ),
            _ => total_notional(m, ops.drop_last()),
        }
    }
}

/// The total quantity of the starting position plus all entries.
pub open spec fn total_quantity(q0: (int, int), ops: Seq<LedgerOp>) -> (int, int)
    decreases ops.len(),
{
    if ops.len() == 0 {
        q0
    } else {
        match ops.last() {
            LedgerOp::Open { quantity, .. } => qadd(total_quantity(q0, ops.drop_last()), quantity),
            _ => total_quantity(q0, ops.drop_last()),
        }
    }
}

/// After any sequence of opens, the held quantity is the total quantity.
proof fn lemma_opens_quantity(m: LedgerModel, ops: Seq<LedgerOp>)
    requires
        all_opens(ops),
    ensures
        apply_ops(m, ops).quantity == total_quantity(m.quantity, ops),
    decreases ops.len(),
{
    if ops.len() > 0 {
        assert(all_opens(ops.drop_last())) by {
            assert(forall|i: int|
                0 <= i < ops.drop_last().len() ==> ops.drop_last()[i] == ops[i]);
        }
        lemma_opens_quantity(m, ops.drop_last());
    }
}

/// For all sequences of `open` operations with positive quantities, the
/// resulting cost basis equals the volume-weighted average of all entry
/// prices (the starting position counting as one entry at its cost):
/// `cost == (q0*c0 + sum qi*pi) / (q0 + sum qi)`, exactly.
pub proof fn lemma_cost_is_weighted_average(m: LedgerModel, ops: Seq<LedgerOp>)
    requires
        all_opens(ops),
        qwf(m.quantity),
        qwf(m.cost),
        qnonneg(m.quantity),
        ops.len() >= 1 || qpos(m.quantity),
    ensures
        qeq(
            apply_ops(m, ops).cost,
            qdiv(total_notional(m, ops), total_quantity(m.quantity, ops)),
        ),
    decreases ops.len(),
{
    if ops.len() == 0 {
        // cost == c0, and (q0*c0)/q0 denotes the same number.
        let q0 = m.quantity;
        let c0 = m.cost;
        assert(c0.0 * ((q0.1 * c0.1) * q0.0) == ((q0.0 * c0.0) * q0.1) * c0.1)
            by (nonlinear_arith);
    } else {
        let prefix = ops.drop_last();
        assert(all_opens(prefix)) by {
            assert(forall|i: int| 0 <= i < prefix.len() ==> prefix[i] == ops[i]);
        }
        lemma_opens_quantity(m, prefix);
        let mp = apply_ops(m, prefix);
        let qq = mp.quantity;
        let cc = mp.cost;
        let ss = total_notional(m, prefix);
        let op = ops.last();
        assert(ops[ops.len() - 1] == op);
        let dq = op->Open_quantity;
        let dp = op->Open_price;
        if prefix.len() == 0 && !qpos(m.quantity) {
            // One entry from a flat start: both sides are the same pair
            // up to the defining formula.
            assert(apply_ops(m, ops).cost == qdiv(
                qadd(qmul(qq, cc), qmul(dq, dp)),
                qadd(qq, dq),
            ));
            assert(total_notional(m, ops) == qadd(ss, qmul(dq, dp)));
            assert(ss == qmul(qq, cc));
            lemma_qdiv_cong(
                qadd(qmul(qq, cc), qmul(dq, dp)),
                qadd(total_notional(m, prefix), qmul(dq, dp)),
                qadd(qq, dq),
                qadd(qq, dq),
            );
        } else {
            lemma_cost_is_weighted_average(m, prefix);
            // cc denotes ss / qq, so qq * cc denotes ss.
            assert(qeq(qmul(qq, cc), ss)) by (nonlinear_arith)
                requires
                    cc.0 * (ss.1 * qq.0) == (ss.0 * qq.1) * cc.1,
            ;
            lemma_qadd_cong(qmul(qq, cc), ss, qmul(dq, dp), qmul(dq, dp));
            lemma_qdiv_cong(
                qadd(qmul(qq, cc), qmul(dq, dp)),
                qadd(ss, qmul(dq, dp)),
                qadd(qq, dq),
                qadd(qq, dq),
            );
        }
    }
}

// ---------------------------------------------------------------------------
// Closing and immediately marking to market.
// ---------------------------------------------------------------------------

/// A `close` followed immediately by a `mark_to_market` at the same price
/// yields an unrealised profit of `(q0 - q) * (price - cost)`: the
/// post-close quantity at the unchanged cost basis.
pub proof fn lemma_close_then_mark_to_market(
    m: LedgerModel,
    q: (int, int),
    price: (int, int),
    fee: (int, int),
    ts1: int,
    ts2: int,
)
    ensures
        ({
            let m1 = apply_op(m, LedgerOp::Close { timestamp: ts1, quantity: q, price, fee });
            let m2 = apply_op(m1, LedgerOp::Mark { timestamp: ts2, price });
            m2.pnl.last().unrealised == qmul(qsub(m.quantity, q), qsub(price, m.cost))
        }),
{
}

// ---------------------------------------------------------------------------
// Trade history: length and recorded fields.
// ---------------------------------------------------------------------------

/// The operation records a trade.
pub open spec fn is_trade_op(op: LedgerOp) -> bool {
    op is Open || op is Close
}

/// How many of the operations record a trade.
pub open spec fn count_trades(ops: Seq<LedgerOp>) -> int
    decreases ops.len(),
{
    if ops.len() == 0 {
        0
    } else {
        count_trades(ops.drop_last()) + if is_trade_op(ops.last()) {
            1int
        } else {
            0int
        }
    }
}

/// The trade a trading operation records: exactly the call's arguments.
pub open spec fn trade_record(op: LedgerOp) -> TradeRecord {
    match op {
        LedgerOp::Open { timestamp, quantity, price, fee } => TradeRecord {
            timestamp,
            side: BuySellIndicator::Buy,
            quantity,
            price,
            fee,
        },
        LedgerOp::Close { timestamp, quantity, price, fee } => TradeRecord {
            timestamp,
            side: BuySellIndicator::Sell,
            quantity,
            price,
            fee,
        },
        LedgerOp::Mark { .. } => TradeRecord {
            timestamp: 0,
            side: BuySellIndicator::Buy,
            quantity: (0int, 1int),
            price: (0int, 1int),
            fee: (0int, 1int),
        },
    }
}

/// After N opens and closes, the trade history has grown by exactly N,
/// the earlier entries are untouched, and each new entry's fields match
/// the recording call's arguments exactly.
pub proof fn lemma_trade_history(m: LedgerModel, ops: Seq<LedgerOp>)
    requires
        forall|i: int| 0 <= i < ops.len() ==> is_trade_op(#[trigger] ops[i]),
    ensures
        apply_ops(m, ops).trades.len() == m.trades.len() + ops.len(),
        forall|j: int|
            0 <= j < m.trades.len() ==> apply_ops(m, ops).trades[j] == m.trades[j],
        forall|i: int|
            0 <= i < ops.len() ==> apply_ops(m, ops).trades[m.trades.len() + i] == trade_record(
                #[trigger] ops[i],
            ),
    decreases ops.len(),
{
    if ops.len() > 0 {
        let prefix = ops.drop_last();
        assert(forall|i: int| 0 <= i < prefix.len() ==> prefix[i] == ops[i]);
        lemma_trade_history(m, prefix);
        assert(ops[ops.len() - 1] == ops.last());
    }
}

// ---------------------------------------------------------------------------
// Profit-and-loss history: length, append-only growth, and which
// operation changes which component.
// ---------------------------------------------------------------------------

/// How many of the operations append a snapshot: every close and every
/// mark-to-market, and nothing else.
pub open spec fn count_snapshots(ops: Seq<LedgerOp>) -> int
    decreases ops.len(),
{
    if ops.len() == 0 {
        0
    } else {
        count_snapshots(ops.drop_last()) + if ops.last() is Open {
            0int
        } else {
            1int
        }
    }
}

/// The profit-and-loss history grows by exactly one snapshot per close or
/// mark-to-market, never shrinks, and never rewrites an earlier entry.
pub proof fn lemma_pnl_history(m: LedgerModel, ops: Seq<LedgerOp>)
    ensures
        apply_ops(m, ops).pnl.len() == m.pnl.len() + count_snapshots(ops),
        count_snapshots(ops) >= 0,
        forall|j: int| 0 <= j < m.pnl.len() ==> apply_ops(m, ops).pnl[j] == m.pnl[j],
    decreases ops.len(),
{
    if ops.len() > 0 {
        lemma_pnl_history(m, ops.drop_last());
    }
}

/// An open never touches the profit-and-loss history.
pub proof fn lemma_open_leaves_pnl(m: LedgerModel, timestamp: int, q: (int, int), p: (int, int), f: (
    int,
    int,
))
    ensures
        apply_op(m, LedgerOp::Open { timestamp, quantity: q, price: p, fee: f }).pnl == m.pnl,
{
}

/// A mark-to-market changes only the unrealised component: the realised
/// component of the new snapshot is carried forward unchanged.
pub proof fn lemma_mark_carries_realised(m: LedgerModel, timestamp: int, p: (int, int))
    requires
        m.pnl.len() >= 1,
    ensures
        apply_op(m, LedgerOp::Mark { timestamp, price: p }).pnl.last().realised
            == m.pnl.last().realised,
{
}

/// A close changes only the realised component: the timestamp and the
/// unrealised component of the new snapshot are carried forward verbatim
/// from the previous snapshot.
pub proof fn lemma_close_carries_unrealised(
    m: LedgerModel,
    timestamp: int,
    q: (int, int),
    p: (int, int),
    f: (int, int),
)
    requires
        m.pnl.len() >= 1,
    ensures
        apply_op(
            m,
            LedgerOp::Close { timestamp, quantity: q, price: p, fee: f },
        ).pnl.last().unrealised == m.pnl.last().unrealised,
        apply_op(
            m,
            LedgerOp::Close { timestamp, quantity: q, price: p, fee: f },
        ).pnl.last().timestamp == m.pnl.last().timestamp,
{
}

// ---------------------------------------------------------------------------
// Marking to market is stable.
// ---------------------------------------------------------------------------

/// Marking to market twice with the same price and timestamp appends two
/// snapshots with identical unrealised values: the history grows, the
/// values are stable.
pub proof fn lemma_mark_to_market_stable(m: LedgerModel, price: (int, int), timestamp: int)
    ensures
        ({
            let m1 = apply_op(m, LedgerOp::Mark { timestamp, price });
            let m2 = apply_op(m1, LedgerOp::Mark { timestamp, price });
            &&& m2.pnl.len() == m.pnl.len() + 2
            &&& m2.pnl.last().unrealised == m1.pnl[m1.pnl.len() - 1].unrealised
            &&& m2.pnl.last().unrealised == qmul(m.quantity, qsub(price, m.cost))
        }),
{
}

} // verus!

use backtest::account::{Account, AccountError, BuySellIndicator, Position};
use backtest::rational::Rat;
use chrono::NaiveDate;

fn ts(year: i32, month: u32, day: u32) -> i64 {
    NaiveDate::from_ymd_opt(year, month, day)
        .unwrap()
        .and_hms_opt(0, 0, 0)
        .unwrap()
        .and_utc()
        .timestamp()
}

#[test]
fn test_has_position() {
    let initial_position = Position {
        quantity: Rat::new(1231, 10),
        cost: Rat::new(10, 1),
    };
    let start_timestamp = ts(2021, 9, 1);
    let account = Account::new(Rat::new(1000, 1), initial_position, start_timestamp);
    assert!(account.position.quantity.equals(&Rat::new(1231, 10)));
}

#[test]
fn test_open() {
    let initial_position = Position {
        quantity: Rat::new(100, 1),
        cost: Rat::new(10, 1),
    };
    let start_timestamp = ts(2021, 9, 1);
    let mut account = Account::new(Rat::new(5000, 1), initial_position, start_timestamp);
    let timestamp = ts(2021, 10, 31);
    account
        .open(timestamp, Rat::new(100, 1), Rat::new(20, 1), Rat::new(2, 100))
        .unwrap();
    assert!(account.position.cost.equals(&Rat::new(15, 1)));
    assert!(account.position.quantity.equals(&Rat::new(200, 1)));
    assert!(account.available_fund.equals(&Rat::new(499998, 100)));
    assert_eq!(account.trade_history.len(), 1);
    let trade = &account.trade_history[0];
    assert_eq!(trade.timestamp, ts(2021, 10, 31));
    assert_eq!(trade.buy_sell_indicator, BuySellIndicator::Buy);
    assert!(trade.quantity.equals(&Rat::new(100, 1)));
    assert!(trade.price.equals(&Rat::new(20, 1)));
    assert!(trade.fee.equals(&Rat::new(2, 100)));
}

#[test]
fn test_close() {
    let initial_position = Position {
        quantity: Rat::new(100, 1),
        cost: Rat::new(10, 1),
    };
    let start_timestamp = ts(2021, 9, 1);
    let mut account = Account::new(Rat::new(1000, 1), initial_position, start_timestamp);
    let timestamp = ts(2021, 10, 31);
    account
        .close(timestamp, Rat::new(50, 1), Rat::new(20, 1), Rat::new(2, 100))
        .unwrap();
    assert!(account.position.cost.equals(&Rat::new(10, 1)));
    assert!(account.position.quantity.equals(&Rat::new(50, 1)));
    assert!(account.available_fund.equals(&Rat::new(199998, 100)));
    assert_eq!(account.trade_history.len(), 1);
    let trade = &account.trade_history[0];
    assert_eq!(trade.timestamp, ts(2021, 10, 31));
    assert_eq!(trade.buy_sell_indicator, BuySellIndicator::Sell);
    assert!(trade.quantity.equals(&Rat::new(50, 1)));
    assert!(trade.price.equals(&Rat::new(20, 1)));
    assert!(trade.fee.equals(&Rat::new(2, 100)));
    // The freshly booked profit: 50 * (20 - 10) == 500.
    let last = account.profit_and_loss_history.last().unwrap();
    assert!(last.realised_pnl.equals(&Rat::new(500, 1)));
}

#[test]
fn test_mark_to_market() {
    let initial_position = Position {
        quantity: Rat::new(100, 1),
        cost: Rat::new(10, 1),
    };
    let start_timestamp = ts(2021, 9, 1);
    let mut account = Account::new(Rat::new(5000, 1), initial_position, start_timestamp);
    let timestamp = ts(2021, 10, 31);
    account.mark_to_market(Rat::new(20, 1), timestamp).unwrap();
    let latest_pnl = account.profit_and_loss_history.last().unwrap();
    assert_eq!(latest_pnl.timestamp, timestamp);
    assert!(latest_pnl.realised_pnl.equals(&Rat::new(0, 1)));
    assert!(latest_pnl.unrealised_pnl.equals(&Rat::new(1000, 1)));
}

#[test]
fn test_open_weighted_average_of_entries() {
    // Two entries from a flat start: cost is the volume-weighted average
    // (100*20 + 50*30) / 150 == 70/3.
    let mut account = Account::new(
        Rat::new(1000, 1),
        Position {
            quantity: Rat::new(0, 1),
            cost: Rat::new(0, 1),
        },
        ts(2021, 9, 1),
    );
    account
        .open(ts(2021, 9, 2), Rat::new(100, 1), Rat::new(20, 1), Rat::new(0, 1))
        .unwrap();
    account
        .open(ts(2021, 9, 3), Rat::new(50, 1), Rat::new(30, 1), Rat::new(0, 1))
        .unwrap();
    assert!(account.position.quantity.equals(&Rat::new(150, 1)));
    assert!(account.position.cost.equals(&Rat::new(70, 3)));
    assert_eq!(account.trade_history.len(), 2);
    // Opening never touches the profit-and-loss history.
    assert_eq!(account.profit_and_loss_history.len(), 1);
}

#[test]
fn test_close_then_mark_to_market_uses_post_close_quantity() {
    let mut account = Account::new(
        Rat::new(1000, 1),
        Position {
            quantity: Rat::new(100, 1),
            cost: Rat::new(10, 1),
        },
        ts(2021, 9, 1),
    );
    account
        .close(ts(2021, 9, 2), Rat::new(40, 1), Rat::new(20, 1), Rat::new(0, 1))
        .unwrap();
    account.mark_to_market(Rat::new(20, 1), ts(2021, 9, 2)).unwrap();
    // Unrealised profit: (100-40) * (20 - 10) == 600, at unchanged cost.
    let last = account.profit_and_loss_history.last().unwrap();
    assert!(last.unrealised_pnl.equals(&Rat::new(600, 1)));
    assert!(account.position.cost.equals(&Rat::new(10, 1)));
}

#[test]
fn test_mark_to_market_twice_is_stable() {
    let mut account = Account::new(
        Rat::new(5000, 1),
        Position {
            quantity: Rat::new(100, 1),
            cost: Rat::new(10, 1),
        },
        ts(2021, 9, 1),
    );
    let t = ts(2021, 10, 31);
    account.mark_to_market(Rat::new(20, 1), t).unwrap();
    account.mark_to_market(Rat::new(20, 1), t).unwrap();
    // The history grew by two snapshots with identical unrealised values.
    let n = account.profit_and_loss_history.len();
    assert_eq!(n, 3);
    let a = &account.profit_and_loss_history[n - 2];
    let b = &account.profit_and_loss_history[n - 1];
    assert!(a.unrealised_pnl.equals(&b.unrealised_pnl));
    assert!(a.unrealised_pnl.equals(&Rat::new(1000, 1)));
}

#[test]
fn test_pnl_history_growth_per_operation() {
    let mut account = Account::new(
        Rat::new(1000, 1),
        Position {
            quantity: Rat::new(10, 1),
            cost: Rat::new(1, 1),
        },
        ts(2021, 9, 1),
    );
    assert_eq!(account.profit_and_loss_history.len(), 1);
    account
        .open(ts(2021, 9, 2), Rat::new(1, 1), Rat::new(2, 1), Rat::new(0, 1))
        .unwrap();
    assert_eq!(account.profit_and_loss_history.len(), 1);
    account
        .close(ts(2021, 9, 3), Rat::new(1, 1), Rat::new(2, 1), Rat::new(0, 1))
        .unwrap();
    assert_eq!(account.profit_and_loss_history.len(), 2);
    account.mark_to_market(Rat::new(2, 1), ts(2021, 9, 4)).unwrap();
    assert_eq!(account.profit_and_loss_history.len(), 3);
    // The realised component changed only on the close; the unrealised
    // component only on the mark-to-market.
    let after_close = &account.profit_and_loss_history[1];
    let after_mark = &account.profit_and_loss_history[2];
    assert!(after_close.unrealised_pnl.equals(&Rat::new(0, 1)));
    assert!(after_mark.realised_pnl.equals(&after_close.realised_pnl));
}

#[test]
fn test_open_rejects_bad_arguments() {
    let mut account = Account::new(
        Rat::new(1000, 1),
        Position {
            quantity: Rat::new(100, 1),
            cost: Rat::new(10, 1),
        },
        ts(2021, 9, 1),
    );
    let t = ts(2021, 9, 2);
    assert_eq!(
        account.open(t, Rat::new(0, 1), Rat::new(20, 1), Rat::new(0, 1)),
        Err(AccountError::InvalidQuantity)
    );
    assert_eq!(
        account.open(t, Rat::new(1, 1), Rat::new(-20, 1), Rat::new(0, 1)),
        Err(AccountError::InvalidPrice)
    );
    assert_eq!(
        account.open(t, Rat::new(1, 1), Rat::new(20, 1), Rat::new(-1, 1)),
        Err(AccountError::InvalidFee)
    );
    // A rejected operation leaves the account untouched.
    assert!(account.available_fund.equals(&Rat::new(1000, 1)));
    assert!(account.position.quantity.equals(&Rat::new(100, 1)));
    assert_eq!(account.trade_history.len(), 0);
}

#[test]
fn test_close_rejects_overselling() {
    let mut account = Account::new(
        Rat::new(1000, 1),
        Position {
            quantity: Rat::new(10, 1),
            cost: Rat::new(10, 1),
        },
        ts(2021, 9, 1),
    );
    let r = account.close(ts(2021, 9, 2), Rat::new(11, 1), Rat::new(20, 1), Rat::new(0, 1));
    assert_eq!(r, Err(AccountError::InsufficientPosition));
    assert!(account.position.quantity.equals(&Rat::new(10, 1)));
    assert_eq!(account.profit_and_loss_history.len(), 1);
}

#[test]
fn test_open_reports_overflow() {
    let big = Rat::new(i64::MAX, 1);
    let mut account = Account::new(
        Rat::new(1000, 1),
        Position {
            quantity: Rat::new(0, 1),
            cost: Rat::new(0, 1),
        },
        ts(2021, 9, 1),
    );
    // quantity * price alone no longer fits the representation.
    let r = account.open(ts(2021, 9, 2), big, big, Rat::new(0, 1));
    assert_eq!(r, Err(AccountError::Overflow));
    assert!(account.available_fund.equals(&Rat::new(1000, 1)));
    assert_eq!(account.trade_history.len(), 0);
}

#[test]
fn test_mark_to_market_flat_position_reads_no_cost() {
    // With nothing held, the unrealised profit is zero whatever the
    // (stale) cost basis says.
    let mut account = Account::new(
        Rat::new(500, 1),
        Position {
            quantity: Rat::new(0, 1),
            cost: Rat::new(7, 1),
        },
        ts(2021, 9, 1),
    );
    account.mark_to_market(Rat::new(99, 1), ts(2021, 9, 2)).unwrap();
    let last = account.profit_and_loss_history.last().unwrap();
    assert!(last.unrealised_pnl.equals(&Rat::new(0, 1)));
}

#[test]
fn test_close_at_a_loss_books_negative_profit() {
    let mut account = Account::new(
        Rat::new(0, 1),
        Position {
            quantity: Rat::new(10, 1),
            cost: Rat::new(30, 1),
        },
        ts(2021, 9, 1),
    );
    account
        .close(ts(2021, 9, 2), Rat::new(10, 1), Rat::new(20, 1), Rat::new(1, 1))
        .unwrap();
    let last = account.profit_and_loss_history.last().unwrap();
    assert!(last.realised_pnl.equals(&Rat::new(-100, 1)));
    // fund: 0 + 10*20 - 1 == 199.
    assert!(account.available_fund.equals(&Rat::new(199, 1)));
}

#[test]
fn test_rat_equality_across_representations() {
    assert!(Rat::new(2, 4).equals(&Rat::new(1, 2)));
    assert!(!Rat::new(2, 4).equals(&Rat::new(2, 3)));
    assert!(Rat::new(-6, 4).equals(&Rat::new(-3, 2)));
    let sum = Rat::new(1, 3).add(&Rat::new(1, 6)).unwrap();
    assert!(sum.equals(&Rat::new(1, 2)));
    let q = Rat::new(1, 10).div(&Rat::new(1, 2)).unwrap();
    assert!(q.equals(&Rat::new(1, 5)));
}

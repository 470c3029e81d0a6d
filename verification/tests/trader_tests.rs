use backtest::account::{Account, BuySellIndicator, Position};
use backtest::binance_data::BinanceKline;
use backtest::rational::Rat;
use backtest::traders::{
    compute_buy_fee, compute_sell_fee, compute_stake, execute_buy, execute_sell,
    initialise_acount, initialise_dca_trader, initialise_hodl_trader, loop_kline,
    next_trade_session, DCATrader, HODLTrader, StakeSize, TradingFee,
};
use chrono::NaiveDate;

fn ts(year: i32, month: u32, day: u32) -> i64 {
    NaiveDate::from_ymd_opt(year, month, day)
        .unwrap()
        .and_hms_opt(0, 0, 0)
        .unwrap()
        .and_utc()
        .timestamp()
}

fn kline(start: i64, end: i64, close: Rat) -> BinanceKline {
    BinanceKline {
        start_time: start,
        open: close,
        close,
        high: close,
        low: close,
        volume: Rat::new(1, 1),
        end_time: end,
    }
}

fn flat_account(fund: i64) -> Account {
    Account::new(
        Rat::new(fund, 1),
        Position {
            quantity: Rat::new(0, 1),
            cost: Rat::new(0, 1),
        },
        ts(2021, 9, 1),
    )
}

#[test]
fn test_compute_stake_policies() {
    let fund = Rat::new(1000, 1);
    let fixed = compute_stake(&StakeSize::FixAmount(Rat::new(250, 1)), &fund).unwrap();
    assert!(fixed.equals(&Rat::new(250, 1)));
    let half = compute_stake(&StakeSize::FixPercentage(Rat::new(5, 10)), &fund).unwrap();
    assert!(half.equals(&Rat::new(500, 1)));
}

#[test]
fn test_buy_fee_is_grossed_up() {
    // fee = stake * r / (1 - r): 100 * 0.005 / 0.995 == 100/199.
    let fee = compute_buy_fee(
        &TradingFee::PercentageFee(Rat::new(5, 1000)),
        &Rat::new(100, 1),
    )
    .unwrap();
    assert!(fee.equals(&Rat::new(100, 199)));
    let fixed = compute_buy_fee(&TradingFee::FixFee(Rat::new(3, 2)), &Rat::new(100, 1)).unwrap();
    assert!(fixed.equals(&Rat::new(3, 2)));
}

#[test]
fn test_sell_fee_is_charged_on_proceeds() {
    // fee = price * qty * r: 20 * 100 * 0.001 == 2, not grossed up.
    let fee = compute_sell_fee(
        &TradingFee::PercentageFee(Rat::new(1, 1000)),
        &Rat::new(20, 1),
        &Rat::new(100, 1),
    )
    .unwrap();
    assert!(fee.equals(&Rat::new(2, 1)));
}

#[test]
fn test_execute_buy_stakes_and_opens() {
    let mut account = flat_account(1000);
    let r = execute_buy(
        &StakeSize::FixPercentage(Rat::new(1, 1)),
        &TradingFee::FixFee(Rat::new(0, 1)),
        ts(2021, 9, 2),
        &Rat::new(20, 1),
        &mut account,
    );
    assert!(r.is_ok());
    // quantity = (1000 + 0) / 20 == 50 at cost 20.
    assert!(account.position.quantity.equals(&Rat::new(50, 1)));
    assert!(account.position.cost.equals(&Rat::new(20, 1)));
    // Opening deducts only the fee from the fund.
    assert!(account.available_fund.equals(&Rat::new(1000, 1)));
    assert_eq!(account.trade_history.len(), 1);
    assert_eq!(
        account.trade_history[0].buy_sell_indicator,
        BuySellIndicator::Buy
    );
}

#[test]
fn test_execute_buy_percentage_fee_consumes_stake_plus_fee() {
    // Full-fund stake of 1000 at rate 0.005: fee = 1000 * 0.005/0.995
    // == 1000/199, quantity = (1000 + 1000/199) / 20 == 10000/199, and
    // only the fee leaves the fund.
    let mut account = flat_account(1000);
    let r = execute_buy(
        &StakeSize::FixPercentage(Rat::new(1, 1)),
        &TradingFee::PercentageFee(Rat::new(5, 1000)),
        ts(2021, 9, 2),
        &Rat::new(20, 1),
        &mut account,
    );
    assert!(r.is_ok());
    assert!(account.position.quantity.equals(&Rat::new(10000, 199)));
    assert!(account.position.cost.equals(&Rat::new(20, 1)));
    assert!(account.available_fund.equals(&Rat::new(198000, 199)));
    assert!(account.trade_history[0].fee.equals(&Rat::new(1000, 199)));
}

#[test]
fn test_execute_buy_with_no_fund_is_a_no_op() {
    let mut account = flat_account(0);
    let r = execute_buy(
        &StakeSize::FixPercentage(Rat::new(1, 1)),
        &TradingFee::FixFee(Rat::new(0, 1)),
        ts(2021, 9, 2),
        &Rat::new(20, 1),
        &mut account,
    );
    assert!(r.is_ok());
    assert_eq!(account.trade_history.len(), 0);
    assert!(account.position.quantity.equals(&Rat::new(0, 1)));
}

#[test]
fn test_execute_sell_closes_whole_position() {
    let mut account = Account::new(
        Rat::new(1000, 1),
        Position {
            quantity: Rat::new(100, 1),
            cost: Rat::new(10, 1),
        },
        ts(2021, 9, 1),
    );
    let r = execute_sell(
        &TradingFee::PercentageFee(Rat::new(1, 1000)),
        ts(2021, 9, 2),
        &Rat::new(20, 1),
        &mut account,
    );
    assert!(r.is_ok());
    assert!(account.position.quantity.equals(&Rat::new(0, 1)));
    // fund: 1000 + 100*20 - 2 == 2998.
    assert!(account.available_fund.equals(&Rat::new(2998, 1)));
    let last = account.profit_and_loss_history.last().unwrap();
    assert!(last.realised_pnl.equals(&Rat::new(1000, 1)));
    assert_eq!(account.trade_history.len(), 1);
    assert_eq!(
        account.trade_history[0].buy_sell_indicator,
        BuySellIndicator::Sell
    );
}

#[test]
fn test_execute_sell_with_no_position_is_a_no_op() {
    let mut account = flat_account(1000);
    let r = execute_sell(
        &TradingFee::PercentageFee(Rat::new(1, 1000)),
        ts(2021, 9, 2),
        &Rat::new(20, 1),
        &mut account,
    );
    assert!(r.is_ok());
    assert_eq!(account.trade_history.len(), 0);
    assert!(account.available_fund.equals(&Rat::new(1000, 1)));
}

#[test]
fn test_hodl_trader_buys_every_bar() {
    let k0 = kline(ts(2021, 9, 1), ts(2021, 9, 1), Rat::new(20, 1));
    let trader_fee = TradingFee::FixFee(Rat::new(0, 1));
    let mut trader = HODLTrader::new(&k0, trader_fee);
    let mut account = flat_account(1000);
    let feed = vec![
        kline(ts(2021, 9, 2), ts(2021, 9, 2), Rat::new(20, 1)),
        kline(ts(2021, 9, 3), ts(2021, 9, 3), Rat::new(10, 1)),
    ];
    loop_kline(&feed, &mut trader, &mut account).unwrap();
    // Two buys: 50 at 20, then (fund still 1000, fee-only deduction)
    // 100 at 10; cost is the weighted average 2000/150 == 40/3.
    assert_eq!(account.trade_history.len(), 2);
    assert!(account.position.quantity.equals(&Rat::new(150, 1)));
    assert!(account.position.cost.equals(&Rat::new(40, 3)));
    // One mark-to-market per bar: 1 initial + 2 snapshots, each carrying
    // its bar's end time.
    assert_eq!(account.profit_and_loss_history.len(), 3);
    assert_eq!(account.profit_and_loss_history[1].timestamp, ts(2021, 9, 2));
    assert_eq!(account.profit_and_loss_history[2].timestamp, ts(2021, 9, 3));
    // Final unrealised profit: 150 * (10 - 40/3) == -500.
    let last = account.profit_and_loss_history.last().unwrap();
    assert!(last.unrealised_pnl.equals(&Rat::new(-500, 1)));
}

#[test]
fn test_loop_kline_empty_feed_changes_nothing() {
    let k0 = kline(ts(2021, 9, 1), ts(2021, 9, 1), Rat::new(20, 1));
    let mut trader = HODLTrader::new(&k0, TradingFee::FixFee(Rat::new(0, 1)));
    let mut account = flat_account(1000);
    let feed: Vec<BinanceKline> = Vec::new();
    loop_kline(&feed, &mut trader, &mut account).unwrap();
    assert_eq!(account.trade_history.len(), 0);
    assert_eq!(account.profit_and_loss_history.len(), 1);
    assert!(account.available_fund.equals(&Rat::new(1000, 1)));
}

#[test]
fn test_dca_trader_buys_on_month_change() {
    let k0 = kline(ts(2021, 9, 1), ts(2021, 9, 1), Rat::new(20, 1));
    let mut trader = DCATrader::new(&k0, TradingFee::FixFee(Rat::new(0, 1)));
    let mut account = flat_account(1000);
    let feed = vec![
        // Same month as the priming bar: no trade.
        kline(ts(2021, 9, 15), ts(2021, 9, 15), Rat::new(20, 1)),
        // First bar of October: a fixed stake of 100 buys 4 at 25.
        kline(ts(2021, 10, 1), ts(2021, 10, 1), Rat::new(25, 1)),
        // Still October: no further trade.
        kline(ts(2021, 10, 2), ts(2021, 10, 2), Rat::new(25, 1)),
    ];
    loop_kline(&feed, &mut trader, &mut account).unwrap();
    assert_eq!(account.trade_history.len(), 1);
    assert_eq!(
        account.trade_history[0].buy_sell_indicator,
        BuySellIndicator::Buy
    );
    assert!(account.trade_history[0].quantity.equals(&Rat::new(4, 1)));
    assert!(account.position.quantity.equals(&Rat::new(4, 1)));
    assert!(account.position.cost.equals(&Rat::new(25, 1)));
    // 1 initial + 3 mark-to-market snapshots.
    assert_eq!(account.profit_and_loss_history.len(), 4);
}

#[test]
fn test_next_trade_session_marks_nothing_itself() {
    let k0 = kline(ts(2021, 9, 1), ts(2021, 9, 1), Rat::new(20, 1));
    let mut trader = DCATrader::new(&k0, TradingFee::FixFee(Rat::new(0, 1)));
    let mut account = flat_account(1000);
    // Same month: the session leaves the ledger untouched.
    let bar = kline(ts(2021, 9, 10), ts(2021, 9, 10), Rat::new(20, 1));
    next_trade_session(&mut trader, &bar, &mut account).unwrap();
    assert_eq!(account.trade_history.len(), 0);
    assert_eq!(account.profit_and_loss_history.len(), 1);
}

#[test]
fn test_initialise_acount() {
    let feed = vec![kline(ts(2021, 9, 1), ts(2021, 9, 1), Rat::new(20, 1))];
    let account = initialise_acount(&feed);
    assert!(account.available_fund.equals(&Rat::new(1000, 1)));
    assert!(account.position.quantity.equals(&Rat::new(0, 1)));
    assert_eq!(account.profit_and_loss_history.len(), 1);
    assert_eq!(
        account.profit_and_loss_history[0].timestamp,
        ts(2021, 9, 1)
    );
}

#[test]
fn test_initialise_traders_use_standard_fee() {
    let k0 = kline(ts(2021, 9, 1), ts(2021, 9, 1), Rat::new(20, 1));
    let hodl = initialise_hodl_trader(&k0);
    match hodl.trading_fee {
        TradingFee::PercentageFee(p) => assert!(p.equals(&Rat::new(5, 1000))),
        _ => panic!("expected a percentage fee"),
    }
    match hodl.stake_size {
        StakeSize::FixPercentage(p) => assert!(p.equals(&Rat::new(1, 1))),
        _ => panic!("expected a full-fund stake"),
    }
    let dca = initialise_dca_trader(&k0);
    match dca.stake_size {
        StakeSize::FixAmount(a) => assert!(a.equals(&Rat::new(100, 1))),
        _ => panic!("expected a fixed stake"),
    }
}

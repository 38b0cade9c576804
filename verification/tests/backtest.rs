use int_tradebot::ats::bybit_bts::{read_book_time, read_trade, read_trades, BackTestRun, BybitBackTestSystem};
use int_tradebot::ats::sts::SimTradingSystem;
use int_tradebot::engine::common::{Action, Order, Side, Status};
use int_tradebot::engine::error::EngineError;
use int_tradebot::utils::decimal::Dec;
use int_tradebot::utils::json::JsonValue;

fn s(t: &str) -> JsonValue {
    JsonValue::Str(t.to_string())
}

fn num(t: &str) -> JsonValue {
    JsonValue::Number(t.to_string())
}

fn arr(items: Vec<JsonValue>) -> JsonValue {
    JsonValue::Array(items)
}

fn obj(members: Vec<(&str, JsonValue)>) -> JsonValue {
    JsonValue::Object(members.into_iter().map(|(k, v)| (k.to_string(), v)).collect())
}

fn level(price: &str, size: &str, side: &str) -> JsonValue {
    obj(vec![("price", s(price)), ("size", num(size)), ("side", s(side))])
}

fn snapshot(levels: Vec<JsonValue>) -> JsonValue {
    obj(vec![
        ("topic", s("orderBook_200.100ms.BTCUSDT")),
        ("type", s("snapshot")),
        ("data", obj(vec![("order_book", arr(levels))])),
        ("timestamp_e6", s("1616457600000000")),
    ])
}

fn delta(update: Vec<JsonValue>) -> JsonValue {
    obj(vec![
        ("topic", s("orderBook_200.100ms.BTCUSDT")),
        ("type", s("delta")),
        ("data", obj(vec![("delete", arr(vec![])), ("update", arr(update)), ("insert", arr(vec![]))])),
        ("timestamp_e6", s("1616457600100000")),
    ])
}

fn trade(price: &str, size: &str, side: &str) -> JsonValue {
    obj(vec![
        ("timestamp", s("2021-03-23T00:00:00.000Z")),
        ("trade_id", s("t-1")),
        ("price", s(price)),
        ("size", num(size)),
        ("side", s(side)),
    ])
}

fn trades(items: Vec<JsonValue>) -> JsonValue {
    obj(vec![("topic", s("trade.BTCUSDT")), ("data", arr(items))])
}

/// A run whose strategy holds an acked bid of 0.00499 at 20000.
fn run_with_a_bid() -> BackTestRun {
    let mut run = BackTestRun::new();
    let snap = snapshot(vec![level("20000", "1", "Buy"), level("20001", "2", "Sell")]);
    assert_eq!(run.handle_message(&snap), Ok(()));
    assert_eq!(run.trading_strategy.bid_orders.len(), 0);
    let d = delta(vec![level("20001", "3", "Sell")]);
    assert_eq!(run.handle_message(&d), Ok(()));
    run
}

#[test]
fn back_test_sends_the_planned_bid_to_the_simulator() {
    let run = run_with_a_bid();
    assert_eq!(run.trading_strategy.current_bid, Dec::from_int(20000));
    assert_eq!(run.trading_strategy.current_ask, Dec::from_int(20001));
    let bid = run.trading_strategy.bid_orders.get(&Dec::from_int(20000)).unwrap();
    assert_eq!(bid.size, Dec::new(499, 5));
    assert_eq!(bid.status, Some(Status::Acked));
    assert_eq!(bid.action, Some(Action::NoAction));
    let resting = run.simulator.bid_orders.get(&Dec::from_int(20000)).unwrap();
    assert_eq!(resting.size, Dec::new(499, 5));
    assert_eq!(resting.timstamp.is_some(), true);
    // each keeps its bids among its bids
    assert_eq!(bid.side, Side::Bid);
    assert_eq!(resting.side, Side::Bid);
    // the manager's record ends with the ack
    assert_eq!(run.order_manager.bid_orders.len(), 0);
    assert_eq!(run.simulator.asks_map.len(), 1);
}

#[test]
fn back_test_trade_fills_the_bid() {
    let mut run = run_with_a_bid();
    let line = trades(vec![trade("20000", "0.00499", "Sell")]);
    assert_eq!(run.handle_message(&line), Ok(()));
    assert_eq!(run.simulator.bid_orders.len(), 0);
    assert_eq!(run.trading_strategy.bid_orders.len(), 0);
    assert_eq!(run.trading_strategy.position, Dec::new(499, 5));
    assert_eq!(run.trading_strategy.cash, Dec::new(2, 1));
    assert_eq!(run.trading_strategy.pnl, Dec::new(-998, 1));
    assert_eq!(run.trading_strategy.get_pnl().unwrap(), Dec::new(2495, 6));
    // a buy trade meets no resting ask: nothing changes
    let line = trades(vec![trade("20000", "1", "Buy")]);
    assert_eq!(run.handle_message(&line), Ok(()));
    assert_eq!(run.trading_strategy.position, Dec::new(499, 5));
}

#[test]
fn back_test_refuses_malformed_lines() {
    let mut run = BackTestRun::new();
    assert_eq!(run.handle_message(&arr(vec![])), Err(EngineError::Malformed));
    let mut bad_time = snapshot(vec![level("20000", "1", "Buy")]);
    if let JsonValue::Object(members) = &mut bad_time {
        members[3].1 = s("soon");
    }
    assert_eq!(run.handle_message(&bad_time), Err(EngineError::Malformed));
    assert_eq!(run.simulator.bids_map.len(), 0);
    let no_data = obj(vec![("topic", s("trade.BTCUSDT"))]);
    assert_eq!(run.handle_message(&no_data), Err(EngineError::Malformed));
    let bad_trade = trades(vec![obj(vec![("price", s("1"))])]);
    assert_eq!(run.handle_message(&bad_trade), Err(EngineError::Malformed));
    // another topic changes nothing
    let other = obj(vec![("topic", s("instrument_info.100ms.BTCUSDT"))]);
    assert_eq!(run.handle_message(&other), Ok(()));
    let no_topic = obj(vec![("success", JsonValue::Bool(true))]);
    assert_eq!(run.handle_message(&no_topic), Ok(()));
}

#[test]
fn back_test_checks_that_strategy_and_simulator_agree() {
    let mut run = run_with_a_bid();
    // the strategy keeps an order that the simulator does not hold
    run.trading_strategy.ask_orders.insert(Order {
        order_id: None,
        trade_id: None,
        client_oid: None,
        price: Dec::from_int(30000),
        size: Dec::from_int(1),
        side: Side::Ask,
        action: Some(Action::NoAction),
        status: Some(Status::Acked),
        timstamp: None,
    });
    let ignored = obj(vec![
        ("topic", s("orderBook_200.100ms.BTCUSDT")),
        ("type", s("heartbeat")),
        ("timestamp_e6", s("1")),
    ]);
    assert_eq!(run.handle_message(&ignored), Err(EngineError::BookMismatch));
}

#[test]
fn back_test_passes_book_errors_on() {
    let mut run = BackTestRun::new();
    let snap = snapshot(vec![level("20000", "1", "Buy"), level("20000", "2", "Buy")]);
    assert_eq!(run.handle_message(&snap), Err(EngineError::LevelExists));
}

#[test]
fn reads_times_and_trades() {
    let snap = snapshot(vec![]);
    assert_eq!(read_book_time(&snap), Some(1616457600000000000));
    let huge = obj(vec![("timestamp_e6", s("9223372036854775807"))]);
    assert_eq!(read_book_time(&huge), None);
    let t = read_trade(&trade("20000.5", "0.25", "Sell")).unwrap();
    assert_eq!(t.price, Dec::new(200005, 1));
    assert_eq!(t.size, Dec::new(25, 2));
    assert_eq!(t.side, Side::Ask);
    assert_eq!(t.status, Some(Status::Filled));
    assert_eq!(t.trade_id, Some("t-1".to_string()));
    assert_eq!(t.timstamp, Some(1616457600000000000));
    assert_eq!(read_trade(&trade("20000", "1", "Buy")).unwrap().side, Side::Bid);
    assert_eq!(read_trade(&trade("abc", "1", "Buy")).is_none(), true);
    let list = vec![trade("1", "1", "Buy"), trade("2", "1", "Sell")];
    assert_eq!(read_trades(&list).unwrap().len(), 2);
    let list = vec![trade("1", "1", "Buy"), s("x")];
    assert_eq!(read_trades(&list).is_none(), true);
}

#[test]
fn bybit_bts_systems_exist() {
    let _bts = BybitBackTestSystem {};
    let _sts = SimTradingSystem {};
    let run = BackTestRun::new();
    assert_eq!(run.order_book.symbol, Some("BTCUSDT".to_string()));
    assert_eq!(run.trading_strategy.cash, Dec::from_int(100));
}

#[test]
fn back_test_partial_fill_keeps_strategy_and_simulator_agreeing() {
    let mut run = run_with_a_bid();
    let line = trades(vec![trade("20000", "0.002", "Sell")]);
    assert_eq!(run.handle_message(&line), Ok(()));
    let kept = run.trading_strategy.bid_orders.get(&Dec::from_int(20000)).unwrap();
    let resting = run.simulator.bid_orders.get(&Dec::from_int(20000)).unwrap();
    assert_eq!(kept.size, Dec::new(299, 5));
    assert_eq!(resting.size, Dec::new(299, 5));
    assert_eq!(run.trading_strategy.bid_orders.len(), run.simulator.bid_orders.len());
    // the next line of the book passes its closing check
    let d = delta(vec![level("20001", "4", "Sell")]);
    assert_eq!(run.handle_message(&d), Ok(()));
    assert_eq!(run.trading_strategy.bid_orders.len(), run.simulator.bid_orders.len());
    assert_eq!(run.trading_strategy.ask_orders.len(), run.simulator.ask_orders.len());
}

#[test]
fn back_test_refused_new_order_leaves_the_books_disagreeing() {
    let mut run = BackTestRun::new();
    run.trading_strategy.cash = Dec::from_int(1);
    run.trading_strategy.min_quantity = Dec::zero();
    let snap = snapshot(vec![level("1000000", "1", "Buy"), level("1000001", "2", "Sell")]);
    assert_eq!(run.handle_message(&snap), Ok(()));
    // the planned bid has the size -0.00001: the manager refuses it, the
    // strategy keeps it, and the simulator never had it
    let d = delta(vec![level("1000001", "3", "Sell")]);
    assert_eq!(run.handle_message(&d), Err(EngineError::BookMismatch));
    assert_eq!(run.trading_strategy.bid_orders.len(), 1);
    assert_eq!(run.simulator.bid_orders.len(), 0);
}

use int_tradebot::engine::bybit_market_simulator::BybitMarketSimulator;
use int_tradebot::engine::bybit_order_book::BybitOrderBook;
use int_tradebot::engine::common::{Action, BookEvent, Order, Side, Status};
use int_tradebot::engine::error::EngineError;
use int_tradebot::engine::liquidity_provider::LiquidProvider;
use int_tradebot::engine::market_simulator::MarketSimulator;
use int_tradebot::engine::order_book::OrderBook;
use int_tradebot::engine::order_manager::OrderManager;
use int_tradebot::engine::trading_strategy::TradingStrategy;
use int_tradebot::utils::decimal::Dec;
use int_tradebot::utils::json::JsonValue;
use std::collections::VecDeque;

fn s(t: &str) -> JsonValue {
    JsonValue::Str(t.to_string())
}

fn num(t: &str) -> JsonValue {
    JsonValue::Number(t.to_string())
}

fn arr(items: Vec<JsonValue>) -> JsonValue {
    JsonValue::Array(items)
}

fn obj(members: Vec<(&str, JsonValue)>) -> JsonValue {
    JsonValue::Object(members.into_iter().map(|(k, v)| (k.to_string(), v)).collect())
}

fn order(price: Dec, size: Dec, side: Side, action: Option<Action>, status: Option<Status>) -> Order {
    Order {
        order_id: None,
        trade_id: None,
        client_oid: None,
        price,
        size,
        side,
        action,
        status,
        timstamp: None,
    }
}

fn event(bid_price: Dec, bid_size: Dec, ask_price: Dec, ask_size: Dec) -> BookEvent {
    BookEvent { bid_price, bid_size, ask_price, ask_size }
}

// ---- order manager ----

#[test]
fn test_receive_order_from_trading_strategy() {
    let mut order_manager = OrderManager::new();
    let order1 = order(Dec::from_int(219), Dec::from_int(10), Side::Bid, Some(Action::ToBeSent), None);
    let mut orders = vec![order1.clone()];
    let (ok, refused) = order_manager.handle_orders_from_trading_strategy(&mut orders);
    assert_eq!(ok.len(), 1);
    assert_eq!(refused.len(), 0);
    assert_eq!(order_manager.bid_orders.len(), 1);
    assert_eq!(order_manager.ask_orders.len(), 0);
    // the same order again stands at the same price
    let mut orders = vec![order1];
    order_manager.handle_orders_from_trading_strategy(&mut orders);
    assert_eq!(order_manager.bid_orders.len(), 1);
}

#[test]
fn test_receive_order_from_trading_strategy_error() {
    let mut order_manager = OrderManager::new();
    let bad = order(Dec::from_int(-219), Dec::from_int(10), Side::Bid, Some(Action::ToBeSent), None);
    let good = order(Dec::from_int(219), Dec::from_int(10), Side::Ask, Some(Action::ToBeSent), None);
    let mut orders = vec![bad, good];
    let (ok, refused) = order_manager.handle_orders_from_trading_strategy(&mut orders);
    assert_eq!(ok.len(), 1);
    assert_eq!(ok[0].side, Side::Ask);
    assert_eq!(refused.len(), 1);
    assert_eq!(refused[0].price, Dec::from_int(-219));
    assert_eq!(order_manager.bid_orders.len(), 0);
    assert_eq!(order_manager.ask_orders.len(), 1);
    assert_eq!(orders.len(), 2);
}

#[test]
fn test_receive_from_gateway_filled() {
    let mut order_manager = OrderManager::new();
    let mut orders = vec![order(Dec::from_int(100), Dec::from_int(1), Side::Bid, Some(Action::ToBeSent), None)];
    order_manager.handle_orders_from_trading_strategy(&mut orders);
    let fill = order(Dec::from_int(100), Dec::new(5, 1), Side::Bid, None, Some(Status::Filled));
    let r = order_manager.handle_order_from_gateway(fill);
    let passed = r.unwrap().unwrap();
    assert_eq!(passed.status, Some(Status::Filled));
    assert_eq!(passed.size, Dec::new(5, 1));
    assert_eq!(order_manager.bid_orders.len(), 1);
}

#[test]
fn test_receive_from_gateway_acked() {
    let mut order_manager = OrderManager::new();
    let mut orders = vec![order(Dec::from_int(100), Dec::from_int(1), Side::Bid, Some(Action::ToBeSent), None)];
    order_manager.handle_orders_from_trading_strategy(&mut orders);
    // an ack about an order on the other side is not answered
    let wrong_side = order(Dec::from_int(100), Dec::from_int(1), Side::Ask, None, Some(Status::Acked));
    assert_eq!(order_manager.handle_order_from_gateway(wrong_side).unwrap().is_none(), true);
    assert_eq!(order_manager.bid_orders.len(), 1);
    let ack = order(Dec::from_int(100), Dec::from_int(1), Side::Bid, None, Some(Status::Acked));
    let passed = order_manager.handle_order_from_gateway(ack).unwrap().unwrap();
    assert_eq!(passed.status, Some(Status::Acked));
    assert_eq!(order_manager.bid_orders.len(), 0);
}

#[test]
fn order_manager_report_without_status_is_an_error() {
    let mut order_manager = OrderManager::new();
    let report = order(Dec::from_int(100), Dec::from_int(1), Side::Bid, None, None);
    assert_eq!(order_manager.handle_order_from_gateway(report).unwrap_err(), EngineError::MissingStatus);
}

#[test]
fn order_manager_split_keeps_every_order() {
    let mut order_manager = OrderManager::new();
    let mut orders = vec![
        order(Dec::from_int(1), Dec::from_int(1), Side::Bid, None, None),
        order(Dec::from_int(-1), Dec::from_int(1), Side::Bid, None, None),
        order(Dec::from_int(2), Dec::from_int(-1), Side::Ask, None, None),
        order(Dec::from_int(3), Dec::from_int(0), Side::Ask, None, None),
    ];
    let (ok, refused) = order_manager.handle_orders_from_trading_strategy(&mut orders);
    assert_eq!(ok.len() + refused.len(), 4);
    assert_eq!(ok[0].price, Dec::from_int(1));
    assert_eq!(ok[1].price, Dec::from_int(3));
    assert_eq!(refused[0].price, Dec::from_int(-1));
    assert_eq!(refused[1].price, Dec::from_int(2));
}

// ---- trading strategy ----

#[test]
fn test_full() {
    let mut trading_strategy = TradingStrategy::new();
    let book_event = event(Dec::from_int(12), Dec::from_int(100), Dec::from_int(11), Dec::from_int(150));
    let r = trading_strategy.handle_book_event(book_event);
    // the ask price is not above the bid size: the strategy does not act
    assert_eq!(r.unwrap().is_none(), true);
    assert_eq!(trading_strategy.current_bid, Dec::from_int(12));
    assert_eq!(trading_strategy.current_ask, Dec::from_int(11));
    assert_eq!(trading_strategy.bid_orders.len(), 0);
    assert_eq!(trading_strategy.ask_orders.len(), 0);
}

#[test]
fn strategy_plans_a_bid_from_its_cash() {
    let mut ts = TradingStrategy::new();
    let be = event(Dec::from_int(20000), Dec::from_int(1), Dec::from_int(20001), Dec::from_int(2));
    let actions = ts
        .handle_book_event_with_oids(be, "okex1".to_string(), "okex2".to_string())
        .unwrap()
        .unwrap();
    assert_eq!(actions.len(), 1);
    let bid = &actions[0];
    assert_eq!(bid.side, Side::Bid);
    assert_eq!(bid.price, Dec::from_int(20000));
    // 100 / 20000 rounded to 5 places, less 0.00001
    assert_eq!(bid.size, Dec::new(499, 5));
    assert_eq!(bid.action, Some(Action::ToBeSent));
    assert_eq!(bid.status, Some(Status::New));
    assert_eq!(bid.client_oid, Some("okex1".to_string()));
    assert_eq!(ts.bid_orders.len(), 1);
    // the same top again plans the same bid, which is kept: nothing to send
    let again = ts.handle_book_event_with_oids(be, "okex3".to_string(), "okex4".to_string()).unwrap().unwrap();
    assert_eq!(again.len(), 0);
}

#[test]
fn strategy_rounds_the_bid_size_to_five_places() {
    let mut ts = TradingStrategy::new();
    let be = event(Dec::from_int(30000), Dec::from_int(1), Dec::from_int(30001), Dec::from_int(2));
    let actions = ts.handle_book_event_with_oids(be, "a".to_string(), "b".to_string()).unwrap().unwrap();
    // 100 / 30000 = 0.00333..., rounded to 0.00333, less 0.00001
    assert_eq!(actions[0].size, Dec::new(332, 5));
    assert_eq!(actions[0].size.scale(), 5);
}

#[test]
fn strategy_plans_an_ask_from_its_position() {
    let mut ts = TradingStrategy::new();
    // a tie rounds to the even digit: 0.000125 -> 0.00012
    ts.position = Dec::new(125, 6);
    let be = event(Dec::from_int(20000), Dec::from_int(1), Dec::from_int(20001), Dec::from_int(2));
    let actions = ts.handle_book_event_with_oids(be, "a".to_string(), "b".to_string()).unwrap().unwrap();
    assert_eq!(actions.len(), 2);
    assert_eq!(actions[0].side, Side::Ask);
    assert_eq!(actions[0].price, Dec::from_int(20001));
    assert_eq!(actions[0].size, Dec::new(12, 5));
    assert_eq!(actions[0].action, Some(Action::ToBeSent));
    assert_eq!(actions[0].client_oid, Some("b".to_string()));
    assert_eq!(actions[1].side, Side::Bid);
    assert_eq!(actions[1].size, Dec::new(499, 5));
    assert_eq!(ts.ask_orders.len(), 1);
    // without cash the strategy plans nothing, position or not
    let mut ts = TradingStrategy::new();
    ts.cash = Dec::zero();
    ts.position = Dec::new(125, 6);
    let actions = ts.handle_book_event_with_oids(be, "a".to_string(), "b".to_string()).unwrap().unwrap();
    assert_eq!(actions.len(), 0);
}

#[test]
fn strategy_cancels_a_bid_that_the_plan_moves() {
    let mut ts = TradingStrategy::new();
    let be = event(Dec::from_int(20000), Dec::from_int(1), Dec::from_int(20001), Dec::from_int(2));
    ts.handle_book_event_with_oids(be, "a".to_string(), "b".to_string()).unwrap();
    let be2 = event(Dec::from_int(25000), Dec::from_int(1), Dec::from_int(25001), Dec::from_int(2));
    let actions = ts.handle_book_event_with_oids(be2, "c".to_string(), "d".to_string()).unwrap().unwrap();
    assert_eq!(actions.len(), 2);
    assert_eq!(actions[0].action, Some(Action::Cancel));
    assert_eq!(actions[0].status, Some(Status::ToCancell));
    assert_eq!(actions[0].price, Dec::from_int(20000));
    assert_eq!(actions[1].action, Some(Action::ToBeSent));
    assert_eq!(actions[1].price, Dec::from_int(25000));
    // 100 / 25000 = 0.004, less 0.00001
    assert_eq!(actions[1].size, Dec::new(399, 5));
    assert_eq!(ts.bid_orders.len(), 2);
}

#[test]
fn strategy_fill_moves_position_and_cash() {
    let mut ts = TradingStrategy::new();
    let be = event(Dec::from_int(20000), Dec::from_int(1), Dec::from_int(20001), Dec::from_int(2));
    ts.handle_book_event_with_oids(be, "a".to_string(), "b".to_string()).unwrap();
    let ack = order(Dec::from_int(20000), Dec::new(499, 5), Side::Bid, None, Some(Status::Acked));
    assert_eq!(ts.handle_market_response(ack), Ok(()));
    let fill = order(Dec::from_int(20000), Dec::new(499, 5), Side::Bid, None, Some(Status::Filled));
    assert_eq!(ts.handle_market_response(fill), Ok(()));
    assert_eq!(ts.position, Dec::new(499, 5));
    assert_eq!(ts.cash, Dec::new(2, 1));
    assert_eq!(ts.pnl, Dec::new(-998, 1));
    assert_eq!(ts.bid_orders.len(), 0);
    // cash - pnl is unchanged by the fill: 0.2 - (-99.8) = 100
    // the profit values the position at the middle of the best prices:
    // 0.00499 * 20000.5 - 99.8
    assert_eq!(ts.get_pnl().unwrap(), Dec::new(2495, 6));
}

#[test]
fn strategy_partial_fill_keeps_the_rest() {
    let mut ts = TradingStrategy::new();
    let be = event(Dec::from_int(20000), Dec::from_int(1), Dec::from_int(20001), Dec::from_int(2));
    ts.handle_book_event_with_oids(be, "a".to_string(), "b".to_string()).unwrap();
    let fill = order(Dec::from_int(20000), Dec::new(199, 5), Side::Bid, None, Some(Status::Filled));
    assert_eq!(ts.handle_market_response(fill), Ok(()));
    assert_eq!(ts.position, Dec::new(199, 5));
    assert_eq!(ts.bid_orders.len(), 1);
    assert_eq!(ts.bid_orders.get(&Dec::from_int(20000)).unwrap().size, Dec::new(3, 3));
}

#[test]
fn strategy_errors() {
    let mut ts = TradingStrategy::new();
    let no_status = order(Dec::from_int(1), Dec::from_int(1), Side::Bid, None, None);
    assert_eq!(ts.handle_market_response(no_status), Err(EngineError::MissingStatus));
    let unknown = order(Dec::from_int(1), Dec::from_int(1), Side::Bid, None, Some(Status::Acked));
    assert_eq!(ts.handle_market_response(unknown), Err(EngineError::UnknownOrder));
    // a fill that spends more than the cash
    let be = event(Dec::from_int(20000), Dec::from_int(1), Dec::from_int(20001), Dec::from_int(2));
    ts.handle_book_event_with_oids(be, "a".to_string(), "b".to_string()).unwrap();
    ts.cash = Dec::from_int(1);
    let fill = order(Dec::from_int(20000), Dec::new(499, 5), Side::Bid, None, Some(Status::Filled));
    assert_eq!(ts.handle_market_response(fill), Err(EngineError::NegativeCash));
    // a bid price of zero leaves no plan
    let mut ts = TradingStrategy::new();
    let zero = event(Dec::zero(), Dec::zero(), Dec::from_int(1), Dec::from_int(1));
    assert_eq!(ts.handle_book_event_with_oids(zero, "a".to_string(), "b".to_string()).unwrap_err(), EngineError::Overflow);
    // a profit that overflows
    let mut ts = TradingStrategy::new();
    ts.position = Dec::from_i128_with_scale(79228162514264337593543950335, 0);
    ts.current_bid = Dec::from_int(2);
    assert_eq!(ts.get_pnl().unwrap_err(), EngineError::Overflow);
}

// ---- market simulators ----

#[test]
fn market_simulator_test_accept_order() {
    let mut ms = MarketSimulator::new();
    let o = order(Dec::from_int(10), Dec::from_int(1), Side::Bid, Some(Action::ToBeSent), Some(Status::New));
    let answer = ms.handle_orders_from_om(o).unwrap().unwrap();
    assert_eq!(answer.status, Some(Status::Acked));
    assert_eq!(answer.price, Dec::from_int(10));
    assert_eq!(ms.bid_orders.len(), 1);
    assert_eq!(ms.ask_orders.len(), 0);
}

#[test]
fn bybit_market_simulator_test_accept_order() {
    let mut ms = BybitMarketSimulator::new();
    let o = order(Dec::from_int(10), Dec::from_int(1), Side::Ask, Some(Action::ToBeSent), Some(Status::New));
    let answer = ms.handle_orders_from_om(o).unwrap().unwrap();
    assert_eq!(answer.status, Some(Status::Acked));
    assert_eq!(ms.ask_orders.len(), 1);
    let cancel = order(Dec::from_int(10), Dec::from_int(1), Side::Ask, Some(Action::Cancel), None);
    assert_eq!(ms.handle_orders_from_om(cancel).unwrap().unwrap().status, Some(Status::Cancelled));
    assert_eq!(ms.ask_orders.len(), 0);
    // a cancel of an order that does not rest there
    let cancel = order(Dec::from_int(10), Dec::from_int(1), Side::Ask, Some(Action::Cancel), None);
    assert_eq!(ms.handle_orders_from_om(cancel).unwrap_err(), EngineError::UnknownOrder);
    // an order with no action gets no answer
    let idle = order(Dec::from_int(10), Dec::from_int(1), Side::Ask, None, None);
    assert_eq!(ms.handle_orders_from_om(idle).unwrap().is_none(), true);
}

#[test]
fn bybit_market_simulator_fills_resting_orders() {
    let mut ms = BybitMarketSimulator::new();
    let o = order(Dec::from_int(10), Dec::from_int(3), Side::Bid, Some(Action::ToBeSent), None);
    ms.handle_orders_from_om(o).unwrap();
    // a sell trade of 1 at 10 fills 1 of the resting bid
    let mut trade = order(Dec::from_int(10), Dec::from_int(1), Side::Ask, None, Some(Status::Filled));
    trade.timstamp = Some(42);
    let fill = ms.handle_order_from_gw(trade).unwrap().unwrap();
    assert_eq!(fill.size, Dec::from_int(1));
    assert_eq!(fill.side, Side::Bid);
    assert_eq!(fill.status, Some(Status::Filled));
    assert_eq!(fill.timstamp, Some(42));
    assert_eq!(ms.bid_orders.get(&Dec::from_int(10)).unwrap().size, Dec::from_int(2));
    // a larger trade fills what is left and the order is gone
    let trade = order(Dec::from_int(10), Dec::from_int(5), Side::Ask, None, Some(Status::Filled));
    let fill = ms.handle_order_from_gw(trade).unwrap().unwrap();
    assert_eq!(fill.size, Dec::from_int(2));
    assert_eq!(ms.bid_orders.len(), 0);
    // a trade where nothing rests fills nothing
    let trade = order(Dec::from_int(10), Dec::from_int(5), Side::Ask, None, Some(Status::Filled));
    assert_eq!(ms.handle_order_from_gw(trade).unwrap().is_none(), true);
}

#[test]
fn market_simulator_fills_resting_orders() {
    let mut ms = MarketSimulator::new();
    let o = order(Dec::from_int(10), Dec::from_int(3), Side::Ask, Some(Action::ToBeSent), None);
    ms.handle_orders_from_om(o).unwrap();
    // a buy trade of 2 at 10 fills 2 of the resting ask
    let trade = order(Dec::from_int(10), Dec::from_int(2), Side::Bid, None, Some(Status::Filled));
    let fill = ms.handle_order_from_gw(trade).unwrap().unwrap();
    assert_eq!(fill.size, Dec::from_int(2));
    assert_eq!(fill.side, Side::Ask);
    assert_eq!(fill.timstamp, None);
    assert_eq!(ms.ask_orders.get(&Dec::from_int(10)).unwrap().size, Dec::from_int(1));
    // a modify replaces the resting order
    let modify = order(Dec::from_int(10), Dec::from_int(7), Side::Ask, Some(Action::Modify), None);
    assert_eq!(ms.handle_orders_from_om(modify).unwrap().unwrap().status, Some(Status::Modified));
    assert_eq!(ms.ask_orders.get(&Dec::from_int(10)).unwrap().size, Dec::from_int(7));
    let mut resting = ms.ask_orders.get(&Dec::from_int(10)).unwrap();
    let (fill, left) = MarketSimulator::trade_with_order(&mut resting, Dec::from_int(9)).unwrap();
    assert_eq!(fill.unwrap().size, Dec::from_int(7));
    assert_eq!(left, Dec::zero());
}

#[test]
fn trade_with_depth_uses_up_levels() {
    let mut depth = int_tradebot::engine::common::Depth {
        price: Dec::from_int(10),
        size: Dec::from_int(3),
        side: Side::Ask,
        count: None,
        timestamp: None,
    };
    assert_eq!(MarketSimulator::trade_with_depth(&mut depth, Dec::from_int(1)).unwrap(), (Dec::zero(), false));
    assert_eq!(depth.size, Dec::from_int(2));
    assert_eq!(MarketSimulator::trade_with_depth(&mut depth, Dec::from_int(5)).unwrap(), (Dec::from_int(3), true));
}

#[test]
fn market_simulator_takes_depth_messages() {
    let mut ms = MarketSimulator::new();
    let message = obj(vec![
        ("table", s("spot/depth_l2_tbt")),
        ("action", s("partial")),
        (
            "data",
            arr(vec![obj(vec![
                ("asks", arr(vec![arr(vec![s("20001"), s("2"), s("0"), s("3")])])),
                ("bids", arr(vec![arr(vec![s("20000"), s("1"), s("0"), s("2")])])),
                ("timestamp", s("2021-03-23T00:00:00.000Z")),
            ])]),
        ),
    ]);
    assert_eq!(ms.handle_depth_from_lp(&message), Ok(()));
    assert_eq!(ms.ask_maps.len(), 1);
    let level = ms.bid_maps.get(&Dec::from_int(20000)).unwrap();
    assert_eq!(level.size, Dec::from_int(1));
    assert_eq!(level.count, Some(2));
    assert_eq!(level.timestamp, Some(1616457600000000000));
    assert_eq!(ms.handle_depth_from_lp(&s("x")), Err(EngineError::Malformed));
}

// ---- order books ----

fn okex_levels(levels: Vec<(&str, &str)>) -> JsonValue {
    arr(levels.into_iter().map(|(p, q)| arr(vec![s(p), s(q), s("0"), s("1")])).collect())
}

fn okex_message(action: &str, asks: Vec<(&str, &str)>, bids: Vec<(&str, &str)>) -> JsonValue {
    obj(vec![
        ("table", s("spot/depth_l2_tbt")),
        ("action", s(action)),
        ("data", arr(vec![obj(vec![("asks", okex_levels(asks)), ("bids", okex_levels(bids))])])),
    ])
}

#[test]
fn order_book_test_merge_orderbook() {
    let mut book = OrderBook::new();
    let partial = okex_message("partial", vec![("20001", "2"), ("20003", "1")], vec![("20000", "1"), ("19999", "4")]);
    assert_eq!(book.handle_depth_from_gateway(&partial).unwrap().is_none(), true);
    assert_eq!(book.map_asks.len(), 2);
    assert_eq!(book.map_bids.len(), 2);
    // an update that removes the best ask gives an event of the new top
    let update = okex_message("update", vec![("20001", "0")], vec![]);
    let be = book.handle_depth_from_gateway(&update).unwrap().unwrap();
    assert_eq!(be.bid_price, Dec::from_int(20000));
    assert_eq!(be.bid_size, Dec::from_int(1));
    assert_eq!(be.ask_price, Dec::from_int(20003));
    assert_eq!(be.ask_size, Dec::from_int(1));
    // a change below the top gives no event
    let update = okex_message("update", vec![], vec![("19999", "5")]);
    assert_eq!(book.handle_depth_from_gateway(&update).unwrap().is_none(), true);
    assert_eq!(book.map_bids.get(&Dec::from_int(19999)).unwrap().size, Dec::from_int(5));
    // another table changes nothing
    let other = obj(vec![("table", s("spot/ticker"))]);
    assert_eq!(book.handle_depth_from_gateway(&other).unwrap().is_none(), true);
    assert_eq!(book.handle_depth_from_gateway(&arr(vec![])).unwrap_err(), EngineError::Malformed);
}

#[test]
fn order_book_second_check_gives_no_event() {
    let mut book = OrderBook::new();
    let partial = okex_message("partial", vec![("20001", "2")], vec![("20000", "1")]);
    assert_eq!(book.handle_depth_from_gateway(&partial).unwrap().is_none(), true);
    let update = okex_message("update", vec![("20001", "3")], vec![]);
    let be = book.handle_depth_from_gateway(&update).unwrap().unwrap();
    assert_eq!(be.ask_size, Dec::from_int(3));
    // the same update again leaves the book as it was: no event, same top
    assert_eq!(book.handle_depth_from_gateway(&update).unwrap().is_none(), true);
    let bid = book.current_bid.unwrap();
    let ask = book.current_ask.unwrap();
    assert_eq!((bid.price, bid.size), (Dec::from_int(20000), Dec::from_int(1)));
    assert_eq!((ask.price, ask.size), (Dec::from_int(20001), Dec::from_int(3)));
    // the check itself, called twice on an unchanged book
    assert_eq!(book.check_generate_top_of_book_event().is_none(), true);
    let mut fresh = OrderBook::new();
    fresh.handle_depth_from_gateway(&partial).unwrap();
    fresh.current_bid = None;
    let be = fresh.check_generate_top_of_book_event().unwrap();
    assert_eq!(be.bid_price, Dec::from_int(20000));
    assert_eq!(fresh.check_generate_top_of_book_event().is_none(), true);
}

fn bybit_level(price: &str, size: &str, side: &str) -> JsonValue {
    obj(vec![("price", s(price)), ("size", num(size)), ("side", s(side))])
}

fn bybit_snapshot(levels: Vec<JsonValue>) -> JsonValue {
    obj(vec![
        ("topic", s("orderBook_200.100ms.BTCUSDT")),
        ("type", s("snapshot")),
        ("data", obj(vec![("order_book", arr(levels))])),
    ])
}

fn bybit_delta(delete: Vec<JsonValue>, update: Vec<JsonValue>, insert: Vec<JsonValue>) -> JsonValue {
    obj(vec![
        ("topic", s("orderBook_200.100ms.BTCUSDT")),
        ("type", s("delta")),
        ("data", obj(vec![("delete", arr(delete)), ("update", arr(update)), ("insert", arr(insert))])),
    ])
}

#[test]
fn bybit_order_book_test_merge_orderbook() {
    let mut order_book = BybitOrderBook::new(Some("BTCUSDT".to_string()));
    assert_eq!(order_book.symbol, Some("BTCUSDT".to_string()));
    assert_eq!(order_book.current_bid.is_none(), true);
    let snapshot = bybit_snapshot(vec![bybit_level("20000", "1", "Buy"), bybit_level("20001", "2", "Sell")]);
    assert_eq!(order_book.handle_depth_from_gateway(&snapshot).unwrap().is_none(), true);
    let delta = bybit_delta(vec![], vec![bybit_level("20001", "3", "Sell")], vec![bybit_level("19999", "1", "Buy")]);
    let be = order_book.handle_depth_from_gateway(&delta).unwrap().unwrap();
    assert_eq!(be.bid_price, Dec::from_int(20000));
    assert_eq!(be.ask_price, Dec::from_int(20001));
    assert_eq!(be.ask_size, Dec::from_int(3));
    assert_eq!(order_book.map_bids.len(), 2);
    // deleting the best bid moves the top
    let delta = bybit_delta(vec![obj(vec![("price", s("20000")), ("side", s("Buy"))])], vec![], vec![]);
    let be = order_book.handle_depth_from_gateway(&delta).unwrap().unwrap();
    assert_eq!(be.bid_price, Dec::from_int(19999));
}

#[test]
fn bybit_order_book_refuses_inconsistent_levels() {
    let mut order_book = BybitOrderBook::new(None);
    let snapshot = bybit_snapshot(vec![bybit_level("20000", "1", "Buy"), bybit_level("20000", "2", "Buy")]);
    assert_eq!(order_book.handle_depth_from_gateway(&snapshot).unwrap_err(), EngineError::LevelExists);
    assert_eq!(order_book.map_bids.len(), 0);
    let delta = bybit_delta(vec![], vec![bybit_level("20001", "3", "Sell")], vec![]);
    assert_eq!(order_book.handle_depth_from_gateway(&delta).unwrap_err(), EngineError::LevelMissing);
    // the simulator lets a missing ask in, but not a missing bid
    let mut ms = BybitMarketSimulator::new();
    assert_eq!(ms.handle_depth_from_lp(&delta), Ok(()));
    assert_eq!(ms.asks_map.len(), 1);
    let delta = bybit_delta(vec![], vec![bybit_level("19000", "3", "Buy")], vec![]);
    assert_eq!(ms.handle_depth_from_lp(&delta), Err(EngineError::LevelMissing));
    let missing_type = obj(vec![("topic", s("orderBook_200.100ms.BTCUSDT"))]);
    assert_eq!(ms.handle_depth_from_lp(&missing_type), Err(EngineError::Malformed));
}

// ---- liquidity provider ----

#[test]
fn test_liquid_provider() {
    let mut liquid_provider = LiquidProvider::new(Some(VecDeque::new()));
    liquid_provider.generate_random_order();
    println!("--->{}", liquid_provider.orders.len());
    assert_eq!(liquid_provider.orders.get(0).unwrap().order_id.unwrap(), 0);
    assert_eq!(liquid_provider.orders.get(0).unwrap().side, Side::Bid);
    assert_eq!(liquid_provider.orders.get(0).unwrap().size, Dec::from_int(200));
    assert_eq!(liquid_provider.orders.get(0).unwrap().price, Dec::from_int(10));
}

#[test]
fn test_rejected_order() {
    // an order that the market rejects before it was acked is dropped by the
    // order manager and by the strategy
    let mut ts = TradingStrategy::new();
    let mut om = OrderManager::new();
    let be = event(Dec::from_int(20000), Dec::from_int(1), Dec::from_int(20001), Dec::from_int(2));
    let mut actions = ts.handle_book_event_with_oids(be, "a".to_string(), "b".to_string()).unwrap().unwrap();
    om.handle_orders_from_trading_strategy(&mut actions);
    let mut rejected = actions[0].clone();
    rejected.status = Some(Status::Rejected);
    let passed = om.handle_order_from_gateway(rejected).unwrap().unwrap();
    assert_eq!(om.bid_orders.len(), 0);
    assert_eq!(ts.handle_market_response(passed), Ok(()));
    assert_eq!(ts.bid_orders.len(), 0);
}

#[test]
fn liquid_provider_in_simulation_mode_gives_the_order_back() {
    let mut lp = LiquidProvider::new(None);
    let o = lp.generate_random_order().unwrap();
    assert_eq!(o.order_id, Some(0));
    assert_eq!(o.action, Some(Action::New));
    assert_eq!(lp.order_id, 1);
    // the id drawn from 0..=1 is 0 or 1; a new order is kept, a known one is not
    let o2 = lp.generate_random_order().unwrap();
    assert_eq!(o2.order_id, Some(1));
    assert_eq!(lp.orders.len() + (o2.action == Some(Action::Modify)) as usize, 2);
    // the kept orders are numbered in turn
    assert_eq!(lp.order_id, lp.orders.len());
    for (i, kept) in lp.orders.iter().enumerate() {
        assert_eq!(kept.order_id, Some(i));
    }
}

#[test]
fn test_deref_result() {
    let mut order_list = vec![];
    let o = order(Dec::from_int(1), Dec::from_int(2), Side::Bid, None, None);
    order_list.push(o);
    let mut o = order(Dec::from_int(2), Dec::from_int(3), Side::Bid, None, None);
    order_list.push(o.clone());
    for x in order_list.iter_mut() {
        x.price = Dec::zero();
        o = x.clone();
    }
    println!("list:{:?}", order_list);
    assert_eq!(o.price, Dec::zero());
    assert_eq!(o.size, Dec::from_int(3));
    assert_eq!(order_list[0].price, Dec::zero());
}

#[test]
fn liquid_provider_order_from_draws() {
    let mut lp = LiquidProvider::new(None);
    let first = lp.order_from_draws(10, 2, 0, 0, 0).unwrap();
    assert_eq!(first.order_id, Some(0));
    assert_eq!(first.price, Dec::from_int(10));
    assert_eq!(first.size, Dec::from_int(200));
    assert_eq!(first.side, Side::Bid);
    assert_eq!(first.action, Some(Action::New));
    assert_eq!(lp.order_id, 1);
    assert_eq!(lp.orders.len(), 1);
    // the id 0 is kept now: a pick of one makes a delete, not kept
    let second = lp.order_from_draws(9, 3, 1, 0, 1).unwrap();
    assert_eq!(second.order_id, Some(1));
    assert_eq!(second.size, Dec::from_int(300));
    assert_eq!(second.side, Side::Ask);
    assert_eq!(second.action, Some(Action::Delete));
    assert_eq!(lp.order_id, 1);
    assert_eq!(lp.orders.len(), 1);
}

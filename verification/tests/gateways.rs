use int_tradebot::engine::error::EngineError;
use int_tradebot::gateways::binance_gateway::{is_depth_stream, BinanceGateway};
use int_tradebot::gateways::bitfinex_gateway::BitfinexGateway;
use int_tradebot::gateways::bitmex_gateway::BitmexGateway;
use int_tradebot::gateways::bitstamp_gateway::BitstampGateway;
use int_tradebot::gateways::bybit_gateway::BybitGateway;
use int_tradebot::gateways::coinbase_gateway::CoinbaseGateway;
use int_tradebot::gateways::coinflex_gateway::CoinFlexGateway;
use int_tradebot::gateways::ftx_gateway::FTXGateway;
use int_tradebot::gateways::huobi_gateway::{pong_reply, HuobiGateway};
use int_tradebot::gateways::kraken_gateway::KrakenGateway;
use int_tradebot::gateways::okex_gateway::OkexGateway;
use int_tradebot::gateways::phemex_gateway::PhemexGateway;
use int_tradebot::utils::json::JsonValue;

fn obj(members: Vec<(&str, JsonValue)>) -> JsonValue {
    JsonValue::Object(members.into_iter().map(|(k, v)| (k.to_string(), v)).collect())
}

#[test]
fn binance_gateway_test_okex_gateway() {
    let _bian_gateway = BinanceGateway {};
    let depth = obj(vec![("stream", JsonValue::Str("btcusdt@depth@100ms".to_string()))]);
    assert_eq!(is_depth_stream(&depth), true);
    let trade = obj(vec![("stream", JsonValue::Str("btcusdt@trade".to_string()))]);
    assert_eq!(is_depth_stream(&trade), false);
    assert_eq!(is_depth_stream(&JsonValue::Null), false);
}

#[test]
fn bitfinex_gateway_test_okex_gateway() {
    let _bitfinex_gateway = BitfinexGateway {};
}

#[test]
fn bitmex_gateway_test_okex_gateway() {
    let _bitmex_gateway = BitmexGateway {};
}

#[test]
fn bitstamp_gateway_test_okex_gateway() {
    let _bitstamp_gateway = BitstampGateway {};
}

#[test]
fn bybit_gateway_test_okex_gateway() {
    let _bybit_gateway = BybitGateway {};
}

#[test]
fn coinbase_gateway_test_okex_gateway() {
    let _coinbase_gateway = CoinbaseGateway {};
}

#[test]
fn coinflex_gateway_test_okex_gateway() {
    let _coinflex_gateway = CoinFlexGateway {};
}

#[test]
fn ftx_gateway_test_okex_gateway() {
    let _ftx_gateway = FTXGateway {};
}

#[test]
fn huobi_gateway_test_okex_gateway() {
    let huobi_gateway = HuobiGateway { address: String::from("wss://real.OKEx.com:8443/ws/v3") };
    assert_eq!(huobi_gateway.address, "wss://real.OKEx.com:8443/ws/v3");
}

#[test]
fn kraken_gateway_test_okex_gateway() {
    let _kraken_gateway = KrakenGateway {};
}

#[test]
fn okex_gateway_test_okex_gateway() {
    let okex_gateway = OkexGateway { address: String::from("wss://real.OKEx.com:8443/ws/v3") };
    assert_eq!(okex_gateway.address, "wss://real.OKEx.com:8443/ws/v3");
}

#[test]
fn phemex_gateway_test_okex_gateway() {
    let _phemex_gateway = PhemexGateway {};
}

#[test]
fn huobi_heartbeat_is_answered() {
    let text = "{\"ping\":1492420473027}";
    let message = obj(vec![("ping", JsonValue::Number("1492420473027".to_string()))]);
    assert_eq!(pong_reply(text, &message), Ok(Some("{\"pong\":1492420473027}".to_string())));
    // other texts get no answer
    let text = "{\"ch\":\"market.btcusdt.depth.step0\"}";
    let message = obj(vec![("ch", JsonValue::Str("market.btcusdt.depth.step0".to_string()))]);
    assert_eq!(pong_reply(text, &message), Ok(None));
    // a ping that is no unsigned integer
    let message = obj(vec![("ping", JsonValue::Number("-3".to_string()))]);
    assert_eq!(pong_reply("{\"ping\":-3}", &message), Err(EngineError::Malformed));
}

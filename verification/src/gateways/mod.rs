pub mod binance_gateway;
pub mod bitfinex_gateway;
pub mod bitmex_gateway;
pub mod bitstamp_gateway;
pub mod bybit_gateway;
pub mod coinbase_gateway;
pub mod coinflex_gateway;
pub mod ftx_gateway;
pub mod huobi_gateway;
pub mod kraken_gateway;
pub mod okex_gateway;
pub mod phemex_gateway;
pub mod traits;

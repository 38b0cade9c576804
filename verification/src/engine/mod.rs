pub mod book;
pub mod bybit_book;
pub mod bybit_market_simulator;
pub mod bybit_order_book;
pub mod common;
pub mod error;
pub mod levels;
pub mod liquidity_provider;
pub mod market_simulator;
pub mod order_book;
pub mod order_manager;
pub mod orders;
pub mod trading_strategy;

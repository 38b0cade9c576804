pub mod bybit_bts;
pub mod bybit_bts_laws;
pub mod sts;
pub mod bybit_bts_agree;

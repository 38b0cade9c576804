use flate2::write::{DeflateEncoder, GzEncoder};
use flate2::Compression;
use int_tradebot::engine::common::get_oid;
use int_tradebot::engine::trading_strategy::TradingStrategy;
use int_tradebot::utils::decimal::Dec;
use int_tradebot::utils::decode::{dedecode_reader, gzdecode_reader, DecodeError};
use int_tradebot::utils::time::get_nanos;
use std::io::Write;

#[test]
fn test_time_interval() {
    let first = get_nanos();
    let second = get_nanos();
    assert!(first > 0);
    assert!(second >= first);
}

#[test]
fn test_int() {
    println!("xxxxx------>");
    let trading_strategy = TradingStrategy::new();
    assert_eq!(trading_strategy.position, Dec::zero());
}

#[test]
fn client_order_ids_carry_the_prefix_and_the_time() {
    let oid = get_oid("okex");
    assert!(oid.starts_with("okex"));
    let digits = &oid[4..];
    assert!(digits.len() > 0);
    assert!(digits.chars().all(|c| c.is_ascii_digit()));
    assert!(digits.parse::<i64>().unwrap() > 0);
}

#[test]
fn decimals_compare_by_value() {
    assert_eq!(Dec::new(10, 1), Dec::from_int(1));
    assert_ne!(Dec::new(11, 1), Dec::from_int(1));
    assert_eq!(Dec::new(-5, 0).mantissa(), -5);
    assert_eq!(Dec::new(123, 2).scale(), 2);
    assert_eq!(Dec::zero(), Dec::new(0, 5));
}

#[test]
fn gzip_streams_are_read_as_text() {
    let mut encoder = GzEncoder::new(Vec::new(), Compression::default());
    encoder.write_all(b"{\"ping\":1}").unwrap();
    let bytes = encoder.finish().unwrap();
    assert_eq!(gzdecode_reader(bytes), Ok("{\"ping\":1}".to_string()));
    assert_eq!(gzdecode_reader(b"not gzip".to_vec()), Err(DecodeError::Invalid));
}

#[test]
fn deflate_streams_are_read_as_text() {
    let mut encoder = DeflateEncoder::new(Vec::new(), Compression::default());
    encoder.write_all(b"{\"table\":\"spot/depth_l2_tbt\"}").unwrap();
    let bytes = encoder.finish().unwrap();
    assert_eq!(dedecode_reader(bytes), Ok("{\"table\":\"spot/depth_l2_tbt\"}".to_string()));
    assert_eq!(dedecode_reader(vec![0xff, 0xff, 0xff]), Err(DecodeError::Invalid));
}

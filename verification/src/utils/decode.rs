//! Compressed market data: gzip and raw deflate streams holding UTF-8 text.
use flate2::read::{DeflateDecoder, GzDecoder};
use std::io::Read;
use vstd::prelude::*;

verus! {

/// `std::io::Error`, the error of a failed read.
#[verifier::external_type_specification]
#[verifier::external_body]
pub struct ExIoError(std::io::Error);

/// Why compressed data could not be read as text.
#[derive(Debug, Copy, Clone, PartialEq, Eq, Structural)]
pub enum DecodeError {
    /// The data is not a valid stream, or its content is not UTF-8 text.
    Invalid,
}

/// The text that reading `bytes` through `flate2::read::GzDecoder` into a
/// string gives; `None` where the read fails.
pub uninterp spec fn gzip_text(bytes: Seq<u8>) -> Option<Seq<char>>;

/// The text that reading `bytes` through `flate2::read::DeflateDecoder` into
/// a string gives; `None` where the read fails.
pub uninterp spec fn deflate_text(bytes: Seq<u8>) -> Option<Seq<char>>;

/// Reads a gzip stream to its end as text (`GzDecoder` and `read_to_string`).
#[verifier::external_body]
fn read_gzip(bytes: &[u8]) -> (r: Result<String, std::io::Error>)
    ensures
        r is Ok <==> gzip_text(bytes@) is Some,
        r matches Ok(s) ==> gzip_text(bytes@) == Some(s@),
{
    let mut gz = GzDecoder::new(bytes);
    let mut s = String::new();
    match gz.read_to_string(&mut s) {
        Ok(_) => Ok(s),
        Err(e) => Err(e),
    }
}

/// Reads a raw deflate stream to its end as text (`DeflateDecoder` and `read_to_string`).
#[verifier::external_body]
fn read_deflate(bytes: &[u8]) -> (r: Result<String, std::io::Error>)
    ensures
        r is Ok <==> deflate_text(bytes@) is Some,
        r matches Ok(s) ==> deflate_text(bytes@) == Some(s@),
{
    let mut deflater = DeflateDecoder::new(bytes);
    let mut s = String::new();
    match deflater.read_to_string(&mut s) {
        Ok(_) => Ok(s),
        Err(e) => Err(e),
    }
}

/// The text of a gzip stream; an error where it is no valid stream of UTF-8 text.
pub fn gzdecode_reader(bytes: Vec<u8>) -> (r: Result<String, DecodeError>)
    ensures
        match gzip_text(bytes@) {
            Some(t) => r matches Ok(s) && s@ == t,
            None => r == Err::<String, DecodeError>(DecodeError::Invalid),
        },
{
    match read_gzip(bytes.as_slice()) {
        Ok(s) => Ok(s),
        Err(_) => Err(DecodeError::Invalid),
    }
}

/// The text of a raw deflate stream; an error where it is no valid stream of UTF-8 text.
pub fn dedecode_reader(bytes: Vec<u8>) -> (r: Result<String, DecodeError>)
    ensures
        match deflate_text(bytes@) {
            Some(t) => r matches Ok(s) && s@ == t,
            None => r == Err::<String, DecodeError>(DecodeError::Invalid),
        },
{
    match read_deflate(bytes.as_slice()) {
        Ok(s) => Ok(s),
        Err(_) => Err(DecodeError::Invalid),
    }
}

} // verus!

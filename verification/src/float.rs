//! IEEE-754 text conversions for the two float widths the tape knows.
//!
//! Verified code never holds a float: the tape stores big-endian bytes, and
//! these helpers turn four or eight such bytes into the decimal text the
//! value prints as, or a numeric literal into the bytes it encodes to.  Both
//! directions are pure functions of their bytes, so their results are given
//! names that the callers' contracts speak of.

use vstd::prelude::*;

verus! {

/// Decimal text that the 32-bit IEEE-754 value with the given big-endian
/// bytes prints as.
pub uninterp spec fn float32_text(b0: u8, b1: u8, b2: u8, b3: u8) -> Seq<u8>;

/// Decimal text that the 64-bit IEEE-754 value with the given big-endian
/// bytes prints as.
pub uninterp spec fn float64_text(
    b0: u8,
    b1: u8,
    b2: u8,
    b3: u8,
    b4: u8,
    b5: u8,
    b6: u8,
    b7: u8,
) -> Seq<u8>;

/// Big-endian bytes that a numeral parses to as a 32-bit IEEE-754 value,
/// where it parses at all.
pub uninterp spec fn float32_of_text(s: Seq<u8>) -> Option<Seq<u8>>;

/// Big-endian bytes that a numeral parses to as a 64-bit IEEE-754 value,
/// where it parses at all.
pub uninterp spec fn float64_of_text(s: Seq<u8>) -> Option<Seq<u8>>;

/// Relies on `byteorder::BigEndian::read_f32` (IEEE-754 decode of exactly
/// the four bytes handed to it) and on std's decimal rendering of the
/// decoded value: the text depends on the four bytes alone.
#[verifier::external_body]
pub(crate) fn read_float32_text(b: &Vec<u8>) -> (r: Vec<u8>)
    requires
        b@.len() == 4,
    ensures
        r@ == float32_text(b@[0], b@[1], b@[2], b@[3]),
{
    let v = <byteorder::BigEndian as byteorder::ByteOrder>::read_f32(b);
    format!("{}", v).into_bytes()
}

/// Relies on `byteorder::BigEndian::read_f64` (IEEE-754 decode of exactly
/// the eight bytes handed to it) and on std's decimal rendering of the
/// decoded value: the text depends on the eight bytes alone.
#[verifier::external_body]
pub(crate) fn read_float64_text(b: &Vec<u8>) -> (r: Vec<u8>)
    requires
        b@.len() == 8,
    ensures
        r@ == float64_text(b@[0], b@[1], b@[2], b@[3], b@[4], b@[5], b@[6], b@[7]),
{
    let v = <byteorder::BigEndian as byteorder::ByteOrder>::read_f64(b);
    format!("{}", v).into_bytes()
}

/// Relies on std's float parsing (`str::parse`, after a UTF-8 check of the
/// raw bytes) and on `byteorder::BigEndian::write_f32` (IEEE-754 encode into
/// exactly four bytes): the result depends on the text alone.
#[verifier::external_body]
pub(crate) fn parse_float32(s: &[u8]) -> (r: Option<Vec<u8>>)
    ensures
        match r {
            Some(b) => b@.len() == 4 && float32_of_text(s@) == Some(b@),
            None => float32_of_text(s@) is None,
        },
{
    let txt = match core::str::from_utf8(s) {
        Ok(t) => t,
        Err(_) => return None,
    };
    match txt.parse() {
        Ok(v) => {
            let mut buf = [0u8; 4];
            <byteorder::BigEndian as byteorder::ByteOrder>::write_f32(&mut buf, v);
            Some(buf.to_vec())
        },
        Err(_) => None,
    }
}

/// Relies on std's float parsing (`str::parse`, after a UTF-8 check of the
/// raw bytes) and on `byteorder::BigEndian::write_f64` (IEEE-754 encode into
/// exactly eight bytes): the result depends on the text alone.
#[verifier::external_body]
pub(crate) fn parse_float64(s: &[u8]) -> (r: Option<Vec<u8>>)
    ensures
        match r {
            Some(b) => b@.len() == 8 && float64_of_text(s@) == Some(b@),
            None => float64_of_text(s@) is None,
        },
{
    let txt = match core::str::from_utf8(s) {
        Ok(t) => t,
        Err(_) => return None,
    };
    match txt.parse() {
        Ok(v) => {
            let mut buf = [0u8; 8];
            <byteorder::BigEndian as byteorder::ByteOrder>::write_f64(&mut buf, v);
            Some(buf.to_vec())
        },
        Err(_) => None,
    }
}

} // verus!

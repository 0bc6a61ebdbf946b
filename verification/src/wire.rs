//! Little-endian integers on the wire.
//!
//! The 16-bit fields of a frame are read with the `byteorder` crate. This file
//! holds the one call into it; its contract is taken on trust.

use byteorder::{LittleEndian, ReadBytesExt};
use vstd::prelude::*;

verus! {

/// `std::io::Error`, the error of `byteorder`'s readers. Nothing is known of
/// a value of it; it is only handed on.
#[verifier::external_type_specification]
#[verifier::external_body]
pub struct ExIoError(std::io::Error);

/// The 16-bit value whose little-endian encoding is `lo` followed by `hi`.
pub open spec fn le_u16(lo: u8, hi: u8) -> u16 {
    (lo + 256 * hi) as u16
}

/// Low byte of the little-endian encoding of `value`.
pub open spec fn le_low(value: u16) -> u8 {
    (value % 256) as u8
}

/// High byte of the little-endian encoding of `value`.
pub open spec fn le_high(value: u16) -> u8 {
    (value / 256) as u8
}

/// Splitting a value into its two bytes and joining them again gives the
/// value back, and the other way round.
pub proof fn lemma_le_u16_round_trip(value: u16, lo: u8, hi: u8)
    ensures
        le_u16(le_low(value), le_high(value)) == value,
        le_low(le_u16(lo, hi)) == lo,
        le_high(le_u16(lo, hi)) == hi,
{
}

/// Calls `byteorder::ReadBytesExt::read_u16::<LittleEndian>` with `bytes` as
/// the reader.
///
/// Trusted: for a slice `byteorder` takes the first two bytes with
/// `read_exact` and joins them with `u16::from_le_bytes`, the first byte being
/// the low one. A slice of fewer than two bytes makes `read_exact` fail, and
/// that error is handed on.
#[verifier::external_body]
pub(crate) fn read_u16_le(bytes: &[u8]) -> (value: Result<u16, std::io::Error>)
    ensures
        bytes@.len() >= 2 ==> value is Ok,
        bytes@.len() >= 2 ==> value->Ok_0 == le_u16(bytes@[0], bytes@[1]),
        bytes@.len() < 2 ==> value is Err,
{
    let mut source = bytes;
    source.read_u16::<LittleEndian>()
}

} // verus!

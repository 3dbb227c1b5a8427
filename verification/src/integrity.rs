//! The 16-bit checksum that closes a multi-fragment message.

use vstd::prelude::*;

verus! {

/// Register value that the checksum starts from.
pub const CRC_INITIAL: u16 = 0xFFFF;

/// The value that `cands_transport::cyphal::crc_add` returns for a start
/// value, a declared size and the data; `None` where it returns an error.
pub uninterp spec fn crc_sum(crc: u16, size: usize, data: Seq<u8>) -> Option<u16>;

/// Calls `cands_transport::cyphal::crc_add`, which folds the data byte by byte
/// into the register `crc`. It fails exactly where `size` is not the data's
/// length, and panics on no input.
#[verifier::external_body]
fn crc_add(crc: u16, size: usize, data: &[u8]) -> (r: Option<u16>)
    ensures
        r == crc_sum(crc, size, data@),
        r.is_some() == (size == data@.len()),
{
    match cands_transport::cyphal::crc_add(crc, size, data) {
        Ok(sum) => Some(sum),
        Err(_) => None,
    }
}

/// The register after the whole payload has gone through it.
pub open spec fn crc_of(payload: Seq<u8>) -> u16 {
    match crc_sum(CRC_INITIAL, payload.len() as usize, payload) {
        Some(sum) => sum,
        None => CRC_INITIAL,
    }
}

/// The two checksum bytes of a payload, high byte first, as they stand at the
/// end of the last fragment.
pub open spec fn checksum_bytes(payload: Seq<u8>) -> (u8, u8) {
    sum_bytes(crc_of(payload))
}

/// The two bytes of a checksum register, high byte first.
pub open spec fn sum_bytes(sum: u16) -> (u8, u8) {
    ((sum >> 8) as u8, (sum & 0xff) as u8)
}

/// Splits a checksum register into its two bytes, high byte first.
pub fn split_sum(sum: u16) -> (r: [u8; 2])
    ensures
        (r[0], r[1]) == sum_bytes(sum),
{
    [(sum >> 8) as u8, (sum & 0xff) as u8]
}

/// Computes the checksum of a fully reassembled payload, without the two
/// checksum bytes that travelled with it.
pub fn checksum(payload: &[u8]) -> (r: [u8; 2])
    ensures
        (r[0], r[1]) == checksum_bytes(payload@),
{
    match crc_add(CRC_INITIAL, payload.len(), payload) {
        Some(sum) => split_sum(sum),
        None => split_sum(CRC_INITIAL),
    }
}

} // verus!

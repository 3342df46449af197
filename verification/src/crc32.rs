use vstd::prelude::*;
use crc::{Crc, CRC_32_ISO_HDLC};

verus! {

/// The CRC-32/ISO-HDLC checksum of `data` (the `crc` crate's
/// `CRC_32_ISO_HDLC` algorithm: reflected polynomial 0x04C11DB7, initial
/// value and final xor 0xFFFFFFFF).
pub uninterp spec fn crc32_iso_hdlc(data: Seq<u8>) -> u32;

/// Computes the CRC-32/ISO-HDLC checksum of `data` with
/// `crc::Crc::<u32>::new(&CRC_32_ISO_HDLC).checksum`. The contract claims
/// only that the result is a function of the bytes, named `crc32_iso_hdlc`.
#[verifier::external_body]
pub(crate) fn crc32_checksum(data: &[u8]) -> (r: u32)
    ensures
        r == crc32_iso_hdlc(data@),
{
    Crc::<u32>::new(&CRC_32_ISO_HDLC).checksum(data)
}

} // verus!

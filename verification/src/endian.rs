//! Little-endian integer reads, done by the `byteorder` crate.

use byteorder::{ByteOrder, LittleEndian};
use vstd::prelude::*;

use crate::layout::{le_u32, le_u64};

verus! {

/// `byteorder::LittleEndian::read_u32`: decodes the first four bytes of `buf`
/// as a little-endian integer. It panics on a shorter buffer, hence the
/// precondition. The result is believed, not proved.
#[verifier::external_body]
pub(crate) fn read_u32_le(buf: &[u8]) -> (value: u32)
    requires
        buf@.len() >= 4,
    ensures
        value as nat == le_u32(buf@),
{
    LittleEndian::read_u32(buf)
}

/// `byteorder::LittleEndian::read_u64`: decodes the first eight bytes of `buf`
/// as a little-endian integer. It panics on a shorter buffer, hence the
/// precondition. The result is believed, not proved.
#[verifier::external_body]
pub(crate) fn read_u64_le(buf: &[u8]) -> (value: u64)
    requires
        buf@.len() >= 8,
    ensures
        value as nat == le_u64(buf@),
{
    LittleEndian::read_u64(buf)
}

} // verus!

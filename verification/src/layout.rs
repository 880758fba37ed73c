//! The byte layout of an FTAB container, as functions on byte sequences.

use vstd::prelude::*;

verus! {

/// Length of the fixed header; the descriptor table starts right after it.
pub const HEADER_LEN: usize = 0x30;

/// Length of one descriptor in the table.
pub const ROW_LEN: usize = 16;

/// Largest number of descriptors a container may declare.
pub const MAX_FILES: u32 = 127;

/// The number that four bytes hold in little-endian order.
pub open spec fn le_u32(b: Seq<u8>) -> nat
    recommends
        b.len() >= 4,
{
    (b[0] as nat) + 0x100 * (b[1] as nat) + 0x1_0000 * (b[2] as nat) + 0x100_0000 * (b[3] as nat)
}

/// The number that eight bytes hold in little-endian order.
pub open spec fn le_u64(b: Seq<u8>) -> nat
    recommends
        b.len() >= 8,
{
    le_u32(b.subrange(0, 4)) + 0x1_0000_0000 * le_u32(b.subrange(4, 8))
}

/// The 32-bit little-endian field that starts at byte `at`.
pub open spec fn field_u32(bytes: Seq<u8>, at: int) -> nat
    recommends
        0 <= at,
        at + 4 <= bytes.len(),
{
    le_u32(bytes.subrange(at, at + 4))
}

/// The 64-bit little-endian field that starts at byte `at`.
pub open spec fn field_u64(bytes: Seq<u8>, at: int) -> nat
    recommends
        0 <= at,
        at + 8 <= bytes.len(),
{
    le_u64(bytes.subrange(at, at + 8))
}

/// Four bytes hold a number that fits in 32 bits.
pub proof fn lemma_le_u32_bound(b: Seq<u8>)
    ensures
        le_u32(b) <= u32::MAX,
{
}

} // verus!

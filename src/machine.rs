use vstd::prelude::*;

verus! {

/// Number of physical frames the kernel tracks (8 GiB of physical memory).
pub const FRAME_COUNT: usize = 0x20_0000;

/// Bytes covered by one entry of an L2 table.
pub const L2_FRAME_SIZE: usize = 0x4000_0000;

/// Bytes covered by one entry of an L1 table.
pub const L1_FRAME_SIZE: usize = 0x20_0000;

/// Bytes in one frame, the size covered by one entry of an L0 table.
pub const L0_FRAME_SIZE: usize = 0x1000;

/// Number of entries in a page table of any level.
pub const TABLE_LEN: usize = 0x200;

} // verus!

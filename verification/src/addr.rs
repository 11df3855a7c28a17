//! Address-index codec: pure bit arithmetic mapping a virtual address to its
//! slot index at each level of a 3-level translation hierarchy with 9-bit
//! index fields and a 2 MiB granule at the leaf level.

use vstd::prelude::*;

verus! {

/// Width in bits of one 2 MiB leaf block.
pub const BLOCK_2MB_BITS: u64 = 21;

/// Width in bits of one 1 GiB block (a whole level-2 table's span).
pub const BLOCK_1GB_BITS: u64 = 30;

/// Number of index bits consumed at each translation level.
pub const LEVEL_INDEX_BITS: u64 = 9;

/// Mask isolating one 9-bit level index.
pub const LEVEL_INDEX_MASK: u64 = 0x1ff;

/// Number of entries in one translation table.
pub const TABLE_ENTRIES: usize = 512;

/// Level-0 index of a virtual address: bits [39:47].
pub open spec fn lvl0_index_spec(addr: u64) -> u64 {
    (addr >> (BLOCK_2MB_BITS + LEVEL_INDEX_BITS + LEVEL_INDEX_BITS)) & LEVEL_INDEX_MASK
}

/// Level-1 index of a virtual address: bits [30:38].
pub open spec fn lvl1_index_spec(addr: u64) -> u64 {
    (addr >> (BLOCK_2MB_BITS + LEVEL_INDEX_BITS)) & LEVEL_INDEX_MASK
}

/// Level-2 index of a virtual address: bits [21:29].
pub open spec fn lvl2_index_spec(addr: u64) -> u64 {
    (addr >> BLOCK_2MB_BITS) & LEVEL_INDEX_MASK
}

/// Every level index is a valid table slot, for any 64-bit address.
pub proof fn lemma_index_in_range(addr: u64)
    ensures
        lvl0_index_spec(addr) < 512,
        lvl1_index_spec(addr) < 512,
        lvl2_index_spec(addr) < 512,
{
    assert((addr >> 39) & 0x1ff < 512) by (bit_vector);
    assert((addr >> 30) & 0x1ff < 512) by (bit_vector);
    assert((addr >> 21) & 0x1ff < 512) by (bit_vector);
}

/// Namespace for the hardware-specific index helpers.
pub struct Aarch64;

impl Aarch64 {
    /// Index of `addr` in a level-0 table (one entry spans 512 GiB).
    pub fn lvl0_index(addr: u64) -> (idx: usize)
        ensures
            idx == lvl0_index_spec(addr),
            idx < 512,
    {
        proof {
            lemma_index_in_range(addr);
        }
        let idx = (addr >> (BLOCK_2MB_BITS + LEVEL_INDEX_BITS + LEVEL_INDEX_BITS))
            & LEVEL_INDEX_MASK;
        idx as usize
    }

    /// Index of `addr` in a level-1 table (one entry spans 1 GiB).
    pub fn lvl1_index(addr: u64) -> (idx: usize)
        ensures
            idx == lvl1_index_spec(addr),
            idx < 512,
    {
        proof {
            lemma_index_in_range(addr);
        }
        let idx = (addr >> (BLOCK_2MB_BITS + LEVEL_INDEX_BITS)) & LEVEL_INDEX_MASK;
        idx as usize
    }

    /// Index of `addr` in a level-2 table (one entry spans 2 MiB).
    pub fn lvl2_index(addr: u64) -> (idx: usize)
        ensures
            idx == lvl2_index_spec(addr),
            idx < 512,
    {
        proof {
            lemma_index_in_range(addr);
        }
        let idx = (addr >> BLOCK_2MB_BITS) & LEVEL_INDEX_MASK;
        idx as usize
    }
}

} // verus!

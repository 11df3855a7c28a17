//! Construction of the five boot translation tables: the hardware descriptor
//! encodings, the bootstrap rebasing of the tables' own addresses, and the
//! builders producing each 4096-byte table image.

use crate::addr::{lvl0_index_spec, lvl1_index_spec, lvl2_index_spec, Aarch64, BLOCK_1GB_BITS,
    BLOCK_2MB_BITS};
use crate::image::{ElfFile, SymbolId};
use crate::table::{lemma_table_word, serialize_table, table_bytes, table_word, PAGE_TABLE_SIZE};
use vstd::prelude::*;

verus! {

/// Descriptor bit 0: the entry is valid; alone at levels 1 and 2 it marks a
/// block descriptor.
pub const DESC_VALID: u64 = 0x1;

/// Descriptor bit 1: together with bit 0, the entry points at a next-level
/// table.
pub const DESC_TABLE: u64 = 0x2;

/// Descriptor bit 10: access flag, pre-set so no access fault is taken.
pub const ACCESS_FLAG: u64 = 0x400;

/// Descriptor bits 8-9 = 0b11: inner-shareable, matching the kernel's own
/// mapping attributes.
pub const SHAREABILITY_INNER: u64 = 0x300;

/// Descriptor bits 2-4: memory-attribute index 4, normal cacheable memory.
pub const MEM_ATTR_NORMAL: u64 = 0x10;

/// Bit 31, forced into every rebased table address: the bootstrap loader
/// locates its own data in the upper half of a 32-bit physical window.
pub const REBASE_WINDOW_BIT: u64 = 0x8000_0000;

/// A linked symbol address as bootstrap code sees it before any mapping is
/// active: its offset from the start of the bootstrap image, forced into the
/// upper half of a 32-bit window.
pub open spec fn rebased_spec(linked: u64, base: u64) -> u64
    recommends
        base <= linked,
{
    (((linked - base) as u64) | REBASE_WINDOW_BIT)
}

/// The rebased destination has its window bit set and keeps the offset from
/// the bootstrap anchor in its low 31 bits.
pub proof fn lemma_rebase_round_trip(linked: u64, base: u64)
    requires
        base <= linked,
    ensures
        rebased_spec(linked, base) & REBASE_WINDOW_BIT == REBASE_WINDOW_BIT,
        rebased_spec(linked, base) & 0x7fff_ffff == ((linked - base) as u64) & 0x7fff_ffff,
{
    let d = (linked - base) as u64;
    assert((d | 0x8000_0000u64) & 0x8000_0000u64 == 0x8000_0000u64) by (bit_vector);
    assert((d | 0x8000_0000u64) & 0x7fff_ffffu64 == d & 0x7fff_ffffu64) by (bit_vector);
}

/// A table descriptor: the next table's (rebased) address tagged valid.
pub open spec fn table_descriptor(next: u64) -> u64 {
    next | (DESC_TABLE | DESC_VALID)
}

/// Entry `i` of the level-0 lower table: slot 0 routes the fixed low-memory
/// identity window to the level-1 lower table, and the slot of the kernel's
/// first virtual address routes to the level-1 upper table. When that slot is
/// 0, the kernel's entry takes the slot over.
pub open spec fn lvl0_lower_entry(i: int, lvl1_lower: u64, lvl1_upper: u64, idx0: int) -> u64 {
    if i == idx0 {
        table_descriptor(lvl1_upper)
    } else if i == 0 {
        table_descriptor(lvl1_lower)
    } else {
        0
    }
}

/// Entry `i` of the level-1 lower table: a 1 GiB block descriptor mapping
/// `i << 30` onto itself as strongly-ordered device memory.
pub open spec fn lvl1_lower_entry(i: int) -> u64 {
    ((i as u64) << BLOCK_1GB_BITS) | ACCESS_FLAG | DESC_VALID
}

/// Entry `i` of the level-0 upper table: the slot of the kernel's first
/// virtual address routes to the level-1 upper table.
pub open spec fn lvl0_upper_entry(i: int, lvl1_upper: u64, idx0: int) -> u64 {
    if i == idx0 {
        table_descriptor(lvl1_upper)
    } else {
        0
    }
}

/// Entry `i` of the level-1 upper table: the slot of the kernel's first
/// virtual address routes to the level-2 upper table.
pub open spec fn lvl1_upper_entry(i: int, lvl2_upper: u64, idx1: int) -> u64 {
    if i == idx1 {
        table_descriptor(lvl2_upper)
    } else {
        0
    }
}

/// Entry `i` of the level-2 upper table: from the kernel's slot `k` upward,
/// a 2 MiB block descriptor mapping the next 2 MiB of physical memory from
/// `first_paddr` on, as inner-shareable normal memory; slots below `k` stay
/// invalid.
pub open spec fn lvl2_upper_entry(i: int, k: int, first_paddr: u64) -> u64 {
    if i < k {
        0
    } else {
        (((first_paddr + (i - k) * 0x20_0000) as u64) | ACCESS_FLAG | SHAREABILITY_INNER
            | MEM_ATTR_NORMAL | DESC_VALID)
    }
}

/// No level-2 block's physical address may overflow: the highest slot maps
/// `first_paddr` plus the remaining span of the level-1 entry.
pub open spec fn lvl2_no_overflow(first_vaddr: u64, first_paddr: u64) -> bool {
    first_paddr + (511 - lvl2_index_spec(first_vaddr)) * 0x20_0000 <= u64::MAX
}

/// Left-shifting a table slot count by the 2 MiB block width is multiplying
/// by 2 MiB.
pub proof fn lemma_shl_block_bits(x: u64)
    requires
        x < 512,
    ensures
        (x << 21u64) == x * 0x20_0000,
{
    assert((x << 21u64) == x * 0x20_0000) by (bit_vector)
        requires
            x < 512u64,
    ;
}

/// One produced table image: the tag saying which table it is, the rebased
/// destination address to patch it to, the destination symbol's declared
/// size, and the 4096 bytes of the table.
pub struct PageTableImage {
    pub slot: SymbolId,
    pub dest_addr: u64,
    pub dest_size: u64,
    pub bytes: Vec<u8>,
}

impl PageTableImage {
    /// A table image is exactly one page.
    pub open spec fn wf(self) -> bool {
        self.bytes@.len() == PAGE_TABLE_SIZE
    }
}

/// The rebased address of a table symbol of the loader image.
pub open spec fn rebased_symbol_addr(elf: ElfFile, id: SymbolId) -> u64 {
    rebased_spec(elf.symbol(id).vaddr, elf.symbol(SymbolId::BootstrapStart).vaddr)
}

/// Every table symbol of the loader image lies at or above the bootstrap
/// anchor, so its rebasing offset cannot underflow.
pub open spec fn symbols_rebasable(elf: ElfFile) -> bool {
    forall|id: SymbolId|
        (#[trigger] elf.has_symbol(id)) && elf.has_symbol(SymbolId::BootstrapStart)
            ==> elf.symbol(SymbolId::BootstrapStart).vaddr <= elf.symbol(id).vaddr
}

/// The six symbols the builder resolves in the loader image.
pub open spec fn build_symbols_present(elf: ElfFile) -> bool {
    &&& elf.has_symbol(SymbolId::BootLvl1Lower)
    &&& elf.has_symbol(SymbolId::BootLvl1Upper)
    &&& elf.has_symbol(SymbolId::BootLvl2Upper)
    &&& elf.has_symbol(SymbolId::BootLvl0Lower)
    &&& elf.has_symbol(SymbolId::BootLvl0Upper)
    &&& elf.has_symbol(SymbolId::BootstrapStart)
}

/// The entries of the level-0 lower table for a loader image and the
/// kernel's first virtual address.
pub open spec fn lvl0_lower_entries(elf: ElfFile, first_vaddr: u64) -> Seq<u64> {
    Seq::new(
        512,
        |i: int|
            lvl0_lower_entry(
                i,
                rebased_symbol_addr(elf, SymbolId::BootLvl1Lower),
                rebased_symbol_addr(elf, SymbolId::BootLvl1Upper),
                lvl0_index_spec(first_vaddr) as int,
            ),
    )
}

/// The entries of the level-1 lower identity table.
pub open spec fn lvl1_lower_entries() -> Seq<u64> {
    Seq::new(512, |i: int| lvl1_lower_entry(i))
}

/// The entries of the level-0 upper table.
pub open spec fn lvl0_upper_entries(elf: ElfFile, first_vaddr: u64) -> Seq<u64> {
    Seq::new(
        512,
        |i: int|
            lvl0_upper_entry(
                i,
                rebased_symbol_addr(elf, SymbolId::BootLvl1Upper),
                lvl0_index_spec(first_vaddr) as int,
            ),
    )
}

/// The entries of the level-1 upper table.
pub open spec fn lvl1_upper_entries(elf: ElfFile, first_vaddr: u64) -> Seq<u64> {
    Seq::new(
        512,
        |i: int|
            lvl1_upper_entry(
                i,
                rebased_symbol_addr(elf, SymbolId::BootLvl2Upper),
                lvl1_index_spec(first_vaddr) as int,
            ),
    )
}

/// The entries of the level-2 upper table.
pub open spec fn lvl2_upper_entries(first_vaddr: u64, first_paddr: u64) -> Seq<u64> {
    Seq::new(512, |i: int| lvl2_upper_entry(i, lvl2_index_spec(first_vaddr) as int, first_paddr))
}

/// What `aarch64_setup_pagetables` hands back on success: the five table
/// images, in patch order, each tagged with its slot, carrying its rebased
/// destination address, its destination symbol's declared size, and its
/// 4096-byte image.
pub open spec fn images_built(
    v: Seq<PageTableImage>,
    elf: ElfFile,
    first_vaddr: u64,
    first_paddr: u64,
) -> bool {
    &&& v.len() == 5
    &&& v[0].slot == SymbolId::BootLvl0Lower
    &&& v[1].slot == SymbolId::BootLvl1Lower
    &&& v[2].slot == SymbolId::BootLvl0Upper
    &&& v[3].slot == SymbolId::BootLvl1Upper
    &&& v[4].slot == SymbolId::BootLvl2Upper
    &&& forall|n: int| 0 <= n < 5 ==> (#[trigger] v[n]).dest_addr == rebased_symbol_addr(elf, v[n].slot)
    &&& forall|n: int| 0 <= n < 5 ==> (#[trigger] v[n]).dest_size == elf.symbol(v[n].slot).size
    &&& forall|n: int| 0 <= n < 5 ==> (#[trigger] v[n]).wf()
    &&& v[0].bytes@ == table_bytes(lvl0_lower_entries(elf, first_vaddr))
    &&& v[1].bytes@ == table_bytes(lvl1_lower_entries())
    &&& v[2].bytes@ == table_bytes(lvl0_upper_entries(elf, first_vaddr))
    &&& v[3].bytes@ == table_bytes(lvl1_upper_entries(elf, first_vaddr))
    &&& v[4].bytes@ == table_bytes(lvl2_upper_entries(first_vaddr, first_paddr))
}

/// Law: every entry of the level-1 lower table image, decoded as a
/// little-endian 64-bit word, is a valid 1 GiB block descriptor (low two
/// bits `0b01`) whose output-address field is `i << 30`: the table is a
/// flat identity mapping at 1 GiB granularity.
pub proof fn lemma_lvl1_lower_identity_mapping(i: int)
    requires
        0 <= i < 512,
    ensures
        ({
            let w = table_word(table_bytes(lvl1_lower_entries()), i);
            &&& w & 0x3 == DESC_VALID
            &&& w & 0xffff_c000_0000 == (i as u64) << BLOCK_1GB_BITS
        }),
{
    lemma_table_word(lvl1_lower_entries(), i);
    let x = i as u64;
    assert(table_word(table_bytes(lvl1_lower_entries()), i) == (x << 30u64) | 0x400u64 | 0x1u64);
    assert(((x << 30u64) | 0x400u64 | 0x1u64) & 0x3u64 == 0x1u64) by (bit_vector);
    assert(x < 512 ==> ((x << 30u64) | 0x400u64 | 0x1u64) & 0xffff_c000_0000u64 == (x
        << 30u64)) by (bit_vector);
}

/// Law: the level-2 upper table covers the kernel's region. With `k` the
/// kernel's first level-2 slot and its physical base 2 MiB-aligned and below
/// the 48-bit physical-address limit, every slot under `k` stays invalid,
/// slot `k`'s block descriptor outputs the physical base itself, and slot
/// `k + 1`'s (when it exists) outputs the base plus 2 MiB.
pub proof fn lemma_lvl2_upper_coverage(first_vaddr: u64, first_paddr: u64)
    requires
        first_paddr % 0x20_0000 == 0,
        first_paddr + 0x4000_0000 <= 0x1_0000_0000_0000,
    ensures
        ({
            let k = lvl2_index_spec(first_vaddr) as int;
            let bs = table_bytes(lvl2_upper_entries(first_vaddr, first_paddr));
            &&& forall|j: int| 0 <= j < k ==> table_word(bs, j) == 0
            &&& table_word(bs, k) & 0xffff_ffe0_0000 == first_paddr
            &&& k < 511 ==> table_word(bs, k + 1) & 0xffff_ffe0_0000 == first_paddr + 0x20_0000
            &&& forall|i: int|
                k <= i < 512 ==> #[trigger] table_word(bs, i) & 0xffff_ffe0_0000 == first_paddr
                    + (i - k) * 0x20_0000
        }),
{
    crate::addr::lemma_index_in_range(first_vaddr);
    let k = lvl2_index_spec(first_vaddr) as int;
    let entries = lvl2_upper_entries(first_vaddr, first_paddr);
    let p = first_paddr;
    assert forall|j: int| 0 <= j < k implies table_word(table_bytes(entries), j) == 0 by {
        lemma_table_word(entries, j);
    }
    lemma_table_word(entries, k);
    assert(entries[k] == (p | 0x400u64 | 0x300u64 | 0x10u64 | 0x1u64));
    assert(p % 0x20_0000u64 == 0 && p + 0x4000_0000 <= 0x1_0000_0000_0000 ==> (p | 0x400u64
        | 0x300u64 | 0x10u64 | 0x1u64) & 0xffff_ffe0_0000u64 == p) by (bit_vector);
    if k < 511 {
        lemma_table_word(entries, k + 1);
        let q = (p + 0x20_0000) as u64;
        assert(entries[k + 1] == (q | 0x400u64 | 0x300u64 | 0x10u64 | 0x1u64));
        assert((p % 0x20_0000u64 == 0 && p + 0x4000_0000 <= 0x1_0000_0000_0000 && q == p
            + 0x20_0000) ==> (q | 0x400u64 | 0x300u64 | 0x10u64 | 0x1u64) & 0xffff_ffe0_0000u64
            == q) by (bit_vector);
    }
    let bs = table_bytes(entries);
    assert forall|i: int|
        k <= i < 512 implies #[trigger] table_word(bs, i) & 0xffff_ffe0_0000 == p + (i - k)
        * 0x20_0000 by {
        lemma_table_word(entries, i);
        assert((i - k) * 0x20_0000 <= 511 * 0x20_0000) by (nonlinear_arith)
            requires
                0 <= k <= i < 512,
        ;
        vstd::arithmetic::div_mod::lemma_mod_multiples_basic(i - k, 0x20_0000);
        vstd::arithmetic::div_mod::lemma_add_mod_noop(p as int, (i - k) * 0x20_0000, 0x20_0000);
        let q = (p + (i - k) * 0x20_0000) as u64;
        assert(entries[i] == (q | 0x400u64 | 0x300u64 | 0x10u64 | 0x1u64));
        assert((p % 0x20_0000u64 == 0 && q % 0x20_0000u64 == 0 && q + 0x20_0000
            <= 0x1_0000_0000_0000) ==> (q | 0x400u64 | 0x300u64 | 0x10u64 | 0x1u64)
            & 0xffff_ffe0_0000u64 == q) by (bit_vector);
    }
}

/// Builds the level-0 lower table image.
pub fn build_lvl0_lower(lvl1_lower_addr: u64, lvl1_upper_addr: u64, first_vaddr: u64) -> (r: Vec<
    u8,
>)
    ensures
        r@ == table_bytes(
            Seq::new(
                512,
                |i: int|
                    lvl0_lower_entry(
                        i,
                        lvl1_lower_addr,
                        lvl1_upper_addr,
                        lvl0_index_spec(first_vaddr) as int,
                    ),
            ),
        ),
        r@.len() == PAGE_TABLE_SIZE,
{
    let idx0 = Aarch64::lvl0_index(first_vaddr);
    let mut entries: Vec<u64> = Vec::new();
    for i in 0..512usize
        invariant
            entries@.len() == i,
            forall|j: int|
                0 <= j < i ==> entries@[j] == lvl0_lower_entry(
                    j,
                    lvl1_lower_addr,
                    lvl1_upper_addr,
                    lvl0_index_spec(first_vaddr) as int,
                ),
            idx0 == lvl0_index_spec(first_vaddr),
    {
        let e: u64 = if i == idx0 {
            lvl1_upper_addr | (DESC_TABLE | DESC_VALID)
        } else if i == 0 {
            lvl1_lower_addr | (DESC_TABLE | DESC_VALID)
        } else {
            0
        };
        entries.push(e);
    }
    proof {
        assert(entries@ =~= Seq::new(
            512,
            |i: int|
                lvl0_lower_entry(
                    i,
                    lvl1_lower_addr,
                    lvl1_upper_addr,
                    lvl0_index_spec(first_vaddr) as int,
                ),
        ));
    }
    serialize_table(&entries)
}

/// Builds the level-1 lower identity table image.
pub fn build_lvl1_lower() -> (r: Vec<u8>)
    ensures
        r@ == table_bytes(lvl1_lower_entries()),
        r@.len() == PAGE_TABLE_SIZE,
{
    let mut entries: Vec<u64> = Vec::new();
    for i in 0..512usize
        invariant
            entries@.len() == i,
            forall|j: int| 0 <= j < i ==> entries@[j] == lvl1_lower_entry(j),
    {
        let e: u64 = ((i as u64) << BLOCK_1GB_BITS) | ACCESS_FLAG | DESC_VALID;
        entries.push(e);
    }
    proof {
        assert(entries@ =~= lvl1_lower_entries());
    }
    serialize_table(&entries)
}

/// Builds the level-0 upper table image.
pub fn build_lvl0_upper(lvl1_upper_addr: u64, first_vaddr: u64) -> (r: Vec<u8>)
    ensures
        r@ == table_bytes(
            Seq::new(
                512,
                |i: int|
                    lvl0_upper_entry(i, lvl1_upper_addr, lvl0_index_spec(first_vaddr) as int),
            ),
        ),
        r@.len() == PAGE_TABLE_SIZE,
{
    let idx0 = Aarch64::lvl0_index(first_vaddr);
    let mut entries: Vec<u64> = Vec::new();
    for i in 0..512usize
        invariant
            entries@.len() == i,
            forall|j: int|
                0 <= j < i ==> entries@[j] == lvl0_upper_entry(
                    j,
                    lvl1_upper_addr,
                    lvl0_index_spec(first_vaddr) as int,
                ),
            idx0 == lvl0_index_spec(first_vaddr),
    {
        let e: u64 = if i == idx0 {
            lvl1_upper_addr | (DESC_TABLE | DESC_VALID)
        } else {
            0
        };
        entries.push(e);
    }
    proof {
        assert(entries@ =~= Seq::new(
            512,
            |i: int| lvl0_upper_entry(i, lvl1_upper_addr, lvl0_index_spec(first_vaddr) as int),
        ));
    }
    serialize_table(&entries)
}

/// Builds the level-1 upper table image.
pub fn build_lvl1_upper(lvl2_upper_addr: u64, first_vaddr: u64) -> (r: Vec<u8>)
    ensures
        r@ == table_bytes(
            Seq::new(
                512,
                |i: int|
                    lvl1_upper_entry(i, lvl2_upper_addr, lvl1_index_spec(first_vaddr) as int),
            ),
        ),
        r@.len() == PAGE_TABLE_SIZE,
{
    let idx1 = Aarch64::lvl1_index(first_vaddr);
    let mut entries: Vec<u64> = Vec::new();
    for i in 0..512usize
        invariant
            entries@.len() == i,
            forall|j: int|
                0 <= j < i ==> entries@[j] == lvl1_upper_entry(
                    j,
                    lvl2_upper_addr,
                    lvl1_index_spec(first_vaddr) as int,
                ),
            idx1 == lvl1_index_spec(first_vaddr),
    {
        let e: u64 = if i == idx1 {
            lvl2_upper_addr | (DESC_TABLE | DESC_VALID)
        } else {
            0
        };
        entries.push(e);
    }
    proof {
        assert(entries@ =~= Seq::new(
            512,
            |i: int| lvl1_upper_entry(i, lvl2_upper_addr, lvl1_index_spec(first_vaddr) as int),
        ));
    }
    serialize_table(&entries)
}

/// Builds the level-2 upper table image.
pub fn build_lvl2_upper(first_vaddr: u64, first_paddr: u64) -> (r: Vec<u8>)
    requires
        lvl2_no_overflow(first_vaddr, first_paddr),
    ensures
        r@ == table_bytes(lvl2_upper_entries(first_vaddr, first_paddr)),
        r@.len() == PAGE_TABLE_SIZE,
{
    let k = Aarch64::lvl2_index(first_vaddr);
    let mut entries: Vec<u64> = Vec::new();
    for i in 0..512usize
        invariant
            entries@.len() == i,
            forall|j: int|
                0 <= j < i ==> entries@[j] == lvl2_upper_entry(
                    j,
                    lvl2_index_spec(first_vaddr) as int,
                    first_paddr,
                ),
            k == lvl2_index_spec(first_vaddr),
            k < 512,
            lvl2_no_overflow(first_vaddr, first_paddr),
    {
        let e: u64 = if i < k {
            0
        } else {
            let slots = (i - k) as u64;
            proof {
                lemma_shl_block_bits(slots);
                assert(slots * 0x20_0000 <= (511 - k as int) * 0x20_0000) by (nonlinear_arith)
                    requires
                        slots == i - k,
                        i < 512,
                        0 <= k <= i,
                ;
            }
            let off = slots << BLOCK_2MB_BITS;
            (first_paddr + off) | ACCESS_FLAG | SHAREABILITY_INNER | MEM_ATTR_NORMAL | DESC_VALID
        };
        entries.push(e);
    }
    proof {
        assert(entries@ =~= lvl2_upper_entries(first_vaddr, first_paddr));
    }
    serialize_table(&entries)
}

} // verus!

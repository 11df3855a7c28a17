//! Orchestration: derives the kernel's mapping parameters from its loadable
//! segments, invokes the table builders, and patches the produced images and
//! the kernel's entry address into the loader image.

use crate::builder::{build_lvl0_lower, build_lvl0_upper, build_lvl1_lower, build_lvl1_upper,
    build_lvl2_upper, build_symbols_present, images_built, lvl2_no_overflow, symbols_rebasable,
    PageTableImage, REBASE_WINDOW_BIT};
use crate::image::{CoreError, ElfFile, Segment, SymbolId};
use crate::table::PAGE_TABLE_SIZE;
use vstd::arithmetic::div_mod::lemma_fundamental_div_mod;
use vstd::bytes::{spec_u64_to_le_bytes, u64_to_le_bytes};
use vstd::prelude::*;

verus! {

/// Whether some segment of the image is loadable.
pub open spec fn has_loadable(segs: Seq<Segment>) -> bool {
    exists|i: int| 0 <= i < segs.len() && (#[trigger] segs[i]).loadable
}

/// `v` is the least virtual address of a loadable segment.
pub open spec fn is_first_vaddr(segs: Seq<Segment>, v: u64) -> bool {
    &&& exists|i: int|
        0 <= i < segs.len() && (#[trigger] segs[i]).loadable && segs[i].virt_addr == v
    &&& forall|i: int|
        0 <= i < segs.len() && (#[trigger] segs[i]).loadable ==> v <= segs[i].virt_addr
}

/// `p` is the least physical address of a loadable segment.
pub open spec fn is_first_paddr(segs: Seq<Segment>, p: u64) -> bool {
    &&& exists|i: int|
        0 <= i < segs.len() && (#[trigger] segs[i]).loadable && segs[i].phys_addr == p
    &&& forall|i: int|
        0 <= i < segs.len() && (#[trigger] segs[i]).loadable ==> p <= segs[i].phys_addr
}

/// `x` rounded up to the next 2 MiB boundary.
pub open spec fn round_up_2mb(x: int) -> int {
    ((x + 0x1f_ffff) / 0x20_0000) * 0x20_0000
}

/// `l` is the greatest end address of a loadable segment, rounded up to a
/// 2 MiB boundary.
pub open spec fn is_last_vaddr(segs: Seq<Segment>, l: u64) -> bool {
    &&& exists|i: int|
        0 <= i < segs.len() && (#[trigger] segs[i]).loadable && l == round_up_2mb(
            segs[i].virt_addr + segs[i].mem_size,
        )
    &&& forall|i: int|
        0 <= i < segs.len() && (#[trigger] segs[i]).loadable ==> round_up_2mb(
            segs[i].virt_addr + segs[i].mem_size,
        ) <= l
}

/// All loadable segments agree on `virt_addr - phys_addr`.
pub open spec fn uniform_offset(segs: Seq<Segment>) -> bool {
    forall|i: int, j: int|
        0 <= i < segs.len() && 0 <= j < segs.len() && (#[trigger] segs[i]).loadable && (
        #[trigger] segs[j]).loadable ==> segs[i].virt_addr - segs[i].phys_addr
            == segs[j].virt_addr - segs[j].phys_addr
}

/// Every loadable segment's `virt_addr - phys_addr` equals `d`.
pub open spec fn is_offset(segs: Seq<Segment>, d: u64) -> bool {
    forall|i: int|
        0 <= i < segs.len() && (#[trigger] segs[i]).loadable ==> segs[i].virt_addr
            - segs[i].phys_addr == d
}

/// Machine limits on the segments this tool accepts: a loadable segment's
/// physical address never exceeds its virtual address (the offset is a
/// nonnegative 64-bit value), and its rounded end address fits in 64 bits.
pub open spec fn segments_in_range(segs: Seq<Segment>) -> bool {
    forall|i: int|
        0 <= i < segs.len() && (#[trigger] segs[i]).loadable ==> segs[i].phys_addr
            <= segs[i].virt_addr && segs[i].virt_addr + segs[i].mem_size + 0x1f_ffff
            <= u64::MAX
}

/// The kernel's mapping parameters, derived in one pass over its loadable
/// segments.
#[derive(Clone, Copy, PartialEq, Eq, Structural, Debug)]
pub struct KernelLayout {
    /// Least virtual address of a loadable segment.
    pub first_vaddr: u64,
    /// Least physical address of a loadable segment.
    pub first_paddr: u64,
    /// Greatest loadable end address, rounded up to a 2 MiB boundary.
    pub last_vaddr: u64,
    /// The uniform `virt_addr - phys_addr` of all loadable segments.
    pub p_v_offset: u64,
}

/// Rounds `x` up to the next 2 MiB boundary.
fn round_up_2mb_exec(x: u64) -> (r: u64)
    requires
        x + 0x1f_ffff <= u64::MAX,
    ensures
        r == round_up_2mb(x as int),
{
    let a = x + 0x1f_ffff;
    let q = a / 0x20_0000;
    proof {
        lemma_fundamental_div_mod(a as int, 0x20_0000);
    }
    q * 0x20_0000
}

/// The outcome of checking one patch destination: absent, too small, or fit
/// to receive `len` bytes.
pub open spec fn slot_patch_error(elf: ElfFile, id: SymbolId, len: int) -> Option<CoreError> {
    if !elf.has_symbol(id) {
        Some(CoreError::MissingSymbol)
    } else if elf.symbol(id).size < len {
        Some(CoreError::SymbolTooSmall)
    } else {
        None
    }
}

/// The first failure among the six patch destinations, checked in patch
/// order; `None` when every destination exists and is large enough.
pub open spec fn patch_error(elf: ElfFile) -> Option<CoreError> {
    if slot_patch_error(elf, SymbolId::BootLvl0Lower, 4096) is Some {
        slot_patch_error(elf, SymbolId::BootLvl0Lower, 4096)
    } else if slot_patch_error(elf, SymbolId::BootLvl1Lower, 4096) is Some {
        slot_patch_error(elf, SymbolId::BootLvl1Lower, 4096)
    } else if slot_patch_error(elf, SymbolId::BootLvl0Upper, 4096) is Some {
        slot_patch_error(elf, SymbolId::BootLvl0Upper, 4096)
    } else if slot_patch_error(elf, SymbolId::BootLvl1Upper, 4096) is Some {
        slot_patch_error(elf, SymbolId::BootLvl1Upper, 4096)
    } else if slot_patch_error(elf, SymbolId::BootLvl2Upper, 4096) is Some {
        slot_patch_error(elf, SymbolId::BootLvl2Upper, 4096)
    } else {
        slot_patch_error(elf, SymbolId::KernelEntry, 8)
    }
}

/// The six symbols a patch writes to.
pub open spec fn is_patch_target(id: SymbolId) -> bool {
    ||| id == SymbolId::BootLvl0Lower
    ||| id == SymbolId::BootLvl1Lower
    ||| id == SymbolId::BootLvl0Upper
    ||| id == SymbolId::BootLvl1Upper
    ||| id == SymbolId::BootLvl2Upper
    ||| id == SymbolId::KernelEntry
}

/// Slot `id` of `post` holds `bytes` followed by the rest of the slot's old
/// contents, in place, with its address and declared size unchanged.
pub open spec fn slot_patched(pre: ElfFile, post: ElfFile, id: SymbolId, bytes: Seq<u8>) -> bool {
    &&& post.has_symbol(id)
    &&& post.symbol_index(id) == pre.symbol_index(id)
    &&& post.symbol(id).vaddr == pre.symbol(id).vaddr
    &&& post.symbol(id).size == pre.symbol(id).size
    &&& post.symbol(id).data@ == bytes + pre.symbol(id).data@.skip(bytes.len() as int)
}

/// What a successful patch did to the loader image: the five table images
/// and the kernel's entry address stand in their slots, and every other
/// symbol is untouched.
pub open spec fn patched(mgr: CoreManager, pre: ElfFile, post: ElfFile) -> bool {
    &&& slot_patched(pre, post, SymbolId::BootLvl0Lower, mgr.pagetable_vars@[0].bytes@)
    &&& slot_patched(pre, post, SymbolId::BootLvl1Lower, mgr.pagetable_vars@[1].bytes@)
    &&& slot_patched(pre, post, SymbolId::BootLvl0Upper, mgr.pagetable_vars@[2].bytes@)
    &&& slot_patched(pre, post, SymbolId::BootLvl1Upper, mgr.pagetable_vars@[3].bytes@)
    &&& slot_patched(pre, post, SymbolId::BootLvl2Upper, mgr.pagetable_vars@[4].bytes@)
    &&& slot_patched(pre, post, SymbolId::KernelEntry, spec_u64_to_le_bytes(mgr.kernel_entry))
    &&& forall|j: int|
        0 <= j < pre.symbols@.len() && !is_patch_target((#[trigger] pre.symbols@[j]).id)
            ==> post.symbols@[j] == pre.symbols@[j]
}

/// Writes `bytes` into slot `id` of an image whose slots, apart from earlier
/// such writes, still look like `base`'s; cannot fail.
fn write_slot(target: &mut ElfFile, id: SymbolId, bytes: &[u8], Ghost(base): Ghost<ElfFile>)
    requires
        old(target).wf(),
        base.wf(),
        old(target).symbols@.len() == base.symbols@.len(),
        forall|j: int|
            0 <= j < base.symbols@.len() ==> (#[trigger] old(target).symbols@[j]).id
                == base.symbols@[j].id,
        base.has_symbol(id),
        old(target).symbol(id) == base.symbol(id),
        bytes@.len() <= base.symbol(id).size,
    ensures
        final(target).wf(),
        final(target).entry == old(target).entry,
        final(target).segments@ == old(target).segments@,
        final(target).symbols@.len() == base.symbols@.len(),
        forall|j: int|
            0 <= j < base.symbols@.len() ==> (#[trigger] final(target).symbols@[j]).id
                == base.symbols@[j].id,
        slot_patched(base, *final(target), id, bytes@),
        forall|other: SymbolId|
            other != id && #[trigger] base.has_symbol(other) ==> final(target).symbol(other)
                == old(target).symbol(other) && final(target).symbol_index(other)
                == base.symbol_index(other),
        forall|j: int|
            0 <= j < base.symbols@.len() && j != base.symbol_index(id) ==> #[trigger] final(
            target).symbols@[j] == old(target).symbols@[j],
{
    let ghost pre = *target;
    proof {
        ElfFile::lemma_symbol_index_stable(base, pre, id);
    }
    let r = target.write_symbol(id, bytes);
    proof {
        assert(r is Ok);
        assert forall|other: SymbolId|
            other != id && #[trigger] base.has_symbol(other) implies (*target).symbol(other)
            == pre.symbol(other) && (*target).symbol_index(other) == base.symbol_index(
            other,
        ) by {
            ElfFile::lemma_symbol_index_stable(base, pre, other);
            ElfFile::lemma_untouched_symbol(pre, *target, id, other);
            ElfFile::lemma_symbol_index_stable(base, *target, other);
        }
    }
    match r {
        Ok(_) => (),
        Err(_) => {
            proof {
                assert(false);
            }
        },
    }
}

/// The generator: owns the derived layout, the kernel's entry address, and
/// the five built table images until they are patched into a loader image.
pub struct CoreManager {
    /// The kernel's derived mapping parameters.
    pub layout: KernelLayout,
    /// The kernel's entry-point address.
    pub kernel_entry: u64,
    /// The five table images, in patch order.
    pub pagetable_vars: Vec<PageTableImage>,
}

impl CoreManager {
    /// A manager holds the five page images, tagged in patch order.
    pub open spec fn wf(self) -> bool {
        &&& self.pagetable_vars@.len() == 5
        &&& forall|n: int| 0 <= n < 5 ==> (#[trigger] self.pagetable_vars@[n]).wf()
        &&& self.pagetable_vars@[0].slot == SymbolId::BootLvl0Lower
        &&& self.pagetable_vars@[1].slot == SymbolId::BootLvl1Lower
        &&& self.pagetable_vars@[2].slot == SymbolId::BootLvl0Upper
        &&& self.pagetable_vars@[3].slot == SymbolId::BootLvl1Upper
        &&& self.pagetable_vars@[4].slot == SymbolId::BootLvl2Upper
    }

    /// Resolves the five table symbols and the bootstrap anchor in the loader
    /// image, rebases the tables' linked addresses into the bootstrap window,
    /// and builds the five table images, each paired with its rebased
    /// destination address and its destination symbol's declared size.
    pub fn aarch64_setup_pagetables(elf: &ElfFile, first_vaddr: u64, first_paddr: u64) -> (r:
        Result<Vec<PageTableImage>, CoreError>)
        requires
            elf.wf(),
            symbols_rebasable(*elf),
            lvl2_no_overflow(first_vaddr, first_paddr),
        ensures
            r is Ok <==> build_symbols_present(*elf),
            r matches Err(e) ==> e == CoreError::MissingSymbol,
            r matches Ok(v) ==> images_built(v@, *elf, first_vaddr, first_paddr),
    {
        let (boot_lvl1_lower_linked, boot_lvl1_lower_size) = match elf.find_symbol(
            SymbolId::BootLvl1Lower,
        ) {
            Ok(t) => t,
            Err(e) => {
                return Err(e);
            },
        };
        let (boot_lvl1_upper_linked, boot_lvl1_upper_size) = match elf.find_symbol(
            SymbolId::BootLvl1Upper,
        ) {
            Ok(t) => t,
            Err(e) => {
                return Err(e);
            },
        };
        let (boot_lvl2_upper_linked, boot_lvl2_upper_size) = match elf.find_symbol(
            SymbolId::BootLvl2Upper,
        ) {
            Ok(t) => t,
            Err(e) => {
                return Err(e);
            },
        };
        let (boot_lvl0_lower_linked, boot_lvl0_lower_size) = match elf.find_symbol(
            SymbolId::BootLvl0Lower,
        ) {
            Ok(t) => t,
            Err(e) => {
                return Err(e);
            },
        };
        let (boot_lvl0_upper_linked, boot_lvl0_upper_size) = match elf.find_symbol(
            SymbolId::BootLvl0Upper,
        ) {
            Ok(t) => t,
            Err(e) => {
                return Err(e);
            },
        };
        // The tables are filled in by bootstrap code still running at its
        // physical load address, so every table address is rewritten to the
        // offset it has from the start of the bootstrap image, inside the
        // 32-bit window.
        let (bootstrap_start_vaddr, _bootstrap_size) = match elf.find_symbol(
            SymbolId::BootstrapStart,
        ) {
            Ok(t) => t,
            Err(e) => {
                return Err(e);
            },
        };
        let boot_lvl1_lower_addr = (boot_lvl1_lower_linked - bootstrap_start_vaddr)
            | REBASE_WINDOW_BIT;
        let boot_lvl1_upper_addr = (boot_lvl1_upper_linked - bootstrap_start_vaddr)
            | REBASE_WINDOW_BIT;
        let boot_lvl2_upper_addr = (boot_lvl2_upper_linked - bootstrap_start_vaddr)
            | REBASE_WINDOW_BIT;
        let boot_lvl0_lower_addr = (boot_lvl0_lower_linked - bootstrap_start_vaddr)
            | REBASE_WINDOW_BIT;
        let boot_lvl0_upper_addr = (boot_lvl0_upper_linked - bootstrap_start_vaddr)
            | REBASE_WINDOW_BIT;

        let boot_lvl0_lower = build_lvl0_lower(
            boot_lvl1_lower_addr,
            boot_lvl1_upper_addr,
            first_vaddr,
        );
        let boot_lvl1_lower = build_lvl1_lower();
        let boot_lvl0_upper = build_lvl0_upper(boot_lvl1_upper_addr, first_vaddr);
        let boot_lvl1_upper = build_lvl1_upper(boot_lvl2_upper_addr, first_vaddr);
        let boot_lvl2_upper = build_lvl2_upper(first_vaddr, first_paddr);

        let mut images: Vec<PageTableImage> = Vec::new();
        images.push(
            PageTableImage {
                slot: SymbolId::BootLvl0Lower,
                dest_addr: boot_lvl0_lower_addr,
                dest_size: boot_lvl0_lower_size,
                bytes: boot_lvl0_lower,
            },
        );
        images.push(
            PageTableImage {
                slot: SymbolId::BootLvl1Lower,
                dest_addr: boot_lvl1_lower_addr,
                dest_size: boot_lvl1_lower_size,
                bytes: boot_lvl1_lower,
            },
        );
        images.push(
            PageTableImage {
                slot: SymbolId::BootLvl0Upper,
                dest_addr: boot_lvl0_upper_addr,
                dest_size: boot_lvl0_upper_size,
                bytes: boot_lvl0_upper,
            },
        );
        images.push(
            PageTableImage {
                slot: SymbolId::BootLvl1Upper,
                dest_addr: boot_lvl1_upper_addr,
                dest_size: boot_lvl1_upper_size,
                bytes: boot_lvl1_upper,
            },
        );
        images.push(
            PageTableImage {
                slot: SymbolId::BootLvl2Upper,
                dest_addr: boot_lvl2_upper_addr,
                dest_size: boot_lvl2_upper_size,
                bytes: boot_lvl2_upper,
            },
        );
        Ok(images)
    }

    /// Derives the kernel's layout in one pass over its loadable segments,
    /// then builds the five table images against the loader image's symbols.
    /// Fails when the kernel has no loadable segment, when two loadable
    /// segments disagree on their physical-to-virtual offset, or when a
    /// required symbol is absent from the loader image.
    pub fn new(kernel_elf: &ElfFile, target_elf: &ElfFile) -> (r: Result<CoreManager, CoreError>)
        requires
            target_elf.wf(),
            symbols_rebasable(*target_elf),
            segments_in_range(kernel_elf.segments@),
            forall|v: u64, p: u64|
                #[trigger] is_first_vaddr(kernel_elf.segments@, v) && #[trigger] is_first_paddr(
                    kernel_elf.segments@,
                    p,
                ) ==> lvl2_no_overflow(v, p),
        ensures
            r == Err::<CoreManager, CoreError>(CoreError::NoLoadableSegments) <==> !has_loadable(
                kernel_elf.segments@,
            ),
            r == Err::<CoreManager, CoreError>(CoreError::InconsistentOffset) <==> has_loadable(
                kernel_elf.segments@,
            ) && !uniform_offset(kernel_elf.segments@),
            r == Err::<CoreManager, CoreError>(CoreError::MissingSymbol) <==> has_loadable(
                kernel_elf.segments@,
            ) && uniform_offset(kernel_elf.segments@) && !build_symbols_present(*target_elf),
            r is Ok <==> has_loadable(kernel_elf.segments@) && uniform_offset(
                kernel_elf.segments@,
            ) && build_symbols_present(*target_elf),
            r matches Ok(m) ==> {
                &&& m.wf()
                &&& is_first_vaddr(kernel_elf.segments@, m.layout.first_vaddr)
                &&& is_first_paddr(kernel_elf.segments@, m.layout.first_paddr)
                &&& is_last_vaddr(kernel_elf.segments@, m.layout.last_vaddr)
                &&& is_offset(kernel_elf.segments@, m.layout.p_v_offset)
                &&& m.kernel_entry == kernel_elf.entry
                &&& images_built(
                    m.pagetable_vars@,
                    *target_elf,
                    m.layout.first_vaddr,
                    m.layout.first_paddr,
                )
            },
    {
        let ghost segs = kernel_elf.segments@;
        let mut kernel_first_vaddr: Option<u64> = None;
        let mut kernel_last_vaddr: Option<u64> = None;
        let mut kernel_first_paddr: Option<u64> = None;
        let mut kernel_p_v_offset: Option<u64> = None;

        let n = kernel_elf.segments.len();
        for idx in 0..n
            invariant
                n == segs.len(),
                segs == kernel_elf.segments@,
                segments_in_range(segs),
                kernel_first_vaddr is Some <==> exists|j: int|
                    0 <= j < idx && (#[trigger] segs[j]).loadable,
                kernel_first_paddr is Some <==> kernel_first_vaddr is Some,
                kernel_last_vaddr is Some <==> kernel_first_vaddr is Some,
                kernel_p_v_offset is Some <==> kernel_first_vaddr is Some,
                kernel_first_vaddr matches Some(v) ==> (exists|j: int|
                    0 <= j < idx && (#[trigger] segs[j]).loadable && segs[j].virt_addr == v)
                    && (forall|j: int|
                    0 <= j < idx && (#[trigger] segs[j]).loadable ==> v <= segs[j].virt_addr),
                kernel_first_paddr matches Some(p) ==> (exists|j: int|
                    0 <= j < idx && (#[trigger] segs[j]).loadable && segs[j].phys_addr == p)
                    && (forall|j: int|
                    0 <= j < idx && (#[trigger] segs[j]).loadable ==> p <= segs[j].phys_addr),
                kernel_last_vaddr matches Some(l) ==> (exists|j: int|
                    0 <= j < idx && (#[trigger] segs[j]).loadable && l == round_up_2mb(
                        segs[j].virt_addr + segs[j].mem_size,
                    )) && (forall|j: int|
                    0 <= j < idx && (#[trigger] segs[j]).loadable ==> round_up_2mb(
                        segs[j].virt_addr + segs[j].mem_size,
                    ) <= l),
                kernel_p_v_offset matches Some(d) ==> forall|j: int|
                    0 <= j < idx && (#[trigger] segs[j]).loadable ==> segs[j].virt_addr
                        - segs[j].phys_addr == d,
        {
            let segment = kernel_elf.segments[idx];
            proof {
                assert(segment == segs[idx as int]);
            }
            if segment.loadable {
                kernel_first_vaddr = Some(
                    match kernel_first_vaddr {
                        Some(v) => if segment.virt_addr < v {
                            segment.virt_addr
                        } else {
                            v
                        },
                        None => segment.virt_addr,
                    },
                );
                kernel_first_paddr = Some(
                    match kernel_first_paddr {
                        Some(p) => if segment.phys_addr < p {
                            segment.phys_addr
                        } else {
                            p
                        },
                        None => segment.phys_addr,
                    },
                );
                let end = segment.virt_addr + segment.mem_size;
                let rounded = round_up_2mb_exec(end);
                kernel_last_vaddr = Some(
                    match kernel_last_vaddr {
                        Some(l) => if rounded > l {
                            rounded
                        } else {
                            l
                        },
                        None => rounded,
                    },
                );
                let d = segment.virt_addr - segment.phys_addr;
                match kernel_p_v_offset {
                    Some(d0) => {
                        if d0 != d {
                            return Err(CoreError::InconsistentOffset);
                        }
                    },
                    None => {
                        kernel_p_v_offset = Some(d);
                    },
                }
            }
        }
        let (first_vaddr, first_paddr, last_vaddr, p_v_offset) = match (
            kernel_first_vaddr,
            kernel_first_paddr,
            kernel_last_vaddr,
            kernel_p_v_offset,
        ) {
            (Some(v), Some(p), Some(l), Some(d)) => (v, p, l, d),
            _ => {
                return Err(CoreError::NoLoadableSegments);
            },
        };
        proof {
            assert(is_first_vaddr(segs, first_vaddr));
            assert(is_first_paddr(segs, first_paddr));
            assert(lvl2_no_overflow(first_vaddr, first_paddr));
        }
        let pagetable_vars = match Self::aarch64_setup_pagetables(
            target_elf,
            first_vaddr,
            first_paddr,
        ) {
            Ok(v) => v,
            Err(e) => {
                return Err(e);
            },
        };
        let layout = KernelLayout { first_vaddr, first_paddr, last_vaddr, p_v_offset };
        Ok(CoreManager { layout, kernel_entry: kernel_elf.entry, pagetable_vars })
    }

    /// Patches the five table images and the kernel's entry address into the
    /// loader image's symbol slots. Validates every destination before
    /// writing any byte: on failure the image is unchanged.
    pub fn patch_elf(&self, target_elf: &mut ElfFile) -> (r: Result<(), CoreError>)
        requires
            self.wf(),
            old(target_elf).wf(),
        ensures
            final(target_elf).wf(),
            r is Ok <==> patch_error(*old(target_elf)) is None,
            r matches Err(e) ==> Some(e) == patch_error(*old(target_elf)) && *final(target_elf)
                == *old(target_elf),
            final(target_elf).entry == old(target_elf).entry,
            final(target_elf).segments@ == old(target_elf).segments@,
            final(target_elf).symbols@.len() == old(target_elf).symbols@.len(),
            forall|j: int|
                0 <= j < old(target_elf).symbols@.len() ==> (#[trigger] final(
                target_elf).symbols@[j]).id == old(target_elf).symbols@[j].id,
            r is Ok ==> patched(*self, *old(target_elf), *final(target_elf)),
    {
        let ghost e0 = *target_elf;
        // Check all six destinations before the first write, so a failed run
        // leaves the loader image untouched.
        match target_elf.find_symbol(SymbolId::BootLvl0Lower) {
            Err(e) => {
                return Err(e);
            },
            Ok((_, size)) => {
                if size < PAGE_TABLE_SIZE as u64 {
                    return Err(CoreError::SymbolTooSmall);
                }
            },
        }
        match target_elf.find_symbol(SymbolId::BootLvl1Lower) {
            Err(e) => {
                return Err(e);
            },
            Ok((_, size)) => {
                if size < PAGE_TABLE_SIZE as u64 {
                    return Err(CoreError::SymbolTooSmall);
                }
            },
        }
        match target_elf.find_symbol(SymbolId::BootLvl0Upper) {
            Err(e) => {
                return Err(e);
            },
            Ok((_, size)) => {
                if size < PAGE_TABLE_SIZE as u64 {
                    return Err(CoreError::SymbolTooSmall);
                }
            },
        }
        match target_elf.find_symbol(SymbolId::BootLvl1Upper) {
            Err(e) => {
                return Err(e);
            },
            Ok((_, size)) => {
                if size < PAGE_TABLE_SIZE as u64 {
                    return Err(CoreError::SymbolTooSmall);
                }
            },
        }
        match target_elf.find_symbol(SymbolId::BootLvl2Upper) {
            Err(e) => {
                return Err(e);
            },
            Ok((_, size)) => {
                if size < PAGE_TABLE_SIZE as u64 {
                    return Err(CoreError::SymbolTooSmall);
                }
            },
        }
        match target_elf.find_symbol(SymbolId::KernelEntry) {
            Err(e) => {
                return Err(e);
            },
            Ok((_, size)) => {
                if size < 8 {
                    return Err(CoreError::SymbolTooSmall);
                }
            },
        }
        let img0 = &self.pagetable_vars[0];
        write_slot(target_elf, img0.slot, img0.bytes.as_slice(), Ghost(e0));
        let ghost s1 = *target_elf;
        let img1 = &self.pagetable_vars[1];
        write_slot(target_elf, img1.slot, img1.bytes.as_slice(), Ghost(e0));
        let ghost s2 = *target_elf;
        let img2 = &self.pagetable_vars[2];
        write_slot(target_elf, img2.slot, img2.bytes.as_slice(), Ghost(e0));
        let ghost s3 = *target_elf;
        let img3 = &self.pagetable_vars[3];
        write_slot(target_elf, img3.slot, img3.bytes.as_slice(), Ghost(e0));
        let ghost s4 = *target_elf;
        let img4 = &self.pagetable_vars[4];
        write_slot(target_elf, img4.slot, img4.bytes.as_slice(), Ghost(e0));
        let ghost s5 = *target_elf;
        let entry_bytes = u64_to_le_bytes(self.kernel_entry);
        write_slot(target_elf, SymbolId::KernelEntry, entry_bytes.as_slice(), Ghost(e0));
        proof {
            assert forall|j: int|
                0 <= j < e0.symbols@.len() && !is_patch_target((#[trigger] e0.symbols@[j]).id)
                    implies (*target_elf).symbols@[j] == e0.symbols@[j] by {
                let i0 = e0.symbol_index(SymbolId::BootLvl0Lower);
                let i1 = e0.symbol_index(SymbolId::BootLvl1Lower);
                let i2 = e0.symbol_index(SymbolId::BootLvl0Upper);
                let i3 = e0.symbol_index(SymbolId::BootLvl1Upper);
                let i4 = e0.symbol_index(SymbolId::BootLvl2Upper);
                let i5 = e0.symbol_index(SymbolId::KernelEntry);
                assert(e0.symbols@[i0].id == SymbolId::BootLvl0Lower);
                assert(e0.symbols@[i1].id == SymbolId::BootLvl1Lower);
                assert(e0.symbols@[i2].id == SymbolId::BootLvl0Upper);
                assert(e0.symbols@[i3].id == SymbolId::BootLvl1Upper);
                assert(e0.symbols@[i4].id == SymbolId::BootLvl2Upper);
                assert(e0.symbols@[i5].id == SymbolId::KernelEntry);
                assert(s1.symbols@[j] == e0.symbols@[j]);
                assert(s2.symbols@[j] == s1.symbols@[j]);
                assert(s3.symbols@[j] == s2.symbols@[j]);
                assert(s4.symbols@[j] == s3.symbols@[j]);
                assert(s5.symbols@[j] == s4.symbols@[j]);
                assert((*target_elf).symbols@[j] == s5.symbols@[j]);
            }
        }
        Ok(())
    }
}

} // verus!

use boot_tables::addr::Aarch64;
use boot_tables::image::{CoreError, ElfFile, Segment, Symbol, SymbolId};
use boot_tables::manager::CoreManager;

fn seg(virt_addr: u64, phys_addr: u64, mem_size: u64, loadable: bool) -> Segment {
    Segment { virt_addr, phys_addr, mem_size, loadable }
}

fn sym(id: SymbolId, vaddr: u64, size: u64) -> Symbol {
    Symbol { id, vaddr, size, data: vec![0u8; size as usize] }
}

/// A loader image with all six required symbols: bootstrap anchor at
/// 0x200000, the five tables at 0x1000 intervals above it, and an 8-byte
/// kernel-entry slot.
fn loader() -> ElfFile {
    ElfFile {
        entry: 0,
        segments: vec![],
        symbols: vec![
            sym(SymbolId::BootstrapStart, 0x20_0000, 0),
            sym(SymbolId::BootLvl1Lower, 0x20_1000, 4096),
            sym(SymbolId::BootLvl1Upper, 0x20_2000, 4096),
            sym(SymbolId::BootLvl2Upper, 0x20_3000, 4096),
            sym(SymbolId::BootLvl0Lower, 0x20_4000, 4096),
            sym(SymbolId::BootLvl0Upper, 0x20_5000, 4096),
            sym(SymbolId::KernelEntry, 0x20_6000, 8),
        ],
    }
}

fn kernel() -> ElfFile {
    ElfFile {
        entry: 0xffff_0000_4000_1234,
        segments: vec![seg(0xffff_0000_4000_0000, 0x4000_0000, 0x20_0000, true)],
        symbols: vec![],
    }
}

fn word(bytes: &[u8], i: usize) -> u64 {
    let mut w = [0u8; 8];
    w.copy_from_slice(&bytes[8 * i..8 * i + 8]);
    u64::from_le_bytes(w)
}

// Rebased table addresses for `loader()`: (linked - 0x200000) | 0x8000_0000.
const R_LVL1_LOWER: u64 = 0x8000_1000;
const R_LVL1_UPPER: u64 = 0x8000_2000;
const R_LVL2_UPPER: u64 = 0x8000_3000;
const R_LVL0_LOWER: u64 = 0x8000_4000;
const R_LVL0_UPPER: u64 = 0x8000_5000;

// A first virtual address with distinct indices at every level.
const VADDR_5_3_7: u64 = (5 << 39) | (3 << 30) | (7 << 21);

#[test]
fn index_zero_address() {
    assert_eq!(Aarch64::lvl0_index(0), 0);
    assert_eq!(Aarch64::lvl1_index(0), 0);
    assert_eq!(Aarch64::lvl2_index(0), 0);
}

#[test]
fn index_field_isolation() {
    assert_eq!(Aarch64::lvl0_index(VADDR_5_3_7), 5);
    assert_eq!(Aarch64::lvl1_index(VADDR_5_3_7), 3);
    assert_eq!(Aarch64::lvl2_index(VADDR_5_3_7), 7);
}

#[test]
fn index_ignores_low_bits() {
    assert_eq!(Aarch64::lvl0_index(VADDR_5_3_7 | 0x1f_ffff), 5);
    assert_eq!(Aarch64::lvl1_index(VADDR_5_3_7 | 0x1f_ffff), 3);
    assert_eq!(Aarch64::lvl2_index(VADDR_5_3_7 | 0x1f_ffff), 7);
}

#[test]
fn offset_mismatch_fails() {
    let k = ElfFile {
        entry: 0,
        segments: vec![
            seg(0xffff_0000_4000_0000, 0x4000_0000, 0x1000, true),
            seg(0xffff_0000_4100_0000, 0x4200_0000, 0x1000, true),
        ],
        symbols: vec![],
    };
    let l = loader();
    match CoreManager::new(&k, &l) {
        Err(CoreError::InconsistentOffset) => (),
        _ => panic!("expected an inconsistent-offset error"),
    }
}

#[test]
fn offset_uniform_succeeds() {
    let k = ElfFile {
        entry: 7,
        segments: vec![
            seg(0xffff_0000_4010_0000, 0x4010_0000 - 0x4000_0000 + 0x10_0000, 0x1000, true),
            seg(0xffff_0000_4000_0000, 0x10_0000, 0x20_0000, true),
            seg(0x1234, 0x5678, 0x9999, false),
        ],
        symbols: vec![],
    };
    let l = loader();
    let m = CoreManager::new(&k, &l).expect("uniform offsets must succeed");
    assert_eq!(m.layout.p_v_offset, 0xffff_0000_4000_0000 - 0x10_0000);
    assert_eq!(m.layout.first_vaddr, 0xffff_0000_4000_0000);
    assert_eq!(m.layout.first_paddr, 0x10_0000);
    assert_eq!(m.layout.last_vaddr, 0xffff_0000_4020_0000);
    assert_eq!(m.kernel_entry, 7);
}

#[test]
fn no_loadable_segments_fails() {
    let k = ElfFile {
        entry: 0,
        segments: vec![seg(0x1000, 0x1000, 0x100, false)],
        symbols: vec![],
    };
    let l = loader();
    match CoreManager::new(&k, &l) {
        Err(CoreError::NoLoadableSegments) => (),
        _ => panic!("expected a no-loadable-segments error"),
    }
}

#[test]
fn missing_table_symbol_fails() {
    let mut l = loader();
    l.symbols.retain(|s| s.id != SymbolId::BootLvl1Upper);
    match CoreManager::new(&kernel(), &l) {
        Err(CoreError::MissingSymbol) => (),
        _ => panic!("expected a missing-symbol error"),
    }
}

#[test]
fn table_images_are_one_page() {
    let l = loader();
    let images = CoreManager::aarch64_setup_pagetables(&l, VADDR_5_3_7, 0x4000_0000)
        .expect("all symbols are present");
    assert_eq!(images.len(), 5);
    for img in &images {
        assert_eq!(img.bytes.len(), 4096);
    }
}

#[test]
fn image_destinations_are_rebased() {
    let l = loader();
    let images = CoreManager::aarch64_setup_pagetables(&l, VADDR_5_3_7, 0x4000_0000)
        .expect("all symbols are present");
    let expected = [
        (SymbolId::BootLvl0Lower, R_LVL0_LOWER),
        (SymbolId::BootLvl1Lower, R_LVL1_LOWER),
        (SymbolId::BootLvl0Upper, R_LVL0_UPPER),
        (SymbolId::BootLvl1Upper, R_LVL1_UPPER),
        (SymbolId::BootLvl2Upper, R_LVL2_UPPER),
    ];
    for (img, (id, dest)) in images.iter().zip(expected.iter()) {
        assert_eq!(img.slot, *id);
        assert_eq!(img.dest_addr, *dest);
        assert_eq!(img.dest_size, 4096);
        // The rebased destination keeps the anchor offset in its low 31 bits
        // and has the window bit set.
        assert_eq!(img.dest_addr & 0x8000_0000, 0x8000_0000);
        let linked = l
            .symbols
            .iter()
            .find(|s| s.id == *id)
            .map(|s| s.vaddr)
            .unwrap();
        assert_eq!(img.dest_addr & 0x7fff_ffff, (linked - 0x20_0000) & 0x7fff_ffff);
    }
}

#[test]
fn lvl0_lower_routes_identity_and_kernel() {
    let l = loader();
    let images = CoreManager::aarch64_setup_pagetables(&l, VADDR_5_3_7, 0x4000_0000)
        .expect("all symbols are present");
    let lvl0_lower = &images[0].bytes;
    assert_eq!(word(lvl0_lower, 0), R_LVL1_LOWER | 3);
    assert_eq!(word(lvl0_lower, 5), R_LVL1_UPPER | 3);
    for i in 1..512 {
        if i != 5 {
            assert_eq!(word(lvl0_lower, i), 0);
        }
    }
}

#[test]
fn lvl0_lower_kernel_slot_overwrites_slot_zero() {
    // When the kernel's level-0 slot is 0, its table descriptor takes slot 0
    // over from the identity window.
    let l = loader();
    let images = CoreManager::aarch64_setup_pagetables(&l, 0xffff_0000_4000_0000, 0x4000_0000)
        .expect("all symbols are present");
    let lvl0_lower = &images[0].bytes;
    assert_eq!(word(lvl0_lower, 0), R_LVL1_UPPER | 3);
    for i in 1..512 {
        assert_eq!(word(lvl0_lower, i), 0);
    }
}

#[test]
fn lvl1_lower_is_identity_mapping() {
    let l = loader();
    let images = CoreManager::aarch64_setup_pagetables(&l, VADDR_5_3_7, 0x4000_0000)
        .expect("all symbols are present");
    let lvl1_lower = &images[1].bytes;
    assert_eq!(word(lvl1_lower, 0), 0x401);
    assert_eq!(word(lvl1_lower, 1), 0x4000_0401);
    assert_eq!(word(lvl1_lower, 511), 0x7f_c000_0401);
    for i in 0..512 {
        let w = word(lvl1_lower, i);
        assert_eq!(w & 0x3, 0x1);
        assert_eq!(w & 0xffff_c000_0000, (i as u64) << 30);
    }
}

#[test]
fn upper_tables_route_kernel_region() {
    let l = loader();
    let images = CoreManager::aarch64_setup_pagetables(&l, VADDR_5_3_7, 0x4000_0000)
        .expect("all symbols are present");
    let lvl0_upper = &images[2].bytes;
    let lvl1_upper = &images[3].bytes;
    for i in 0..512 {
        assert_eq!(word(lvl0_upper, i), if i == 5 { R_LVL1_UPPER | 3 } else { 0 });
        assert_eq!(word(lvl1_upper, i), if i == 3 { R_LVL2_UPPER | 3 } else { 0 });
    }
}

#[test]
fn lvl2_upper_covers_kernel_upward() {
    let l = loader();
    let images = CoreManager::aarch64_setup_pagetables(&l, VADDR_5_3_7, 0x4000_0000)
        .expect("all symbols are present");
    let lvl2_upper = &images[4].bytes;
    for i in 0..7 {
        assert_eq!(word(lvl2_upper, i), 0);
    }
    assert_eq!(word(lvl2_upper, 7), 0x4000_0711);
    assert_eq!(word(lvl2_upper, 8), 0x4020_0711);
    for i in 7..512 {
        let w = word(lvl2_upper, i);
        assert_eq!(w & 0x3, 0x1);
        assert_eq!(w & 0xffff_ffe0_0000, 0x4000_0000 + ((i as u64 - 7) << 21));
    }
}

#[test]
fn end_to_end_patch() {
    let k = kernel();
    let mut l = loader();
    let m = CoreManager::new(&k, &l).expect("the scenario must succeed");
    m.patch_elf(&mut l).expect("all destinations exist");
    for img in m.pagetable_vars.iter() {
        let written = l.symbols.iter().find(|s| s.id == img.slot).unwrap();
        assert_eq!(written.data.len(), 4096);
        assert_eq!(written.data, img.bytes);
    }
    let entry = l
        .symbols
        .iter()
        .find(|s| s.id == SymbolId::KernelEntry)
        .unwrap();
    assert_eq!(entry.data, 0xffff_0000_4000_1234u64.to_le_bytes().to_vec());
}

#[test]
fn patch_missing_kernel_entry_is_atomic() {
    let k = kernel();
    let mut l = loader();
    l.symbols.retain(|s| s.id != SymbolId::KernelEntry);
    let m = CoreManager::new(&k, &l).expect("building needs no kernel-entry slot");
    match m.patch_elf(&mut l) {
        Err(CoreError::MissingSymbol) => (),
        _ => panic!("expected a missing-symbol error"),
    }
    // No table was written: every slot still holds its original zeroes.
    for s in &l.symbols {
        assert!(s.data.iter().all(|b| *b == 0));
    }
}

#[test]
fn patch_too_small_destination_is_atomic() {
    let k = kernel();
    let mut l = loader();
    for s in l.symbols.iter_mut() {
        if s.id == SymbolId::KernelEntry {
            s.size = 4;
            s.data = vec![0u8; 4];
        }
    }
    let m = CoreManager::new(&k, &l).expect("building ignores the kernel-entry slot");
    match m.patch_elf(&mut l) {
        Err(CoreError::SymbolTooSmall) => (),
        _ => panic!("expected a too-small error"),
    }
    for s in &l.symbols {
        assert!(s.data.iter().all(|b| *b == 0));
    }
}

#[test]
fn find_symbol_resolves() {
    let l = loader();
    assert_eq!(l.find_symbol(SymbolId::BootLvl2Upper), Ok((0x20_3000, 4096)));
    let mut missing = loader();
    missing.symbols.retain(|s| s.id != SymbolId::BootstrapStart);
    assert_eq!(missing.find_symbol(SymbolId::BootstrapStart), Err(CoreError::MissingSymbol));
}

#[test]
fn write_symbol_keeps_tail() {
    let mut l = ElfFile {
        entry: 0,
        segments: vec![],
        symbols: vec![Symbol {
            id: SymbolId::KernelEntry,
            vaddr: 0x100,
            size: 4,
            data: vec![9, 9, 9, 9],
        }],
    };
    l.write_symbol(SymbolId::KernelEntry, &[1, 2]).expect("it fits");
    assert_eq!(l.symbols[0].data, vec![1, 2, 9, 9]);
    assert_eq!(
        l.write_symbol(SymbolId::KernelEntry, &[1, 2, 3, 4, 5]),
        Err(CoreError::SymbolTooSmall)
    );
    assert_eq!(l.symbols[0].data, vec![1, 2, 9, 9]);
}

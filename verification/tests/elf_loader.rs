use std::collections::HashMap;

use aetherion_kernel::elf::image::{load_elf_binary, load_image, ElfImage, STACK_PAGE_FLAGS};
use aetherion_kernel::elf::tables::MemOp;
use aetherion_kernel::elf::{init_frame_pool, pool_stats, ElfError, ElfLoader, Elf64Phdr, PF_X, USER_STACK_TOP};

fn elf_file(entry: u64, vaddr: u64, data: &[u8], flags: u32, p_type: u32) -> Vec<u8> {
    let mut f = vec![0u8; 64 + 56];
    f[0..4].copy_from_slice(&[0x7F, b'E', b'L', b'F']);
    f[4] = 2;
    f[5] = 1;
    f[6] = 1;
    f[16..18].copy_from_slice(&2u16.to_le_bytes());
    f[18..20].copy_from_slice(&62u16.to_le_bytes());
    f[24..32].copy_from_slice(&entry.to_le_bytes());
    f[32..40].copy_from_slice(&64u64.to_le_bytes());
    f[54..56].copy_from_slice(&56u16.to_le_bytes());
    f[56..58].copy_from_slice(&1u16.to_le_bytes());
    let p = 64;
    f[p..p + 4].copy_from_slice(&p_type.to_le_bytes());
    f[p + 4..p + 8].copy_from_slice(&flags.to_le_bytes());
    f[p + 8..p + 16].copy_from_slice(&120u64.to_le_bytes());
    f[p + 16..p + 24].copy_from_slice(&vaddr.to_le_bytes());
    f[p + 32..p + 40].copy_from_slice(&(data.len() as u64).to_le_bytes());
    f[p + 40..p + 48].copy_from_slice(&(data.len() as u64 + 0x1000).to_le_bytes());
    f.extend_from_slice(data);
    f
}

fn loader_with(frames: usize) -> ElfLoader {
    let mut l = ElfLoader::new();
    init_frame_pool(&mut l, 0x100000, frames);
    l
}

/// Follows the four levels of tables that the writes of `img` set up.
fn translate(img: &ElfImage, va: u64) -> Option<u64> {
    let mut entries: HashMap<(u64, u64), u64> = HashMap::new();
    for op in &img.ops {
        if let MemOp::Entry { table, index, value } = *op {
            entries.insert((table, index), value);
        }
    }
    let mut table = img.load.pml4_phys;
    for level in 0..4u64 {
        let index = (va >> (39 - 9 * level)) & 0x1FF;
        let e = *entries.get(&(table, index)).unwrap_or(&0);
        if level == 3 {
            return Some(e);
        }
        if e & 1 == 0 {
            return None;
        }
        table = e & !0xFFF;
    }
    None
}

#[test]
fn elf_load_binary_maps_segment_and_stack() {
    let file = elf_file(0x401000, 0x400000, b"\x90\x90\xC3", PF_X | 4, 1);
    let mut l = loader_with(64);
    let img = load_elf_binary(&mut l, &file).unwrap();
    assert_eq!(img.load.entry_point, 0x401000);
    assert_eq!(img.load.stack_pointer, USER_STACK_TOP);
    assert_eq!(img.load.pml4_phys, 0x100000);
    assert_eq!(img.load.segments_loaded, 1);
    // two segment pages and sixteen stack pages, seven tables
    assert_eq!(img.frames.len(), 18);
    assert_eq!(img.load.frames_used, 25);
    assert_eq!(pool_stats(&l), (25, 64));
    assert_eq!(img.ops[0], MemOp::NewTopLevel(0x100000));
    assert_eq!(img.ops[1], MemOp::Zero(0x101000));
    assert_eq!(img.ops[2], MemOp::Copy { frame: 0x101000, start: 0, file_offset: 120, len: 3 });
    assert_eq!(img.frames[0], 0x101000);
    assert_eq!(img.frames[1], 0x105000);
    assert_eq!(translate(&img, 0x400123), Some(0x101000 | 0x05));
    assert_eq!(translate(&img, 0x401fff), Some(0x105000 | 0x05));
    assert_eq!(translate(&img, USER_STACK_TOP - 8), Some(img.frames[17] | STACK_PAGE_FLAGS));
    assert_eq!(translate(&img, 0x600000), None);
    let mut seen = img.frames.clone();
    seen.sort();
    seen.dedup();
    assert_eq!(seen.len(), 18);
}

#[test]
fn elf_load_binary_errors() {
    let file = elf_file(0x401000, 0x400000, b"\xC3", PF_X | 4, 1);
    let mut l = ElfLoader::new();
    assert_eq!(load_elf_binary(&mut l, &file).unwrap_err(), ElfError::OutOfMemory);

    let mut l = loader_with(5);
    assert_eq!(load_elf_binary(&mut l, &file).unwrap_err(), ElfError::OutOfMemory);
    assert_eq!(pool_stats(&l), (5, 5));

    let mut l = loader_with(10);
    assert_eq!(load_elf_binary(&mut l, &file).unwrap_err(), ElfError::OutOfMemory);
    assert_eq!(pool_stats(&l), (10, 10));

    let none = elf_file(0x401000, 0x400000, b"\xC3", PF_X | 4, 0);
    let mut l = loader_with(64);
    assert_eq!(load_elf_binary(&mut l, &none).unwrap_err(), ElfError::NoLoadSegments);
    assert_eq!(pool_stats(&l), (1, 64));

    let mut bad = file.clone();
    bad[0] = 0;
    let mut l = loader_with(64);
    assert_eq!(load_elf_binary(&mut l, &bad).unwrap_err(), ElfError::BadMagic);
    assert_eq!(pool_stats(&l), (0, 64));

    let mut short = file.clone();
    short[56] = 9;
    assert_eq!(load_elf_binary(&mut l, &short).unwrap_err(), ElfError::InvalidPhdr);
    assert_eq!(pool_stats(&l), (0, 64));

    let high = elf_file(0x401000, 0x0000_8000_0000_0000, b"\xC3", PF_X | 4, 1);
    assert_eq!(load_elf_binary(&mut l, &high).unwrap_err(), ElfError::AddressOutOfRange);
    assert_eq!(pool_stats(&l), (1, 64));
}

#[test]
fn elf_load_image_checks_segments_in_order() {
    let good = Elf64Phdr { p_type: 1, p_flags: 4, p_offset: 0, p_vaddr: 0x1000, p_paddr: 0, p_filesz: 16, p_memsz: 16, p_align: 0x1000 };
    let past_end = Elf64Phdr { p_offset: 100, ..good };
    let mut l = loader_with(64);
    let r = load_image(&mut l.pool, 0x1000, &vec![good, past_end], 64);
    assert_eq!(r.err(), Some(ElfError::InvalidSegment));
    // the top-level table, three tables and the first segment's page
    assert_eq!(pool_stats(&l), (5, 64));
    let mut l = loader_with(64);
    let img = load_image(&mut l.pool, 0x1000, &vec![good, good], 64).unwrap();
    assert_eq!(img.load.segments_loaded, 2);
    assert_eq!(img.frames.len(), 18);
    assert_eq!(translate(&img, 0x1000), Some(img.frames[1] | 0x8000_0000_0000_0005));
}

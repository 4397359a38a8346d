use std::cell::{Cell, RefCell};

use pe_parse::headers::{CoffHeader, DosHeader};
use pe_parse::rich::RichEntry;
use pe_parse::PeFile;

const MAGIC_32: u16 = 0x10B;
const MAGIC_64: u16 = 0x20B;
const RICH: u32 = 0x6863_6952;
const DANS: u32 = 0x536E_6144;

/// A minimal image: 64-byte DOS header, `stub` bytes, then `PE\0\0`, a
/// zeroed COFF header, and the optional-header magic.
fn minimal_pe(magic: u16, stub: &[u8]) -> Vec<u8> {
    let nt = 64 + stub.len();
    let mut image = Vec::new();
    image.extend_from_slice(&0x5A4Du16.to_le_bytes());
    image.extend_from_slice(&[0u8; 58]);
    image.extend_from_slice(&(nt as u32).to_le_bytes());
    image.extend_from_slice(stub);
    image.extend_from_slice(&0x4550u32.to_le_bytes());
    image.extend_from_slice(&[0u8; 20]);
    image.extend_from_slice(&magic.to_le_bytes());
    image
}

/// A Rich block: masked `DanS`, each entry pair masked, `Rich`, then the key.
fn rich_block(mask: u32, entries: &[(u32, u32)]) -> Vec<u8> {
    let mut block = Vec::new();
    block.extend_from_slice(&(DANS ^ mask).to_le_bytes());
    for &(comp_id, count) in entries {
        block.extend_from_slice(&(comp_id ^ mask).to_le_bytes());
        block.extend_from_slice(&(count ^ mask).to_le_bytes());
    }
    block.extend_from_slice(&RICH.to_le_bytes());
    block.extend_from_slice(&mask.to_le_bytes());
    block
}

fn collect_entries(pe: &PeFile) -> Vec<(u32, u32)> {
    let seen = RefCell::new(Vec::new());
    pe.iter_rich_entries(|comp_id, count| {
        seen.borrow_mut().push((comp_id, count));
        true
    });
    seen.into_inner()
}

#[test]
fn all_zero_buffer_is_rejected() {
    assert!(PeFile::parse(&[0u8; 64]).is_none());
}

#[test]
fn short_buffers_are_rejected() {
    assert!(PeFile::parse(&[]).is_none());
    assert!(PeFile::parse(&[0x4D, 0x5A]).is_none());
    assert!(PeFile::parse(&[0u8; 63]).is_none());
    let image = minimal_pe(MAGIC_32, &[]);
    assert!(PeFile::parse(&image[..63]).is_none());
}

#[test]
fn minimal_pe32_parses() {
    let image = minimal_pe(MAGIC_32, &[]);
    let pe = PeFile::parse(&image).expect("a minimal 32-bit image parses");
    assert!(matches!(pe, PeFile::Pe32(_)));
    assert!(!pe.has_rich_header());
}

#[test]
fn minimal_pe64_parses() {
    let image = minimal_pe(MAGIC_64, &[]);
    let pe = PeFile::parse(&image).expect("a minimal 64-bit image parses");
    assert!(matches!(pe, PeFile::Pe64(_)));
    assert!(!pe.has_rich_header());
}

#[test]
fn bad_dos_magic_is_rejected() {
    let mut image = minimal_pe(MAGIC_32, &[]);
    image[0] = b'Z';
    assert!(PeFile::parse(&image).is_none());
}

#[test]
fn bad_nt_signature_is_rejected() {
    let mut image = minimal_pe(MAGIC_32, &[]);
    image[64] = b'Q';
    assert!(PeFile::parse(&image).is_none());
}

#[test]
fn bad_optional_magic_is_rejected() {
    let image = minimal_pe(0x107, &[]);
    assert!(PeFile::parse(&image).is_none());
}

#[test]
fn out_of_bounds_nt_offset_is_rejected() {
    let mut image = minimal_pe(MAGIC_32, &[]);
    let len = image.len() as u32;
    image[60..64].copy_from_slice(&len.to_le_bytes());
    assert!(PeFile::parse(&image).is_none());
}

#[test]
fn dos_header_is_indexed() {
    let image = minimal_pe(MAGIC_32, &[0u8; 8]);
    let pe = PeFile::parse(&image).unwrap();
    let dos: &DosHeader = pe.dos_header();
    assert_eq!(dos.e_magic, 0x5A4D);
    assert_eq!(dos.e_lfanew, 72);
}

#[test]
fn coff_header_is_indexed() {
    let mut image = minimal_pe(MAGIC_64, &[]);
    image[68..70].copy_from_slice(&0x8664u16.to_le_bytes()); // machine
    image[70..72].copy_from_slice(&3u16.to_le_bytes()); // number of sections
    image[72..76].copy_from_slice(&0x1234_5678u32.to_le_bytes()); // timestamp
    image[76..80].copy_from_slice(&0xDEAD_BEEFu32.to_le_bytes()); // symbol table
    image[80..84].copy_from_slice(&7u32.to_le_bytes()); // number of symbols
    image[84..86].copy_from_slice(&240u16.to_le_bytes()); // optional header size
    image[86..88].copy_from_slice(&0x2022u16.to_le_bytes()); // characteristics
    let pe = PeFile::parse(&image).unwrap();
    let coff: &CoffHeader = pe.image_header();
    assert_eq!(coff.machine, 0x8664);
    assert_eq!(coff.number_of_sections, 3);
    assert_eq!(coff.time_date_stamp, 0x1234_5678);
    assert_eq!(coff.pointer_to_symbol_table, 0xDEAD_BEEF);
    assert_eq!(coff.number_of_symbols, 7);
    assert_eq!(coff.size_of_optional_header, 240);
    assert_eq!(coff.characteristics, 0x2022);
}

#[test]
fn stub_without_markers_has_no_rich_header() {
    let image = minimal_pe(MAGIC_32, &[0u8; 32]);
    let pe = PeFile::parse(&image).unwrap();
    assert!(!pe.has_rich_header());
    assert!(pe.rich_header_info().is_none());
    let calls = Cell::new(0u32);
    let n = pe.iter_rich_entries(|_, _| {
        calls.set(calls.get() + 1);
        true
    });
    assert_eq!(n, 0);
    assert_eq!(calls.get(), 0);
}

#[test]
fn one_entry_rich_block_decodes() {
    let mask = 0x8765_4321;
    let block = rich_block(mask, &[(0x0001_005E, 9)]);
    assert_eq!(block.len(), 20);
    let image = minimal_pe(MAGIC_32, &block);
    let pe = PeFile::parse(&image).expect("the image with a Rich block parses");
    assert!(pe.has_rich_header());
    let info = pe.rich_header_info().unwrap();
    assert_eq!(info.xor_key, mask);
    assert_eq!(info.entries, vec![RichEntry { comp_id: 0x0001_005E, count: 9 }]);
    assert_eq!(collect_entries(&pe), vec![(0x0001_005E, 9)]);
}

#[test]
fn rich_round_trip_preserves_order() {
    let mask = 0x1357_9BDF;
    let entries = [(0x00FD_1234, 1), (0x0102_0003, 41), (0x00E0_5555, 2)];
    let image = minimal_pe(MAGIC_64, &rich_block(mask, &entries));
    let pe = PeFile::parse(&image).unwrap();
    let info = pe.rich_header_info().unwrap();
    assert_eq!(info.xor_key, mask);
    assert_eq!(collect_entries(&pe), entries.to_vec());
}

#[test]
fn zero_entry_rich_block_is_present_but_empty() {
    let image = minimal_pe(MAGIC_32, &rich_block(0xAAAA_AAAA, &[]));
    let pe = PeFile::parse(&image).unwrap();
    assert!(pe.has_rich_header());
    assert_eq!(collect_entries(&pe), Vec::<(u32, u32)>::new());
}

#[test]
fn rich_marker_without_dans_is_absent() {
    let mut stub = Vec::new();
    stub.extend_from_slice(&[0u8; 8]);
    stub.extend_from_slice(&RICH.to_le_bytes());
    stub.extend_from_slice(&0x1111_1111u32.to_le_bytes());
    let image = minimal_pe(MAGIC_32, &stub);
    let pe = PeFile::parse(&image).unwrap();
    assert!(!pe.has_rich_header());
}

#[test]
fn misaligned_entry_span_is_absent() {
    // `DanS` and `Rich` markers whose distance is not a whole number of
    // 8-byte pairs: one lone 4-byte word sits between them.
    let mask = 0x0F0F_0F0F;
    let mut stub = Vec::new();
    stub.extend_from_slice(&(DANS ^ mask).to_le_bytes());
    stub.extend_from_slice(&(0x42u32 ^ mask).to_le_bytes());
    stub.extend_from_slice(&RICH.to_le_bytes());
    stub.extend_from_slice(&mask.to_le_bytes());
    let image = minimal_pe(MAGIC_32, &stub);
    let pe = PeFile::parse(&image).unwrap();
    assert!(!pe.has_rich_header());
}

#[test]
fn truncated_key_means_absent() {
    // The `Rich` marker is the last word of the stub, so its key would lie
    // past the NT offset.
    let mut stub = Vec::new();
    stub.extend_from_slice(&[0u8; 8]);
    stub.extend_from_slice(&RICH.to_le_bytes());
    let image = minimal_pe(MAGIC_32, &stub);
    let pe = PeFile::parse(&image).unwrap();
    assert!(!pe.has_rich_header());
}

#[test]
fn early_termination_stops_exactly_at_k() {
    let mask = 0x0000_FFFF;
    let entries = [(10, 1), (20, 2), (30, 3), (40, 4)];
    let image = minimal_pe(MAGIC_32, &rich_block(mask, &entries));
    let pe = PeFile::parse(&image).unwrap();
    let calls = Cell::new(0usize);
    let n = pe.iter_rich_entries(|comp_id, _| {
        calls.set(calls.get() + 1);
        comp_id != 20
    });
    assert_eq!(n, 2);
    assert_eq!(calls.get(), 2);
}

#[test]
fn termination_on_last_entry_makes_all_calls() {
    let mask = 1;
    let entries = [(10, 1), (20, 2)];
    let image = minimal_pe(MAGIC_32, &rich_block(mask, &entries));
    let pe = PeFile::parse(&image).unwrap();
    let calls = Cell::new(0usize);
    let n = pe.iter_rich_entries(|_, _| {
        calls.set(calls.get() + 1);
        false
    });
    assert_eq!(n, 1);
    assert_eq!(calls.get(), 1);
}

#[test]
fn has_rich_header_is_idempotent() {
    let with_rich = minimal_pe(MAGIC_32, &rich_block(3, &[(5, 6)]));
    let pe = PeFile::parse(&with_rich).unwrap();
    for _ in 0..16 {
        assert!(pe.has_rich_header());
    }
    assert_eq!(collect_entries(&pe), vec![(5, 6)]);

    let without = minimal_pe(MAGIC_32, &[]);
    let pe = PeFile::parse(&without).unwrap();
    for _ in 0..16 {
        assert!(!pe.has_rich_header());
    }
}

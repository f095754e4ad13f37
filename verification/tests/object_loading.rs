//! Tests of the object loader: container recognition and the empty view
//! for sections absent from the file.

use vtable_dwarf::error::ExtractError;
use vtable_dwarf::loader::load_object;
use vtable_dwarf::relocation::{RelocDiagnostic, SymbolRef};

/// A minimal little-endian 64-bit relocatable object: a bare file header
/// with no program headers and no sections.
fn minimal_object() -> Vec<u8> {
    let mut bytes = vec![0u8; 64];
    bytes[0] = 0x7f;
    bytes[1] = b'E';
    bytes[2] = b'L';
    bytes[3] = b'F';
    bytes[4] = 2; // 64-bit
    bytes[5] = 1; // little-endian
    bytes[6] = 1; // header version
    bytes[16] = 1; // relocatable
    bytes[18] = 0x3e; // x86-64
    bytes[20] = 1; // file version
    bytes[52] = 64; // header size
    bytes[58] = 64; // section header entry size
    bytes
}

fn push_section_header(
    out: &mut Vec<u8>,
    name: u32,
    kind: u32,
    offset: u64,
    size: u64,
    link: u32,
    info: u32,
    align: u64,
    entsize: u64,
) {
    out.extend_from_slice(&name.to_le_bytes());
    out.extend_from_slice(&kind.to_le_bytes());
    out.extend_from_slice(&0u64.to_le_bytes()); // flags
    out.extend_from_slice(&0u64.to_le_bytes()); // address
    out.extend_from_slice(&offset.to_le_bytes());
    out.extend_from_slice(&size.to_le_bytes());
    out.extend_from_slice(&link.to_le_bytes());
    out.extend_from_slice(&info.to_le_bytes());
    out.extend_from_slice(&align.to_le_bytes());
    out.extend_from_slice(&entsize.to_le_bytes());
}

/// A little-endian 64-bit relocatable object with one 8-byte section, two
/// absolute relocation records over it (one naming a defined symbol at
/// address 0x1000, one naming a symbol index the symbol table does not
/// hold), a two-entry symbol table, and the string tables.
fn object_with_relocations() -> Vec<u8> {
    let mut bytes = minimal_object();
    bytes[40] = 64; // section header table right after the file header
    bytes[60] = 6; // section count
    bytes[62] = 5; // section-name table index

    // Section bodies start after six 64-byte section headers.
    push_section_header(&mut bytes, 0, 0, 0, 0, 0, 0, 0, 0);
    push_section_header(&mut bytes, 1, 1, 448, 8, 0, 0, 1, 0); // .text
    push_section_header(&mut bytes, 7, 4, 456, 48, 3, 1, 8, 24); // .rela.text
    push_section_header(&mut bytes, 18, 2, 504, 48, 4, 1, 8, 24); // .symtab
    push_section_header(&mut bytes, 26, 3, 552, 8, 0, 0, 1, 0); // .strtab
    push_section_header(&mut bytes, 34, 3, 560, 44, 0, 0, 1, 0); // .shstrtab

    bytes.extend_from_slice(&[0u8; 8]); // .text contents

    // Two RELA records: r_offset, r_info = (symbol << 32) | type, r_addend;
    // type 1 is the absolute 64-bit relocation.
    bytes.extend_from_slice(&0u64.to_le_bytes());
    bytes.extend_from_slice(&((1u64 << 32) | 1).to_le_bytes());
    bytes.extend_from_slice(&8i64.to_le_bytes());
    bytes.extend_from_slice(&4u64.to_le_bytes());
    bytes.extend_from_slice(&((99u64 << 32) | 1).to_le_bytes());
    bytes.extend_from_slice(&100i64.to_le_bytes());

    // Symbol table: the null symbol, then one defined symbol at 0x1000.
    bytes.extend_from_slice(&[0u8; 24]);
    bytes.extend_from_slice(&1u32.to_le_bytes()); // name
    bytes.push(0x10); // global, no type
    bytes.push(0);
    bytes.extend_from_slice(&1u16.to_le_bytes()); // defined in .text
    bytes.extend_from_slice(&0x1000u64.to_le_bytes());
    bytes.extend_from_slice(&0u64.to_le_bytes());

    bytes.extend_from_slice(b"\0f\0\0\0\0\0\0"); // .strtab
    bytes.extend_from_slice(b"\0.text\0.rela.text\0.symtab\0.strtab\0.shstrtab\0");
    bytes
}

#[test]
fn invalid_container_fails_with_load_error() {
    let data = vec![1u8, 2, 3, 4, 5, 6, 7, 8];
    assert!(matches!(load_object(&data), Err(ExtractError::Load)));
}

#[test]
fn empty_input_fails_with_load_error() {
    let data: Vec<u8> = Vec::new();
    assert!(matches!(load_object(&data), Err(ExtractError::Load)));
}

#[test]
fn minimal_object_loads_little_endian() {
    let data = minimal_object();
    let object = load_object(&data).unwrap();
    assert!(object.is_little_endian());
}

#[test]
fn relocation_records_come_out_resolved() {
    let data = object_with_relocations();
    let object = load_object(&data).unwrap();
    assert_eq!(object.section_data(".text").unwrap(), vec![0u8; 8]);

    let records = object.relocation_records(".text");
    assert_eq!(records.len(), 2);
    assert_eq!(records[0].offset, 0);
    assert!(records[0].absolute);
    assert!(!records[0].implicit);
    assert_eq!(records[0].addend, 8);
    assert_eq!(records[0].symbol, SymbolRef::Resolved { address: 0x1000 });
    assert_eq!(records[1].offset, 4);
    assert_eq!(records[1].addend, 100);
    assert_eq!(records[1].symbol, SymbolRef::Unresolved);

    let (map, diagnostics) = object.section_relocations(".text");
    assert_eq!(
        diagnostics,
        vec![RelocDiagnostic::UnresolvedSymbol { offset: 4 }]
    );
    assert_eq!(map.relocate(0, 0xdead), 0x1008);
    // The record with the dangling symbol index leaves its slot
    // unrelocated: a read there sees the raw value.
    assert_eq!(map.relocate(4, 0xdead), 0xdead);
}

#[test]
fn absent_section_yields_empty_view() {
    let data = minimal_object();
    let object = load_object(&data).unwrap();
    let section = object.section_data(".debug_info").unwrap();
    assert!(section.is_empty());
    assert!(object.relocation_records(".debug_info").is_empty());
    let (map, diagnostics) = object.section_relocations(".debug_info");
    assert!(diagnostics.is_empty());
    assert_eq!(map.relocate(0, 9), 9);
}

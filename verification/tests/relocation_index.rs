//! Tests of the relocation index: resolution arithmetic, fallback for
//! unresolved symbols, duplicate handling, and the diagnostics.

use vtable_dwarf::relocation::{
    RelocDiagnostic, RelocationMap, RelocationRecord, SymbolRef,
};

fn record(offset: u64, addend: i64, symbol: SymbolRef) -> RelocationRecord {
    RelocationRecord {
        offset,
        absolute: true,
        implicit: false,
        addend,
        symbol,
    }
}

#[test]
fn resolved_symbol_uses_address_plus_addend() {
    let records = vec![record(4, 8, SymbolRef::Resolved { address: 0x1000 })];
    let (map, diagnostics) = RelocationMap::build(&records);
    assert!(diagnostics.is_empty());
    // Explicit addend: the raw value does not join in.
    assert_eq!(map.relocate(4, 0xdead), 0x1008);
    assert!(map.contains(4));
    assert!(!map.contains(5));
}

#[test]
fn negative_addend_wraps() {
    let records = vec![record(4, -8, SymbolRef::Resolved { address: 16 })];
    let (map, _) = RelocationMap::build(&records);
    assert_eq!(map.relocate(4, 0), 8);
}

#[test]
fn implicit_addend_adds_raw_value() {
    let mut r = record(4, 0x20, SymbolRef::Resolved { address: 0x1000 });
    r.implicit = true;
    let (map, diagnostics) = RelocationMap::build(&vec![r]);
    assert!(diagnostics.is_empty());
    assert_eq!(map.relocate(4, 7), 0x1027);
}

#[test]
fn unresolved_symbol_leaves_slot_unrelocated_with_diagnostic() {
    let records = vec![record(16, 100, SymbolRef::Unresolved)];
    let (map, diagnostics) = RelocationMap::build(&records);
    assert_eq!(
        diagnostics,
        vec![RelocDiagnostic::UnresolvedSymbol { offset: 16 }]
    );
    // The slot stays unrelocated: a read there sees the raw value.
    assert!(!map.contains(16));
    assert_eq!(map.relocate(16, 7), 7);
}

#[test]
fn section_target_needs_no_symbol() {
    let records = vec![record(16, 24, SymbolRef::SectionTarget)];
    let (map, diagnostics) = RelocationMap::build(&records);
    assert!(diagnostics.is_empty());
    assert_eq!(map.relocate(16, 7), 24);
}

#[test]
fn duplicate_offset_diagnosed_and_later_wins() {
    let records = vec![
        record(4, 1, SymbolRef::Resolved { address: 10 }),
        record(4, 2, SymbolRef::Resolved { address: 20 }),
    ];
    let (map, diagnostics) = RelocationMap::build(&records);
    assert_eq!(
        diagnostics,
        vec![RelocDiagnostic::DuplicateOffset { offset: 4 }]
    );
    assert_eq!(map.relocate(4, 0), 22);
}

#[test]
fn unsupported_kind_diagnosed_and_left_unresolved() {
    let mut r = record(4, 1, SymbolRef::Resolved { address: 10 });
    r.absolute = false;
    let (map, diagnostics) = RelocationMap::build(&vec![r]);
    assert_eq!(
        diagnostics,
        vec![RelocDiagnostic::UnsupportedKind { offset: 4 }]
    );
    // The read keeps the raw value.
    assert_eq!(map.relocate(4, 7), 7);
}

#[test]
fn offset_without_relocation_reads_raw() {
    let map = RelocationMap::empty();
    assert_eq!(map.relocate(0, 5), 5);
    assert!(!map.contains(0));
}

//! The debug-info entry tree, reduced to the plain attributes the walker
//! reads: an entry's kind, its name and linkage-name texts, its
//! virtual-table-slot location expression, and its children in tree order.

use vstd::prelude::*;

verus! {

/// The kind of one debug-info entry, as far as the walker tells them apart.
#[derive(Debug, Clone, Copy, PartialEq, Eq, Structural)]
pub enum EntryTag {
    /// A class or struct definition.
    StructureType,
    /// A method or function.
    Subprogram,
    /// Every other kind; the walker only recurses through these.
    Other,
}

/// The encoding facts of one compilation unit that a slot-location
/// evaluation is bound to.
#[derive(Debug, Clone, Copy, PartialEq, Eq, Structural)]
pub struct UnitEncoding {
    /// The unit's address width in bytes.
    pub address_size: u8,
    /// The debug-format version of the unit header.
    pub version: u16,
    /// Whether the unit uses the 64-bit form of the format.
    pub is_64: bool,
    /// Whether the file's byte order is little-endian.
    pub little_endian: bool,
}

impl UnitEncoding {
    /// Well-formed: the address width is one to eight bytes, the widths the
    /// format defines and the evaluator's address mask can hold.
    pub open spec fn wf(self) -> bool {
        1 <= self.address_size <= 8
    }
}

/// One entry of the debug-info tree. Attribute texts are already resolved
/// through the relocation-aware reader; the slot expression is kept as its
/// raw bytes for the evaluator.
#[derive(Debug)]
pub struct DebugEntry {
    pub tag: EntryTag,
    pub name: Option<String>,
    pub linkage_name: Option<String>,
    pub slot_expr: Option<Vec<u8>>,
    pub children: Vec<DebugEntry>,
}

/// One compilation unit: its encoding and the root of its entry tree.
#[derive(Debug)]
pub struct UnitTree {
    pub encoding: UnitEncoding,
    pub root: DebugEntry,
}

} // verus!

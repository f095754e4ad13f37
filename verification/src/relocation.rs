//! The relocation index of one section: which byte offsets carry an absolute
//! relocation, what value each resolves to, and the non-fatal anomalies met
//! while building it.

use std::collections::HashMap;
use vstd::prelude::*;

verus! {

broadcast use vstd::std_specs::hash::group_hash_axioms;

/// How one relocation record refers to its target.
#[derive(Debug, Clone, Copy, PartialEq, Eq, Structural)]
pub enum SymbolRef {
    /// The record names a symbol whose address resolved to this value.
    Resolved { address: u64 },
    /// The record names a symbol that the file's symbol table cannot
    /// resolve; the slot is left unrelocated, so reads there see the raw
    /// bytes.
    Unresolved,
    /// The record refers to a section rather than a symbol.
    SectionTarget,
}

/// One relocation record of a section, reduced to the plain facts the
/// resolver reads: its byte offset, whether its kind is an absolute
/// relocation, whether the byte content at the offset joins in (an implicit
/// addend), its explicit addend, and its target.
#[derive(Debug, Clone, Copy, PartialEq, Eq, Structural)]
pub struct RelocationRecord {
    pub offset: u64,
    pub absolute: bool,
    pub implicit: bool,
    pub addend: i64,
    pub symbol: SymbolRef,
}

/// A resolved relocation at one offset: whether the raw bytes join in, and
/// the value to add or substitute.
#[derive(Debug, Clone, Copy, PartialEq, Eq, Structural)]
pub struct ResolvedReloc {
    pub implicit: bool,
    pub addend: u64,
}

/// A non-fatal anomaly met while indexing a section's relocations.
#[derive(Debug, Clone, Copy, PartialEq, Eq, Structural)]
pub enum RelocDiagnostic {
    /// The record's kind is not an absolute relocation; it stays unresolved.
    UnsupportedKind { offset: u64 },
    /// The record's symbol cannot be resolved; the slot stays unrelocated.
    UnresolvedSymbol { offset: u64 },
    /// A second record targets the same offset; the later one wins.
    DuplicateOffset { offset: u64 },
}

/// Whether a record claims its offset in the index: only an absolute record
/// whose target needs no failed symbol lookup does. One whose symbol cannot
/// be resolved leaves its slot unrelocated, so reads there see the raw
/// bytes.
pub open spec fn record_resolves(r: RelocationRecord) -> bool {
    r.absolute && !(r.symbol is Unresolved)
}

/// The value a resolving record carries: the symbol address plus the
/// explicit addend where the record names a symbol, the bare addend bits
/// for a section target.
pub open spec fn resolved_addend(r: RelocationRecord) -> u64 {
    match r.symbol {
        SymbolRef::Resolved { address } => vstd::wrapping::u64_specs::wrapping_add(
            address,
            r.addend as u64,
        ),
        SymbolRef::Unresolved => r.addend as u64,
        SymbolRef::SectionTarget => r.addend as u64,
    }
}

/// The offset-to-resolution map described by a record sequence: resolving
/// records in order, so at a duplicated offset the later record wins;
/// non-absolute and unresolved-symbol records contribute nothing.
pub open spec fn reloc_map_of(s: Seq<RelocationRecord>) -> Map<u64, ResolvedReloc>
    decreases s.len(),
{
    if s.len() == 0 {
        Map::empty()
    } else {
        let m = reloc_map_of(s.drop_last());
        let r = s.last();
        if record_resolves(r) {
            m.insert(r.offset, ResolvedReloc { implicit: r.implicit, addend: resolved_addend(r) })
        } else {
            m
        }
    }
}

/// The diagnostics emitted for a record sequence, in emission order: an
/// unsupported kind per non-absolute record; an unresolved symbol per
/// absolute record whose lookup failed; a duplicate note per resolving
/// record whose offset an earlier record already took.
pub open spec fn reloc_diags_of(s: Seq<RelocationRecord>) -> Seq<RelocDiagnostic>
    decreases s.len(),
{
    if s.len() == 0 {
        Seq::empty()
    } else {
        let pre = reloc_diags_of(s.drop_last());
        let r = s.last();
        if !r.absolute {
            pre.push(RelocDiagnostic::UnsupportedKind { offset: r.offset })
        } else if r.symbol is Unresolved {
            pre.push(RelocDiagnostic::UnresolvedSymbol { offset: r.offset })
        } else {
            if reloc_map_of(s.drop_last()).contains_key(r.offset) {
                pre.push(RelocDiagnostic::DuplicateOffset { offset: r.offset })
            } else {
                pre
            }
        }
    }
}

/// What a relocation-aware read yields at `offset` when the raw bytes there
/// decode to `value`: with no resolution the raw value; with an
/// implicit-addend resolution the raw value plus the resolved value; with an
/// explicit-addend resolution the resolved value alone.
pub open spec fn relocate_value(m: Map<u64, ResolvedReloc>, offset: u64, value: u64) -> u64 {
    if m.contains_key(offset) {
        let e = m[offset];
        if e.implicit {
            vstd::wrapping::u64_specs::wrapping_add(value, e.addend)
        } else {
            e.addend
        }
    } else {
        value
    }
}

/// Mapping from byte offset within one section to its resolved relocation.
/// Built once per section before any debug-info read; read-only thereafter.
#[derive(Debug)]
pub struct RelocationMap {
    map: HashMap<u64, ResolvedReloc>,
}

impl View for RelocationMap {
    type V = Map<u64, ResolvedReloc>;

    closed spec fn view(&self) -> Map<u64, ResolvedReloc> {
        self.map@
    }
}

impl RelocationMap {
    /// The empty index, for a section without relocation records.
    pub fn empty() -> (r: RelocationMap)
        ensures
            r@ == Map::<u64, ResolvedReloc>::empty(),
    {
        RelocationMap { map: HashMap::new() }
    }

    /// Index a section's relocation records: resolve the absolute ones and
    /// report every anomaly, none fatal.
    pub fn build(records: &Vec<RelocationRecord>) -> (r: (RelocationMap, Vec<RelocDiagnostic>))
        ensures
            r.0@ == reloc_map_of(records@),
            r.1@ == reloc_diags_of(records@),
    {
        let mut map: HashMap<u64, ResolvedReloc> = HashMap::new();
        let mut diags: Vec<RelocDiagnostic> = Vec::new();
        let mut i: usize = 0;
        while i < records.len()
            invariant
                0 <= i <= records@.len(),
                map@ == reloc_map_of(records@.subrange(0, i as int)),
                diags@ == reloc_diags_of(records@.subrange(0, i as int)),
            decreases records@.len() - i,
        {
            let r = records[i];
            if !r.absolute {
                diags.push(RelocDiagnostic::UnsupportedKind { offset: r.offset });
            } else if matches!(r.symbol, SymbolRef::Unresolved) {
                diags.push(RelocDiagnostic::UnresolvedSymbol { offset: r.offset });
            } else {
                let value = match r.symbol {
                    SymbolRef::Resolved { address } => address.wrapping_add(
                        #[verifier::truncate]
                        (r.addend as u64),
                    ),
                    _ =>
                    #[verifier::truncate]
                    (r.addend as u64),
                };
                let prior = map.insert(
                    r.offset,
                    ResolvedReloc { implicit: r.implicit, addend: value },
                );
                if prior.is_some() {
                    diags.push(RelocDiagnostic::DuplicateOffset { offset: r.offset });
                }
            }
            proof {
                let s = records@;
                assert(s.subrange(0, i + 1 as int).drop_last() =~= s.subrange(0, i as int));
                assert(s.subrange(0, i + 1 as int).last() == s[i as int]);
            }
            i = i + 1;
        }
        proof {
            assert(records@.subrange(0, records@.len() as int) =~= records@);
        }
        (RelocationMap { map }, diags)
    }

    /// The relocation-aware substitution for a primitive read: `value` is
    /// what the raw bytes at `offset` decode to; the result is what the read
    /// must yield.
    pub fn relocate(&self, offset: u64, value: u64) -> (r: u64)
        ensures
            r == relocate_value(self@, offset, value),
    {
        match self.map.get(&offset) {
            Some(e) => {
                if e.implicit {
                    value.wrapping_add(e.addend)
                } else {
                    e.addend
                }
            },
            None => value,
        }
    }

    /// Whether `offset` carries a resolved relocation.
    pub fn contains(&self, offset: u64) -> (r: bool)
        ensures
            r == self@.contains_key(offset),
    {
        self.map.contains_key(&offset)
    }
}

} // verus!

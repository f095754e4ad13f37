//! The object loader: parse an in-memory object-file image, expose its byte
//! order, named sections, and per-section relocation records as plain
//! values. The container format itself is read through the `object` crate;
//! each query's outcome is a function of the image bytes alone and is named
//! so, and everything derived from the records is verified in `relocation`.

use crate::error::ExtractError;
use crate::relocation::RelocDiagnostic;
use crate::relocation::RelocationMap;
use crate::relocation::RelocationRecord;
use crate::relocation::ResolvedReloc;
use crate::relocation::SymbolRef;
use vstd::prelude::*;

verus! {

/// Holds the parsed container. Verus refuses to declare `object::File`
/// itself (its type parameter is bound by the crate's `ReadRef` trait), so
/// the value is hidden here and read only through the wrappers below.
#[verifier::external_body]
struct ObjectHandle<'a> {
    file: object::File<'a, &'a [u8]>,
}

/// One relocation record as the container stores it: the target is still a
/// symbol-table index, not yet an address.
#[derive(Debug, Clone, Copy, PartialEq, Eq, Structural)]
pub struct RawRelocation {
    pub offset: u64,
    pub absolute: bool,
    pub implicit: bool,
    pub addend: i64,
    pub target: RawTarget,
}

/// What a raw record points at: a symbol-table entry, or anything else (a
/// section or an already-absolute target), which needs no resolution.
#[derive(Debug, Clone, Copy, PartialEq, Eq, Structural)]
pub enum RawTarget {
    Symbol { index: usize },
    NoSymbol,
}

/// Whether a byte image is a recognized object-file container: what
/// `object::File::parse`, a pure function of the bytes, accepts.
pub uninterp spec fn is_object_container(data: Seq<u8>) -> bool;

/// The byte order the container's header declares.
pub uninterp spec fn container_little_endian(data: Seq<u8>) -> bool;

/// Whether the image holds a section of the given name.
pub uninterp spec fn has_section(data: Seq<u8>, name: Seq<char>) -> bool;

/// The named section's uncompressed bytes: empty where the section is
/// absent, nothing where its contents cannot be read.
pub uninterp spec fn section_bytes_of(data: Seq<u8>, name: Seq<char>) -> Option<Seq<u8>>;

/// The named section's relocation records, reduced to plain values, in the
/// container's order; an absent section has none.
pub uninterp spec fn raw_relocs_of(data: Seq<u8>, name: Seq<char>) -> Seq<RawRelocation>;

/// The address of the indexed symbol-table entry, or nothing where the
/// index does not resolve.
pub uninterp spec fn symbol_addr_of(data: Seq<u8>, index: int) -> Option<u64>;

/// A parsed object file and its detected byte order. The ghost view
/// records the image bytes the handle was parsed from, so each query's
/// contract can speak of them; only `load_object` constructs a value, tying
/// the two together.
pub struct LoadedObject<'a> {
    handle: ObjectHandle<'a>,
    little_endian: bool,
    bytes: Ghost<Seq<u8>>,
}

/// Relies on object::File::parse: a pure function of the bytes, succeeding
/// exactly on a recognized object-file container.
#[verifier::external_body]
fn parse_object<'a>(data: &'a [u8]) -> (r: Option<ObjectHandle<'a>>)
    ensures
        r is Some <==> is_object_container(data@),
{
    match object::File::parse(data) {
        Ok(file) => Some(ObjectHandle { file }),
        Err(_) => None,
    }
}

/// Relies on object::Object::is_little_endian: the byte order the file
/// header declares, read off the parsed handle.
#[verifier::external_body]
fn file_is_little_endian<'a>(object: &LoadedObject<'a>) -> (r: bool)
    ensures
        r == container_little_endian(object.spec_bytes()),
{
    object::Object::is_little_endian(&object.handle.file)
}

/// Relies on object::Object::section_by_name and
/// object::ObjectSection::uncompressed_data: a section absent from the file
/// yields empty bytes rather than an error; a present one yields its
/// uncompressed contents, or fails where they cannot be read.
#[verifier::external_body]
fn section_bytes<'a>(object: &LoadedObject<'a>, name: &str) -> (r: Result<Vec<u8>, ExtractError>)
    ensures
        match section_bytes_of(object.spec_bytes(), name@) {
            Some(bytes) => r is Ok && r->Ok_0@ == bytes,
            None => r == Err::<Vec<u8>, ExtractError>(ExtractError::Load),
        },
        !has_section(object.spec_bytes(), name@) ==> r is Ok && r->Ok_0@ == Seq::<u8>::empty(),
{
    match object::Object::section_by_name(&object.handle.file, name) {
        Some(section) => match object::ObjectSection::uncompressed_data(&section) {
            Ok(data) => Ok(data.into_owned()),
            Err(_) => Err(ExtractError::Load),
        },
        None => Ok(Vec::new()),
    }
}

/// Relies on object::Object::section_by_name,
/// object::ObjectSection::relocations, and the record accessors (kind,
/// target, addend, has_implicit_addend): each record of the named section,
/// reduced to plain values in iteration order.
#[verifier::external_body]
fn section_raw_relocations<'a>(object: &LoadedObject<'a>, name: &str) -> (r: Vec<RawRelocation>)
    ensures
        r@ == raw_relocs_of(object.spec_bytes(), name@),
        !has_section(object.spec_bytes(), name@) ==> r@ == Seq::<RawRelocation>::empty(),
{
    let section = match object::Object::section_by_name(&object.handle.file, name) {
        Some(section) => section,
        None => return Vec::new(),
    };
    let records = object::ObjectSection::relocations(&section);
    records.map(|(offset, reloc)| RawRelocation {
        offset, absolute: reloc.kind() == object::RelocationKind::Absolute,
        implicit: reloc.has_implicit_addend(), addend: reloc.addend(),
        target: match reloc.target() {
            object::RelocationTarget::Symbol(index) => RawTarget::Symbol { index: index.0 },
            _ => RawTarget::NoSymbol,
        },
    }).collect()
}

/// Relies on object::Object::symbol_by_index and
/// object::ObjectSymbol::address: the address of the indexed symbol-table
/// entry, or nothing where the index does not resolve.
#[verifier::external_body]
fn symbol_address<'a>(object: &LoadedObject<'a>, index: usize) -> (r: Option<u64>)
    ensures
        r == symbol_addr_of(object.spec_bytes(), index as int),
{
    match object::Object::symbol_by_index(&object.handle.file, object::SymbolIndex(index)) {
        Ok(symbol) => Some(object::ObjectSymbol::address(&symbol)),
        Err(_) => None,
    }
}

/// The resolved form of one raw record: every field kept, the symbol
/// target replaced by what the image's symbol table holds at its index.
pub open spec fn resolve_record(data: Seq<u8>, raw: RawRelocation) -> RelocationRecord {
    RelocationRecord {
        offset: raw.offset,
        absolute: raw.absolute,
        implicit: raw.implicit,
        addend: raw.addend,
        symbol: match raw.target {
            RawTarget::Symbol { index } => match symbol_addr_of(data, index as int) {
                Some(address) => SymbolRef::Resolved { address },
                None => SymbolRef::Unresolved,
            },
            RawTarget::NoSymbol => SymbolRef::SectionTarget,
        },
    }
}

/// The named section's relocation records with their symbol targets
/// resolved through the image's symbol table.
pub open spec fn resolved_records_of(data: Seq<u8>, name: Seq<char>) -> Seq<RelocationRecord> {
    raw_relocs_of(data, name).map_values(|raw: RawRelocation| resolve_record(data, raw))
}

/// Parse an in-memory object-file image: recognized bytes load, and any
/// other input fails with the load error before any debug-info access.
pub fn load_object<'a>(data: &'a [u8]) -> (r: Result<LoadedObject<'a>, ExtractError>)
    ensures
        r is Ok <==> is_object_container(data@),
        r is Err ==> r->Err_0 == ExtractError::Load,
        r is Ok ==> r->Ok_0.spec_bytes() == data@ && r->Ok_0.spec_little_endian()
            == container_little_endian(data@),
{
    match parse_object(data) {
        Some(handle) => {
            let mut object = LoadedObject { handle, little_endian: false, bytes: Ghost(data@) };
            let little_endian = file_is_little_endian(&object);
            object.little_endian = little_endian;
            Ok(object)
        },
        None => Err(ExtractError::Load),
    }
}

impl<'a> LoadedObject<'a> {
    /// The image bytes this object was parsed from.
    pub closed spec fn spec_bytes(self) -> Seq<u8> {
        self.bytes@
    }

    /// The byte order detected when the file was loaded.
    pub closed spec fn spec_little_endian(self) -> bool {
        self.little_endian
    }

    /// The byte order the file header declares.
    pub fn is_little_endian(&self) -> (r: bool)
        ensures
            r == self.spec_little_endian(),
    {
        self.little_endian
    }

    /// The named section's bytes; a section absent from the file yields an
    /// empty view rather than an error.
    pub fn section_data(&self, name: &str) -> (r: Result<Vec<u8>, ExtractError>)
        ensures
            match section_bytes_of(self.spec_bytes(), name@) {
                Some(bytes) => r is Ok && r->Ok_0@ == bytes,
                None => r == Err::<Vec<u8>, ExtractError>(ExtractError::Load),
            },
            !has_section(self.spec_bytes(), name@) ==> r is Ok && r->Ok_0@ == Seq::<u8>::empty(),
    {
        section_bytes(self, name)
    }

    /// The named section's relocation records with their symbol targets
    /// resolved through the file's symbol table; a record whose symbol the
    /// table cannot resolve is kept, marked unresolved.
    pub fn relocation_records(&self, name: &str) -> (r: Vec<RelocationRecord>)
        ensures
            r@ == resolved_records_of(self.spec_bytes(), name@),
            !has_section(self.spec_bytes(), name@) ==> r@ == Seq::<RelocationRecord>::empty(),
    {
        let ghost data = self.spec_bytes();
        let raw = section_raw_relocations(self, name);
        let mut out: Vec<RelocationRecord> = Vec::new();
        let mut i: usize = 0;
        while i < raw.len()
            invariant
                data == self.spec_bytes(),
                raw@ == raw_relocs_of(data, name@),
                0 <= i <= raw@.len(),
                out@.len() == i,
                forall|p: int| 0 <= p < i ==> out@[p] == resolve_record(data, #[trigger] raw@[p]),
            decreases raw@.len() - i,
        {
            let rr = raw[i];
            let symbol = match rr.target {
                RawTarget::Symbol { index } => {
                    match symbol_address(self, index) {
                        Some(address) => SymbolRef::Resolved { address },
                        None => SymbolRef::Unresolved,
                    }
                },
                RawTarget::NoSymbol => SymbolRef::SectionTarget,
            };
            out.push(
                RelocationRecord {
                    offset: rr.offset,
                    absolute: rr.absolute,
                    implicit: rr.implicit,
                    addend: rr.addend,
                    symbol,
                },
            );
            i = i + 1;
        }
        proof {
            assert(out@ =~= resolved_records_of(self.spec_bytes(), name@));
        }
        out
    }

    /// The relocation index of an absent section is empty, with no
    /// diagnostics: the section is presented as an empty view rather than
    /// an error.

    /// The relocation index of the named section, with the diagnostics met
    /// while building it.
    pub fn section_relocations(&self, name: &str) -> (r: (RelocationMap, Vec<RelocDiagnostic>))
        ensures
            r.0@ == crate::relocation::reloc_map_of(resolved_records_of(self.spec_bytes(), name@)),
            r.1@ == crate::relocation::reloc_diags_of(
                resolved_records_of(self.spec_bytes(), name@),
            ),
            !has_section(self.spec_bytes(), name@) ==> r.0@ == Map::<u64, ResolvedReloc>::empty()
                && r.1@ == Seq::<RelocDiagnostic>::empty(),
    {
        let records = self.relocation_records(name);
        RelocationMap::build(&records)
    }
}

} // verus!

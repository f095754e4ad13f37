//! The debug-info walker: a depth-first traversal of each unit's entry
//! tree. Every structure entry yields one catalog entry holding the ordered
//! virtual-table slots extracted from its immediate children.

use crate::entries::DebugEntry;
use crate::entries::EntryTag;
use crate::entries::UnitEncoding;
use crate::entries::UnitTree;
use crate::error::ExtractError;
use crate::eval::slot_eval;
use crate::eval::slot_position;
use crate::vtable::ClassVTable;
use crate::vtable::VTableCatalog;
use crate::vtable::VTableElement;
use vstd::prelude::*;

verus! {

/// The catalog model a walk produces: class-name text to slot sequence.
pub type CatalogModel = Map<Seq<char>, Seq<VTableElement>>;

/// Whether a child entry is a virtual-table member: a method entry carrying
/// all three of a name, a linkage symbol, and a slot location expression.
/// Children missing any of the three are not virtual-table members and are
/// silently skipped.
pub open spec fn qualifies(e: DebugEntry) -> bool {
    &&& e.tag is Subprogram
    &&& e.name is Some
    &&& e.linkage_name is Some
    &&& e.slot_expr is Some
}

/// The qualifying children, in tree order.
pub open spec fn qualifying(s: Seq<DebugEntry>) -> Seq<DebugEntry> {
    s.filter(|e: DebugEntry| qualifies(e))
}

/// What a qualifying entry's slot expression evaluates to under the unit's
/// encoding.
pub open spec fn entry_slot(e: DebugEntry, enc: UnitEncoding) -> Option<u64> {
    slot_eval(e.slot_expr->0@, enc.address_size, enc.version, enc.is_64, enc.little_endian)
}

/// The slot emitted for a qualifying entry whose expression evaluated to
/// `address`.
pub open spec fn slot_of(e: DebugEntry, address: u64) -> VTableElement {
    VTableElement { default: e.linkage_name->0, name: e.name->0, pos: address }
}

/// The table extracted from a structure entry's immediate children: one
/// slot per qualifying child, in child order; fatal if any qualifying
/// child's expression does not reduce to a single plain address.
pub open spec fn extract_of(s: Seq<DebugEntry>, enc: UnitEncoding) -> Result<
    Seq<VTableElement>,
    ExtractError,
>
    decreases s.len(),
{
    if s.len() == 0 {
        Ok(Seq::empty())
    } else {
        match extract_of(s.drop_last(), enc) {
            Err(e) => Err(e),
            Ok(pre) => {
                let c = s.last();
                if qualifies(c) {
                    match entry_slot(c, enc) {
                        Some(address) => Ok(pre.push(slot_of(c, address))),
                        None => Err(ExtractError::UnsupportedLocation),
                    }
                } else {
                    Ok(pre)
                }
            },
        }
    }
}

/// The walk of one entry: a structure entry must carry a name and
/// contributes its extracted table under it, overwriting an earlier entry
/// of the same name and hiding its nested types; any other entry only
/// passes the walk on to its children.
pub open spec fn walk_of(e: DebugEntry, enc: UnitEncoding, acc: CatalogModel) -> Result<
    CatalogModel,
    ExtractError,
>
    decreases e,
{
    if e.tag is StructureType {
        match e.name {
            Option::None => Err(ExtractError::MissingAttribute),
            Option::Some(n) => match extract_of(e.children@, enc) {
                Ok(v) => Ok(acc.insert(n@, v)),
                Err(er) => Err(er),
            },
        }
    } else {
        walk_children_of(e.children@, enc, acc)
    }
}

/// The walk of a child list, left to right, threading the catalog through.
pub open spec fn walk_children_of(s: Seq<DebugEntry>, enc: UnitEncoding, acc: CatalogModel) -> Result<
    CatalogModel,
    ExtractError,
>
    decreases s,
{
    if s.len() == 0 {
        Ok(acc)
    } else {
        match walk_of(s[0], enc, acc) {
            Ok(m) => walk_children_of(s.subrange(1, s.len() as int), enc, m),
            Err(er) => Err(er),
        }
    }
}

/// The walk of a unit list, each unit's tree under its own encoding,
/// starting from the empty catalog and threading it through.
pub open spec fn catalog_of(units: Seq<UnitTree>, acc: CatalogModel) -> Result<
    CatalogModel,
    ExtractError,
>
    decreases units.len(),
{
    if units.len() == 0 {
        Ok(acc)
    } else {
        match walk_of(units[0].root, units[0].encoding, acc) {
            Ok(m) => catalog_of(units.subrange(1, units.len() as int), m),
            Err(er) => Err(er),
        }
    }
}

/// Extract the ordered virtual-table slots from a structure entry's
/// immediate children.
pub fn get_structure_vtable(children: &Vec<DebugEntry>, enc: UnitEncoding) -> (r: Result<
    ClassVTable,
    ExtractError,
>)
    requires
        enc.wf(),
    ensures
        match r {
            Ok(v) => extract_of(children@, enc) == Ok::<Seq<VTableElement>, ExtractError>(v@),
            Err(er) => extract_of(children@, enc) == Err::<Seq<VTableElement>, ExtractError>(er),
        },
{
    let mut out: Vec<VTableElement> = Vec::new();
    let mut i: usize = 0;
    while i < children.len()
        invariant
            enc.wf(),
            0 <= i <= children@.len(),
            extract_of(children@.subrange(0, i as int), enc) == Ok::<
                Seq<VTableElement>,
                ExtractError,
            >(out@),
        decreases children@.len() - i,
    {
        let c = &children[i];
        proof {
            assert(children@.subrange(0, i + 1 as int).drop_last() =~= children@.subrange(
                0,
                i as int,
            ));
            assert(children@.subrange(0, i + 1 as int).last() == children@[i as int]);
        }
        if c.tag == EntryTag::Subprogram && c.name.is_some()
            && c.linkage_name.is_some() && c.slot_expr.is_some() {
            match slot_position(c.slot_expr.as_ref().unwrap(), enc) {
                Ok(address) => {
                    out.push(
                        VTableElement {
                            default: c.linkage_name.as_ref().unwrap().clone(),
                            name: c.name.as_ref().unwrap().clone(),
                            pos: address,
                        },
                    );
                },
                Err(er) => {
                    proof {
                        lemma_extract_err_at(children@, enc, i as int);
                    }
                    return Err(er);
                },
            }
        }
        i = i + 1;
    }
    proof {
        assert(children@.subrange(0, children@.len() as int) =~= children@);
    }
    Ok(out)
}

/// An extraction fails outright once a qualifying child's expression fails,
/// however many children follow it.
proof fn lemma_extract_err_at(s: Seq<DebugEntry>, enc: UnitEncoding, i: int)
    requires
        0 <= i < s.len(),
        extract_of(s.subrange(0, i), enc) is Ok,
        qualifies(s[i]),
        entry_slot(s[i], enc) is None,
    ensures
        extract_of(s, enc) == Err::<Seq<VTableElement>, ExtractError>(
            ExtractError::UnsupportedLocation,
        ),
    decreases s.len(),
{
    if i == s.len() - 1 {
        assert(s.drop_last() =~= s.subrange(0, i));
    } else {
        assert(s.drop_last().subrange(0, i) =~= s.subrange(0, i));
        lemma_extract_err_at(s.drop_last(), enc, i);
    }
}

/// An extraction succeeds exactly when every qualifying child's expression
/// reduces to a single plain address; children missing an attribute never
/// cause a failure, and the only failure an extraction knows is the
/// unsupported location shape.
pub proof fn lemma_extract_success(s: Seq<DebugEntry>, enc: UnitEncoding)
    ensures
        extract_of(s, enc) is Ok <==> (forall|i: int|
            0 <= i < s.len() && qualifies(#[trigger] s[i]) ==> entry_slot(s[i], enc) is Some),
        extract_of(s, enc) is Err ==> extract_of(s, enc)->Err_0
            == ExtractError::UnsupportedLocation,
    decreases s.len(),
{
    if s.len() > 0 {
        let pre = s.drop_last();
        lemma_extract_success(pre, enc);
        assert(forall|i: int| 0 <= i < pre.len() ==> pre[i] == s[i]);
        if extract_of(s, enc) is Ok {
            assert forall|i: int|
                0 <= i < s.len() && qualifies(#[trigger] s[i]) implies entry_slot(s[i], enc)
                is Some by {
                if i < s.len() - 1 {
                    assert(qualifies(pre[i]));
                }
            }
        } else {
            if extract_of(pre, enc) is Ok {
                assert(qualifies(s.last()) && entry_slot(s.last(), enc) is None);
            } else {
                let i = choose|i: int|
                    0 <= i < pre.len() && qualifies(#[trigger] pre[i]) && !(entry_slot(pre[i], enc)
                        is Some);
                assert(qualifies(s[i]) && !(entry_slot(s[i], enc) is Some));
            }
        }
    }
}

/// A successful extraction yields exactly one slot per qualifying child of
/// the structure entry, in child order: the j-th slot carries the j-th
/// qualifying child's declared name, its linkage symbol, and the address
/// its expression evaluates to. Children missing any of the three
/// attributes contribute nothing, silently.
pub proof fn lemma_extract_elements(s: Seq<DebugEntry>, enc: UnitEncoding)
    requires
        extract_of(s, enc) is Ok,
    ensures
        extract_of(s, enc)->Ok_0.len() == qualifying(s).len(),
        forall|j: int|
            #![trigger qualifying(s)[j]]
            0 <= j < qualifying(s).len() ==> {
                &&& extract_of(s, enc)->Ok_0[j].name == qualifying(s)[j].name->0
                &&& extract_of(s, enc)->Ok_0[j].default == qualifying(s)[j].linkage_name->0
                &&& entry_slot(qualifying(s)[j], enc) == Some(extract_of(s, enc)->Ok_0[j].pos)
            },
    decreases s.len(),
{
    reveal(Seq::filter);
    if s.len() > 0 {
        let pre = s.drop_last();
        lemma_extract_elements(pre, enc);
        if qualifies(s.last()) {
            assert(qualifying(s) == qualifying(pre).push(s.last()));
        } else {
            assert(qualifying(s) == qualifying(pre));
        }
        assert forall|j: int|
            0 <= j < qualifying(s).len() implies {
            &&& extract_of(s, enc)->Ok_0[j].name == (#[trigger] qualifying(s)[j]).name->0
            &&& extract_of(s, enc)->Ok_0[j].default == qualifying(s)[j].linkage_name->0
            &&& entry_slot(qualifying(s)[j], enc) == Some(extract_of(s, enc)->Ok_0[j].pos)
        } by {
            if j < qualifying(pre).len() {
                assert(qualifying(s)[j] == qualifying(pre)[j]);
                assert(extract_of(s, enc)->Ok_0[j] == extract_of(pre, enc)->Ok_0[j]);
            }
        }
    }
}

/// Offsets within one extracted table are pairwise distinct whenever the
/// qualifying children's slot expressions evaluate to pairwise distinct
/// addresses. (Two children carrying byte-identical expressions under one
/// encoding evaluate alike, so distinct evaluations must be given.)
pub proof fn lemma_offsets_unique(s: Seq<DebugEntry>, enc: UnitEncoding)
    requires
        extract_of(s, enc) is Ok,
        forall|i: int, j: int|
            0 <= i < j < qualifying(s).len() ==> entry_slot(#[trigger] qualifying(s)[i], enc)
                != entry_slot(#[trigger] qualifying(s)[j], enc),
    ensures
        forall|i: int, j: int|
            0 <= i < j < extract_of(s, enc)->Ok_0.len() ==> (#[trigger] extract_of(
                s,
                enc,
            )->Ok_0[i].pos) != (#[trigger] extract_of(s, enc)->Ok_0[j].pos),
{
    lemma_extract_elements(s, enc);
    assert forall|i: int, j: int|
        0 <= i < j < extract_of(s, enc)->Ok_0.len() implies (#[trigger] extract_of(
        s,
        enc,
    )->Ok_0[i].pos) != (#[trigger] extract_of(s, enc)->Ok_0[j].pos) by {
        assert(entry_slot(qualifying(s)[i], enc) == Some(extract_of(s, enc)->Ok_0[i].pos));
        assert(entry_slot(qualifying(s)[j], enc) == Some(extract_of(s, enc)->Ok_0[j].pos));
    }
}

/// Where every qualifying child carries nonempty name and linkage texts, a
/// successful extraction yields slots whose name and symbol texts are all
/// nonempty, one per qualifying child.
pub proof fn lemma_slots_nonempty(s: Seq<DebugEntry>, enc: UnitEncoding)
    requires
        extract_of(s, enc) is Ok,
        forall|j: int|
            0 <= j < qualifying(s).len() ==> (#[trigger] qualifying(s)[j]).name->0@.len() > 0
                && qualifying(s)[j].linkage_name->0@.len() > 0,
    ensures
        extract_of(s, enc)->Ok_0.len() == qualifying(s).len(),
        forall|j: int|
            0 <= j < extract_of(s, enc)->Ok_0.len() ==> (#[trigger] extract_of(
                s,
                enc,
            )->Ok_0[j]).name@.len() > 0 && extract_of(s, enc)->Ok_0[j].default@.len() > 0,
{
    lemma_extract_elements(s, enc);
    assert forall|j: int|
        0 <= j < extract_of(s, enc)->Ok_0.len() implies (#[trigger] extract_of(
        s,
        enc,
    )->Ok_0[j]).name@.len() > 0 && extract_of(s, enc)->Ok_0[j].default@.len() > 0 by {
        assert(extract_of(s, enc)->Ok_0[j].name == qualifying(s)[j].name->0);
    }
}

/// Whether the walk of one entry can succeed: every structure entry it
/// reaches carries a name and extracts cleanly. A structure entry hides its
/// subtree, so nothing below one is consulted.
pub open spec fn walk_ok_of(e: DebugEntry, enc: UnitEncoding) -> bool
    decreases e,
{
    if e.tag is StructureType {
        e.name is Some && extract_of(e.children@, enc) is Ok
    } else {
        forall|i: int| 0 <= i < e.children@.len() ==> walk_ok_of(#[trigger] e.children@[i], enc)
    }
}

/// A walk succeeds exactly when its entry can be walked, whatever catalog
/// it starts from.
pub proof fn lemma_walk_success(e: DebugEntry, enc: UnitEncoding, acc: CatalogModel)
    ensures
        walk_of(e, enc, acc) is Ok <==> walk_ok_of(e, enc),
    decreases e,
{
    if !(e.tag is StructureType) {
        lemma_walk_children_success(e.children@, enc, acc);
    }
}

proof fn lemma_walk_children_success(s: Seq<DebugEntry>, enc: UnitEncoding, acc: CatalogModel)
    ensures
        walk_children_of(s, enc, acc) is Ok <==> (forall|i: int|
            0 <= i < s.len() ==> walk_ok_of(#[trigger] s[i], enc)),
    decreases s,
{
    if s.len() > 0 {
        lemma_walk_success(s[0], enc, acc);
        let rest = s.subrange(1, s.len() as int);
        assert(forall|i: int| 0 <= i < rest.len() ==> rest[i] == s[i + 1]);
        match walk_of(s[0], enc, acc) {
            Ok(m) => {
                lemma_walk_children_success(rest, enc, m);
                if walk_children_of(s, enc, acc) is Ok {
                    assert forall|i: int| 0 <= i < s.len() implies walk_ok_of(
                        #[trigger] s[i],
                        enc,
                    ) by {
                        if i > 0 {
                            assert(walk_ok_of(rest[i - 1], enc));
                        }
                    }
                } else {
                    let i = choose|i: int|
                        0 <= i < rest.len() && !walk_ok_of(#[trigger] rest[i], enc);
                    assert(!walk_ok_of(s[i + 1], enc));
                }
            },
            Err(er) => {
                assert(!walk_ok_of(s[0], enc));
            },
        }
    }
}

/// Building the catalog succeeds exactly when every unit's tree can be
/// walked under its own encoding.
pub proof fn lemma_catalog_success(units: Seq<UnitTree>, acc: CatalogModel)
    ensures
        catalog_of(units, acc) is Ok <==> (forall|i: int|
            0 <= i < units.len() ==> walk_ok_of((#[trigger] units[i]).root, units[i].encoding)),
    decreases units.len(),
{
    if units.len() > 0 {
        lemma_walk_success(units[0].root, units[0].encoding, acc);
        let rest = units.subrange(1, units.len() as int);
        assert(forall|i: int| 0 <= i < rest.len() ==> rest[i] == units[i + 1]);
        match walk_of(units[0].root, units[0].encoding, acc) {
            Ok(m) => {
                lemma_catalog_success(rest, m);
                if catalog_of(units, acc) is Ok {
                    assert forall|i: int| 0 <= i < units.len() implies walk_ok_of(
                        (#[trigger] units[i]).root,
                        units[i].encoding,
                    ) by {
                        if i > 0 {
                            assert(walk_ok_of(rest[i - 1].root, rest[i - 1].encoding));
                        }
                    }
                } else {
                    let i = choose|i: int|
                        0 <= i < rest.len() && !walk_ok_of(
                            (#[trigger] rest[i]).root,
                            rest[i].encoding,
                        );
                    assert(!walk_ok_of(units[i + 1].root, units[i + 1].encoding));
                }
            },
            Err(er) => {
                assert(!walk_ok_of(units[0].root, units[0].encoding));
            },
        }
    }
}

/// Extraction is deterministic: one unit list describes one catalog, so two
/// runs over the same unmodified input agree.
pub proof fn lemma_extraction_deterministic(units: Seq<UnitTree>, m1: CatalogModel, m2: CatalogModel)
    requires
        catalog_of(units, Map::empty()) == Ok::<CatalogModel, ExtractError>(m1),
        catalog_of(units, Map::empty()) == Ok::<CatalogModel, ExtractError>(m2),
    ensures
        m1 == m2,
{
}

/// Walk one entry, recording every structure found at or below it.
pub fn walk_node(e: &DebugEntry, enc: UnitEncoding, catalog: &mut VTableCatalog) -> (r: Result<
    (),
    ExtractError,
>)
    requires
        old(catalog).wf(),
        enc.wf(),
    ensures
        final(catalog).wf(),
        match r {
            Ok(()) => walk_of(*e, enc, old(catalog)@) == Ok::<CatalogModel, ExtractError>(
                final(catalog)@,
            ),
            Err(er) => walk_of(*e, enc, old(catalog)@) == Err::<CatalogModel, ExtractError>(er),
        },
    decreases *e,
{
    if e.tag == EntryTag::StructureType {
        match &e.name {
            None => Err(ExtractError::MissingAttribute),
            Some(n) => {
                match get_structure_vtable(&e.children, enc) {
                    Ok(v) => {
                        catalog.insert(n.clone(), v);
                        Ok(())
                    },
                    Err(er) => Err(er),
                }
            },
        }
    } else {
        let ghost full = e.children@;
        proof {
            assert(full.subrange(0, full.len() as int) =~= full);
        }
        let mut i: usize = 0;
        while i < e.children.len()
            invariant
                e.children@ == full,
                !(e.tag is StructureType),
                enc.wf(),
                catalog.wf(),
                0 <= i <= full.len(),
                walk_children_of(full, enc, old(catalog)@) == walk_children_of(
                    full.subrange(i as int, full.len() as int),
                    enc,
                    catalog@,
                ),
            decreases full.len() - i,
        {
            let ghost rem = full.subrange(i as int, full.len() as int);
            proof {
                assert(rem.len() > 0);
                assert(rem[0] == full[i as int]);
                assert(rem.subrange(1, rem.len() as int) =~= full.subrange(
                    i + 1 as int,
                    full.len() as int,
                ));
                assert(decreases_to!(*e => e.children));
                assert(decreases_to!(e.children => e.children@));
                assert(decreases_to!(e.children@ => e.children@[i as int]));
            }
            match walk_node(&e.children[i], enc, catalog) {
                Ok(()) => {},
                Err(er) => {
                    return Err(er);
                },
            }
            i = i + 1;
        }
        proof {
            assert(full.subrange(full.len() as int, full.len() as int) =~= Seq::<
                DebugEntry,
            >::empty());
        }
        Ok(())
    }
}

/// Build the catalog of every structure entry in the given unit trees:
/// later units and later same-named structures win; any fatal condition
/// aborts the whole extraction, so no partial catalog escapes.
pub fn build_catalog(units: &Vec<UnitTree>) -> (r: Result<VTableCatalog, ExtractError>)
    requires
        forall|i: int| 0 <= i < units@.len() ==> (#[trigger] units@[i]).encoding.wf(),
    ensures
        match r {
            Ok(c) => c.wf() && catalog_of(units@, Map::empty()) == Ok::<
                CatalogModel,
                ExtractError,
            >(c@),
            Err(er) => catalog_of(units@, Map::empty()) == Err::<CatalogModel, ExtractError>(er),
        },
{
    let mut catalog = VTableCatalog::new();
    proof {
        assert(units@.subrange(0, units@.len() as int) =~= units@);
    }
    let mut i: usize = 0;
    while i < units.len()
        invariant
            catalog.wf(),
            forall|p: int| 0 <= p < units@.len() ==> (#[trigger] units@[p]).encoding.wf(),
            0 <= i <= units@.len(),
            catalog_of(units@, Map::empty()) == catalog_of(
                units@.subrange(i as int, units@.len() as int),
                catalog@,
            ),
        decreases units@.len() - i,
    {
        let ghost rem = units@.subrange(i as int, units@.len() as int);
        proof {
            assert(rem[0] == units@[i as int]);
            assert(rem.subrange(1, rem.len() as int) =~= units@.subrange(
                i + 1 as int,
                units@.len() as int,
            ));
        }
        let u = &units[i];
        match walk_node(&u.root, u.encoding, &mut catalog) {
            Ok(()) => {},
            Err(er) => {
                return Err(er);
            },
        }
        i = i + 1;
    }
    proof {
        assert(units@.subrange(units@.len() as int, units@.len() as int) =~= Seq::<
            UnitTree,
        >::empty());
    }
    Ok(catalog)
}

} // verus!

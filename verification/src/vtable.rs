//! The virtual-table data model: one slot, one class's ordered slot list,
//! and the catalog keyed by class name.

use vstd::prelude::*;

verus! {

/// One virtual-method slot recovered from the debug info.
#[derive(Debug, PartialEq)]
pub struct VTableElement {
    /// Linkage symbol of the implementation installed in this slot by the
    /// class that introduced or last overrode it.
    pub default: String,
    /// The method's declared (unmangled) identifier.
    pub name: String,
    /// The slot's byte position within the virtual table.
    pub pos: u64,
}

/// The ordered virtual-table slots of one class, in declaration order.
pub type ClassVTable = Vec<VTableElement>;

/// Mapping from class name to that class's virtual table.
///
/// The key is the name's character sequence; inserting under a name that is
/// already present overwrites the earlier table (last write wins).
pub struct VTableCatalog {
    entries: Vec<(String, ClassVTable)>,
}

/// No two entries of `s` carry the same name text.
pub open spec fn catalog_keys_distinct(s: Seq<(String, ClassVTable)>) -> bool {
    forall|i: int, j: int|
        0 <= i < j < s.len() ==> (#[trigger] s[i].0@) != (#[trigger] s[j].0@)
}

/// The map described by an entry sequence: each pair inserted in order, so a
/// later pair with the same name text wins.
pub open spec fn catalog_map_of(s: Seq<(String, ClassVTable)>) -> Map<
    Seq<char>,
    Seq<VTableElement>,
>
    decreases s.len(),
{
    if s.len() == 0 {
        Map::empty()
    } else {
        catalog_map_of(s.drop_last()).insert(s.last().0@, s.last().1@)
    }
}

impl View for VTableCatalog {
    type V = Map<Seq<char>, Seq<VTableElement>>;

    closed spec fn view(&self) -> Map<Seq<char>, Seq<VTableElement>> {
        catalog_map_of(self.entries@)
    }
}

proof fn lemma_catalog_map_contains(s: Seq<(String, ClassVTable)>)
    ensures
        forall|k: Seq<char>|
            #[trigger] catalog_map_of(s).contains_key(k) <==> (exists|i: int|
                0 <= i < s.len() && (#[trigger] s[i].0@) == k),
    decreases s.len(),
{
    if s.len() > 0 {
        let pre = s.drop_last();
        lemma_catalog_map_contains(pre);
        assert forall|k: Seq<char>| #[trigger]
            catalog_map_of(s).contains_key(k) implies (exists|i: int|
            0 <= i < s.len() && (#[trigger] s[i].0@) == k) by {
            if k == s.last().0@ {
                assert(s[s.len() - 1].0@ == k);
            } else {
                assert(catalog_map_of(pre).contains_key(k));
                let i = choose|i: int| 0 <= i < pre.len() && (#[trigger] pre[i].0@) == k;
                assert(pre[i] == s[i]);
                assert(s[i].0@ == k);
            }
        }
        assert forall|k: Seq<char>|
            (exists|i: int|
                0 <= i < s.len() && (#[trigger] s[i].0@) == k) implies catalog_map_of(
            s,
        ).contains_key(k) by {
            let i = choose|i: int| 0 <= i < s.len() && (#[trigger] s[i].0@) == k;
            if i < s.len() - 1 {
                assert(pre[i] == s[i]);
                assert(pre[i].0@ == k);
                assert(catalog_map_of(pre).contains_key(k));
            }
        }
    }
}

proof fn lemma_catalog_map_value(s: Seq<(String, ClassVTable)>, i: int)
    requires
        catalog_keys_distinct(s),
        0 <= i < s.len(),
    ensures
        catalog_map_of(s).contains_key(s[i].0@),
        catalog_map_of(s)[s[i].0@] == s[i].1@,
    decreases s.len(),
{
    let pre = s.drop_last();
    if i < s.len() - 1 {
        assert(catalog_keys_distinct(pre)) by {
            assert forall|p: int, q: int|
                0 <= p < q < pre.len() implies (#[trigger] pre[p].0@) != (#[trigger]
            pre[q].0@) by {
                assert(s[p].0@ != s[q].0@);
            }
        }
        lemma_catalog_map_value(pre, i);
        assert(s[i].0@ != s.last().0@);
    }
}

/// Inserting a pair whose name text is already at position `j` yields the
/// same map as a plain map insertion under that name.
proof fn lemma_catalog_map_update(s: Seq<(String, ClassVTable)>, j: int, pair: (String, ClassVTable))
    requires
        catalog_keys_distinct(s),
        0 <= j < s.len(),
        s[j].0@ == pair.0@,
    ensures
        catalog_map_of(s.update(j, pair)) =~= catalog_map_of(s).insert(pair.0@, pair.1@),
    decreases s.len(),
{
    let pre = s.drop_last();
    let su = s.update(j, pair);
    if j == s.len() - 1 {
        assert(su.drop_last() =~= pre);
        assert(su.last() == pair);
    } else {
        assert(catalog_keys_distinct(pre)) by {
            assert forall|p: int, q: int|
                0 <= p < q < pre.len() implies (#[trigger] pre[p].0@) != (#[trigger]
            pre[q].0@) by {
                assert(s[p].0@ != s[q].0@);
            }
        }
        lemma_catalog_map_update(pre, j, pair);
        assert(su.drop_last() =~= pre.update(j, pair));
        assert(su.last() == s.last());
        assert(s[j].0@ != s.last().0@);
    }
}

impl VTableCatalog {
    /// Well-formed: entry names are pairwise distinct, so each name denotes
    /// one table.
    pub closed spec fn wf(self) -> bool {
        catalog_keys_distinct(self.entries@)
    }

    /// An empty catalog.
    pub fn new() -> (r: VTableCatalog)
        ensures
            r.wf(),
            r@ == Map::<Seq<char>, Seq<VTableElement>>::empty(),
    {
        VTableCatalog { entries: Vec::new() }
    }

    /// Record `table` as the virtual table of class `name`, overwriting any
    /// table recorded for that name before.
    pub fn insert(&mut self, name: String, table: ClassVTable)
        requires
            old(self).wf(),
        ensures
            final(self).wf(),
            final(self)@ == old(self)@.insert(name@, table@),
    {
        let ghost s0 = self.entries@;
        let mut j: usize = 0;
        while j < self.entries.len()
            invariant
                self.entries@ == s0,
                old(self).entries@ == s0,
                catalog_keys_distinct(s0),
                0 <= j <= s0.len(),
                forall|p: int| 0 <= p < j ==> (#[trigger] s0[p].0@) != name@,
            decreases s0.len() - j,
        {
            if self.entries[j].0 == name {
                let ghost key = name@;
                self.entries[j] = (name, table);
                proof {
                    let s1 = self.entries@;
                    assert(s1 == s0.update(j as int, s1[j as int]));
                    lemma_catalog_map_update(s0, j as int, s1[j as int]);
                    assert forall|p: int, q: int|
                        0 <= p < q < s1.len() implies (#[trigger] s1[p].0@) != (#[trigger]
                    s1[q].0@) by {
                        assert(s0[p].0@ != s0[q].0@);
                        if p == j as int {
                            assert(s1[p].0@ == key && key == s0[p].0@);
                        }
                        if q == j as int {
                            assert(s1[q].0@ == key && key == s0[q].0@);
                        }
                    }
                }
                return ;
            }
            j = j + 1;
        }
        self.entries.push((name, table));
        proof {
            let s1 = self.entries@;
            assert(s1.drop_last() =~= s0);
            assert forall|p: int, q: int|
                0 <= p < q < s1.len() implies (#[trigger] s1[p].0@) != (#[trigger]
            s1[q].0@) by {
                if q < s1.len() - 1 {
                    assert(s0[p].0@ != s0[q].0@);
                }
            }
        }
    }

    /// Look the class `name` up; absence yields `None`, never an error.
    pub fn get(&self, name: &String) -> (r: Option<&ClassVTable>)
        requires
            self.wf(),
        ensures
            match r {
                Some(t) => self@.contains_key(name@) && t@ == self@[name@],
                None => !self@.contains_key(name@),
            },
    {
        let ghost s0 = self.entries@;
        let mut j: usize = 0;
        while j < self.entries.len()
            invariant
                self.wf(),
                self.entries@ == s0,
                0 <= j <= s0.len(),
                forall|p: int| 0 <= p < j ==> (#[trigger] s0[p].0@) != name@,
            decreases s0.len() - j,
        {
            if self.entries[j].0 == *name {
                proof {
                    lemma_catalog_map_value(s0, j as int);
                }
                return Some(&self.entries[j].1);
            }
            j = j + 1;
        }
        proof {
            lemma_catalog_map_contains(s0);
        }
        None
    }

    /// How many classes the catalog holds.
    pub fn len(&self) -> (r: usize)
        requires
            self.wf(),
        ensures
            r == self@.dom().len(),
    {
        proof {
            lemma_catalog_map_len(self.entries@);
        }
        self.entries.len()
    }
}

proof fn lemma_catalog_map_len(s: Seq<(String, ClassVTable)>)
    requires
        catalog_keys_distinct(s),
    ensures
        catalog_map_of(s).dom().finite(),
        catalog_map_of(s).dom().len() == s.len(),
    decreases s.len(),
{
    if s.len() > 0 {
        let pre = s.drop_last();
        assert(catalog_keys_distinct(pre)) by {
            assert forall|p: int, q: int|
                0 <= p < q < pre.len() implies (#[trigger] pre[p].0@) != (#[trigger]
            pre[q].0@) by {
                assert(s[p].0@ != s[q].0@);
            }
        }
        lemma_catalog_map_len(pre);
        lemma_catalog_map_contains(pre);
        assert(!catalog_map_of(pre).contains_key(s.last().0@));
        assert(catalog_map_of(s).dom() =~= catalog_map_of(pre).dom().insert(s.last().0@));
        vstd::set::axiom_set_insert_len(catalog_map_of(pre).dom(), s.last().0@);
    }
}

} // verus!

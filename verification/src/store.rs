//! The registry storage: a mapping from type identity to type-erased factory.
//!
//! Identities are the names under which types are registered; each maps to at
//! most one factory, and a later registration of the same identity silently
//! replaces the earlier one. The storage is modelled as a mathematical
//! `Map<Seq<char>, ErasedFactory>`, the view of the concrete entry list.

use crate::erased::ErasedFactory;
use vstd::prelude::*;

verus! {

broadcast use vstd::map::group_map_axioms, vstd::seq::group_seq_axioms;

/// One registration: a type identity and the factory stored under it.
#[derive(Clone)]
pub struct Entry {
    name: String,
    slot: ErasedFactory,
}

/// A mapping from type identity to type-erased factory.
///
/// The entry list is read through its view, a `Map<Seq<char>, ErasedFactory>`
/// in which a later entry for the same name shadows an earlier one;
/// well-formed maps never hold two entries for one name.
#[derive(Clone)]
pub struct TypeMap {
    entries: Vec<Entry>,
}

/// The mapping described by a list of entries: each entry binds its name,
/// and a later entry wins over an earlier one with the same name.
pub closed spec fn map_of(entries: Seq<Entry>) -> Map<Seq<char>, ErasedFactory>
    decreases entries.len(),
{
    if entries.len() == 0 {
        Map::empty()
    } else {
        map_of(entries.drop_last()).insert(entries.last().name@, entries.last().slot)
    }
}

/// The identities bound by a list of entries, in entry order.
pub closed spec fn names_of(entries: Seq<Entry>) -> Seq<Seq<char>> {
    Seq::new(entries.len(), |i: int| entries[i].name@)
}

/// The views of a list of strings, in list order.
pub open spec fn string_views(strings: Seq<String>) -> Seq<Seq<char>> {
    Seq::new(strings.len(), |i: int| strings[i]@)
}

impl View for TypeMap {
    type V = Map<Seq<char>, ErasedFactory>;

    closed spec fn view(&self) -> Map<Seq<char>, ErasedFactory> {
        map_of(self.entries@)
    }
}

impl TypeMap {
    /// At most one entry per identity.
    pub closed spec fn wf(&self) -> bool {
        forall|i: int, j: int|
            0 <= i < j < self.entries@.len() ==> self.entries@[i].name@ != self.entries@[j].name@
    }

    /// Creates an empty mapping.
    pub fn new() -> (result: TypeMap)
        ensures
            result@ == Map::<Seq<char>, ErasedFactory>::empty(),
            result.wf(),
    {
        TypeMap { entries: Vec::new() }
    }

    /// True when nothing is registered.
    pub fn is_empty(&self) -> (result: bool)
        ensures
            result == self@.dom().is_empty(),
    {
        let empty = self.entries.len() == 0;
        proof {
            if self.entries@.len() == 0 {
                assert(self@.dom() =~= Set::<Seq<char>>::empty());
            } else {
                assert(self@.dom().contains(self.entries@.last().name@));
            }
        }
        empty
    }

    /// Looks the identity up; does not invoke the factory.
    pub fn get(&self, key: &String) -> (result: Option<&ErasedFactory>)
        ensures
            match result {
                Some(slot) => self@.contains_key(key@) && *slot == self@[key@],
                None => !self@.contains_key(key@),
            },
    {
        let mut i: usize = self.entries.len();
        proof {
            assert(self.entries@.take(i as int) =~= self.entries@);
        }
        while i > 0
            invariant
                i <= self.entries@.len(),
                self@.contains_key(key@) == map_of(self.entries@.take(i as int)).contains_key(
                    key@,
                ),
                self@.contains_key(key@) ==> self@[key@] == map_of(
                    self.entries@.take(i as int),
                )[key@],
            decreases i,
        {
            i = i - 1;
            proof {
                assert(self.entries@.take(i + 1).drop_last() =~= self.entries@.take(i as int));
                assert(self.entries@.take(i + 1).last() == self.entries@[i as int]);
            }
            if self.entries[i].name == *key {
                return Some(&self.entries[i].slot);
            }
        }
        proof {
            assert(self.entries@.take(0) =~= Seq::<Entry>::empty());
        }
        None
    }

    /// Binds the identity to the factory, replacing any earlier binding.
    pub fn insert(&mut self, key: String, slot: ErasedFactory)
        requires
            old(self).wf(),
        ensures
            final(self)@ == old(self)@.insert(key@, slot),
            final(self).wf(),
    {
        let n = self.entries.len();
        let mut i: usize = 0;
        while i < n
            invariant
                self == old(self),
                old(self).wf(),
                n == self.entries@.len(),
                i <= n,
                forall|j: int| 0 <= j < i ==> self.entries@[j].name@ != key@,
            decreases n - i,
        {
            if self.entries[i].name == key {
                let ghost old_entries = self.entries@;
                self.entries[i] = Entry { name: key, slot };
                proof {
                    assert(self.entries@ =~= old_entries.update(
                        i as int,
                        self.entries@[i as int],
                    ));
                    lemma_map_of_update(old_entries, i as int, self.entries@[i as int]);
                    assert forall|k: int, l: int|
                        0 <= k < l < self.entries@.len() implies self.entries@[k].name@
                        != self.entries@[l].name@ by {
                        assert(old_entries[k].name@ != old_entries[l].name@);
                    }
                }
                return ;
            }
            i = i + 1;
        }
        let ghost old_entries = self.entries@;
        self.entries.push(Entry { name: key, slot });
        proof {
            assert(self.entries@.drop_last() =~= old_entries);
            assert forall|k: int, l: int|
                0 <= k < l < self.entries@.len() implies self.entries@[k].name@
                != self.entries@[l].name@ by {
                if l < old_entries.len() {
                    assert(old_entries[k].name@ != old_entries[l].name@);
                } else {
                    assert(old_entries[k].name@ != key@);
                }
            }
        }
    }

    /// Inserts every binding of `other`, later bindings of `other` winning
    /// over this map's.
    pub fn merge(&mut self, other: TypeMap)
        requires
            old(self).wf(),
        ensures
            final(self)@ == old(self)@.union_prefer_right(other@),
            final(self).wf(),
    {
        let n = other.entries.len();
        let mut i: usize = 0;
        proof {
            assert(other.entries@.take(0) =~= Seq::<Entry>::empty());
            assert(old(self)@.union_prefer_right(Map::empty()) =~= old(self)@);
        }
        while i < n
            invariant
                n == other.entries@.len(),
                i <= n,
                self.wf(),
                self@ == old(self)@.union_prefer_right(map_of(other.entries@.take(i as int))),
            decreases n - i,
        {
            proof {
                assert(other.entries@.take(i + 1).drop_last() =~= other.entries@.take(i as int));
                assert(other.entries@.take(i + 1).last() == other.entries@[i as int]);
                lemma_union_insert(
                    old(self)@,
                    map_of(other.entries@.take(i as int)),
                    other.entries@[i as int].name@,
                    other.entries@[i as int].slot,
                );
            }
            let name = other.entries[i].name.clone();
            let slot = other.entries[i].slot.clone();
            self.insert(name, slot);
            i = i + 1;
        }
        proof {
            assert(other.entries@.take(n as int) =~= other.entries@);
        }
    }

    /// The registered identities, one `String` per binding.
    pub fn keys(&self) -> (result: Vec<String>)
        requires
            self.wf(),
        ensures
            string_views(result@).no_duplicates(),
            string_views(result@).to_set() == self@.dom(),
    {
        let n = self.entries.len();
        let mut result: Vec<String> = Vec::new();
        let mut i: usize = 0;
        proof {
            assert(string_views(result@) =~= names_of(self.entries@.take(0)));
        }
        while i < n
            invariant
                n == self.entries@.len(),
                i <= n,
                i == result@.len(),
                self.wf(),
                string_views(result@) =~= names_of(self.entries@.take(i as int)),
            decreases n - i,
        {
            let ghost prev = result@;
            result.push(self.entries[i].name.clone());
            proof {
                assert forall|j: int| 0 <= j < i + 1 implies string_views(result@)[j] == names_of(
                    self.entries@.take(i + 1),
                )[j] by {
                    if j < i {
                        assert(string_views(prev)[j] == names_of(self.entries@.take(i as int))[j]);
                    }
                }
                assert(string_views(result@) =~= names_of(self.entries@.take(i + 1)));
            }
            i = i + 1;
        }
        proof {
            assert(self.entries@.take(n as int) =~= self.entries@);
            lemma_names_distinct(self.entries@);
            lemma_map_of_dom(self.entries@);
        }
        result
    }
}

/// Replacing the entry that binds a name rebinds exactly that name.
proof fn lemma_map_of_update(entries: Seq<Entry>, i: int, e: Entry)
    requires
        0 <= i < entries.len(),
        forall|k: int, l: int| 0 <= k < l < entries.len() ==> entries[k].name@ != entries[l].name@,
        e.name@ == entries[i].name@,
    ensures
        map_of(entries.update(i, e)) == map_of(entries).insert(e.name@, e.slot),
    decreases entries.len(),
{
    let updated = entries.update(i, e);
    if i == entries.len() - 1 {
        assert(updated.drop_last() =~= entries.drop_last());
        assert(updated.last() == e);
        assert(map_of(entries.drop_last()).insert(entries.last().name@, entries.last().slot).insert(
            e.name@,
            e.slot,
        ) =~= map_of(entries.drop_last()).insert(e.name@, e.slot));
    } else {
        assert(updated.drop_last() =~= entries.drop_last().update(i, e));
        assert(updated.last() == entries.last());
        lemma_map_of_update(entries.drop_last(), i, e);
        assert(entries.last().name@ == entries[entries.len() - 1].name@);
        assert(e.name@ != entries.last().name@);
        assert(map_of(entries.drop_last()).insert(e.name@, e.slot).insert(
            entries.last().name@,
            entries.last().slot,
        ) =~= map_of(entries.drop_last()).insert(entries.last().name@, entries.last().slot).insert(
            e.name@,
            e.slot,
        ));
    }
}

/// Inserting into the right-hand side of a right-biased union is inserting
/// into the union.
proof fn lemma_union_insert(
    left: Map<Seq<char>, ErasedFactory>,
    right: Map<Seq<char>, ErasedFactory>,
    name: Seq<char>,
    slot: ErasedFactory,
)
    ensures
        left.union_prefer_right(right.insert(name, slot)) == left.union_prefer_right(
            right,
        ).insert(name, slot),
{
    assert(left.union_prefer_right(right.insert(name, slot)) =~= left.union_prefer_right(
        right,
    ).insert(name, slot));
}

/// With at most one entry per name, the names are pairwise distinct.
proof fn lemma_names_distinct(entries: Seq<Entry>)
    requires
        forall|k: int, l: int| 0 <= k < l < entries.len() ==> entries[k].name@ != entries[l].name@,
    ensures
        names_of(entries).no_duplicates(),
{
}

/// The domain of the described mapping is the set of bound names.
proof fn lemma_map_of_dom(entries: Seq<Entry>)
    ensures
        map_of(entries).dom() == names_of(entries).to_set(),
    decreases entries.len(),
{
    if entries.len() == 0 {
        assert(map_of(entries).dom() =~= names_of(entries).to_set());
    } else {
        lemma_map_of_dom(entries.drop_last());
        assert(names_of(entries).drop_last() =~= names_of(entries.drop_last()));
        assert forall|n: Seq<char>| names_of(entries).to_set().contains(n) implies map_of(
            entries,
        ).dom().contains(n) by {
            let k = choose|k: int| 0 <= k < names_of(entries).len() && names_of(entries)[k] == n;
            if k < entries.len() - 1 {
                assert(names_of(entries.drop_last())[k] == n);
                assert(names_of(entries.drop_last()).to_set().contains(n));
            }
        }
        assert forall|n: Seq<char>| map_of(entries).dom().contains(n) implies names_of(
            entries,
        ).to_set().contains(n) by {
            if n == entries.last().name@ {
                assert(names_of(entries)[entries.len() - 1] == n);
            } else {
                assert(names_of(entries.drop_last()).to_set().contains(n));
                let k = choose|k: int|
                    0 <= k < names_of(entries.drop_last()).len() && names_of(
                        entries.drop_last(),
                    )[k] == n;
                assert(names_of(entries)[k] == n);
            }
        }
        assert(map_of(entries).dom() =~= names_of(entries).to_set());
    }
}

} // verus!

//! A small keyed store: an association list from addresses to values, with a
//! mathematical `Map` view.  The ledger model keeps every class of account in
//! one of these, with compare-and-swap style creation (an insert fails when
//! the key is already bound).

use vstd::prelude::*;

use crate::address::Address;

verus! {

/// Store keyed by `Address`; the view maps each key's bytes to the view of
/// the stored value.
pub struct Table<V> {
    entries: Vec<(Address, V)>,
}

/// The map described by a sequence of entries, later entries taking
/// precedence (irrelevant once keys are distinct).
pub open spec fn map_of<V: View>(s: Seq<(Address, V)>) -> Map<Seq<u8>, V::V>
    decreases s.len(),
{
    if s.len() == 0 {
        Map::empty()
    } else {
        map_of(s.drop_last()).insert(s.last().0@, s.last().1@)
    }
}

/// All keys of the entry sequence are distinct.
pub open spec fn distinct_keys<V>(s: Seq<(Address, V)>) -> bool {
    forall|i: int, j: int| 0 <= i < j < s.len() ==> s[i].0@ != s[j].0@
}

/// A key is bound in `map_of(s)` exactly when some entry carries it.
pub proof fn lemma_map_of_contains<V: View>(s: Seq<(Address, V)>, k: Seq<u8>)
    ensures
        map_of(s).contains_key(k) <==> exists|i: int| 0 <= i < s.len() && s[i].0@ == k,
    decreases s.len(),
{
    if s.len() > 0 {
        lemma_map_of_contains(s.drop_last(), k);
        if s.last().0@ == k {
            assert(s[s.len() - 1].0@ == k);
        } else if map_of(s).contains_key(k) {
            let i = choose|i: int| 0 <= i < s.drop_last().len() && s.drop_last()[i].0@ == k;
            assert(s[i].0@ == k);
        } else if exists|i: int| 0 <= i < s.len() && s[i].0@ == k {
            let i = choose|i: int| 0 <= i < s.len() && s[i].0@ == k;
            assert(s.drop_last()[i].0@ == k);
        }
    }
}

/// With distinct keys, the entry holding a key determines the map's value.
pub proof fn lemma_map_of_index<V: View>(s: Seq<(Address, V)>, i: int)
    requires
        distinct_keys(s),
        0 <= i < s.len(),
    ensures
        map_of(s).contains_key(s[i].0@),
        map_of(s)[s[i].0@] == s[i].1@,
    decreases s.len(),
{
    if i == s.len() - 1 {
        assert(map_of(s) == map_of(s.drop_last()).insert(s.last().0@, s.last().1@));
    } else {
        lemma_map_of_index(s.drop_last(), i);
        assert(s.drop_last()[i] == s[i]);
        assert(s[i].0@ != s.last().0@);
    }
}

/// With distinct keys, replacing the value of entry `i` updates the map at
/// that entry's key and nothing else.
pub proof fn lemma_map_of_update<V: View>(s: Seq<(Address, V)>, i: int, v: (Address, V))
    requires
        distinct_keys(s),
        0 <= i < s.len(),
        v.0@ == s[i].0@,
    ensures
        map_of(s.update(i, v)) == map_of(s).insert(v.0@, v.1@),
    decreases s.len(),
{
    let t = s.update(i, v);
    if i == s.len() - 1 {
        assert(t.drop_last() =~= s.drop_last());
        assert(map_of(t) =~= map_of(s).insert(v.0@, v.1@));
    } else {
        lemma_map_of_update(s.drop_last(), i, v);
        assert(t.drop_last() =~= s.drop_last().update(i, v));
        assert(t.last() == s.last());
        assert(s[i].0@ != s.last().0@);
        assert(map_of(t) =~= map_of(s).insert(v.0@, v.1@));
    }
}

impl<V: View> View for Table<V> {
    type V = Map<Seq<u8>, V::V>;

    closed spec fn view(&self) -> Map<Seq<u8>, V::V> {
        map_of(self.entries@)
    }
}

impl<V: View> Table<V> {
    /// Internal well-formedness: no key is bound twice.
    pub closed spec fn wf(&self) -> bool {
        distinct_keys(self.entries@)
    }

    /// The entries as the protocol sees them, for contracts that need the
    /// concrete value stored at an index.
    pub closed spec fn entry_at(&self, i: int) -> (Address, V) {
        self.entries@[i]
    }

    pub closed spec fn spec_len(&self) -> nat {
        self.entries@.len()
    }

    /// An empty store.
    pub fn new() -> (r: Table<V>)
        ensures
            r.wf(),
            r@ == Map::<Seq<u8>, V::V>::empty(),
    {
        Table { entries: Vec::new() }
    }

    /// Looks a key up; `Some(i)` names the entry that binds it.
    pub fn find(&self, k: &Address) -> (r: Option<usize>)
        requires
            self.wf(),
        ensures
            match r {
                Some(i) => {
                    &&& i < self.spec_len()
                    &&& self.entry_at(i as int).0@ == k@
                    &&& self@.contains_key(k@)
                    &&& self@[k@] == self.entry_at(i as int).1@
                },
                None => !self@.contains_key(k@),
            },
    {
        let n = self.entries.len();
        for i in 0..n
            invariant
                n == self.entries@.len(),
                self.wf(),
                forall|j: int| 0 <= j < i ==> self.entries@[j].0@ != k@,
        {
            if self.entries[i].0.equals(k) {
                proof {
                    lemma_map_of_index(self.entries@, i as int);
                }
                return Some(i);
            }
        }
        proof {
            lemma_map_of_contains(self.entries@, k@);
        }
        None
    }

    /// Borrows the value of entry `i`.
    pub fn value_at(&self, i: usize) -> (r: &V)
        requires
            i < self.spec_len(),
        ensures
            *r == self.entry_at(i as int).1,
    {
        &self.entries[i].1
    }

    /// Binds a fresh key.  Creation is compare-and-swap: the caller must have
    /// checked that the key is not yet bound.
    pub fn insert(&mut self, k: Address, v: V)
        requires
            old(self).wf(),
            !old(self)@.contains_key(k@),
        ensures
            final(self).wf(),
            final(self)@ == old(self)@.insert(k@, v@),
    {
        proof {
            lemma_map_of_contains(self.entries@, k@);
        }
        self.entries.push((k, v));
        proof {
            assert(self.entries@.drop_last() =~= old(self).entries@);
        }
    }

    /// Replaces the value of entry `i`, keeping its key.
    pub fn set_at(&mut self, i: usize, v: V)
        requires
            old(self).wf(),
            i < old(self).spec_len(),
        ensures
            final(self).wf(),
            final(self)@ == old(self)@.insert(old(self).entry_at(i as int).0@, v@),
            final(self).spec_len() == old(self).spec_len(),
            forall|j: int|
                0 <= j < final(self).spec_len() ==> final(self).entry_at(j).0@ == old(
                    self,
                ).entry_at(j).0@,
    {
        let ghost old_entries = self.entries@;
        let k = self.entries[i].0.dup();
        self.entries[i] = (k, v);
        proof {
            assert(self.entries@[i as int].0@ == old_entries[i as int].0@);
            assert(self.entries@ =~= old_entries.update(
                i as int,
                (self.entries@[i as int].0, self.entries@[i as int].1),
            ));
            lemma_map_of_update(
                old_entries,
                i as int,
                (self.entries@[i as int].0, self.entries@[i as int].1),
            );
            assert forall|a: int, b: int|
                0 <= a < b < self.entries@.len() implies self.entries@[a].0@
                != self.entries@[b].0@ by {
                assert(self.entries@[a].0@ == old_entries[a].0@);
                assert(self.entries@[b].0@ == old_entries[b].0@);
            }
        }
    }
}

} // verus!

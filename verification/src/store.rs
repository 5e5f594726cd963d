//! An id-keyed record store.
//!
//! Both the window record store and the output name registry are maps from an
//! opaque 32-bit protocol id to a record.  The store promises nothing about
//! enumeration order; its whole contract is the `Map` view.

use vstd::prelude::*;

verus! {

/// No id occurs twice in an entry sequence.
pub open spec fn keys_unique<V>(s: Seq<(u32, V)>) -> bool {
    forall|i: int, j: int| 0 <= i < j < s.len() ==> (#[trigger] s[i]).0 != (#[trigger] s[j]).0
}

/// The map an entry sequence denotes; later entries shadow earlier ones,
/// though under `keys_unique` there is nothing to shadow.
pub open spec fn map_of<V: View>(s: Seq<(u32, V)>) -> Map<u32, V::V>
    decreases s.len(),
{
    if s.len() == 0 {
        Map::empty()
    } else {
        map_of(s.drop_last()).insert(s.last().0, s.last().1@)
    }
}

proof fn lemma_map_of_contains<V: View>(s: Seq<(u32, V)>, k: u32)
    ensures
        map_of(s).contains_key(k) <==> exists|i: int| 0 <= i < s.len() && (#[trigger] s[i]).0 == k,
    decreases s.len(),
{
    if s.len() == 0 {
    } else {
        let sub = s.drop_last();
        lemma_map_of_contains(sub, k);
        if s.last().0 == k {
            assert((s[s.len() - 1]).0 == k);
        } else {
            if map_of(sub).contains_key(k) {
                let i = choose|i: int| 0 <= i < sub.len() && (#[trigger] sub[i]).0 == k;
                assert((s[i]).0 == k);
            }
            if exists|i: int| 0 <= i < s.len() && (#[trigger] s[i]).0 == k {
                let i = choose|i: int| 0 <= i < s.len() && (#[trigger] s[i]).0 == k;
                assert(i < s.len() - 1);
                assert((sub[i]).0 == k);
            }
        }
    }
}

proof fn lemma_map_of_index<V: View>(s: Seq<(u32, V)>, i: int)
    requires
        keys_unique(s),
        0 <= i < s.len(),
    ensures
        map_of(s).contains_key((s[i]).0),
        map_of(s)[(s[i]).0] == (s[i]).1@,
    decreases s.len(),
{
    if i == s.len() - 1 {
    } else {
        let sub = s.drop_last();
        assert(keys_unique(sub));
        lemma_map_of_index(sub, i);
        assert((s.last()).0 != (s[i]).0);
    }
}

proof fn lemma_map_of_dom_len<V: View>(s: Seq<(u32, V)>)
    requires
        keys_unique(s),
    ensures
        map_of(s).dom().finite(),
        map_of(s).dom().len() == s.len(),
    decreases s.len(),
{
    if s.len() == 0 {
        assert(map_of(s).dom() =~= Set::<u32>::empty());
    } else {
        let sub = s.drop_last();
        assert(keys_unique(sub));
        lemma_map_of_dom_len(sub);
        lemma_map_of_contains(sub, s.last().0);
        assert(!map_of(sub).contains_key(s.last().0)) by {
            if exists|i: int| 0 <= i < sub.len() && (#[trigger] sub[i]).0 == s.last().0 {
                let i = choose|i: int| 0 <= i < sub.len() && (#[trigger] sub[i]).0 == s.last().0;
                assert((s[i]).0 == (s[s.len() - 1]).0);
                assert(false);
            }
        }
    }
}

proof fn lemma_map_of_update<V: View>(s: Seq<(u32, V)>, i: int, id: u32, v: V)
    requires
        keys_unique(s),
        0 <= i < s.len(),
        (s[i]).0 == id,
    ensures
        map_of(s.update(i, (id, v))) == map_of(s).insert(id, v@),
        keys_unique(s.update(i, (id, v))),
{
    let s2 = s.update(i, (id, v));
    assert(forall|j: int| 0 <= j < s.len() ==> (#[trigger] s2[j]).0 == (s[j]).0);
    assert(keys_unique(s2));
    let target = map_of(s).insert(id, v@);
    assert forall|k: u32| map_of(s2).contains_key(k) == target.contains_key(k) by {
        lemma_map_of_contains(s, k);
        lemma_map_of_contains(s2, k);
        if k == id {
            assert((s2[i]).0 == k);
            assert((s[i]).0 == k);
        } else {
            if exists|j: int| 0 <= j < s.len() && (#[trigger] s[j]).0 == k {
                let j = choose|j: int| 0 <= j < s.len() && (#[trigger] s[j]).0 == k;
                assert((s2[j]).0 == k);
            }
            if exists|j: int| 0 <= j < s2.len() && (#[trigger] s2[j]).0 == k {
                let j = choose|j: int| 0 <= j < s2.len() && (#[trigger] s2[j]).0 == k;
                assert((s[j]).0 == k);
            }
        }
    }
    assert forall|k: u32| map_of(s2).contains_key(k) implies map_of(s2)[k] == target[k] by {
        if k == id {
            lemma_map_of_index(s2, i);
        } else {
            lemma_map_of_contains(s2, k);
            let j = choose|j: int| 0 <= j < s2.len() && (#[trigger] s2[j]).0 == k;
            assert(j != i);
            lemma_map_of_index(s2, j);
            lemma_map_of_index(s, j);
        }
    }
    assert(map_of(s2) =~= target);
}

proof fn lemma_map_of_push<V: View>(s: Seq<(u32, V)>, id: u32, v: V)
    requires
        keys_unique(s),
        forall|j: int| 0 <= j < s.len() ==> (#[trigger] s[j]).0 != id,
    ensures
        map_of(s.push((id, v))) == map_of(s).insert(id, v@),
        keys_unique(s.push((id, v))),
{
    let s2 = s.push((id, v));
    assert(s2.drop_last() =~= s);
    assert(s2.last() == (id, v));
    assert(keys_unique(s2)) by {
        assert(forall|j: int| 0 <= j < s.len() ==> (#[trigger] s2[j]).0 == (s[j]).0);
    }
}

proof fn lemma_map_of_swap_remove<V: View>(s: Seq<(u32, V)>, i: int)
    requires
        keys_unique(s),
        0 <= i < s.len(),
    ensures
        map_of(s.update(i, s.last()).drop_last()) == map_of(s).remove((s[i]).0),
        keys_unique(s.update(i, s.last()).drop_last()),
    decreases s.len(),
{
    let k0 = (s[i]).0;
    let n = s.len() as int;
    let s2 = s.update(i, s.last()).drop_last();
    assert(s2.len() == n - 1);
    assert(forall|j: int|
        0 <= j < n - 1 ==> (#[trigger] s2[j]) == (if j == i {
            s[n - 1]
        } else {
            s[j]
        }));
    assert(keys_unique(s2));
    let target = map_of(s).remove(k0);
    assert forall|k: u32| map_of(s2).contains_key(k) == target.contains_key(k) by {
        lemma_map_of_contains(s, k);
        lemma_map_of_contains(s2, k);
        if k == k0 {
            if exists|j: int| 0 <= j < s2.len() && (#[trigger] s2[j]).0 == k {
                let j = choose|j: int| 0 <= j < s2.len() && (#[trigger] s2[j]).0 == k;
                assert(false);
            }
        } else {
            if exists|j: int| 0 <= j < s.len() && (#[trigger] s[j]).0 == k {
                let j = choose|j: int| 0 <= j < s.len() && (#[trigger] s[j]).0 == k;
                assert(j != i);
                if j == n - 1 {
                    assert((s2[i]).0 == k);
                } else {
                    assert((s2[j]).0 == k);
                }
            }
            if exists|j: int| 0 <= j < s2.len() && (#[trigger] s2[j]).0 == k {
                let j = choose|j: int| 0 <= j < s2.len() && (#[trigger] s2[j]).0 == k;
                if j == i {
                    assert((s[n - 1]).0 == k);
                } else {
                    assert((s[j]).0 == k);
                }
            }
        }
    }
    assert forall|k: u32| map_of(s2).contains_key(k) implies map_of(s2)[k] == target[k] by {
        lemma_map_of_contains(s2, k);
        let j = choose|j: int| 0 <= j < s2.len() && (#[trigger] s2[j]).0 == k;
        lemma_map_of_index(s2, j);
        if j == i {
            lemma_map_of_index(s, n - 1);
        } else {
            lemma_map_of_index(s, j);
        }
    }
    assert(map_of(s2) =~= target);
}

/// A map from protocol id to record, stored as a vector of entries with
/// pairwise distinct ids.
pub struct IdMap<V> {
    entries: Vec<(u32, V)>,
}

impl<V> IdMap<V> {
    #[verifier::type_invariant]
    spec fn wf(self) -> bool {
        keys_unique(self.entries@)
    }
}

impl<V: View> View for IdMap<V> {
    type V = Map<u32, V::V>;

    closed spec fn view(&self) -> Map<u32, V::V> {
        map_of(self.entries@)
    }
}

impl<V: View> IdMap<V> {
    /// An empty store.
    pub fn new() -> (r: Self)
        ensures
            r@ == Map::<u32, V::V>::empty(),
    {
        IdMap { entries: Vec::new() }
    }

    /// The index holding `id`, if any.
    fn position_of(&self, id: u32) -> (r: Option<usize>)
        ensures
            match r {
                Some(i) => i < self.entries@.len() && (self.entries@[i as int]).0 == id,
                None => forall|j: int|
                    0 <= j < self.entries@.len() ==> (#[trigger] self.entries@[j]).0 != id,
            },
    {
        let n = self.entries.len();
        let mut i: usize = 0;
        while i < n
            invariant
                n == self.entries@.len(),
                i <= n,
                forall|j: int| 0 <= j < i ==> (#[trigger] self.entries@[j]).0 != id,
            decreases n - i,
        {
            if self.entries[i].0 == id {
                return Some(i);
            }
            i = i + 1;
        }
        None
    }

    /// Whether a record with this id is present.
    pub fn contains_key(&self, id: u32) -> (r: bool)
        ensures
            r == self@.contains_key(id),
    {
        proof {
            use_type_invariant(&*self);
            lemma_map_of_contains(self.entries@, id);
        }
        match self.position_of(id) {
            Some(_) => true,
            None => false,
        }
    }

    /// The record with this id, if any.
    pub fn get(&self, id: u32) -> (r: Option<&V>)
        ensures
            match r {
                Some(v) => self@.contains_key(id) && v@ == self@[id],
                None => !self@.contains_key(id),
            },
    {
        proof {
            use_type_invariant(&*self);
            lemma_map_of_contains(self.entries@, id);
        }
        match self.position_of(id) {
            Some(i) => {
                proof {
                    lemma_map_of_index(self.entries@, i as int);
                }
                Some(&self.entries[i].1)
            }
            None => None,
        }
    }

    /// Insert the record, replacing any record the id already had.
    pub fn upsert(&mut self, id: u32, v: V)
        ensures
            final(self)@ == old(self)@.insert(id, v@),
    {
        proof {
            use_type_invariant(&*self);
        }
        let ghost s0 = self.entries@;
        let pos = self.position_of(id);
        let mut es: Vec<(u32, V)> = Vec::new();
        std::mem::swap(&mut es, &mut self.entries);
        match pos {
            Some(i) => {
                proof {
                    lemma_map_of_update(s0, i as int, id, v);
                }
                es[i] = (id, v);
            }
            None => {
                proof {
                    lemma_map_of_push(s0, id, v);
                }
                es.push((id, v));
            }
        }
        self.entries = es;
    }

    /// Take the record with this id out of the store.
    pub fn remove(&mut self, id: u32) -> (r: Option<V>)
        ensures
            final(self)@ == old(self)@.remove(id),
            match r {
                Some(v) => old(self)@.contains_key(id) && v@ == old(self)@[id],
                None => !old(self)@.contains_key(id),
            },
    {
        proof {
            use_type_invariant(&*self);
            lemma_map_of_contains(self.entries@, id);
        }
        let ghost s0 = self.entries@;
        let pos = self.position_of(id);
        match pos {
            Some(i) => {
                proof {
                    lemma_map_of_index(s0, i as int);
                    lemma_map_of_swap_remove(s0, i as int);
                }
                let mut es: Vec<(u32, V)> = Vec::new();
                std::mem::swap(&mut es, &mut self.entries);
                let e = es.swap_remove(i);
                self.entries = es;
                Some(e.1)
            }
            None => {
                proof {
                    assert(map_of(s0).remove(id) =~= map_of(s0));
                }
                None
            }
        }
    }

    /// How many records the store holds.
    pub fn len(&self) -> (r: usize)
        ensures
            r == self@.dom().len(),
    {
        proof {
            use_type_invariant(&*self);
            lemma_map_of_dom_len(self.entries@);
        }
        self.entries.len()
    }

    /// The entries as a sequence, in no promised order: each entry is in the
    /// map, and every id of the map occurs exactly once.
    pub fn entries(&self) -> (r: &Vec<(u32, V)>)
        ensures
            r@.len() == self@.dom().len(),
            keys_unique(r@),
            forall|i: int|
                0 <= i < r@.len() ==> self@.contains_key((#[trigger] r@[i]).0) && (r@[i]).1@
                    == self@[(r@[i]).0],
            forall|k: u32|
                self@.contains_key(k) ==> exists|i: int|
                    0 <= i < r@.len() && (#[trigger] r@[i]).0 == k,
    {
        proof {
            use_type_invariant(&*self);
            lemma_map_of_dom_len(self.entries@);
            assert forall|i: int| 0 <= i < self.entries@.len() implies self@.contains_key(
                (#[trigger] self.entries@[i]).0,
            ) && (self.entries@[i]).1@ == self@[(self.entries@[i]).0] by {
                lemma_map_of_index(self.entries@, i);
            }
            assert forall|k: u32| self@.contains_key(k) implies exists|i: int|
                0 <= i < self.entries@.len() && (#[trigger] self.entries@[i]).0 == k by {
                lemma_map_of_contains(self.entries@, k);
            }
        }
        &self.entries
    }
}

} // verus!

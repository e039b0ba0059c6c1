use vstd::prelude::*;

verus! {

/// The map that an association list denotes: a later entry for a name
/// replaces an earlier one.
pub open spec fn map_of<V>(entries: Seq<(String, V)>) -> Map<Seq<char>, V>
    decreases entries.len(),
{
    if entries.len() == 0 {
        Map::empty()
    } else {
        map_of(entries.drop_last()).insert(entries.last().0@, entries.last().1)
    }
}

/// No name occurs twice in the list.
pub open spec fn keys_unique<V>(entries: Seq<(String, V)>) -> bool {
    forall|i: int, j: int|
        0 <= i < entries.len() && 0 <= j < entries.len() && i != j ==> #[trigger] entries[i].0@
            != #[trigger] entries[j].0@
}

/// Some entry of the list carries the name `k`.
pub open spec fn has_key<V>(entries: Seq<(String, V)>, k: Seq<char>) -> bool {
    exists|i: int| 0 <= i < entries.len() && #[trigger] entries[i].0@ == k
}

pub proof fn lemma_map_of_dom<V>(entries: Seq<(String, V)>, k: Seq<char>)
    ensures
        map_of(entries).contains_key(k) <==> has_key(entries, k),
    decreases entries.len(),
{
    if entries.len() > 0 {
        let init = entries.drop_last();
        lemma_map_of_dom(init, k);
        if has_key(init, k) {
            let i = choose|i: int| 0 <= i < init.len() && #[trigger] init[i].0@ == k;
            assert(entries[i].0@ == k);
        }
        if has_key(entries, k) && entries.last().0@ != k {
            let i = choose|i: int| 0 <= i < entries.len() && #[trigger] entries[i].0@ == k;
            assert(init[i].0@ == k);
        }
    }
}

pub proof fn lemma_map_of_at<V>(entries: Seq<(String, V)>, i: int)
    requires
        keys_unique(entries),
        0 <= i < entries.len(),
    ensures
        map_of(entries).contains_key(entries[i].0@),
        map_of(entries)[entries[i].0@] == entries[i].1,
    decreases entries.len(),
{
    let init = entries.drop_last();
    if i < entries.len() - 1 {
        assert(init[i] == entries[i]);
        assert(keys_unique(init)) by {
            assert forall|a: int, b: int|
                0 <= a < init.len() && 0 <= b < init.len() && a != b implies #[trigger] init[a].0@
                != #[trigger] init[b].0@ by {
                assert(init[a] == entries[a] && init[b] == entries[b]);
            }
        }
        lemma_map_of_at(init, i);
        assert(entries[entries.len() - 1].0@ != entries[i].0@);
    }
}

pub proof fn lemma_map_of_len<V>(entries: Seq<(String, V)>)
    requires
        keys_unique(entries),
    ensures
        map_of(entries).dom().finite(),
        map_of(entries).len() == entries.len(),
    decreases entries.len(),
{
    if entries.len() > 0 {
        let init = entries.drop_last();
        assert(keys_unique(init)) by {
            assert forall|a: int, b: int|
                0 <= a < init.len() && 0 <= b < init.len() && a != b implies #[trigger] init[a].0@
                != #[trigger] init[b].0@ by {
                assert(init[a] == entries[a] && init[b] == entries[b]);
            }
        }
        lemma_map_of_len(init);
        lemma_map_of_dom(init, entries.last().0@);
        if has_key(init, entries.last().0@) {
            let i = choose|i: int|
                0 <= i < init.len() && #[trigger] init[i].0@ == entries.last().0@;
            assert(entries[i].0@ == entries[entries.len() - 1].0@);
        }
    }
}

/// Replacing the value of one entry, under the same name, is an insert.
pub proof fn lemma_map_of_update<V>(entries: Seq<(String, V)>, i: int, entry: (String, V))
    requires
        keys_unique(entries),
        0 <= i < entries.len(),
        entry.0@ == entries[i].0@,
    ensures
        keys_unique(entries.update(i, entry)),
        map_of(entries.update(i, entry)) == map_of(entries).insert(entry.0@, entry.1),
{
    let next = entries.update(i, entry);
    assert(keys_unique(next)) by {
        assert forall|a: int, b: int|
            0 <= a < next.len() && 0 <= b < next.len() && a != b implies #[trigger] next[a].0@
            != #[trigger] next[b].0@ by {
            assert(next[a].0@ == entries[a].0@ && next[b].0@ == entries[b].0@);
        }
    }
    let lhs = map_of(next);
    let rhs = map_of(entries).insert(entry.0@, entry.1);
    assert forall|k: Seq<char>| lhs.contains_key(k) <==> rhs.contains_key(k) by {
        lemma_map_of_dom(next, k);
        lemma_map_of_dom(entries, k);
        if has_key(entries, k) {
            let j = choose|j: int| 0 <= j < entries.len() && #[trigger] entries[j].0@ == k;
            assert(next[j].0@ == k);
        }
        if has_key(next, k) {
            let j = choose|j: int| 0 <= j < next.len() && #[trigger] next[j].0@ == k;
            assert(entries[j].0@ == k);
        }
    }
    assert forall|k: Seq<char>| lhs.contains_key(k) implies lhs[k] == rhs[k] by {
        lemma_map_of_dom(next, k);
        let j = choose|j: int| 0 <= j < next.len() && #[trigger] next[j].0@ == k;
        lemma_map_of_at(next, j);
        if j != i {
            assert(entries[j].0@ == k);
            lemma_map_of_at(entries, j);
        }
    }
    assert(lhs =~= rhs);
}

pub proof fn lemma_map_of_push<V>(entries: Seq<(String, V)>, entry: (String, V))
    ensures
        map_of(entries.push(entry)) == map_of(entries).insert(entry.0@, entry.1),
{
    assert(entries.push(entry).drop_last() =~= entries);
}

/// A map from names to values that keeps its entries in the order in which
/// their names were first inserted.
#[derive(Debug)]
pub struct NameMap<V> {
    entries: Vec<(String, V)>,
}

impl<V> View for NameMap<V> {
    type V = Map<Seq<char>, V>;

    open spec fn view(&self) -> Map<Seq<char>, V> {
        map_of(self.pairs())
    }
}

impl<V> NameMap<V> {
    #[verifier::type_invariant]
    spec fn names_distinct(&self) -> bool {
        keys_unique(self.entries@)
    }

    /// The entries, in order.
    pub closed spec fn pairs(&self) -> Seq<(String, V)> {
        self.entries@
    }

    pub fn new() -> (r: Self)
        ensures
            r.pairs() == Seq::<(String, V)>::empty(),
            r@ == Map::<Seq<char>, V>::empty(),
    {
        NameMap { entries: Vec::new() }
    }

    /// The entries, in order; no name occurs twice among them.
    pub fn entries(&self) -> (r: &Vec<(String, V)>)
        ensures
            r@ == self.pairs(),
            keys_unique(r@),
    {
        proof {
            use_type_invariant(self);
        }
        &self.entries
    }

    /// Builds a map from entries whose names are distinct, keeping their order.
    pub fn from_entries(entries: Vec<(String, V)>) -> (r: Self)
        requires
            keys_unique(entries@),
        ensures
            r.pairs() == entries@,
    {
        NameMap { entries }
    }

    pub fn into_entries(self) -> (r: Vec<(String, V)>)
        ensures
            r@ == self.pairs(),
            keys_unique(r@),
    {
        proof {
            use_type_invariant(&self);
        }
        self.entries
    }

    pub fn len(&self) -> (r: usize)
        ensures
            r == self.pairs().len(),
            r == self@.len(),
            self@.dom().finite(),
    {
        proof {
            use_type_invariant(self);
            lemma_map_of_len(self.entries@);
        }
        self.entries.len()
    }

    pub fn is_empty(&self) -> (r: bool)
        ensures
            r <==> self@.len() == 0,
    {
        self.len() == 0
    }

    /// The position of the entry named `k`, if there is one.
    pub fn position(&self, k: &str) -> (r: Option<usize>)
        ensures
            match r {
                Some(i) => i < self.pairs().len() && self.pairs()[i as int].0@ == k@,
                None => !has_key(self.pairs(), k@),
            },
            r is Some <==> self@.contains_key(k@),
    {
        proof {
            lemma_map_of_dom(self.entries@, k@);
        }
        let wanted = k.to_owned();
        let mut i: usize = 0;
        while i < self.entries.len()
            invariant
                i <= self.entries@.len(),
                wanted@ == k@,
                forall|j: int| 0 <= j < i ==> #[trigger] self.entries@[j].0@ != k@,
            decreases self.entries@.len() - i,
        {
            if self.entries[i].0 == wanted {
                proof {
                    lemma_map_of_dom(self.entries@, k@);
                    assert(self.entries@[i as int].0@ == k@);
                }
                return Some(i);
            }
            i = i + 1;
        }
        None
    }

    pub fn contains_key(&self, k: &str) -> (r: bool)
        ensures
            r == self@.contains_key(k@),
    {
        self.position(k).is_some()
    }

    pub fn get(&self, k: &str) -> (r: Option<&V>)
        ensures
            match r {
                Some(v) => self@.contains_key(k@) && *v == self@[k@],
                None => !self@.contains_key(k@),
            },
    {
        proof {
            use_type_invariant(self);
        }
        match self.position(k) {
            Some(i) => {
                proof {
                    lemma_map_of_at(self.entries@, i as int);
                }
                Some(&self.entries[i].1)
            },
            None => None,
        }
    }

    /// Sets the value under `k`: an entry of that name keeps its place, a new
    /// name goes last.
    pub fn insert(&mut self, k: String, v: V)
        ensures
            final(self)@ == old(self)@.insert(k@, v),
            has_key(old(self).pairs(), k@) ==> final(self).pairs().len() == old(self).pairs().len(),
            !has_key(old(self).pairs(), k@) ==> final(self).pairs() == old(self).pairs().push((k, v)),
    {
        proof {
            use_type_invariant(&*self);
        }
        match self.position(k.as_str()) {
            Some(i) => {
                proof {
                    lemma_map_of_update(self.entries@, i as int, (k, v));
                }
                let mut taken = NameMap::new();
                std::mem::swap(self, &mut taken);
                let NameMap { mut entries } = taken;
                entries.set(i, (k, v));
                *self = NameMap { entries };
            },
            None => {
                proof {
                    lemma_map_of_push(self.entries@, (k, v));
                    assert(keys_unique(self.entries@.push((k, v)))) by {
                        let next = self.entries@.push((k, v));
                        assert forall|a: int, b: int|
                            0 <= a < next.len() && 0 <= b < next.len() && a != b implies #[trigger] next[a].0@
                            != #[trigger] next[b].0@ by {
                            if a < self.entries@.len() && b < self.entries@.len() {
                                assert(next[a] == self.entries@[a] && next[b] == self.entries@[b]);
                            } else if a < self.entries@.len() {
                                assert(next[a] == self.entries@[a]);
                            } else {
                                assert(next[b] == self.entries@[b]);
                            }
                        }
                    }
                }
                let mut taken = NameMap::new();
                std::mem::swap(self, &mut taken);
                let NameMap { mut entries } = taken;
                entries.push((k, v));
                *self = NameMap { entries };
            },
        }
    }
}

impl<V: Clone> Clone for NameMap<V> {
    /// Clones each entry; names are copied exactly.
    fn clone(&self) -> (r: Self)
        ensures
            r.pairs().len() == self.pairs().len(),
            forall|i: int|
                0 <= i < self.pairs().len() ==> #[trigger] r.pairs()[i].0 == self.pairs()[i].0
                    && cloned(self.pairs()[i].1, r.pairs()[i].1),
    {
        proof {
            use_type_invariant(self);
        }
        let mut entries: Vec<(String, V)> = Vec::new();
        let mut i: usize = 0;
        while i < self.entries.len()
            invariant
                i <= self.entries@.len(),
                entries@.len() == i,
                keys_unique(self.entries@),
                forall|j: int|
                    0 <= j < i ==> #[trigger] entries@[j].0 == self.entries@[j].0 && cloned(
                        self.entries@[j].1,
                        entries@[j].1,
                    ),
            decreases self.entries@.len() - i,
        {
            let name = self.entries[i].0.clone();
            let value = self.entries[i].1.clone();
            entries.push((name, value));
            i = i + 1;
        }
        assert(keys_unique(entries@)) by {
            assert forall|a: int, b: int|
                0 <= a < entries@.len() && 0 <= b < entries@.len() && a != b implies #[trigger] entries@[a].0@
                != #[trigger] entries@[b].0@ by {
                assert(entries@[a].0 == self.entries@[a].0 && entries@[b].0 == self.entries@[b].0);
            }
        }
        NameMap { entries }
    }
}

} // verus!

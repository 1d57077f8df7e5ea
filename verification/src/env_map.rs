//! `EnvMap`: an environment (variable name to value), kept in insertion order
//! with every name present at most once.
use vstd::prelude::*;
use crate::text::str_eq;

verus! {

/// The map that a sequence of (name, value) entries denotes: later entries win.
pub open spec fn pairs_map(p: Seq<(Seq<char>, Seq<char>)>) -> Map<Seq<char>, Seq<char>>
    decreases p.len(),
{
    if p.len() == 0 {
        Map::empty()
    } else {
        pairs_map(p.drop_last()).insert(p.last().0, p.last().1)
    }
}

/// No name occurs twice among the entries.
pub open spec fn unique_keys(p: Seq<(Seq<char>, Seq<char>)>) -> bool {
    forall|i: int, j: int| 0 <= i < p.len() && 0 <= j < p.len() && i != j ==> p[i].0 != p[j].0
}

/// Whether some entry has name `k`.
pub open spec fn has_key(p: Seq<(Seq<char>, Seq<char>)>, k: Seq<char>) -> bool {
    exists|i: int| 0 <= i < p.len() && p[i].0 == k
}

/// The names of the entries, in order.
pub open spec fn keys_of(p: Seq<(Seq<char>, Seq<char>)>) -> Seq<Seq<char>> {
    p.map_values(|e: (Seq<char>, Seq<char>)| e.0)
}

/// What `pairs_map` holds: the names of the entries, each with its unique value.
pub proof fn lemma_pairs_map(p: Seq<(Seq<char>, Seq<char>)>)
    requires
        unique_keys(p),
    ensures
        forall|k: Seq<char>| #[trigger] pairs_map(p).contains_key(k) <==> has_key(p, k),
        forall|i: int| 0 <= i < p.len() ==> #[trigger] pairs_map(p)[p[i].0] == p[i].1,
    decreases p.len(),
{
    if p.len() > 0 {
        let q = p.drop_last();
        assert(unique_keys(q));
        lemma_pairs_map(q);
        let last = p.last();
        assert(pairs_map(p) == pairs_map(q).insert(last.0, last.1));
        assert forall|k: Seq<char>| #[trigger] pairs_map(p).contains_key(k) <==> has_key(p, k) by {
            if has_key(p, k) {
                let i = choose|i: int| 0 <= i < p.len() && p[i].0 == k;
                if i < q.len() {
                    assert(q[i].0 == k);
                    assert(has_key(q, k));
                }
            }
            if has_key(q, k) {
                let i = choose|i: int| 0 <= i < q.len() && q[i].0 == k;
                assert(p[i].0 == k);
            }
            if k == last.0 {
                assert(p[p.len() - 1].0 == k);
            }
        }
        assert forall|i: int| 0 <= i < p.len() implies #[trigger] pairs_map(p)[p[i].0] == p[i].1 by {
            if i < q.len() {
                assert(q[i] == p[i]);
                assert(p[i].0 != last.0);
                assert(pairs_map(q)[q[i].0] == q[i].1);
            }
        }
    }
}

/// An environment: names mapped to values, in insertion order.
#[derive(Debug)]
pub struct EnvMap {
    entries: Vec<(String, String)>,
}

impl EnvMap {
    /// The entries as (name, value) character sequences, in order.
    pub closed spec fn pairs(&self) -> Seq<(Seq<char>, Seq<char>)> {
        self.entries@.map_values(|e: (String, String)| (e.0@, e.1@))
    }

    /// Every `EnvMap` holds each name at most once.
    #[verifier::type_invariant]
    pub open spec fn names_unique(&self) -> bool {
        unique_keys(self.pairs())
    }

    /// An `EnvMap` whose names are unique denotes the map of its entries.
    pub proof fn lemma_view(&self)
        requires
            self.names_unique(),
        ensures
            self@ == pairs_map(self.pairs()),
            forall|k: Seq<char>| #[trigger] self@.contains_key(k) <==> has_key(self.pairs(), k),
            forall|i: int|
                0 <= i < self.pairs().len() ==> #[trigger] self@[self.pairs()[i].0]
                    == self.pairs()[i].1,
    {
        lemma_pairs_map(self.pairs());
    }

    /// The empty environment.
    pub fn new() -> (m: Self)
        ensures
            m.pairs() == Seq::<(Seq<char>, Seq<char>)>::empty(),
            m@ == Map::<Seq<char>, Seq<char>>::empty(),
    {
        let m = EnvMap { entries: Vec::new() };
        assert(m.pairs() =~= Seq::<(Seq<char>, Seq<char>)>::empty());
        m
    }

    /// Number of names.
    pub fn len(&self) -> (n: usize)
        ensures
            n == self.pairs().len(),
    {
        self.entries.len()
    }

    /// Whether the environment holds no name.
    pub fn is_empty(&self) -> (b: bool)
        ensures
            b == (self.pairs().len() == 0),
    {
        self.entries.len() == 0
    }

    /// The name of entry `i`.
    pub fn key_at(&self, i: usize) -> (k: &String)
        requires
            i < self.pairs().len(),
        ensures
            k@ == self.pairs()[i as int].0,
    {
        &self.entries[i].0
    }

    /// The value of entry `i`.
    pub fn value_at(&self, i: usize) -> (v: &String)
        requires
            i < self.pairs().len(),
        ensures
            v@ == self.pairs()[i as int].1,
    {
        &self.entries[i].1
    }

    /// Position of the entry named `key`, if any.
    pub fn find(&self, key: &str) -> (r: Option<usize>)
        ensures
            r matches Some(i) ==> i < self.pairs().len() && self.pairs()[i as int].0 == key@,
            r is None ==> !has_key(self.pairs(), key@),
    {
        let mut i: usize = 0;
        while i < self.entries.len()
            invariant
                i <= self.entries@.len(),
                forall|j: int| 0 <= j < i ==> self.pairs()[j].0 != key@,
            decreases self.entries@.len() - i,
        {
            if str_eq(self.entries[i].0.as_str(), key) {
                return Some(i);
            }
            i = i + 1;
        }
        None
    }

    /// The value named `key`, if any.
    pub fn get(&self, key: &str) -> (r: Option<&String>)
        ensures
            r matches Some(v) ==> self@.contains_key(key@) && self@[key@] == v@,
            r is None ==> !self@.contains_key(key@),
    {
        proof {
            use_type_invariant(self);
            self.lemma_view();
        }
        match self.find(key) {
            Some(i) => Some(&self.entries[i].1),
            None => None,
        }
    }

    /// Whether a value is named `key`.
    pub fn contains_key(&self, key: &str) -> (b: bool)
        ensures
            b == self@.contains_key(key@),
    {
        proof {
            use_type_invariant(self);
            self.lemma_view();
        }
        self.find(key).is_some()
    }

    /// Sets `key` to `value`: an existing entry keeps its place, a new one goes last.
    pub fn insert(&mut self, key: String, value: String)
        ensures
            final(self)@ == old(self)@.insert(key@, value@),
            has_key(old(self).pairs(), key@) ==> final(self).pairs().len() == old(self).pairs().len(),
            !has_key(old(self).pairs(), key@) ==> final(self).pairs() == old(self).pairs().push(
                (key@, value@),
            ),
            keys_of(final(self).pairs()) == if has_key(old(self).pairs(), key@) {
                keys_of(old(self).pairs())
            } else {
                keys_of(old(self).pairs()).push(key@)
            },
    {
        proof {
            use_type_invariant(&*self);
            lemma_pairs_map(self.pairs());
        }
        let ghost old_pairs = self.pairs();
        match self.find(key.as_str()) {
            Some(i) => {
                let ghost new_pairs = old_pairs.update(i as int, (key@, value@));
                assert(unique_keys(new_pairs));
                let mut entries: Vec<(String, String)> = Vec::new();
                std::mem::swap(&mut entries, &mut self.entries);
                entries.set(i, (key, value));
                assert(entries@.map_values(|e: (String, String)| (e.0@, e.1@)) =~= new_pairs);
                self.entries = entries;
                assert(self.pairs() =~= new_pairs);
                proof {
                    lemma_pairs_map(new_pairs);
                    assert(self@ =~= old(self)@.insert(key@, value@)) by {
                        assert forall|k: Seq<char>| #[trigger] self@.contains_key(k)
                            == old(self)@.insert(key@, value@).contains_key(k) by {
                            if has_key(old_pairs, k) {
                                let j = choose|j: int| 0 <= j < old_pairs.len() && old_pairs[j].0 == k;
                                assert(new_pairs[j].0 == k);
                            }
                            if has_key(new_pairs, k) {
                                let j = choose|j: int| 0 <= j < new_pairs.len() && new_pairs[j].0 == k;
                                if j != i {
                                    assert(old_pairs[j].0 == k);
                                }
                            }
                        }
                        assert forall|k: Seq<char>| #[trigger] self@.contains_key(k) implies self@[k]
                            == old(self)@.insert(key@, value@)[k] by {
                            let j = choose|j: int| 0 <= j < new_pairs.len() && new_pairs[j].0 == k;
                            assert(self@[new_pairs[j].0] == new_pairs[j].1);
                            if j != i {
                                assert(old(self)@[old_pairs[j].0] == old_pairs[j].1);
                            }
                        }
                    }
                    assert(keys_of(self.pairs()) =~= keys_of(old_pairs));
                }
            },
            None => {
                let mut entries: Vec<(String, String)> = Vec::new();
                std::mem::swap(&mut entries, &mut self.entries);
                entries.push((key, value));
                assert(entries@.map_values(|e: (String, String)| (e.0@, e.1@)) =~= old_pairs.push((key@, value@)));
                assert(unique_keys(old_pairs.push((key@, value@))));
                self.entries = entries;
                assert(self.pairs() =~= old_pairs.push((key@, value@)));
                assert(keys_of(self.pairs()) =~= keys_of(old_pairs).push(key@));
                assert(self.pairs().drop_last() =~= old_pairs);
            },
        }
    }

    /// Inserts every entry of `other` in order (what `HashMap::extend` does): `other` wins.
    pub fn extend(&mut self, other: &EnvMap)
        ensures
            final(self)@ == old(self)@.union_prefer_right(other@),
    {
        let mut i: usize = 0;
        proof {
            lemma_pairs_prefix_union(old(self)@, other.pairs(), 0);
        }
        while i < other.len()
            invariant
                i <= other.pairs().len(),
                self@ == old(self)@.union_prefer_right(pairs_map(other.pairs().take(i as int))),
            decreases other.pairs().len() - i,
        {
            let k = other.key_at(i).clone();
            let v = other.value_at(i).clone();
            self.insert(k, v);
            proof {
                assert(other.pairs().take(i + 1).drop_last() =~= other.pairs().take(i as int));
                assert(self@ =~= old(self)@.union_prefer_right(pairs_map(other.pairs().take(i + 1))));
            }
            i = i + 1;
        }
        proof {
            assert(other.pairs().take(i as int) =~= other.pairs());
        }
    }
}

proof fn lemma_pairs_prefix_union(m: Map<Seq<char>, Seq<char>>, p: Seq<(Seq<char>, Seq<char>)>, n: int)
    requires
        n == 0,
    ensures
        m.union_prefer_right(pairs_map(p.take(n))) == m,
{
    assert(p.take(n) =~= Seq::<(Seq<char>, Seq<char>)>::empty());
    assert(m.union_prefer_right(pairs_map(p.take(n))) =~= m);
}

impl Clone for EnvMap {
    /// A copy of this environment, entry for entry.
    fn clone(&self) -> (c: Self)
        ensures
            c.pairs() == self.pairs(),
            c@ == self@,
    {
        proof {
            use_type_invariant(self);
        }
        let mut entries: Vec<(String, String)> = Vec::new();
        let mut i: usize = 0;
        while i < self.entries.len()
            invariant
                i <= self.entries@.len(),
                entries@.len() == i,
                forall|j: int| 0 <= j < i ==> #[trigger] entries@[j].0@ == self.entries@[j].0@
                    && entries@[j].1@ == self.entries@[j].1@,
            decreases self.entries@.len() - i,
        {
            let k = self.entries[i].0.clone();
            let v = self.entries[i].1.clone();
            entries.push((k, v));
            i = i + 1;
        }
        assert(entries@.map_values(|e: (String, String)| (e.0@, e.1@)) =~= self.pairs());
        EnvMap { entries }
    }
}

impl View for EnvMap {
    type V = Map<Seq<char>, Seq<char>>;

    closed spec fn view(&self) -> Map<Seq<char>, Seq<char>> {
        pairs_map(self.pairs())
    }
}

} // verus!

//! A map keyed by text, kept in key order.

use vstd::prelude::*;
use crate::text::{before, lemma_lt_irreflexive, lemma_lt_total, lemma_lt_transitive, lt, same};

verus! {

/// A map from text to values. Iterating it visits the keys in ascending order.
pub struct TextMap<V> {
    entries: Vec<(String, V)>,
}

/// The keys of a run of entries, in their order.
pub open spec fn keys_of<V>(e: Seq<(String, V)>) -> Seq<Seq<char>> {
    Seq::new(e.len(), |i: int| e[i].0@)
}

/// Every key comes before the ones behind it.
pub open spec fn ascending(k: Seq<Seq<char>>) -> bool {
    forall|i: int, j: int| 0 <= i < j < k.len() ==> lt(#[trigger] k[i], #[trigger] k[j])
}

/// The map that a run of entries stands for.
pub open spec fn map_of<V>(e: Seq<(String, V)>) -> Map<Seq<char>, V> {
    Map::new(
        |k: Seq<char>| keys_of(e).contains(k),
        |k: Seq<char>| e[keys_of(e).index_of(k)].1,
    )
}

proof fn lemma_ascending_distinct(k: Seq<Seq<char>>)
    requires
        ascending(k),
    ensures
        k.no_duplicates(),
{
    assert forall|i: int, j: int| 0 <= i < k.len() && 0 <= j < k.len() && i != j implies k[i]
        != k[j] by {
        lemma_lt_irreflexive(k[i]);
        if i < j {
            assert(lt(k[i], k[j]));
        } else {
            assert(lt(k[j], k[i]));
        }
    }
}

proof fn lemma_map_at<V>(e: Seq<(String, V)>, i: int)
    requires
        ascending(keys_of(e)),
        0 <= i < e.len(),
    ensures
        map_of(e).dom().contains(e[i].0@),
        map_of(e)[e[i].0@] == e[i].1,
{
    lemma_ascending_distinct(keys_of(e));
    assert(keys_of(e)[i] == e[i].0@);
    let j = keys_of(e).index_of(e[i].0@);
    assert(keys_of(e)[j] == keys_of(e)[i]);
}

impl<V> View for TextMap<V> {
    type V = Map<Seq<char>, V>;

    closed spec fn view(&self) -> Map<Seq<char>, V> {
        map_of(self.entries@)
    }
}

impl<V> TextMap<V> {
    #[verifier::type_invariant]
    spec fn ordered(self) -> bool {
        ascending(keys_of(self.entries@))
    }

    /// The keys, in the order in which they are visited.
    pub closed spec fn keys(&self) -> Seq<Seq<char>> {
        keys_of(self.entries@)
    }

    pub fn new() -> (r: Self)
        ensures
            r@ == Map::<Seq<char>, V>::empty(),
            r.keys().len() == 0,
    {
        let r = TextMap { entries: Vec::new() };
        assert(r@ =~= Map::<Seq<char>, V>::empty());
        r
    }

    /// The keys are in ascending order and are those of the map, each with its value.
    pub fn len(&self) -> (n: usize)
        ensures
            n == self.keys().len(),
            ascending(self.keys()),
            forall|k: Seq<char>| self@.dom().contains(k) <==> self.keys().contains(k),
    {
        proof {
            use_type_invariant(self);
        }
        self.entries.len()
    }

    pub fn key_at(&self, i: usize) -> (k: &String)
        requires
            i < self.keys().len(),
        ensures
            k@ == self.keys()[i as int],
            self@.dom().contains(k@),
    {
        proof {
            use_type_invariant(self);
            lemma_map_at(self.entries@, i as int);
        }
        &self.entries[i].0
    }

    pub fn value_at(&self, i: usize) -> (v: &V)
        requires
            i < self.keys().len(),
        ensures
            self@.dom().contains(self.keys()[i as int]),
            *v == self@[self.keys()[i as int]],
    {
        proof {
            use_type_invariant(self);
            lemma_map_at(self.entries@, i as int);
        }
        &self.entries[i].1
    }

    /// Where `key` stands, or where it would be put.
    fn slot(&self, key: &str) -> (r: (usize, bool))
        ensures
            r.0 <= self.entries.len(),
            r.1 ==> r.0 < self.entries.len() && self.entries@[r.0 as int].0@ == key@,
            !r.1 ==> !keys_of(self.entries@).contains(key@),
            !r.1 ==> forall|j: int|
                0 <= j < r.0 ==> lt(#[trigger] keys_of(self.entries@)[j], key@),
            !r.1 ==> forall|j: int|
                r.0 <= j < self.entries.len() ==> lt(key@, #[trigger] keys_of(self.entries@)[j]),
    {
        proof {
            use_type_invariant(self);
        }
        let ghost ks = keys_of(self.entries@);
        let mut i: usize = 0;
        while i < self.entries.len() && before(self.entries[i].0.as_str(), key)
            invariant
                i <= self.entries.len(),
                ks == keys_of(self.entries@),
                forall|j: int| 0 <= j < i ==> lt(#[trigger] ks[j], key@),
            decreases self.entries.len() - i,
        {
            i = i + 1;
        }
        if i < self.entries.len() && same(self.entries[i].0.as_str(), key) {
            (i, true)
        } else {
            proof {
                if i < self.entries.len() {
                    lemma_lt_total(ks[i as int], key@);
                    assert forall|j: int| i <= j < ks.len() implies lt(key@, #[trigger] ks[j]) by {
                        if i < j {
                            lemma_lt_transitive(key@, ks[i as int], ks[j]);
                        }
                    }
                }
                if ks.contains(key@) {
                    let j = ks.index_of(key@);
                    lemma_lt_irreflexive(key@);
                    assert(ks[j] == key@);
                }
            }
            (i, false)
        }
    }

    pub fn get(&self, key: &str) -> (r: Option<&V>)
        ensures
            match r {
                Some(v) => self@.dom().contains(key@) && *v == self@[key@],
                None => !self@.dom().contains(key@),
            },
    {
        let (i, found) = self.slot(key);
        if found {
            proof {
                use_type_invariant(self);
                lemma_map_at(self.entries@, i as int);
            }
            Some(&self.entries[i].1)
        } else {
            None
        }
    }

    pub fn contains_key(&self, key: &str) -> (r: bool)
        ensures
            r == self@.dom().contains(key@),
    {
        self.get(key).is_some()
    }

    pub fn insert(&mut self, key: &str, value: V)
        ensures
            final(self)@ == old(self)@.insert(key@, value),
    {
        let (i, found) = self.slot(key);
        let ghost e = self.entries@;
        proof {
            use_type_invariant(&*self);
            lemma_ascending_distinct(keys_of(e));
        }
        let mut entries: Vec<(String, V)> = Vec::new();
        core::mem::swap(&mut self.entries, &mut entries);
        if found {
            entries.set(i, (key.to_owned(), value));
            proof {
                let f = entries@;
                assert(keys_of(f) =~= keys_of(e));
                lemma_map_at(f, i as int);
                assert(keys_of(e)[i as int] == key@);
                assert forall|k: Seq<char>| #[trigger] keys_of(e).contains(k) && k
                    != key@ implies f[keys_of(f).index_of(k)] == e[keys_of(e).index_of(k)] by {
                    assert(keys_of(e)[keys_of(e).index_of(k)] == k);
                }
                assert(map_of(f) =~= map_of(e).insert(key@, value));
            }
        } else {
            entries.insert(i, (key.to_owned(), value));
            proof {
                let v = entries@[i as int];
                assert(entries@ =~= e.insert(i as int, v));
                let ks = keys_of(e);
                let n = keys_of(entries@);
                assert(n =~= ks.insert(i as int, key@));
                assert forall|a: int, b: int| 0 <= a < b < n.len() implies lt(
                    #[trigger] n[a],
                    #[trigger] n[b],
                ) by {
                    if a < i && b < i {
                        assert(lt(ks[a], ks[b]));
                    } else if a < i && b == i {
                        assert(lt(ks[a], key@));
                    } else if a < i {
                        assert(lt(ks[a], ks[b - 1]));
                    } else if a == i {
                        assert(lt(key@, ks[b - 1]));
                    } else {
                        assert(lt(ks[a - 1], ks[b - 1]));
                    }
                }
                lemma_insert_map(e, i as int, v);
            }
        }
        self.entries = entries;
    }

    pub fn remove(&mut self, key: &str) -> (r: Option<V>)
        ensures
            final(self)@ == old(self)@.remove(key@),
            match r {
                Some(v) => old(self)@.dom().contains(key@) && v == old(self)@[key@],
                None => !old(self)@.dom().contains(key@),
            },
    {
        let (i, found) = self.slot(key);
        let ghost e = self.entries@;
        if found {
            proof {
                use_type_invariant(&*self);
                lemma_remove_map(e, i as int);
            }
            let mut entries: Vec<(String, V)> = Vec::new();
            core::mem::swap(&mut self.entries, &mut entries);
            let (_, v) = entries.remove(i);
            self.entries = entries;
            Some(v)
        } else {
            assert(old(self)@ =~= old(self)@.remove(key@));
            None
        }
    }

    pub fn duplicate(&self) -> (r: Self) where V: Clone
        ensures
            r.keys() == self.keys(),
            r@.dom() == self@.dom(),
            forall|k: Seq<char>|
                self@.dom().contains(k) ==> cloned::<V>(#[trigger] self@[k], r@[k]),
    {
        proof {
            use_type_invariant(self);
        }
        let mut out: Vec<(String, V)> = Vec::new();
        let mut i: usize = 0;
        while i < self.entries.len()
            invariant
                i <= self.entries.len(),
                out.len() == i,
                forall|j: int|
                    0 <= j < i ==> (#[trigger] out@[j]).0@ == self.entries@[j].0@ && cloned::<V>(
                        self.entries@[j].1,
                        out@[j].1,
                    ),
            decreases self.entries.len() - i,
        {
            let k = self.entries[i].0.clone();
            let v = self.entries[i].1.clone();
            out.push((k, v));
            i = i + 1;
        }
        assert(keys_of(out@) =~= keys_of(self.entries@));
        let r = TextMap { entries: out };
        proof {
            assert(r@.dom() =~= self@.dom());
            assert forall|k: Seq<char>| self@.dom().contains(k) implies cloned::<V>(
                #[trigger] self@[k],
                r@[k],
            ) by {
                let j = keys_of(self.entries@).index_of(k);
                assert(keys_of(self.entries@)[j] == k);
            }
        }
        r
    }
}

proof fn lemma_insert_map<V>(e: Seq<(String, V)>, i: int, v: (String, V))
    requires
        0 <= i <= e.len(),
        ascending(keys_of(e)),
        ascending(keys_of(e.insert(i, v))),
        !keys_of(e).contains(v.0@),
    ensures
        map_of(e.insert(i, v)) == map_of(e).insert(v.0@, v.1),
{
    let f = e.insert(i, v);
    lemma_map_at(f, i);
    assert forall|k: Seq<char>| keys_of(f).contains(k) <==> (k == v.0@ || keys_of(e).contains(
        k,
    )) by {
        if keys_of(f).contains(k) {
            let j = keys_of(f).index_of(k);
            assert(keys_of(f)[j] == k);
            if j < i {
                assert(keys_of(e)[j] == k);
            } else if j > i {
                assert(keys_of(e)[j - 1] == k);
            }
        }
        if keys_of(e).contains(k) {
            let j = keys_of(e).index_of(k);
            assert(keys_of(e)[j] == k);
            if j < i {
                assert(keys_of(f)[j] == k);
            } else {
                assert(keys_of(f)[j + 1] == k);
            }
        }
        assert(keys_of(f)[i] == v.0@);
    }
    assert forall|k: Seq<char>| keys_of(e).contains(k) implies map_of(f)[k] == map_of(e)[k] by {
        let j = keys_of(e).index_of(k);
        assert(keys_of(e)[j] == k);
        lemma_map_at(e, j);
        if j < i {
            assert(f[j] == e[j]);
            lemma_map_at(f, j);
        } else {
            assert(f[j + 1] == e[j]);
            lemma_map_at(f, j + 1);
        }
    }
    assert(map_of(f) =~= map_of(e).insert(v.0@, v.1));
}

proof fn lemma_remove_map<V>(e: Seq<(String, V)>, i: int)
    requires
        0 <= i < e.len(),
        ascending(keys_of(e)),
    ensures
        ascending(keys_of(e.remove(i))),
        map_of(e.remove(i)) == map_of(e).remove(e[i].0@),
        map_of(e).dom().contains(e[i].0@),
        map_of(e)[e[i].0@] == e[i].1,
{
    let f = e.remove(i);
    lemma_map_at(e, i);
    lemma_ascending_distinct(keys_of(e));
    assert forall|a: int, b: int| 0 <= a < b < keys_of(f).len() implies lt(
        #[trigger] keys_of(f)[a],
        #[trigger] keys_of(f)[b],
    ) by {
        let a0 = if a < i { a } else { a + 1 };
        let b0 = if b < i { b } else { b + 1 };
        assert(lt(keys_of(e)[a0], keys_of(e)[b0]));
    }
    assert forall|k: Seq<char>| keys_of(f).contains(k) <==> (k != e[i].0@ && keys_of(e).contains(
        k,
    )) by {
        if keys_of(f).contains(k) {
            let j = keys_of(f).index_of(k);
            assert(keys_of(f)[j] == k);
            let j0 = if j < i { j } else { j + 1 };
            assert(keys_of(e)[j0] == k);
            assert(keys_of(e)[i] == e[i].0@);
        }
        if keys_of(e).contains(k) && k != e[i].0@ {
            let j = keys_of(e).index_of(k);
            assert(keys_of(e)[j] == k);
            if j < i {
                assert(keys_of(f)[j] == k);
            } else {
                assert(keys_of(f)[j - 1] == k);
            }
        }
    }
    assert forall|k: Seq<char>| keys_of(f).contains(k) implies map_of(f)[k] == map_of(e)[k] by {
        let j = keys_of(f).index_of(k);
        assert(keys_of(f)[j] == k);
        lemma_map_at(f, j);
        if j < i {
            assert(f[j] == e[j]);
            lemma_map_at(e, j);
        } else {
            assert(f[j] == e[j + 1]);
            lemma_map_at(e, j + 1);
        }
    }
    assert(map_of(f) =~= map_of(e).remove(e[i].0@));
}

} // verus!

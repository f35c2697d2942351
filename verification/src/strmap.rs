//! A small string-keyed map with `insert`/`get` semantics of an ordered map:
//! a later insert for a key replaces the earlier value.

use vstd::prelude::*;

verus! {

/// The map that a list of insertions, applied in order, produces.
pub open spec fn insertions_map<V>(s: Seq<(String, V)>) -> Map<Seq<char>, V>
    decreases s.len(),
{
    if s.len() == 0 {
        Map::empty()
    } else {
        insertions_map(s.drop_last()).insert(s.last().0@, s.last().1)
    }
}

/// A key is in the map exactly when some insertion used it.
pub proof fn lemma_insertions_dom<V>(s: Seq<(String, V)>, k: Seq<char>)
    ensures
        insertions_map(s).dom().contains(k) <==> exists|i: int| 0 <= i < s.len() && s[i].0@ == k,
    decreases s.len(),
{
    if s.len() > 0 {
        lemma_insertions_dom(s.drop_last(), k);
        if insertions_map(s.drop_last()).dom().contains(k) {
            let i = choose|i: int| 0 <= i < s.len() - 1 && s.drop_last()[i].0@ == k;
            assert(s[i].0@ == k);
        }
        if exists|i: int| 0 <= i < s.len() && s[i].0@ == k {
            let i = choose|i: int| 0 <= i < s.len() && s[i].0@ == k;
            if i < s.len() - 1 {
                assert(s.drop_last()[i].0@ == k);
            }
        }
    }
}

/// The value for a key is that of its last insertion.
pub proof fn lemma_insertions_last<V>(s: Seq<(String, V)>, i: int)
    requires
        0 <= i < s.len(),
        forall|j: int| i < j < s.len() ==> s[j].0@ != s[i].0@,
    ensures
        insertions_map(s).dom().contains(s[i].0@),
        insertions_map(s)[s[i].0@] == s[i].1,
    decreases s.len(),
{
    if i < s.len() - 1 {
        lemma_insertions_last(s.drop_last(), i);
    }
}

/// A string-keyed map.
#[derive(Debug)]
pub struct StrMap<V> {
    entries: Vec<(String, V)>,
}

impl<V> View for StrMap<V> {
    type V = Map<Seq<char>, V>;

    open spec fn view(&self) -> Map<Seq<char>, V> {
        insertions_map(self.inserted())
    }
}

impl<V> StrMap<V> {
    /// The insertions made so far, in order.
    pub closed spec fn inserted(&self) -> Seq<(String, V)> {
        self.entries@
    }

    /// An empty map.
    pub fn new() -> (m: Self)
        ensures
            m@ == Map::<Seq<char>, V>::empty(),
            m.inserted().len() == 0,
    {
        StrMap { entries: Vec::new() }
    }

    /// Insert (or replace) the value for `key`.
    pub fn insert(&mut self, key: String, value: V)
        ensures
            final(self)@ == old(self)@.insert(key@, value),
            final(self).inserted() == old(self).inserted().push((key, value)),
    {
        self.entries.push((key, value));
        assert(self.entries@.drop_last() =~= old(self).entries@);
    }

    /// The value for `key`, if any.
    pub fn get(&self, key: &str) -> (res: Option<&V>)
        ensures
            res matches Some(v) ==> self@.dom().contains(key@) && *v == self@[key@],
            res is None ==> !self@.dom().contains(key@),
    {
        let k = key.to_owned();
        let mut i = self.entries.len();
        while i > 0
            invariant
                i <= self.entries@.len(),
                k@ == key@,
                forall|j: int| i <= j < self.entries@.len() ==> self.entries@[j].0@ != key@,
            decreases i,
        {
            i = i - 1;
            if self.entries[i].0 == k {
                proof {
                    lemma_insertions_last(self.entries@, i as int);
                }
                return Some(&self.entries[i].1);
            }
        }
        proof {
            lemma_insertions_dom(self.entries@, key@);
        }
        None
    }

    /// Whether `key` has a value.
    pub fn contains_key(&self, key: &str) -> (res: bool)
        ensures
            res == self@.dom().contains(key@),
    {
        self.get(key).is_some()
    }

    /// The insertions, in order (for conversion into other map types).
    pub fn entries(&self) -> (res: &Vec<(String, V)>)
        ensures
            res@ == self.inserted(),
    {
        &self.entries
    }
}

} // verus!

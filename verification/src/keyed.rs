//! Maps and sets keyed by strings, kept as vectors in the order of first insertion.

use std::sync::Arc;

use vstd::prelude::*;

use crate::text::{same_text, texts, Text};

verus! {

/// A map from strings to values. The entries keep the order in which their keys were first
/// inserted.
#[derive(Debug)]
pub struct StringMap<V> {
    entries: Vec<(String, V)>,
}

impl<V> StringMap<V> {
    /// The keys, in the order of first insertion.
    pub closed spec fn keys(&self) -> Seq<Text> {
        Seq::new(self.entries@.len(), |i: int| self.entries@[i].0@)
    }

    /// The values, each at the place of its key.
    pub closed spec fn values(&self) -> Seq<V> {
        Seq::new(self.entries@.len(), |i: int| self.entries@[i].1)
    }

    /// No key occurs twice.
    pub open spec fn wf(&self) -> bool {
        &&& self.keys().no_duplicates()
        &&& self.values().len() == self.keys().len()
    }

    /// What the map holds.
    pub open spec fn view(&self) -> Map<Text, V> {
        Map::new(
            |k: Text| self.keys().contains(k),
            |k: Text| self.values()[self.keys().index_of(k)],
        )
    }

    /// At every place the map holds the value of the key at that place.
    pub proof fn lemma_at(&self, i: int)
        requires
            self.wf(),
            0 <= i < self.keys().len(),
        ensures
            self@.contains_key(self.keys()[i]),
            self@[self.keys()[i]] == self.values()[i],
            self.keys().index_of(self.keys()[i]) == i,
    {
        let k = self.keys()[i];
        assert(self.keys().contains(k));
        let j = self.keys().index_of(k);
        assert(self.keys()[j] == k);
    }

    /// Each key of the map is at some place.
    pub proof fn lemma_place(&self, k: Text) -> (i: int)
        requires
            self.wf(),
            self@.contains_key(k),
        ensures
            0 <= i < self.keys().len(),
            self.keys()[i] == k,
            self.values()[i] == self@[k],
    {
        let i = self.keys().index_of(k);
        assert(self.keys().contains(k));
        assert(self.keys()[i] == k);
        i
    }

    /// The empty map.
    pub fn new() -> (r: Self)
        ensures
            r.wf(),
            r.keys() == Seq::<Text>::empty(),
            r@ == Map::<Text, V>::empty(),
    {
        let r = StringMap { entries: Vec::new() };
        proof {
            assert(r.keys() =~= Seq::<Text>::empty());
            assert(r@ =~= Map::<Text, V>::empty());
        }
        r
    }

    /// The number of entries.
    pub fn len(&self) -> (r: usize)
        ensures
            r == self.keys().len(),
            r == self.values().len(),
    {
        self.entries.len()
    }

    /// Whether the map holds nothing.
    pub fn is_empty(&self) -> (r: bool)
        ensures
            r == (self.keys().len() == 0),
            r == (self@ == Map::<Text, V>::empty()),
    {
        proof {
            if self.keys().len() == 0 {
                assert(self@ =~= Map::<Text, V>::empty());
            } else {
                assert(self.keys().contains(self.keys()[0]));
                assert(self@.contains_key(self.keys()[0]));
            }
        }
        self.entries.len() == 0
    }

    /// The key at a place.
    pub fn key_at(&self, i: usize) -> (r: &String)
        requires
            i < self.keys().len(),
        ensures
            r@ == self.keys()[i as int],
    {
        &self.entries[i].0
    }

    /// The value at a place.
    pub fn value_at(&self, i: usize) -> (r: &V)
        requires
            i < self.keys().len(),
        ensures
            *r == self.values()[i as int],
    {
        &self.entries[i].1
    }

    fn find(&self, key: &str) -> (r: Option<usize>)
        ensures
            match r {
                Some(i) => i < self.keys().len() && self.keys()[i as int] == key@,
                None => !self.keys().contains(key@),
            },
    {
        let mut i: usize = 0;
        while i < self.entries.len()
            invariant
                i <= self.entries@.len(),
                forall|j: int| 0 <= j < i ==> #[trigger] self.keys()[j] != key@,
            decreases self.entries@.len() - i,
        {
            if same_text(self.entries[i].0.as_str(), key) {
                assert(self.keys()[i as int] == key@);
                return Some(i);
            }
            assert(self.keys()[i as int] != key@);
            i = i + 1;
        }
        None
    }

    /// Whether the map holds the key.
    pub fn contains_key(&self, key: &str) -> (r: bool)
        requires
            self.wf(),
        ensures
            r == self@.contains_key(key@),
    {
        match self.find(key) {
            Some(i) => {
                proof {
                    self.lemma_at(i as int);
                }
                true
            },
            None => false,
        }
    }

    /// The value under the key.
    pub fn get(&self, key: &str) -> (r: Option<&V>)
        requires
            self.wf(),
        ensures
            match r {
                Some(v) => self@.contains_key(key@) && *v == self@[key@],
                None => !self@.contains_key(key@),
            },
    {
        match self.find(key) {
            Some(i) => {
                proof {
                    self.lemma_at(i as int);
                }
                Some(&self.entries[i].1)
            },
            None => None,
        }
    }

    /// Puts the value under the key and returns what it replaced.
    pub fn insert(&mut self, key: String, value: V) -> (r: Option<V>)
        requires
            old(self).wf(),
        ensures
            final(self).wf(),
            final(self)@ == old(self)@.insert(key@, value),
            final(self).keys() == (if old(self)@.contains_key(key@) {
                old(self).keys()
            } else {
                old(self).keys().push(key@)
            }),
            match r {
                Some(v) => old(self)@.contains_key(key@) && v == old(self)@[key@],
                None => !old(self)@.contains_key(key@),
            },
    {
        match self.find(key.as_str()) {
            Some(i) => {
                proof {
                    self.lemma_at(i as int);
                }
                let ghost before = *self;
                let mut slot = (key, value);
                std::mem::swap(&mut self.entries[i], &mut slot);
                proof {
                    assert(self.keys() =~= before.keys());
                    assert(self.values() =~= before.values().update(i as int, value));
                    self.lemma_at(i as int);
                    assert(self@ =~= before@.insert(key@, value)) by {
                        assert forall|k: Text| before@.contains_key(k) && k != key@ implies self@[k]
                            == before@[k] by {
                            let j = before.lemma_place(k);
                            self.lemma_at(j);
                        }
                    }
                }
                Some(slot.1)
            },
            None => {
                let ghost before = *self;
                self.entries.push((key, value));
                proof {
                    let n = before.keys().len() as int;
                    assert(self.keys() =~= before.keys().push(key@));
                    assert(self.values() =~= before.values().push(value));
                    assert(self.keys()[n] == key@);
                    assert(self.keys().no_duplicates());
                    self.lemma_at(n);
                    assert(self@ =~= before@.insert(key@, value)) by {
                        assert forall|k: Text|
                            self@.contains_key(k) == before@.insert(key@, value).contains_key(k) by {
                            if before.keys().contains(k) {
                                let j = before.keys().index_of(k);
                                assert(self.keys()[j] == k);
                            }
                        }
                        assert forall|k: Text| before@.contains_key(k) && k != key@ implies self@[k]
                            == before@[k] by {
                            let j = before.lemma_place(k);
                            self.lemma_at(j);
                        }
                    }
                }
                None
            },
        }
    }

    /// Takes the key out and returns the value that was under it.
    pub fn remove(&mut self, key: &str) -> (r: Option<V>)
        requires
            old(self).wf(),
        ensures
            final(self).wf(),
            final(self)@ == old(self)@.remove(key@),
            final(self).keys() == (if old(self)@.contains_key(key@) {
                old(self).keys().remove(old(self).keys().index_of(key@))
            } else {
                old(self).keys()
            }),
            match r {
                Some(v) => old(self)@.contains_key(key@) && v == old(self)@[key@],
                None => !old(self)@.contains_key(key@),
            },
    {
        match self.find(key) {
            Some(i) => {
                proof {
                    self.lemma_at(i as int);
                }
                let ghost before = *self;
                let slot = self.entries.remove(i);
                proof {
                    assert(self.keys() =~= before.keys().remove(i as int));
                    assert(self.values() =~= before.values().remove(i as int));
                    assert(self.keys().no_duplicates());
                    assert(self@ =~= before@.remove(key@)) by {
                        assert forall|k: Text|
                            self@.contains_key(k) == before@.remove(key@).contains_key(k) by {
                            if self.keys().contains(k) {
                                let j = self.keys().index_of(k);
                                assert(self.keys()[j] == k);
                                if j < i {
                                    assert(before.keys()[j] == k);
                                } else {
                                    assert(before.keys()[j + 1] == k);
                                }
                            }
                            if before.keys().contains(k) && k != key@ {
                                let j = before.keys().index_of(k);
                                assert(before.keys()[j] == k);
                                if j < i {
                                    assert(self.keys()[j] == k);
                                } else {
                                    assert(self.keys()[j - 1] == k);
                                }
                            }
                        }
                        assert forall|k: Text| self@.contains_key(k) implies self@[k]
                            == before@[k] by {
                            let j = self.lemma_place(k);
                            if j < i {
                                before.lemma_at(j);
                            } else {
                                before.lemma_at(j + 1);
                            }
                        }
                    }
                }
                Some(slot.1)
            },
            None => {
                proof {
                    assert(self@ =~= self@.remove(key@));
                }
                None
            },
        }
    }

    /// The keys as a vector.
    pub fn key_list(&self) -> (r: Vec<String>)
        ensures
            texts(r@) == self.keys(),
    {
        let mut out: Vec<String> = Vec::new();
        let mut i: usize = 0;
        while i < self.entries.len()
            invariant
                i <= self.entries@.len(),
                out@.len() == i,
                forall|j: int| 0 <= j < i ==> #[trigger] out@[j]@ == self.keys()[j],
            decreases self.entries@.len() - i,
        {
            out.push(self.entries[i].0.clone());
            i = i + 1;
        }
        proof {
            assert(texts(out@) =~= self.keys());
        }
        out
    }
}

impl<T> StringMap<Arc<T>> {
    /// A map that shares the values of this one.
    pub fn share(&self) -> (r: Self)
        ensures
            r.keys() == self.keys(),
            r.values() == self.values(),
            r@ == self@,
            self.wf() ==> r.wf(),
    {
        let mut out: Vec<(String, Arc<T>)> = Vec::new();
        let mut i: usize = 0;
        while i < self.entries.len()
            invariant
                i <= self.entries@.len(),
                out@.len() == i,
                forall|j: int|
                    0 <= j < i ==> (#[trigger] out@[j]).0@ == self.entries@[j].0@ && out@[j].1
                        == self.entries@[j].1,
            decreases self.entries@.len() - i,
        {
            out.push((self.entries[i].0.clone(), self.entries[i].1.clone()));
            i = i + 1;
        }
        let r = StringMap { entries: out };
        proof {
            assert(r.keys() =~= self.keys());
            assert(r.values() =~= self.values());
            assert(r@ =~= self@);
        }
        r
    }
}

/// A set of strings that keeps the order of first insertion.
#[derive(Debug)]
pub struct StringSet {
    items: Vec<String>,
}

impl StringSet {
    /// The members, in the order of first insertion.
    pub closed spec fn items(&self) -> Seq<Text> {
        texts(self.items@)
    }

    /// No member occurs twice.
    pub open spec fn wf(&self) -> bool {
        self.items().no_duplicates()
    }

    /// The members.
    pub open spec fn view(&self) -> Set<Text> {
        self.items().to_set()
    }

    /// The empty set.
    pub fn new() -> (r: Self)
        ensures
            r.wf(),
            r.items() == Seq::<Text>::empty(),
            r@ == Set::<Text>::empty(),
    {
        let r = StringSet { items: Vec::new() };
        proof {
            assert(r.items() =~= Seq::<Text>::empty());
            assert(r@ =~= Set::<Text>::empty());
        }
        r
    }

    /// The number of members.
    pub fn len(&self) -> (r: usize)
        ensures
            r == self.items().len(),
    {
        self.items.len()
    }

    /// The member at a place.
    pub fn item_at(&self, i: usize) -> (r: &String)
        requires
            i < self.items().len(),
        ensures
            r@ == self.items()[i as int],
    {
        &self.items[i]
    }

    fn find(&self, key: &str) -> (r: Option<usize>)
        ensures
            match r {
                Some(i) => i < self.items().len() && self.items()[i as int] == key@,
                None => !self.items().contains(key@),
            },
    {
        let mut i: usize = 0;
        while i < self.items.len()
            invariant
                i <= self.items@.len(),
                forall|j: int| 0 <= j < i ==> #[trigger] self.items()[j] != key@,
            decreases self.items@.len() - i,
        {
            if same_text(self.items[i].as_str(), key) {
                assert(self.items()[i as int] == key@);
                return Some(i);
            }
            assert(self.items()[i as int] != key@);
            i = i + 1;
        }
        None
    }

    /// Whether the string is a member.
    pub fn contains(&self, key: &str) -> (r: bool)
        ensures
            r == self@.contains(key@),
            r == self.items().contains(key@),
    {
        match self.find(key) {
            Some(i) => {
                assert(self.items()[i as int] == key@);
                true
            },
            None => false,
        }
    }

    /// Adds the string.
    pub fn insert(&mut self, key: String)
        requires
            old(self).wf(),
        ensures
            final(self).wf(),
            final(self)@ == old(self)@.insert(key@),
            final(self).items() == added(old(self).items(), key@),
    {
        let ghost before = *self;
        if !self.contains(key.as_str()) {
            self.items.push(key);
            proof {
                assert(self.items() =~= before.items().push(key@));
            }
        }
        proof {
            lemma_added(before.items(), key@);
        }
    }

    /// Takes the string out.
    pub fn remove(&mut self, key: &str)
        requires
            old(self).wf(),
        ensures
            final(self).wf(),
            final(self)@ == old(self)@.remove(key@),
            final(self).items() == without(old(self).items(), key@),
    {
        let ghost before = *self;
        match self.find(key) {
            Some(i) => {
                self.items.remove(i);
                proof {
                    assert(self.items() =~= before.items().remove(i as int));
                    assert(before.items().index_of(key@) == i) by {
                        assert(before.items().contains(key@));
                    }
                }
            },
            None => {},
        }
        proof {
            lemma_without(before.items(), key@);
        }
    }
}

/// The sequence with the text at its end, unless it already holds it.
pub open spec fn added(s: Seq<Text>, k: Text) -> Seq<Text> {
    if s.contains(k) {
        s
    } else {
        s.push(k)
    }
}

/// The sequence without the text.
pub open spec fn without(s: Seq<Text>, k: Text) -> Seq<Text> {
    if s.contains(k) {
        s.remove(s.index_of(k))
    } else {
        s
    }
}

/// Adding a text keeps the texts of a sequence distinct and gains that text alone.
pub proof fn lemma_added(s: Seq<Text>, k: Text)
    requires
        s.no_duplicates(),
    ensures
        added(s, k).no_duplicates(),
        added(s, k).contains(k),
        added(s, k).to_set() == s.to_set().insert(k),
        forall|x: Text| #[trigger] added(s, k).contains(x) <==> (s.contains(x) || x == k),
{
    let t = added(s, k);
    if !s.contains(k) {
        assert(t[s.len() as int] == k);
        assert forall|x: Text| #[trigger] t.contains(x) <==> (s.contains(x) || x == k) by {
            if s.contains(x) {
                assert(t[s.index_of(x)] == x);
            }
        }
    }
    assert(t.to_set() =~= s.to_set().insert(k));
}

/// Taking a text out keeps the texts of a sequence distinct and loses that text alone.
pub proof fn lemma_without(s: Seq<Text>, k: Text)
    requires
        s.no_duplicates(),
    ensures
        without(s, k).no_duplicates(),
        !without(s, k).contains(k),
        without(s, k).to_set() == s.to_set().remove(k),
        forall|x: Text| #[trigger] without(s, k).contains(x) <==> (s.contains(x) && x != k),
{
    let t = without(s, k);
    if s.contains(k) {
        let i = s.index_of(k);
        assert(s[i] == k);
        assert forall|x: Text| #[trigger] t.contains(x) <==> (s.contains(x) && x != k) by {
            if t.contains(x) {
                let j = t.index_of(x);
                assert(t[j] == x);
                if j < i {
                    assert(s[j] == x);
                } else {
                    assert(s[j + 1] == x);
                }
            }
            if s.contains(x) && x != k {
                let j = s.index_of(x);
                assert(s[j] == x);
                if j < i {
                    assert(t[j] == x);
                } else {
                    assert(t[j - 1] == x);
                }
            }
        }
    }
    assert(t.to_set() =~= s.to_set().remove(k));
}

} // verus!

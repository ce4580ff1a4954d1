//! A table keyed by attachment targets, indexed by a hash map.

use vstd::prelude::*;

use crate::text::{opt_text, Text};

verus! {

/// A target as plain values: the kind of target, its name and namespace, up to two qualifying
/// names, and a port.
pub type TargetKey = (u8, String, String, Option<String>, Option<String>, Option<u16>);

/// What a [`TargetKey`] holds.
pub type TargetId = (u8, Text, Text, Option<Text>, Option<Text>, Option<u16>);

/// The identity that a key stands for.
pub open spec fn target_id(key: TargetKey) -> TargetId {
    (key.0, key.1@, key.2@, opt_text(key.3), opt_text(key.4), key.5)
}

/// Copies a key.
pub fn copy_key(key: &TargetKey) -> (r: TargetKey)
    ensures
        r == *key,
{
    (
        key.0,
        key.1.clone(),
        key.2.clone(),
        crate::text::clone_text(&key.3),
        crate::text::clone_text(&key.4),
        key.5,
    )
}

/// The places of a table's entries, held in a `hashbrown::HashMap`.
#[verifier::external_body]
#[derive(Debug)]
pub struct SlotIndex {
    inner: hashbrown::HashMap<TargetKey, usize>,
}

/// The place that a [`SlotIndex`] holds for each target.
pub uninterp spec fn slots(index: SlotIndex) -> Map<TargetId, usize>;

/// `hashbrown::HashMap::new`: a map that holds nothing.
#[verifier::external_body]
fn new_index() -> (r: SlotIndex)
    ensures
        forall|k: TargetId| !slots(r).contains_key(k),
{
    SlotIndex { inner: hashbrown::HashMap::new() }
}

/// `hashbrown::HashMap::get`: the place held for the key, if there is one.
#[verifier::external_body]
fn index_get(index: &SlotIndex, key: &TargetKey) -> (r: Option<usize>)
    ensures
        match r {
            Some(slot) => slots(*index).contains_key(target_id(*key)) && slots(*index)[target_id(
                *key,
            )] == slot,
            None => !slots(*index).contains_key(target_id(*key)),
        },
{
    index.inner.get(key).copied()
}

/// `hashbrown::HashMap::insert`: holds the place for the key, in place of the one held before.
#[verifier::external_body]
fn index_insert(index: &mut SlotIndex, key: TargetKey, slot: usize)
    ensures
        slots(*final(index)) == slots(*old(index)).insert(target_id(key), slot),
{
    index.inner.insert(key, slot);
}

/// `hashbrown::HashMap::remove`: no longer holds a place for the key.
#[verifier::external_body]
fn index_remove(index: &mut SlotIndex, key: &TargetKey)
    ensures
        slots(*final(index)) == slots(*old(index)).remove(target_id(*key)),
{
    index.inner.remove(key);
}

/// A map from targets to values.
#[derive(Debug)]
pub struct TargetTable<V> {
    index: SlotIndex,
    entries: Vec<(TargetKey, V)>,
}

impl<V> TargetTable<V> {
    /// The targets, in the order in which the entries lie.
    pub closed spec fn ids(&self) -> Seq<TargetId> {
        Seq::new(self.entries@.len(), |i: int| target_id(self.entries@[i].0))
    }

    /// The values, each at the place of its target.
    pub closed spec fn values(&self) -> Seq<V> {
        Seq::new(self.entries@.len(), |i: int| self.entries@[i].1)
    }

    /// The index holds the place of every entry and nothing else.
    pub closed spec fn wf(&self) -> bool {
        &&& forall|i: int|
            0 <= i < self.entries@.len() ==> slots(self.index).contains_key(
                #[trigger] self.ids()[i],
            ) && slots(self.index)[self.ids()[i]] == i
        &&& forall|k: TargetId| #[trigger]
            slots(self.index).contains_key(k) ==> slots(self.index)[k] < self.entries@.len()
                && self.ids()[slots(self.index)[k] as int] == k
    }

    /// What the table holds.
    pub closed spec fn view(&self) -> Map<TargetId, V> {
        Map::new(
            |k: TargetId| slots(self.index).contains_key(k),
            |k: TargetId| self.values()[slots(self.index)[k] as int],
        )
    }

    /// The targets of the table are those of its entries, each once.
    pub proof fn lemma_ids(&self)
        requires
            self.wf(),
        ensures
            self.ids().no_duplicates(),
            self.values().len() == self.ids().len(),
            forall|i: int|
                0 <= i < self.ids().len() ==> self@.contains_key(#[trigger] self.ids()[i])
                    && self@[self.ids()[i]] == self.values()[i],
            forall|k: TargetId| #[trigger]
                self@.contains_key(k) ==> exists|i: int|
                    0 <= i < self.ids().len() && self.ids()[i] == k,
    {
        assert forall|k: TargetId| #[trigger] self@.contains_key(k) implies exists|i: int|
            0 <= i < self.ids().len() && self.ids()[i] == k by {
            let i = slots(self.index)[k] as int;
            assert(self.ids()[i] == k);
        }
        assert forall|i: int, j: int|
            0 <= i < self.ids().len() && 0 <= j < self.ids().len() && i != j implies self.ids()[i]
            != self.ids()[j] by {
            assert(slots(self.index)[self.ids()[i]] == i);
            assert(slots(self.index)[self.ids()[j]] == j);
        }
    }

    /// The empty table.
    pub fn new() -> (r: Self)
        ensures
            r.wf(),
            r@ == Map::<TargetId, V>::empty(),
            r.ids() == Seq::<TargetId>::empty(),
    {
        let r = TargetTable { index: new_index(), entries: Vec::new() };
        proof {
            assert(r.ids() =~= Seq::<TargetId>::empty());
            assert(r@ =~= Map::<TargetId, V>::empty());
        }
        r
    }

    /// The number of entries.
    pub fn len(&self) -> (r: usize)
        ensures
            r == self.ids().len(),
            r == self.values().len(),
    {
        self.entries.len()
    }

    /// The target at a place.
    pub fn key_at(&self, i: usize) -> (r: &TargetKey)
        requires
            i < self.ids().len(),
        ensures
            target_id(*r) == self.ids()[i as int],
    {
        &self.entries[i].0
    }

    /// The value at a place.
    pub fn value_at(&self, i: usize) -> (r: &V)
        requires
            i < self.ids().len(),
        ensures
            *r == self.values()[i as int],
    {
        &self.entries[i].1
    }

    /// The value held for a target.
    pub fn get(&self, key: &TargetKey) -> (r: Option<&V>)
        requires
            self.wf(),
        ensures
            match r {
                Some(v) => self@.contains_key(target_id(*key)) && *v == self@[target_id(*key)],
                None => !self@.contains_key(target_id(*key)),
            },
    {
        match index_get(&self.index, key) {
            Some(slot) => {
                assert(self.values()[slot as int] == self.entries@[slot as int].1);
                Some(&self.entries[slot].1)
            },
            None => None,
        }
    }

    /// Holds the value for the target and returns the one held before.
    pub fn insert(&mut self, key: TargetKey, value: V) -> (r: Option<V>)
        requires
            old(self).wf(),
        ensures
            final(self).wf(),
            final(self)@ == old(self)@.insert(target_id(key), value),
            match r {
                Some(v) => old(self)@.contains_key(target_id(key)) && v == old(self)@[target_id(
                    key,
                )],
                None => !old(self)@.contains_key(target_id(key)),
            },
    {
        let ghost before = *self;
        let ghost id = target_id(key);
        match index_get(&self.index, &key) {
            Some(slot) => {
                let mut entry = (key, value);
                std::mem::swap(&mut self.entries[slot], &mut entry);
                proof {
                    assert(self.ids() =~= before.ids());
                    assert(self.values() =~= before.values().update(slot as int, value));
                    assert(self@ =~= before@.insert(id, value)) by {
                        assert forall|k: TargetId| before@.contains_key(k) && k != id implies self@[k]
                            == before@[k] by {
                            assert(before.ids()[slots(before.index)[k] as int] == k);
                        }
                    }
                }
                Some(entry.1)
            },
            None => {
                let slot: usize = self.entries.len();
                let held = copy_key(&key);
                self.entries.push((key, value));
                index_insert(&mut self.index, held, slot);
                proof {
                    assert(self.ids() =~= before.ids().push(id));
                    assert(self.values() =~= before.values().push(value));
                    assert forall|i: int| 0 <= i < self.entries@.len() implies slots(
                        self.index,
                    ).contains_key(#[trigger] self.ids()[i]) && slots(self.index)[self.ids()[i]]
                        == i by {
                        if i < slot {
                            assert(self.ids()[i] == before.ids()[i]);
                        }
                    }
                    assert forall|k: TargetId| #[trigger]
                        slots(self.index).contains_key(k) implies slots(self.index)[k]
                        < self.entries@.len() && self.ids()[slots(self.index)[k] as int] == k by {
                        if k != id {
                            assert(slots(before.index).contains_key(k));
                        }
                    }
                    assert(self@ =~= before@.insert(id, value)) by {
                        assert forall|k: TargetId| before@.contains_key(k) && k != id implies self@[k]
                            == before@[k] by {
                            assert(before.ids()[slots(before.index)[k] as int] == k);
                        }
                    }
                }
                None
            },
        }
    }

    /// Takes the target out and returns the value that was held for it.
    pub fn remove(&mut self, key: &TargetKey) -> (r: Option<V>)
        requires
            old(self).wf(),
        ensures
            final(self).wf(),
            final(self)@ == old(self)@.remove(target_id(*key)),
            match r {
                Some(v) => old(self)@.contains_key(target_id(*key)) && v == old(self)@[target_id(
                    *key,
                )],
                None => !old(self)@.contains_key(target_id(*key)),
            },
    {
        let ghost before = *self;
        let ghost id = target_id(*key);
        match index_get(&self.index, key) {
            Some(slot) => {
                let entry = self.entries.swap_remove(slot);
                index_remove(&mut self.index, key);
                if slot < self.entries.len() {
                    let moved = copy_key(&self.entries[slot].0);
                    index_insert(&mut self.index, moved, slot);
                }
                proof {
                    let n = before.entries@.len() - 1;
                    assert(before.ids()[slot as int] == id);
                    assert forall|i: int| 0 <= i < self.entries@.len() implies (#[trigger]
                    self.ids()[i]) == (if i == slot {
                        before.ids()[n]
                    } else {
                        before.ids()[i]
                    }) by {}
                    assert forall|i: int| 0 <= i < self.entries@.len() implies slots(
                        self.index,
                    ).contains_key(#[trigger] self.ids()[i]) && slots(self.index)[self.ids()[i]]
                        == i by {
                        if i == slot {
                            assert(slots(before.index)[before.ids()[n]] == n);
                        } else {
                            assert(slots(before.index)[before.ids()[i]] == i);
                            assert(slots(before.index)[before.ids()[n]] == n);
                        }
                    }
                    assert forall|k: TargetId| #[trigger]
                        slots(self.index).contains_key(k) implies slots(self.index)[k]
                        < self.entries@.len() && self.ids()[slots(self.index)[k] as int] == k by {
                        let j = slots(before.index)[k] as int;
                        assert(slots(before.index).contains_key(k)) by {
                            if slot < self.entries@.len() {
                                assert(slots(before.index).contains_key(before.ids()[n]));
                            }
                        }
                        assert(before.ids()[j] == k);
                        if slot < self.entries@.len() && k == before.ids()[n] {
                            assert(self.ids()[slot as int] == before.ids()[n]);
                        } else {
                            assert(slots(self.index)[k] == j);
                            if j == n {
                                assert(slot == n);
                                assert(false);
                            }
                            assert(j != slot);
                            assert(self.ids()[j] == before.ids()[j]);
                        }
                    }
                    assert(self@ =~= before@.remove(id)) by {
                        assert forall|k: TargetId|
                            self@.contains_key(k) == before@.remove(id).contains_key(k) by {
                            if before@.contains_key(k) && k != id {
                                let j = slots(before.index)[k] as int;
                                assert(before.ids()[j] == k);
                            }
                            if self@.contains_key(k) {
                                if slot < self.entries@.len() && k == before.ids()[n] {
                                    assert(slots(before.index).contains_key(k));
                                    assert(slots(before.index)[k] == n);
                                    assert(slots(before.index)[id] == slot);
                                }
                            }
                        }
                        assert forall|k: TargetId| self@.contains_key(k) implies self@[k]
                            == before@[k] by {
                            let i = slots(self.index)[k] as int;
                            assert(self.ids()[i] == k);
                            if i == slot {
                                assert(slots(before.index)[before.ids()[n]] == n);
                            } else {
                                assert(slots(before.index)[before.ids()[i]] == i);
                            }
                        }
                    }
                }
                Some(entry.1)
            },
            None => {
                proof {
                    assert(self@ =~= before@.remove(id));
                }
                None
            },
        }
    }
}

} // verus!

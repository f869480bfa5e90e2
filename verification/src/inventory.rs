//! A bucket of values keyed by a stable textual id.

use crate::text::texts;
use vstd::prelude::*;

verus! {

/// A finite mapping from ids to values in which every id occurs once.
///
/// Entries are kept in the order in which their ids were first inserted; the
/// view forgets that order.
#[derive(Debug)]
pub struct Inventory<V> {
    entries: Vec<(String, V)>,
}

/// The ids of a list of entries, in order.
spec fn entry_ids<V>(entries: Seq<(String, V)>) -> Seq<Seq<char>> {
    Seq::new(entries.len(), |i: int| entries[i].0@)
}

/// Some entry of the list is stored under `id`.
spec fn has_id<V>(entries: Seq<(String, V)>, id: Seq<char>) -> bool {
    exists|i: int| 0 <= i < entries.len() && #[trigger] entries[i].0@ == id
}

/// The position of an entry stored under `id`.
spec fn position_of<V>(entries: Seq<(String, V)>, id: Seq<char>) -> int {
    choose|i: int| 0 <= i < entries.len() && #[trigger] entries[i].0@ == id
}

/// No id is used by two entries.
spec fn distinct_ids<V>(entries: Seq<(String, V)>) -> bool {
    forall|i: int, j: int|
        0 <= i < j < entries.len() ==> #[trigger] entries[i].0@ != #[trigger] entries[j].0@
}

/// The mapping that a list of entries stands for.
spec fn mapping_of<V: View>(entries: Seq<(String, V)>) -> Map<Seq<char>, V::V> {
    Map::new(
        |id: Seq<char>| has_id(entries, id),
        |id: Seq<char>| entries[position_of(entries, id)].1@,
    )
}

proof fn lemma_mapping_at<V: View>(entries: Seq<(String, V)>, i: int)
    requires
        distinct_ids(entries),
        0 <= i < entries.len(),
    ensures
        has_id(entries, entries[i].0@),
        position_of(entries, entries[i].0@) == i,
        mapping_of(entries).contains_key(entries[i].0@),
        mapping_of(entries)[entries[i].0@] == entries[i].1@,
{
}

proof fn lemma_mapping_ids<V: View>(entries: Seq<(String, V)>)
    ensures
        mapping_of(entries).dom() == entry_ids(entries).to_set(),
        mapping_of(entries).dom().finite(),
{
    let ids = entry_ids(entries);
    assert forall|id: Seq<char>| mapping_of(entries).dom().contains(id) <==> ids.to_set().contains(
        id,
    ) by {
        if has_id(entries, id) {
            let i = position_of(entries, id);
            assert(ids[i] == id);
        }
    }
    vstd::seq_lib::seq_to_set_is_finite(ids);
}

proof fn lemma_mapping_size<V: View>(entries: Seq<(String, V)>)
    requires
        distinct_ids(entries),
    ensures
        mapping_of(entries).dom() == entry_ids(entries).to_set(),
        entry_ids(entries).no_duplicates(),
        mapping_of(entries).dom().finite(),
        mapping_of(entries).len() == entries.len(),
{
    let ids = entry_ids(entries);
    lemma_mapping_ids(entries);
    ids.unique_seq_to_set();
}

proof fn lemma_mapping_insert<V: View>(
    before: Seq<(String, V)>,
    after: Seq<(String, V)>,
    found: Option<usize>,
    id: Seq<char>,
    value: V::V,
)
    requires
        distinct_ids(before),
        distinct_ids(after),
        found is Some <==> has_id(before, id),
        found matches Some(i) ==> i < before.len() && before[i as int].0@ == id,
        found matches Some(i) ==> after.len() == before.len() && after[i as int].0@ == id
            && after[i as int].1@ == value && forall|k: int|
            0 <= k < before.len() && k != i ==> after[k] == before[k],
        found is None ==> after.len() == before.len() + 1 && after[before.len() as int].0@ == id
            && after[before.len() as int].1@ == value && forall|k: int|
            0 <= k < before.len() ==> after[k] == before[k],
    ensures
        mapping_of(after) == mapping_of(before).insert(id, value),
{
    let place: int = match found {
        Some(i) => i as int,
        None => before.len() as int,
    };
    let target = mapping_of(before).insert(id, value);
    assert forall|k: Seq<char>| mapping_of(after).contains_key(k) implies mapping_of(after)[k]
        == target[k] by {
        let i = position_of(after, k);
        lemma_mapping_at(after, i);
        if i != place {
            lemma_mapping_at(before, i);
        }
    }
}

proof fn lemma_mapping_remove<V: View>(before: Seq<(String, V)>, at: int)
    requires
        distinct_ids(before),
        0 <= at < before.len(),
    ensures
        distinct_ids(before.remove(at)),
        mapping_of(before.remove(at)) == mapping_of(before).remove(before[at].0@),
{
    let after = before.remove(at);
    let id = before[at].0@;
    let target = mapping_of(before).remove(id);
    assert forall|k: Seq<char>| mapping_of(after).contains_key(k) <==> target.contains_key(k) by {
        if k != id && has_id(before, k) {
            let a = position_of(before, k);
            let i = if a < at { a } else { a - 1 };
            assert(after[i] == before[a]);
        }
    }
    assert forall|k: Seq<char>| mapping_of(after).contains_key(k) implies mapping_of(after)[k]
        == target[k] by {
        let i = position_of(after, k);
        lemma_mapping_at(after, i);
        let a = if i < at { i } else { i + 1 };
        lemma_mapping_at(before, a);
    }
}

impl<V: View> View for Inventory<V> {
    type V = Map<Seq<char>, V::V>;

    closed spec fn view(&self) -> Map<Seq<char>, V::V> {
        mapping_of(self.entries@)
    }
}

impl<V> Inventory<V> {
    #[verifier::type_invariant]
    spec fn well_formed(self) -> bool {
        distinct_ids(self.entries@)
    }
}

impl<V: View> Inventory<V> {
    /// The ids in stored order: the order in which `ids` and `values` list
    /// the entries.
    pub closed spec fn order(&self) -> Seq<Seq<char>> {
        entry_ids(self.entries@)
    }

    /// An inventory holds finitely many ids.
    pub proof fn lemma_finite(self)
        ensures
            self@.dom().finite(),
    {
        lemma_mapping_ids(self.entries@);
    }

    /// The empty inventory.
    pub fn new() -> (inventory: Self)
        ensures
            inventory@ == Map::<Seq<char>, V::V>::empty(),
            inventory.order() == Seq::<Seq<char>>::empty(),
    {
        Inventory { entries: Vec::new() }
    }

    /// The number of ids held.
    pub fn len(&self) -> (count: usize)
        ensures
            count == self@.len(),
            count == self.order().len(),
            self@.dom().finite(),
    {
        proof {
            use_type_invariant(self);
            lemma_mapping_size(self.entries@);
        }
        self.entries.len()
    }

    /// Whether no id is held.
    pub fn is_empty(&self) -> (empty: bool)
        ensures
            empty == (self@.len() == 0),
            empty == (self@ == Map::<Seq<char>, V::V>::empty()),
            self@.dom().finite(),
    {
        proof {
            use_type_invariant(self);
            lemma_mapping_size(self.entries@);
            if self.entries@.len() == 0 {
                assert(self@ =~= Map::<Seq<char>, V::V>::empty());
            }
        }
        self.entries.len() == 0
    }

    fn find(&self, id: &String) -> (found: Option<usize>)
        ensures
            found is Some <==> self@.contains_key(id@),
            found matches Some(i) ==> i < self.entries@.len() && self.entries@[i as int].0@ == id@,
    {
        let mut i: usize = 0;
        while i < self.entries.len()
            invariant
                i <= self.entries@.len(),
                forall|k: int| 0 <= k < i ==> self.entries@[k].0@ != id@,
            decreases self.entries@.len() - i,
        {
            if self.entries[i].0 == *id {
                return Some(i);
            }
            i += 1;
        }
        None
    }

    /// Whether `id` is held.
    pub fn contains(&self, id: &str) -> (held: bool)
        ensures
            held == self@.contains_key(id@),
    {
        let key = id.to_owned();
        self.find(&key).is_some()
    }

    /// The value stored under `id`, if any.
    pub fn get(&self, id: &str) -> (value: Option<&V>)
        ensures
            value is Some <==> self@.contains_key(id@),
            value matches Some(v) ==> v@ == self@[id@],
    {
        let key = id.to_owned();
        match self.find(&key) {
            Some(i) => {
                proof {
                    use_type_invariant(self);
                    lemma_mapping_at(self.entries@, i as int);
                }
                Some(&self.entries[i].1)
            },
            None => None,
        }
    }

    /// Stores `value` under `id`, replacing what was stored there. A new id
    /// goes to the end of the order; a known id keeps its place.
    pub fn insert(&mut self, id: String, value: V) -> (previous: Option<V>)
        ensures
            final(self)@ == old(self)@.insert(id@, value@),
            previous is Some <==> old(self)@.contains_key(id@),
            previous matches Some(v) ==> v@ == old(self)@[id@],
            old(self)@.contains_key(id@) ==> final(self).order() == old(self).order(),
            !old(self)@.contains_key(id@) ==> final(self).order() == old(self).order().push(id@),
    {
        proof {
            use_type_invariant(&*self);
        }
        let found = self.find(&id);
        let mut entries: Vec<(String, V)> = Vec::new();
        std::mem::swap(&mut entries, &mut self.entries);
        let ghost before = entries@;
        let ghost key = id@;
        let ghost model = value@;
        let previous = match found {
            Some(i) => {
                let old_entry = entries.remove(i);
                entries.insert(i, (id, value));
                proof {
                    lemma_mapping_at(before, i as int);
                }
                Some(old_entry.1)
            },
            None => {
                entries.push((id, value));
                None
            },
        };
        proof {
            assert(distinct_ids(entries@));
            lemma_mapping_insert(before, entries@, found, key, model);
        }
        self.entries = entries;
        previous
    }

    /// Takes out what is stored under `id`, if anything. The other ids keep
    /// their order.
    pub fn remove(&mut self, id: &str) -> (removed: Option<V>)
        ensures
            final(self)@ == old(self)@.remove(id@),
            removed is Some <==> old(self)@.contains_key(id@),
            removed matches Some(v) ==> v@ == old(self)@[id@],
            removed is None ==> final(self).order() == old(self).order(),
            removed is Some ==> final(self).order() == old(self).order().remove(
                old(self).order().index_of(id@),
            ),
    {
        proof {
            use_type_invariant(&*self);
        }
        let key = id.to_owned();
        match self.find(&key) {
            Some(i) => {
                let mut entries: Vec<(String, V)> = Vec::new();
                std::mem::swap(&mut entries, &mut self.entries);
                let ghost before = entries@;
                let entry = entries.remove(i);
                proof {
                    lemma_mapping_at(before, i as int);
                    lemma_mapping_remove(before, i as int);
                    lemma_mapping_size(before);
                    let ids = entry_ids(before);
                    ids.index_of_first_ensures(id@);
                    let first = ids.index_of(id@);
                    assert(first == i);
                }
                self.entries = entries;
                Some(entry.1)
            },
            None => None,
        }
    }

    /// The ids held, each once, in stored order.
    pub fn ids(&self) -> (ids: Vec<String>)
        ensures
            texts(ids@) == self.order(),
            self.order().no_duplicates(),
            self.order().to_set() == self@.dom(),
            self.order().len() == self@.len(),
    {
        proof {
            use_type_invariant(self);
            lemma_mapping_size(self.entries@);
        }
        let mut ids: Vec<String> = Vec::new();
        let mut i: usize = 0;
        while i < self.entries.len()
            invariant
                i <= self.entries@.len(),
                ids@.len() == i,
                forall|k: int| 0 <= k < i ==> ids@[k]@ == self.entries@[k].0@,
            decreases self.entries@.len() - i,
        {
            ids.push(self.entries[i].0.clone());
            i += 1;
        }
        ids
    }

    /// The values held, in stored order: the value at a position is the one
    /// stored under the id at that position of `order`.
    pub fn values(&self) -> (values: Vec<&V>)
        ensures
            values@.len() == self.order().len(),
            forall|i: int|
                0 <= i < values@.len() ==> self@.contains_key(#[trigger] self.order()[i])
                    && values@[i]@ == self@[self.order()[i]],
            self.order().no_duplicates(),
            self.order().to_set() == self@.dom(),
            self.order().len() == self@.len(),
    {
        proof {
            use_type_invariant(self);
            lemma_mapping_size(self.entries@);
        }
        let mut values: Vec<&V> = Vec::new();
        let mut i: usize = 0;
        while i < self.entries.len()
            invariant
                i <= self.entries@.len(),
                values@.len() == i,
                forall|k: int| 0 <= k < i ==> values@[k]@ == self.entries@[k].1@,
            decreases self.entries@.len() - i,
        {
            values.push(&self.entries[i].1);
            i += 1;
        }
        assert forall|i: int| 0 <= i < values@.len() implies self@.contains_key(
            #[trigger] self.order()[i],
        ) && values@[i]@ == self@[self.order()[i]] by {
            lemma_mapping_at(self.entries@, i);
        }
        values
    }
}

} // verus!

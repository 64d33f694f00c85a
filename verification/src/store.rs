//! The keyed entity store: a mapping from identifier to record, held as a
//! vector of entries in strictly ascending key order.
//!
//! The store's abstract value is a `Map<u64, T>`; every operation's contract
//! is stated against that map. Iteration order (ascending key) is visible
//! through [`EntityStore::key_seq`] and [`EntityStore::record_seq`].

use crate::errors::CapacityReason;
use crate::errors::Error;
use crate::records::MAX_RECORD_BYTES;
use crate::records::Record;
use vstd::map::*;
use vstd::prelude::*;

verus! {

/// The entry keys are strictly increasing.
pub open spec fn keys_sorted<T>(s: Seq<(u64, T)>) -> bool {
    forall|i: int, j: int| 0 <= i < j < s.len() ==> s[i].0 < s[j].0
}

/// No two entries share a key.
pub open spec fn keys_distinct<T>(s: Seq<(u64, T)>) -> bool {
    forall|i: int, j: int|
        0 <= i < s.len() && 0 <= j < s.len() && i != j ==> s[i].0 != s[j].0
}

/// The mapping that a sequence of key-record entries denotes; later entries
/// win, though a store never holds two entries with one key.
pub open spec fn map_of_entries<T>(s: Seq<(u64, T)>) -> Map<u64, T>
    decreases s.len(),
{
    if s.len() == 0 {
        Map::empty()
    } else {
        map_of_entries(s.drop_last()).insert(s.last().0, s.last().1)
    }
}

pub proof fn lemma_sorted_implies_distinct<T>(s: Seq<(u64, T)>)
    requires
        keys_sorted(s),
    ensures
        keys_distinct(s),
{
    assert forall|i: int, j: int|
        0 <= i < s.len() && 0 <= j < s.len() && i != j implies s[i].0 != s[j].0 by {
        if i < j {
            assert(s[i].0 < s[j].0);
        } else {
            assert(s[j].0 < s[i].0);
        }
    }
}

/// A key is in the denoted map exactly when some entry carries it.
pub proof fn lemma_map_of_entries_contains<T>(s: Seq<(u64, T)>, k: u64)
    ensures
        map_of_entries(s).contains_key(k) <==> exists|i: int| 0 <= i < s.len() && s[i].0 == k,
    decreases s.len(),
{
    if s.len() > 0 {
        lemma_map_of_entries_contains(s.drop_last(), k);
        if s.last().0 == k {
            assert(s[s.len() - 1].0 == k);
        } else {
            if map_of_entries(s).contains_key(k) {
                let i = choose|i: int| 0 <= i < s.drop_last().len() && s.drop_last()[i].0 == k;
                assert(s[i].0 == k);
            }
            if exists|i: int| 0 <= i < s.len() && s[i].0 == k {
                let i = choose|i: int| 0 <= i < s.len() && s[i].0 == k;
                assert(i != s.len() - 1);
                assert(s.drop_last()[i].0 == k);
            }
        }
    }
}

/// With distinct keys, the entry at index `i` gives the map's value at its key.
pub proof fn lemma_map_of_entries_index<T>(s: Seq<(u64, T)>, i: int)
    requires
        keys_distinct(s),
        0 <= i < s.len(),
    ensures
        map_of_entries(s).contains_key(s[i].0),
        map_of_entries(s)[s[i].0] == s[i].1,
    decreases s.len(),
{
    if i < s.len() - 1 {
        assert(keys_distinct(s.drop_last())) by {
            assert forall|p: int, q: int|
                0 <= p < s.drop_last().len() && 0 <= q < s.drop_last().len() && p != q
                implies s.drop_last()[p].0 != s.drop_last()[q].0 by {
                assert(s[p].0 != s[q].0);
            }
        }
        lemma_map_of_entries_index(s.drop_last(), i);
        assert(s.last().0 != s[i].0);
    }
}

/// Replacing the record of the entry at `i`, key unchanged, turns the denoted
/// map into an insert at that key.
proof fn lemma_map_of_entries_update<T>(s: Seq<(u64, T)>, i: int, record: T)
    requires
        keys_distinct(s),
        0 <= i < s.len(),
    ensures
        map_of_entries(s.update(i, (s[i].0, record))) == map_of_entries(s).insert(s[i].0, record),
{
    let id = s[i].0;
    let t = s.update(i, (id, record));
    assert(forall|j: int| 0 <= j < s.len() ==> t[j].0 == s[j].0);
    assert(keys_distinct(t));
    assert_maps_equal!(map_of_entries(t), map_of_entries(s).insert(id, record), k => {
        lemma_map_of_entries_contains(t, k);
        lemma_map_of_entries_contains(s, k);
        if k == id {
            lemma_map_of_entries_index(t, i);
        } else {
            if map_of_entries(t).contains_key(k) {
                let j = choose|j: int| 0 <= j < t.len() && t[j].0 == k;
                lemma_map_of_entries_index(t, j);
                lemma_map_of_entries_index(s, j);
            }
            if map_of_entries(s).contains_key(k) {
                let j = choose|j: int| 0 <= j < s.len() && s[j].0 == k;
                lemma_map_of_entries_index(s, j);
                lemma_map_of_entries_index(t, j);
            }
        }
    });
}

/// Inserting an entry with a key held by no other entry turns the denoted map
/// into an insert at that key.
proof fn lemma_map_of_entries_insert_at<T>(s: Seq<(u64, T)>, i: int, id: u64, record: T)
    requires
        keys_distinct(s),
        0 <= i <= s.len(),
        forall|j: int| 0 <= j < s.len() ==> s[j].0 != id,
    ensures
        map_of_entries(s.insert(i, (id, record))) == map_of_entries(s).insert(id, record),
{
    let t = s.insert(i, (id, record));
    s.insert_ensures(i, (id, record));
    assert(keys_distinct(t)) by {
        assert forall|p: int, q: int|
            0 <= p < t.len() && 0 <= q < t.len() && p != q implies t[p].0 != t[q].0 by {
            let sp: int = if p < i { p } else { p - 1 };
            let sq: int = if q < i { q } else { q - 1 };
            if p != i && q != i {
                assert(t[p].0 == s[sp].0);
                assert(t[q].0 == s[sq].0);
            }
        }
    }
    assert_maps_equal!(map_of_entries(t), map_of_entries(s).insert(id, record), k => {
        lemma_map_of_entries_contains(t, k);
        lemma_map_of_entries_contains(s, k);
        if k == id {
            lemma_map_of_entries_index(t, i);
        } else {
            if map_of_entries(t).contains_key(k) {
                let j = choose|j: int| 0 <= j < t.len() && t[j].0 == k;
                assert(j != i);
                let sj: int = if j < i { j } else { j - 1 };
                assert(t[j].0 == s[sj].0);
                lemma_map_of_entries_index(t, j);
                lemma_map_of_entries_index(s, sj);
            }
            if map_of_entries(s).contains_key(k) {
                let j = choose|j: int| 0 <= j < s.len() && s[j].0 == k;
                let tj: int = if j < i { j } else { j + 1 };
                assert(t[tj].0 == s[j].0);
                lemma_map_of_entries_index(s, j);
                lemma_map_of_entries_index(t, tj);
            }
        }
    });
}

/// Removing the entry at `i` turns the denoted map into a remove of its key.
proof fn lemma_map_of_entries_remove_at<T>(s: Seq<(u64, T)>, i: int)
    requires
        keys_distinct(s),
        0 <= i < s.len(),
    ensures
        map_of_entries(s.remove(i)) == map_of_entries(s).remove(s[i].0),
{
    let id = s[i].0;
    let t = s.remove(i);
    s.remove_ensures(i);
    assert(keys_distinct(t)) by {
        assert forall|p: int, q: int|
            0 <= p < t.len() && 0 <= q < t.len() && p != q implies t[p].0 != t[q].0 by {
            let sp: int = if p < i { p } else { p + 1 };
            let sq: int = if q < i { q } else { q + 1 };
            assert(t[p].0 == s[sp].0);
            assert(t[q].0 == s[sq].0);
        }
    }
    assert_maps_equal!(map_of_entries(t), map_of_entries(s).remove(id), k => {
        lemma_map_of_entries_contains(t, k);
        lemma_map_of_entries_contains(s, k);
        if map_of_entries(t).contains_key(k) {
            let j = choose|j: int| 0 <= j < t.len() && t[j].0 == k;
            let sj: int = if j < i { j } else { j + 1 };
            assert(t[j].0 == s[sj].0);
            lemma_map_of_entries_index(t, j);
            lemma_map_of_entries_index(s, sj);
        }
        if map_of_entries(s).remove(id).contains_key(k) {
            let j = choose|j: int| 0 <= j < s.len() && s[j].0 == k;
            assert(j != i);
            let tj: int = if j < i { j } else { j - 1 };
            assert(t[tj].0 == s[j].0);
            lemma_map_of_entries_index(s, j);
            lemma_map_of_entries_index(t, tj);
        }
    });
}

/// A durable mapping from identifier to record, iterated in ascending key
/// order. Entries are kept sorted by key; every held record fits the store's
/// size bound.
pub struct EntityStore<T: Record> {
    pub entries: Vec<(u64, T)>,
}

impl<T: Record> View for EntityStore<T> {
    type V = Map<u64, T>;

    open spec fn view(&self) -> Map<u64, T> {
        map_of_entries(self.entries@)
    }
}

impl<T: Record> EntityStore<T> {
    /// Entries sorted strictly by key, and every record within the size bound.
    pub open spec fn wf(&self) -> bool {
        &&& keys_sorted(self.entries@)
        &&& forall|i: int|
            0 <= i < self.entries@.len() ==> (#[trigger] self.entries@[i]).1.encoded_len()
                <= MAX_RECORD_BYTES
    }

    /// The stored keys in iteration order: ascending.
    pub open spec fn key_seq(&self) -> Seq<u64> {
        self.entries@.map_values(|p: (u64, T)| p.0)
    }

    /// The stored records in iteration order of their keys.
    pub open spec fn record_seq(&self) -> Seq<T> {
        self.entries@.map_values(|p: (u64, T)| p.1)
    }

    /// How the ordered sequences relate to the map view: position `i` of the
    /// iteration holds the value of the map at the `i`-th smallest key, and
    /// every key of the map shows up.
    pub proof fn lemma_iteration_order(&self)
        requires
            self.wf(),
        ensures
            self.key_seq().len() == self.record_seq().len(),
            forall|i: int|
                0 <= i < self.key_seq().len() ==> self@.contains_key(#[trigger] self.key_seq()[i])
                    && self@[self.key_seq()[i]] == self.record_seq()[i],
            forall|i: int, j: int|
                0 <= i < j < self.key_seq().len() ==> self.key_seq()[i] < self.key_seq()[j],
            forall|k: u64|
                self@.contains_key(k) ==> exists|i: int|
                    0 <= i < self.key_seq().len() && self.key_seq()[i] == k,
    {
        lemma_sorted_implies_distinct(self.entries@);
        assert forall|i: int| 0 <= i < self.key_seq().len() implies self@.contains_key(
            #[trigger] self.key_seq()[i],
        ) && self@[self.key_seq()[i]] == self.record_seq()[i] by {
            lemma_map_of_entries_index(self.entries@, i);
        }
        assert forall|k: u64| self@.contains_key(k) implies exists|i: int|
            0 <= i < self.key_seq().len() && self.key_seq()[i] == k by {
            lemma_map_of_entries_contains(self.entries@, k);
            let i = choose|i: int| 0 <= i < self.entries@.len() && self.entries@[i].0 == k;
            assert(self.key_seq()[i] == k);
        }
    }

    /// Every record the store holds fits the size bound.
    pub proof fn lemma_value_bounded(&self, k: u64)
        requires
            self.wf(),
            self@.contains_key(k),
        ensures
            self@[k].encoded_len() <= MAX_RECORD_BYTES,
    {
        lemma_sorted_implies_distinct(self.entries@);
        lemma_map_of_entries_contains(self.entries@, k);
        let i = choose|i: int| 0 <= i < self.entries@.len() && self.entries@[i].0 == k;
        lemma_map_of_entries_index(self.entries@, i);
    }

    /// An empty store.
    pub fn new() -> (r: EntityStore<T>)
        ensures
            r.wf(),
            r@ == Map::<u64, T>::empty(),
            r.record_seq() == Seq::<T>::empty(),
    {
        let r = EntityStore { entries: Vec::new() };
        proof {
            assert(r.record_seq() =~= Seq::<T>::empty());
        }
        r
    }

    /// The index of the first entry whose key is at least `id`; all earlier
    /// keys are smaller. With sorted keys, `id` is present exactly when this
    /// index holds it.
    fn lower_bound(&self, id: u64) -> (i: usize)
        requires
            self.wf(),
        ensures
            0 <= i <= self.entries@.len(),
            forall|j: int| 0 <= j < i ==> self.entries@[j].0 < id,
            i < self.entries@.len() ==> self.entries@[i as int].0 >= id,
            (i < self.entries@.len() && self.entries@[i as int].0 == id) <==> self@.contains_key(
                id,
            ),
    {
        let mut i: usize = 0;
        while i < self.entries.len() && self.entries[i].0 < id
            invariant
                self.wf(),
                0 <= i <= self.entries@.len(),
                forall|j: int| 0 <= j < i ==> self.entries@[j].0 < id,
            decreases self.entries@.len() - i,
        {
            i = i + 1;
        }
        proof {
            lemma_map_of_entries_contains(self.entries@, id);
            if self@.contains_key(id) {
                let j = choose|j: int| 0 <= j < self.entries@.len() && self.entries@[j].0 == id;
                assert(j >= i);
                if j > i {
                    assert(self.entries@[i as int].0 < self.entries@[j].0);
                }
                assert(j == i);
            }
        }
        i
    }

    /// Inserts the record at `id`, overwriting whatever was there; rejects a
    /// record whose serialized form exceeds the size bound, leaving the store
    /// unchanged. Overwriting is deliberate: updates go through this same
    /// entry point, so a duplicate key is not an error.
    pub fn insert(&mut self, id: u64, record: T) -> (r: Result<(), Error>)
        requires
            old(self).wf(),
        ensures
            final(self).wf(),
            record.encoded_len() <= MAX_RECORD_BYTES ==> r == Ok::<(), Error>(()) && final(self)@
                == old(self)@.insert(id, record),
            record.encoded_len() > MAX_RECORD_BYTES ==> r == Err::<(), Error>(
                Error::CapacityExceeded { reason: CapacityReason::RecordTooLarge },
            ) && *final(self) == *old(self),
    {
        if !record.fits_bound() {
            return Err(Error::CapacityExceeded { reason: CapacityReason::RecordTooLarge });
        }
        let ghost s = self.entries@;
        proof {
            lemma_sorted_implies_distinct(s);
        }
        let i = self.lower_bound(id);
        if i < self.entries.len() && self.entries[i].0 == id {
            self.entries.remove(i);
            self.entries.insert(i, (id, record));
            proof {
                assert(self.entries@ =~= s.update(i as int, (id, record)));
                lemma_map_of_entries_update(s, i as int, record);
            }
        } else {
            self.entries.insert(i, (id, record));
            proof {
                s.insert_ensures(i as int, (id, record));
                assert forall|j: int| 0 <= j < s.len() implies s[j].0 != id by {
                    if j >= i {
                        assert(s[i as int].0 >= id || i == s.len());
                    }
                }
                lemma_map_of_entries_insert_at(s, i as int, id, record);
            }
        }
        Ok(())
    }

    /// Point lookup; an absent key is not an error at this layer.
    pub fn get(&self, id: u64) -> (r: Option<T>)
        requires
            self.wf(),
        ensures
            r == if self@.contains_key(id) {
                Some(self@[id])
            } else {
                None::<T>
            },
    {
        let i = self.lower_bound(id);
        if i < self.entries.len() && self.entries[i].0 == id {
            proof {
                lemma_sorted_implies_distinct(self.entries@);
                lemma_map_of_entries_index(self.entries@, i as int);
            }
            Some(self.entries[i].1.duplicate())
        } else {
            None
        }
    }

    /// Deletes the record at `id` and returns it; an absent key is a no-op
    /// returning nothing.
    pub fn remove(&mut self, id: u64) -> (r: Option<T>)
        requires
            old(self).wf(),
        ensures
            final(self).wf(),
            final(self)@ == old(self)@.remove(id),
            r == if old(self)@.contains_key(id) {
                Some(old(self)@[id])
            } else {
                None::<T>
            },
    {
        let ghost s = self.entries@;
        proof {
            lemma_sorted_implies_distinct(s);
        }
        let i = self.lower_bound(id);
        if i < self.entries.len() && self.entries[i].0 == id {
            proof {
                lemma_map_of_entries_index(s, i as int);
                lemma_map_of_entries_remove_at(s, i as int);
                s.remove_ensures(i as int);
            }
            let entry = self.entries.remove(i);
            Some(entry.1)
        } else {
            proof {
                assert(final(self)@ =~= old(self)@.remove(id));
            }
            None
        }
    }

    /// Every record, in ascending key order, as of the moment of the call.
    pub fn list(&self) -> (r: Vec<T>)
        requires
            self.wf(),
        ensures
            r@ == self.record_seq(),
    {
        let mut r: Vec<T> = Vec::new();
        let mut i: usize = 0;
        while i < self.entries.len()
            invariant
                0 <= i <= self.entries@.len(),
                r@.len() == i,
                forall|j: int| 0 <= j < i ==> r@[j] == self.entries@[j].1,
            decreases self.entries@.len() - i,
        {
            r.push(self.entries[i].1.duplicate());
            i = i + 1;
        }
        proof {
            assert(r@ =~= self.record_seq());
        }
        r
    }
}

/// Round-trip law: storing a record and then looking its identifier up yields
/// exactly that record. `EntityStore::insert` of a record within the size
/// bound turns the store's map into `insert(id, record)`, and
/// `EntityStore::get` returns the map's value at the key, so this map fact is
/// the round trip.
pub proof fn lemma_insert_then_get<T>(m: Map<u64, T>, id: u64, record: T)
    ensures
        m.insert(id, record).contains_key(id),
        m.insert(id, record)[id] == record,
{
}

/// Deletion law: after a removal the key is gone, and removing it again
/// changes nothing. `EntityStore::remove` turns the store's map into
/// `remove(id)` and returns nothing when the key is absent, so a second
/// removal is a no-op.
pub proof fn lemma_remove_then_get<T>(m: Map<u64, T>, id: u64)
    ensures
        !m.remove(id).contains_key(id),
        m.remove(id).remove(id) == m.remove(id),
{
    assert_maps_equal!(m.remove(id).remove(id), m.remove(id));
}

} // verus!

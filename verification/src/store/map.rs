//! The maps of a storage backend: keyed by field elements, with atomic
//! batches of writes.

use vstd::prelude::*;
use crate::field::Field;

verus! {

/// Why a storage operation failed.
#[derive(Clone, Copy, PartialEq, Eq, Structural, Debug)]
pub enum StorageError {
    /// A map of the backend failed to write; the atomic batch was aborted.
    Operation,
    /// A map of the backend failed to read.
    Read,
    /// A map of the backend failed to finish its atomic batch.
    Commit,
    /// An output ID of the transition is in none of the maps of outputs.
    MissingOutput { index: usize },
    /// An output ID of the transition is in more than one of the maps of outputs.
    MultipleOutputs { index: usize },
    /// The record is not in storage.
    RecordNotFound,
}

/// What a map holds after a write: the value at the key, or no value there.
pub open spec fn written<V>(map: Map<Field, V>, key: Field, value: Option<V>) -> Map<Field, V> {
    match value {
        Some(v) => map.insert(key, v),
        None => map.remove(key),
    }
}

/// What a map holds after the writes of a batch, in order.
pub open spec fn applied<V>(map: Map<Field, V>, batch: Seq<(Field, Option<V>)>) -> Map<Field, V>
    decreases batch.len(),
{
    if batch.len() == 0 {
        map
    } else {
        applied(written(map, batch[0].0, batch[0].1), batch.skip(1))
    }
}

/// A map of a storage backend.
///
/// A map is described by what it holds, by the writes that wait in its
/// atomic batch, and by whether a batch is in progress. A write may fail,
/// and then changes nothing; a map of a reliable kind never fails.
pub trait MapStorage<V: DeepView>: Sized {
    /// What the map holds: the ghost value of each value, by key.
    spec fn contents(&self) -> Map<Field, V::V>;

    /// The writes that wait in the atomic batch, in order.
    spec fn batch(&self) -> Seq<(Field, Option<V::V>)>;

    /// Whether an atomic batch is in progress.
    spec fn in_progress(&self) -> bool;

    /// Whether the map keeps its promises.
    spec fn well_formed(&self) -> bool;

    /// Whether maps of this kind never fail.
    spec fn reliable() -> bool;

    /// An empty map, with no batch in progress.
    fn new() -> (r: Self)
        ensures
            r.well_formed(),
            r.contents() == Map::<Field, V::V>::empty(),
            r.batch() == Seq::<(Field, Option<V::V>)>::empty(),
            !r.in_progress(),
    ;

    /// Inserts the given key-value pair into the map, or into the atomic
    /// batch where one is in progress.
    fn insert(&mut self, key: Field, value: V) -> (r: Result<(), StorageError>)
        requires
            old(self).well_formed(),
        ensures
            final(self).well_formed(),
            final(self).in_progress() == old(self).in_progress(),
            Self::reliable() ==> r is Ok,
            match r {
                Ok(()) => if old(self).in_progress() {
                    final(self).contents() == old(self).contents() && final(self).batch() == old(self).batch().push((key, Some(value.deep_view())))
                } else {
                    final(self).contents() == old(self).contents().insert(key, value.deep_view()) && final(self).batch() == old(self).batch()
                },
                Err(_) => final(self).contents() == old(self).contents() && final(self).batch()
                    == old(self).batch(),
            },
    ;

    /// Removes the key-value pair for the given key from the map, or notes
    /// the removal in the atomic batch where one is in progress.
    fn remove(&mut self, key: &Field) -> (r: Result<(), StorageError>)
        requires
            old(self).well_formed(),
        ensures
            final(self).well_formed(),
            final(self).in_progress() == old(self).in_progress(),
            Self::reliable() ==> r is Ok,
            match r {
                Ok(()) => if old(self).in_progress() {
                    final(self).contents() == old(self).contents() && final(self).batch() == old(self).batch().push((*key, None))
                } else {
                    final(self).contents() == old(self).contents().remove(*key) && final(self).batch() == old(self).batch()
                },
                Err(_) => final(self).contents() == old(self).contents() && final(self).batch()
                    == old(self).batch(),
            },
    ;

    /// Returns the value for the given key from the map, if it exists.
    fn get(&self, key: &Field) -> (r: Result<Option<&V>, StorageError>)
        requires
            self.well_formed(),
        ensures
            Self::reliable() ==> r is Ok,
            r matches Ok(found) ==> (match found {
                Some(value) => self.contents().contains_key(*key) && self.contents()[*key]
                    == value.deep_view(),
                None => !self.contents().contains_key(*key),
            }),
    ;

    /// Returns `true` if the given key exists in the map.
    fn contains_key(&self, key: &Field) -> (r: Result<bool, StorageError>)
        requires
            self.well_formed(),
        ensures
            Self::reliable() ==> r is Ok,
            r matches Ok(found) ==> found == self.contents().contains_key(*key),
    ;

    /// Returns the keys of the map, each once, in no order that is promised.
    fn keys(&self) -> (r: Vec<Field>)
        requires
            self.well_formed(),
        ensures
            r@.no_duplicates(),
            forall|key: Field| r@.contains(key) <==> self.contents().contains_key(key),
    ;

    /// Begins an atomic batch: from here on writes wait in the batch.
    fn start_atomic(&mut self)
        requires
            old(self).well_formed(),
        ensures
            final(self).well_formed(),
            final(self).in_progress(),
            final(self).contents() == old(self).contents(),
            final(self).batch() == old(self).batch(),
    ;

    /// Checks whether an atomic batch is in progress.
    fn is_atomic_in_progress(&self) -> (r: bool)
        requires
            self.well_formed(),
        ensures
            r == self.in_progress(),
    ;

    /// Aborts the atomic batch: the writes that wait are dropped.
    fn abort_atomic(&mut self)
        requires
            old(self).well_formed(),
        ensures
            final(self).well_formed(),
            !final(self).in_progress(),
            final(self).contents() == old(self).contents(),
            final(self).batch() == Seq::<(Field, Option<V::V>)>::empty(),
    ;

    /// Finishes the atomic batch: the writes that wait are made, in order.
    /// Where that fails, the map is as it was.
    fn finish_atomic(&mut self) -> (r: Result<(), StorageError>)
        requires
            old(self).well_formed(),
        ensures
            final(self).well_formed(),
            Self::reliable() ==> r is Ok,
            match r {
                Ok(()) => !final(self).in_progress() && final(self).contents() == applied(
                    old(self).contents(),
                    old(self).batch(),
                ) && final(self).batch() == Seq::<(Field, Option<V::V>)>::empty(),
                Err(_) => final(self).in_progress() == old(self).in_progress() && final(self).contents() == old(self).contents() && final(self).batch() == old(self).batch(),
            },
    ;
}

/// Whether no two entries hold the same key.
pub open spec fn distinct_keys<W>(entries: Seq<(Field, W)>) -> bool {
    forall|i: int, j: int| 0 <= i < j < entries.len() ==> entries[i].0 != entries[j].0
}

/// The map that a list of entries with distinct keys stands for.
pub open spec fn entries_map<W>(entries: Seq<(Field, W)>) -> Map<Field, W> {
    Map::new(
        |key: Field| exists|i: int| 0 <= i < entries.len() && entries[i].0 == key,
        |key: Field| entries[choose|i: int| 0 <= i < entries.len() && entries[i].0 == key].1,
    )
}

/// Without one of its entries, a list with distinct keys stands for the map
/// without the key of that entry.
pub proof fn lemma_remove_entry<W>(before: Seq<(Field, W)>, i: int)
    requires
        distinct_keys(before),
        0 <= i < before.len(),
    ensures
        distinct_keys(before.remove(i)),
        entries_map(before.remove(i)) == entries_map(before).remove(before[i].0),
{
    let removed = before.remove(i);
    let key = before[i].0;
    assert forall|a: int, b: int| 0 <= a < b < removed.len() implies removed[a].0
        != removed[b].0 by {
        let a0 = if a < i {
            a
        } else {
            a + 1
        };
        let b0 = if b < i {
            b
        } else {
            b + 1
        };
        assert(removed[a] == before[a0]);
        assert(removed[b] == before[b0]);
    }
    assert forall|k: Field|
        entries_map(removed).contains_key(k) <==> entries_map(before).remove(key).contains_key(
            k,
        ) by {
        if entries_map(removed).contains_key(k) {
            let j = choose|j: int| 0 <= j < removed.len() && removed[j].0 == k;
            let j0 = if j < i {
                j
            } else {
                j + 1
            };
            assert(removed[j] == before[j0]);
        }
        if entries_map(before).remove(key).contains_key(k) {
            let j0 = choose|j: int| 0 <= j < before.len() && before[j].0 == k;
            let j = if j0 < i {
                j0
            } else {
                j0 - 1
            };
            assert(removed[j] == before[j0]);
        }
    }
    assert forall|k: Field| entries_map(removed).contains_key(k) implies entries_map(removed)[k]
        == entries_map(before).remove(key)[k] by {
        let j = choose|j: int| 0 <= j < removed.len() && removed[j].0 == k;
        let j0 = if j < i {
            j
        } else {
            j + 1
        };
        assert(removed[j] == before[j0]);
        let c = choose|c: int| 0 <= c < before.len() && before[c].0 == k;
        assert(c == j0);
    }
    assert(entries_map(removed) =~= entries_map(before).remove(key));
}

/// With an entry more, whose key is new, a list with distinct keys stands
/// for the map with that entry.
pub proof fn lemma_push_entry<W>(middle: Seq<(Field, W)>, key: Field, v: W)
    requires
        distinct_keys(middle),
        forall|i: int| 0 <= i < middle.len() ==> middle[i].0 != key,
    ensures
        distinct_keys(middle.push((key, v))),
        entries_map(middle.push((key, v))) == entries_map(middle).insert(key, v),
        !entries_map(middle).contains_key(key),
{
    let after = middle.push((key, v));
    assert(after[after.len() - 1].0 == key);
    assert forall|k: Field|
        entries_map(after).contains_key(k) <==> entries_map(middle).insert(key, v).contains_key(
            k,
        ) by {
        if entries_map(middle).contains_key(k) {
            let j = choose|j: int| 0 <= j < middle.len() && middle[j].0 == k;
            assert(after[j] == middle[j]);
        }
        if entries_map(after).contains_key(k) && k != key {
            let j = choose|j: int| 0 <= j < after.len() && after[j].0 == k;
            assert(middle[j] == after[j]);
        }
    }
    assert forall|k: Field| entries_map(after).contains_key(k) implies entries_map(after)[k]
        == entries_map(middle).insert(key, v)[k] by {
        let j = choose|j: int| 0 <= j < after.len() && after[j].0 == k;
        if k != key {
            assert(middle[j] == after[j]);
            let c = choose|c: int| 0 <= c < middle.len() && middle[c].0 == k;
            assert(c == j);
        } else {
            assert(j == after.len() - 1);
        }
    }
    assert(entries_map(after) =~= entries_map(middle).insert(key, v));
}

/// The ghost values of a list of entries.
pub open spec fn entry_views<V: DeepView>(entries: Seq<(Field, V)>) -> Seq<(Field, V::V)> {
    Seq::new(entries.len(), |i: int| (entries[i].0, entries[i].1.deep_view()))
}

/// The ghost values of a list of writes.
pub open spec fn write_views<V: DeepView>(writes: Seq<(Field, Option<V>)>) -> Seq<
    (Field, Option<V::V>),
> {
    Seq::new(writes.len(), |i: int| (writes[i].0, writes[i].1.deep_view()))
}

/// A map in memory: a list of entries with distinct keys.
#[derive(Clone, Debug)]
pub struct MemoryMap<V> {
    /// The entries of the map.
    pub entries: Vec<(Field, V)>,
    /// The writes that wait in the atomic batch.
    pub atomic_batch: Vec<(Field, Option<V>)>,
    /// Whether an atomic batch is in progress.
    pub batch_in_progress: bool,
}

impl<V: DeepView> MemoryMap<V> {
    /// Returns the place of a key among the entries, if it is there.
    pub fn position(&self, key: &Field) -> (r: Option<usize>)
        ensures
            match r {
                Some(i) => i < self.entries@.len() && self.entries@[i as int].0 == *key,
                None => forall|i: int| 0 <= i < self.entries@.len() ==> self.entries@[i].0 != *key,
            },
    {
        let mut i: usize = 0;
        while i < self.entries.len()
            invariant
                i <= self.entries.len(),
                forall|j: int| 0 <= j < i ==> self.entries@[j].0 != *key,
            decreases self.entries.len() - i,
        {
            if self.entries[i].0 == *key {
                return Some(i);
            }
            i += 1;
        }
        None
    }

    /// Writes a value at a key, or removes the key, in the entries.
    pub fn write(&mut self, key: Field, value: Option<V>)
        requires
            distinct_keys(entry_views(old(self).entries@)),
        ensures
            distinct_keys(entry_views(final(self).entries@)),
            entries_map(entry_views(final(self).entries@)) == written(
                entries_map(entry_views(old(self).entries@)),
                key,
                value.deep_view(),
            ),
            final(self).atomic_batch == old(self).atomic_batch,
            final(self).batch_in_progress == old(self).batch_in_progress,
    {
        let ghost before = entry_views(self.entries@);
        let place = self.position(&key);
        match place {
            Some(i) => {
                self.entries.remove(i);
                proof {
                    assert(entry_views(self.entries@) =~= before.remove(i as int));
                    lemma_remove_entry(before, i as int);
                }
            },
            None => {
                assert(entries_map(before) =~= entries_map(before).remove(key));
            },
        }
        if let Some(v) = value {
            let ghost middle = entry_views(self.entries@);
            let ghost view = v.deep_view();
            proof {
                assert forall|i: int| 0 <= i < middle.len() implies middle[i].0 != key by {
                    match place {
                        Some(p) => {
                            let i0 = if i < p {
                                i
                            } else {
                                i + 1
                            };
                            assert(middle[i] == before[i0]);
                        },
                        None => {},
                    }
                }
            }
            self.entries.push((key, v));
            proof {
                assert(entry_views(self.entries@) =~= middle.push((key, view)));
                lemma_push_entry(middle, key, view);
                assert(entries_map(middle).remove(key) =~= entries_map(middle));
            }
        }
    }
}

impl<V: DeepView> MapStorage<V> for MemoryMap<V> {
    open spec fn contents(&self) -> Map<Field, V::V> {
        entries_map(entry_views(self.entries@))
    }

    open spec fn batch(&self) -> Seq<(Field, Option<V::V>)> {
        write_views(self.atomic_batch@)
    }

    open spec fn in_progress(&self) -> bool {
        self.batch_in_progress
    }

    open spec fn well_formed(&self) -> bool {
        distinct_keys(entry_views(self.entries@))
    }

    /// A map in memory never fails.
    open spec fn reliable() -> bool {
        true
    }

    fn new() -> (r: Self) {
        let r = MemoryMap { entries: Vec::new(), atomic_batch: Vec::new(), batch_in_progress: false };
        assert(entries_map(entry_views(r.entries@)) =~= Map::<Field, V::V>::empty());
        assert(write_views(r.atomic_batch@) =~= Seq::<(Field, Option<V::V>)>::empty());
        r
    }

    fn insert(&mut self, key: Field, value: V) -> (r: Result<(), StorageError>) {
        if self.batch_in_progress {
            let ghost before = write_views(self.atomic_batch@);
            let ghost view = value.deep_view();
            self.atomic_batch.push((key, Some(value)));
            assert(write_views(self.atomic_batch@) =~= before.push((key, Some(view))));
        } else {
            self.write(key, Some(value));
        }
        Ok(())
    }

    fn remove(&mut self, key: &Field) -> (r: Result<(), StorageError>) {
        if self.batch_in_progress {
            let ghost before = write_views(self.atomic_batch@);
            self.atomic_batch.push((*key, None));
            assert(write_views(self.atomic_batch@) =~= before.push((*key, None)));
        } else {
            self.write(*key, None);
        }
        Ok(())
    }

    fn get(&self, key: &Field) -> (r: Result<Option<&V>, StorageError>) {
        match self.position(key) {
            Some(i) => {
                proof {
                    let views = entry_views(self.entries@);
                    assert(views[i as int].0 == *key);
                    let c = choose|c: int| 0 <= c < views.len() && views[c].0 == *key;
                    assert(c == i);
                }
                Ok(Some(&self.entries[i].1))
            },
            None => {
                proof {
                    let views = entry_views(self.entries@);
                    assert forall|i: int| 0 <= i < views.len() implies views[i].0 != *key by {
                        assert(views[i].0 == self.entries@[i].0);
                    }
                }
                Ok(None)
            },
        }
    }

    fn contains_key(&self, key: &Field) -> (r: Result<bool, StorageError>) {
        let place = self.position(key);
        proof {
            let views = entry_views(self.entries@);
            match place {
                Some(i) => {
                    assert(views[i as int].0 == *key);
                },
                None => {
                    assert forall|i: int| 0 <= i < views.len() implies views[i].0 != *key by {
                        assert(views[i].0 == self.entries@[i].0);
                    }
                },
            }
        }
        Ok(place.is_some())
    }

    fn keys(&self) -> (r: Vec<Field>) {
        let mut out: Vec<Field> = Vec::new();
        let mut i: usize = 0;
        while i < self.entries.len()
            invariant
                i <= self.entries.len(),
                out@.len() == i,
                forall|j: int| 0 <= j < i ==> out@[j] == self.entries@[j].0,
            decreases self.entries.len() - i,
        {
            out.push(self.entries[i].0);
            i += 1;
        }
        proof {
            let views = entry_views(self.entries@);
            assert forall|a: int, b: int| 0 <= a < out@.len() && 0 <= b < out@.len() && a
                != b implies out@[a] != out@[b] by {
                assert(views[a].0 == out@[a]);
                assert(views[b].0 == out@[b]);
            }
            assert forall|key: Field| out@.contains(key) <==> self.contents().contains_key(key) by {
                if out@.contains(key) {
                    let j = choose|j: int| 0 <= j < out@.len() && out@[j] == key;
                    assert(views[j].0 == key);
                }
                if self.contents().contains_key(key) {
                    let j = choose|j: int| 0 <= j < views.len() && views[j].0 == key;
                    assert(out@[j] == key);
                }
            }
        }
        out
    }

    fn start_atomic(&mut self) {
        self.batch_in_progress = true;
    }

    fn is_atomic_in_progress(&self) -> (r: bool) {
        self.batch_in_progress
    }

    fn abort_atomic(&mut self) {
        self.atomic_batch.clear();
        self.batch_in_progress = false;
        assert(write_views(self.atomic_batch@) =~= Seq::<(Field, Option<V::V>)>::empty());
    }

    fn finish_atomic(&mut self) -> (r: Result<(), StorageError>) {
        let ghost start = entry_views(self.entries@);
        let ghost all = write_views(self.atomic_batch@);
        while self.atomic_batch.len() > 0
            invariant
                distinct_keys(entry_views(self.entries@)),
                applied(entries_map(entry_views(self.entries@)), write_views(self.atomic_batch@))
                    == applied(entries_map(start), all),
            decreases self.atomic_batch.len(),
        {
            let ghost pending = write_views(self.atomic_batch@);
            let (key, value) = self.atomic_batch.remove(0);
            assert(write_views(self.atomic_batch@) =~= pending.skip(1));
            assert(pending[0] == (key, value.deep_view()));
            self.write(key, value);
        }
        self.batch_in_progress = false;
        assert(write_views(self.atomic_batch@) =~= Seq::<(Field, Option<V::V>)>::empty());
        Ok(())
    }
}

} // verus!

//! The transition output store, in memory and over a map that fails.

use snarkvm_core::field::{Field, Group};
use snarkvm_core::program::{Ciphertext, Plaintext, RecordCiphertext};
use snarkvm_core::store::map::{MapStorage, MemoryMap, StorageError};
use snarkvm_core::store::output::{OutputMemory, OutputStorage, OutputStore};
use snarkvm_core::transition::output::Output;
use vstd::map::Map;
use vstd::seq::Seq;

fn field(v: u64) -> Field {
    Field { l0: v, l1: 0, l2: 0, l3: 0 }
}

fn record(nonce: u64) -> RecordCiphertext {
    RecordCiphertext {
        owner: field(1),
        gates: field(2),
        data: vec![field(3)],
        nonce: Group { x: field(nonce) },
    }
}

/// A transition ID with one output, for each kind of output.
fn sample_outputs() -> Vec<(Field, Output)> {
    vec![
        (field(100), Output::Constant(field(1), Some(Plaintext { fields: vec![field(5)] }))),
        (field(101), Output::Public(field(2), None)),
        (field(102), Output::Private(field(3), Some(Ciphertext { fields: vec![field(6)] }))),
        (field(103), Output::Record(field(4), field(40), Some(record(77)))),
        (field(104), Output::Record(field(5), field(50), None)),
        (field(105), Output::ExternalRecord(field(6))),
    ]
}

#[test]
fn test_insert_get_remove() {
    // Sample the transition outputs.
    for (transition_id, output) in sample_outputs() {
        // Initialize a new output store.
        let mut output_store = OutputStore::<OutputMemory>::open(None);

        // Ensure the transition output does not exist.
        let candidate = output_store.get_outputs(&transition_id).unwrap();
        assert!(candidate.is_empty());

        // Insert the transition output.
        output_store.insert(transition_id, &vec![output.clone()]).unwrap();

        // Retrieve the transition output.
        let candidate = output_store.get_outputs(&transition_id).unwrap();
        assert_eq!(vec![output.clone()], candidate);

        // Remove the transition output.
        output_store.remove(&transition_id).unwrap();

        // Retrieve the transition output.
        let candidate = output_store.get_outputs(&transition_id).unwrap();
        assert!(candidate.is_empty());
    }
}

#[test]
fn test_find_transition_id() {
    // Sample the transition outputs.
    for (transition_id, output) in sample_outputs() {
        // Initialize a new output store.
        let mut output_store = OutputStore::<OutputMemory>::open(None);

        // Ensure the transition output does not exist.
        let candidate = output_store.get_outputs(&transition_id).unwrap();
        assert!(candidate.is_empty());

        // Ensure the transition ID is not found.
        let candidate = output_store.find_transition_id(&output.id()).unwrap();
        assert!(candidate.is_none());

        // Insert the transition output.
        output_store.insert(transition_id, &vec![output.clone()]).unwrap();

        // Find the transition ID.
        let candidate = output_store.find_transition_id(&output.id()).unwrap();
        assert_eq!(Some(transition_id), candidate);

        // Remove the transition output.
        output_store.remove(&transition_id).unwrap();

        // Ensure the transition ID is not found.
        let candidate = output_store.find_transition_id(&output.id()).unwrap();
        assert!(candidate.is_none());
    }
}

#[test]
fn a_transition_with_all_kinds_of_outputs_is_stored_and_removed() {
    let outputs: Vec<Output> = sample_outputs().into_iter().map(|(_, output)| output).collect();
    let ids: Vec<Field> = outputs.iter().map(Output::id).collect();
    let mut store = OutputStore::<OutputMemory>::open(Some(3));
    assert_eq!(store.dev(), Some(3));
    store.insert(field(9), &outputs).unwrap();
    assert!(!store.is_atomic_in_progress());

    assert_eq!(store.get_output_ids(&field(9)), Ok(ids.clone()));
    assert_eq!(store.get_outputs(&field(9)), Ok(outputs));
    for id in &ids {
        assert_eq!(store.contains_output_id(id), Ok(true));
        assert_eq!(store.find_transition_id(id), Ok(Some(field(9))));
    }
    assert_eq!(store.contains_commitment(&field(4)), Ok(true));
    assert_eq!(store.contains_commitment(&field(1)), Ok(false));
    assert_eq!(store.contains_nonce(&Group { x: field(77) }), Ok(true));
    assert_eq!(store.contains_nonce(&Group { x: field(78) }), Ok(false));
    // A record that is stored, one that was purged, and one that is unknown.
    assert_eq!(store.get_record(&field(4)), Ok(Some(record(77))));
    assert_eq!(store.get_record(&field(5)), Ok(None));
    assert_eq!(store.get_record(&field(6)), Err(StorageError::RecordNotFound));

    // Removing a transition that is not stored changes nothing.
    store.remove(&field(10)).unwrap();
    assert_eq!(store.get_output_ids(&field(9)), Ok(ids.clone()));

    store.remove(&field(9)).unwrap();
    assert_eq!(store.get_output_ids(&field(9)), Ok(vec![]));
    for id in &ids {
        assert_eq!(store.contains_output_id(id), Ok(false));
    }
    assert_eq!(store.contains_nonce(&Group { x: field(77) }), Ok(false));
    assert!(store.record.entries.is_empty());
    assert!(store.constant.entries.is_empty());
}

#[test]
fn an_output_in_no_map_or_in_two_maps_is_refused() {
    let mut store = OutputStore::<OutputMemory>::open(None);
    store.insert(field(9), &vec![Output::Public(field(2), None), Output::ExternalRecord(field(6))]).unwrap();
    store.constant.insert(field(6), None).unwrap();
    assert_eq!(store.get_outputs(&field(9)), Err(StorageError::MultipleOutputs { index: 1 }));
    store.public.remove(&field(2)).unwrap();
    assert_eq!(store.get_outputs(&field(9)), Err(StorageError::MissingOutput { index: 0 }));
}

#[test]
fn writes_wait_in_an_atomic_batch() {
    let mut store = OutputStore::<OutputMemory>::open(None);
    store.start_atomic();
    assert!(store.is_atomic_in_progress());
    store.insert(field(9), &vec![Output::Public(field(2), None)]).unwrap();
    // The insertion was part of the batch, and is not made yet.
    assert!(store.is_atomic_in_progress());
    assert_eq!(store.get_output_ids(&field(9)), Ok(vec![]));
    assert_eq!(store.public.atomic_batch.len(), 1);
    store.finish_atomic().unwrap();
    assert!(!store.is_atomic_in_progress());
    assert_eq!(store.get_output_ids(&field(9)), Ok(vec![field(2)]));

    store.start_atomic();
    store.remove(&field(9)).unwrap();
    assert_eq!(store.get_output_ids(&field(9)), Ok(vec![field(2)]));
    store.abort_atomic();
    assert!(!store.is_atomic_in_progress());
    assert_eq!(store.get_output_ids(&field(9)), Ok(vec![field(2)]));
    assert!(store.id_map.atomic_batch.is_empty());
}

#[test]
fn a_map_in_memory_keeps_the_last_value_of_a_key() {
    let mut map = MemoryMap::<Field>::new();
    map.insert(field(1), field(10)).unwrap();
    map.insert(field(2), field(20)).unwrap();
    map.insert(field(1), field(11)).unwrap();
    assert_eq!(map.get(&field(1)), Ok(Some(&field(11))));
    assert_eq!(map.get(&field(3)), Ok(None));
    assert_eq!(map.contains_key(&field(2)), Ok(true));
    let mut keys = map.keys();
    keys.sort_by_key(|k| k.l0);
    assert_eq!(keys, vec![field(1), field(2)]);
    map.remove(&field(1)).unwrap();
    assert_eq!(map.keys(), vec![field(2)]);

    // The writes of a batch are made in order when it is finished.
    map.start_atomic();
    map.insert(field(5), field(50)).unwrap();
    map.remove(&field(5)).unwrap();
    map.insert(field(5), field(51)).unwrap();
    map.remove(&field(2)).unwrap();
    assert_eq!(map.get(&field(5)), Ok(None));
    map.finish_atomic().unwrap();
    assert_eq!(map.get(&field(5)), Ok(Some(&field(51))));
    assert_eq!(map.get(&field(2)), Ok(None));
    assert!(!map.is_atomic_in_progress());
}

/// A map in memory whose writes fail once `writes_left` of them were made,
/// and whose reads and whose finishing of a batch fail where that is set.
struct Failing<V> {
    inner: MemoryMap<V>,
    writes_left: usize,
    reads_fail: bool,
    finish_fails: bool,
}

impl<V: vstd::prelude::DeepView> MapStorage<V> for Failing<V> {
    fn contents(&self) -> Map<Field, V::V> {
        unreachable!()
    }

    fn batch(&self) -> Seq<(Field, Option<V::V>)> {
        unreachable!()
    }

    fn in_progress(&self) -> bool {
        unreachable!()
    }

    fn well_formed(&self) -> bool {
        unreachable!()
    }

    fn reliable() -> bool {
        unreachable!()
    }

    fn new() -> Self {
        Failing {
            inner: MemoryMap::new(),
            writes_left: usize::MAX,
            reads_fail: false,
            finish_fails: false,
        }
    }

    fn insert(&mut self, key: Field, value: V) -> Result<(), StorageError> {
        if self.writes_left == 0 {
            return Err(StorageError::Operation);
        }
        self.writes_left -= 1;
        self.inner.insert(key, value)
    }

    fn remove(&mut self, key: &Field) -> Result<(), StorageError> {
        self.inner.remove(key)
    }

    fn get(&self, key: &Field) -> Result<Option<&V>, StorageError> {
        if self.reads_fail {
            return Err(StorageError::Read);
        }
        self.inner.get(key)
    }

    fn contains_key(&self, key: &Field) -> Result<bool, StorageError> {
        self.inner.contains_key(key)
    }

    fn keys(&self) -> Vec<Field> {
        self.inner.keys()
    }

    fn start_atomic(&mut self) {
        self.inner.start_atomic()
    }

    fn is_atomic_in_progress(&self) -> bool {
        self.inner.is_atomic_in_progress()
    }

    fn abort_atomic(&mut self) {
        self.inner.abort_atomic()
    }

    fn finish_atomic(&mut self) -> Result<(), StorageError> {
        if self.finish_fails {
            return Err(StorageError::Commit);
        }
        self.inner.finish_atomic()
    }
}

/// A storage in memory whose map of private outputs fails.
struct FailingStorage;

impl OutputStorage for FailingStorage {
    type IDMap = MemoryMap<Vec<Field>>;
    type ReverseIDMap = MemoryMap<Field>;
    type ConstantMap = MemoryMap<Option<Plaintext>>;
    type PublicMap = MemoryMap<Option<Plaintext>>;
    type PrivateMap = Failing<Option<Ciphertext>>;
    type RecordMap = MemoryMap<(Field, Option<RecordCiphertext>)>;
    type RecordNonceMap = MemoryMap<Field>;
    type ExternalRecordMap = MemoryMap<()>;
}

#[test]
fn a_failure_in_the_middle_of_an_insertion_leaves_no_partial_state() {
    let outputs = vec![
        Output::Constant(field(1), None),
        Output::Record(field(4), field(40), Some(record(77))),
        Output::Private(field(3), None),
        Output::ExternalRecord(field(6)),
    ];
    let mut store = OutputStore::<FailingStorage>::open(None);
    store.insert(field(8), &vec![Output::Private(field(30), None)]).unwrap();

    // The write of the third output fails.
    store.private.writes_left = 0;
    assert_eq!(store.insert(field(9), &outputs), Err(StorageError::Operation));
    assert!(!store.is_atomic_in_progress());
    assert_eq!(store.get_output_ids(&field(9)), Ok(vec![]));
    assert_eq!(store.get_output_ids(&field(8)), Ok(vec![field(30)]));
    for id in [1, 3, 4, 6] {
        assert_eq!(store.contains_output_id(&field(id)), Ok(false));
    }
    assert_eq!(store.contains_commitment(&field(4)), Ok(false));
    assert_eq!(store.contains_nonce(&Group { x: field(77) }), Ok(false));
    assert!(store.id_map.atomic_batch.is_empty());
    assert!(store.reverse_id_map.atomic_batch.is_empty());
    assert!(store.constant.atomic_batch.is_empty());
    assert!(store.record.atomic_batch.is_empty());
    assert!(store.record_nonce.atomic_batch.is_empty());
    assert_eq!(store.id_map.entries.len(), 1);
    assert_eq!(store.constant.entries.len(), 0);

    // Within a batch of the caller, the whole batch is aborted.
    store.private.writes_left = usize::MAX;
    store.start_atomic();
    store.insert(field(10), &vec![Output::Public(field(2), None)]).unwrap();
    store.private.writes_left = 0;
    assert_eq!(store.insert(field(9), &outputs), Err(StorageError::Operation));
    assert!(!store.is_atomic_in_progress());
    assert_eq!(store.get_output_ids(&field(10)), Ok(vec![]));
    assert_eq!(store.get_output_ids(&field(8)), Ok(vec![field(30)]));

    // Once the map writes again, the insertion is made.
    store.private.writes_left = usize::MAX;
    store.insert(field(9), &outputs).unwrap();
    assert_eq!(store.get_outputs(&field(9)), Ok(outputs));
}

#[test]
fn a_read_that_fails_is_reported() {
    let mut store = OutputStore::<FailingStorage>::open(None);
    store.insert(field(9), &vec![Output::Private(field(3), None)]).unwrap();
    store.private.reads_fail = true;
    assert_eq!(store.get_outputs(&field(9)), Err(StorageError::Read));
    assert_eq!(store.private_outputs(), Err(StorageError::Read));
    // The other maps are read as before.
    assert_eq!(store.get_output_ids(&field(9)), Ok(vec![field(3)]));
    store.private.reads_fail = false;
    assert_eq!(store.get_outputs(&field(9)), Ok(vec![Output::Private(field(3), None)]));
}

#[test]
fn a_batch_that_is_not_finished_leaves_the_later_maps_as_they_were() {
    let mut store = OutputStore::<FailingStorage>::open(None);
    store.private.finish_fails = true;
    let outputs = vec![Output::Private(field(3), None), Output::ExternalRecord(field(6))];
    assert_eq!(store.insert(field(9), &outputs), Err(StorageError::Commit));
    // The maps before the one that failed are finished.
    assert_eq!(store.get_output_ids(&field(9)), Ok(vec![field(3), field(6)]));
    assert!(!store.id_map.is_atomic_in_progress());
    // The one that failed and those after it still hold their batch.
    assert!(store.private.is_atomic_in_progress());
    assert!(store.external_record.is_atomic_in_progress());
    assert_eq!(store.external_record.atomic_batch.len(), 1);
    assert_eq!(store.external_output_ids(), vec![]);
    // Finishing again, once the map finishes, completes the insertion.
    store.private.finish_fails = false;
    store.finish_atomic().unwrap();
    assert_eq!(store.get_outputs(&field(9)), Ok(outputs));
}

#[test]
fn the_keys_and_values_of_the_maps_are_listed() {
    let outputs: Vec<Output> = sample_outputs().into_iter().map(|(_, output)| output).collect();
    let mut store = OutputStore::<OutputMemory>::open(None);
    store.insert(field(9), &outputs).unwrap();
    let sorted = |mut fields: Vec<Field>| {
        fields.sort_by_key(|f| f.l0);
        fields
    };
    assert_eq!(sorted(store.output_ids()), (1..=6).map(field).collect::<Vec<_>>());
    assert_eq!(store.constant_output_ids(), vec![field(1)]);
    assert_eq!(store.public_output_ids(), vec![field(2)]);
    assert_eq!(store.private_output_ids(), vec![field(3)]);
    assert_eq!(sorted(store.commitments()), vec![field(4), field(5)]);
    assert_eq!(store.external_output_ids(), vec![field(6)]);
    assert_eq!(store.nonces(), vec![field(77)]);
    assert_eq!(store.checksums().map(sorted), Ok(vec![field(40), field(50)]));
    assert_eq!(store.contains_checksum(&field(40)), Ok(true));
    assert_eq!(store.contains_checksum(&field(4)), Ok(false));
    assert_eq!(store.constant_outputs(), Ok(vec![Plaintext { fields: vec![field(5)] }]));
    assert_eq!(store.public_outputs(), Ok(vec![]));
    assert_eq!(store.private_outputs(), Ok(vec![Ciphertext { fields: vec![field(6)] }]));
    assert_eq!(store.records(), Ok(vec![(field(4), record(77))]));

    let moved = OutputStore::<OutputMemory>::from(
        store.id_map,
        store.reverse_id_map,
        store.constant,
        store.public,
        store.private,
        store.record,
        store.record_nonce,
        store.external_record,
        Some(1),
    );
    assert_eq!(moved.dev(), Some(1));
    assert_eq!(moved.get_outputs(&field(9)), Ok(outputs));
}

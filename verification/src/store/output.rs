//! The transition output store: eight maps that are written together.

use vstd::prelude::*;
use crate::field::{Field, Group};
use crate::program::{Ciphertext, Plaintext, RecordCiphertext, RecordCiphertextView};
use crate::store::map::{applied, written, MapStorage, MemoryMap, StorageError};
use crate::transition::output::{Output, OutputView};

verus! {

/// The ghost value of a map: what it holds, the writes that wait in its
/// atomic batch, and whether a batch is in progress.
pub struct MapState<W> {
    pub contents: Map<Field, W>,
    pub batch: Seq<(Field, Option<W>)>,
    pub in_progress: bool,
}

impl<W> MapState<W> {
    /// The map that holds nothing, with no write waiting and no batch in progress.
    pub open spec fn empty() -> MapState<W> {
        MapState { contents: Map::empty(), batch: Seq::empty(), in_progress: false }
    }

    /// The map after a write: made at once, or waiting in the batch where
    /// one is in progress.
    pub open spec fn write(self, key: Field, value: Option<W>) -> MapState<W> {
        if self.in_progress {
            MapState { batch: self.batch.push((key, value)), ..self }
        } else {
            MapState { contents: written(self.contents, key, value), ..self }
        }
    }

    /// The map with a batch in progress.
    pub open spec fn started(self) -> MapState<W> {
        MapState { in_progress: true, ..self }
    }

    /// The map after its batch is aborted.
    pub open spec fn aborted(self) -> MapState<W> {
        MapState { batch: Seq::empty(), in_progress: false, ..self }
    }

    /// The map after its batch is finished.
    pub open spec fn finished(self) -> MapState<W> {
        MapState {
            contents: applied(self.contents, self.batch),
            batch: Seq::empty(),
            in_progress: false,
        }
    }

    /// Whether `after` is this map after some writes that all wait in a
    /// batch: the same contents, and a batch in progress as before.
    pub open spec fn advanced_to(self, after: MapState<W>) -> bool {
        after.in_progress == self.in_progress && (self.in_progress ==> after.contents
            == self.contents)
    }

    /// Whether `after` is this map rolled back: no batch, and where a batch
    /// was in progress, the same contents.
    pub open spec fn rolled_back_to(self, after: MapState<W>) -> bool {
        !after.in_progress && after.batch == Seq::<(Field, Option<W>)>::empty() && (
        self.in_progress ==> after.contents == self.contents)
    }
}

/// The ghost value of a map of a backend.
pub open spec fn state_of<V: DeepView, M: MapStorage<V>>(map: M) -> MapState<V::V> {
    MapState { contents: map.contents(), batch: map.batch(), in_progress: map.in_progress() }
}

/// The ghost value of an output store.
pub struct StoreState {
    /// The mapping of `transition ID` to `output IDs`.
    pub id: MapState<Seq<Field>>,
    /// The mapping of `output ID` to `transition ID`.
    pub reverse_id: MapState<Field>,
    /// The mapping of `plaintext hash` to `(optional) plaintext`.
    pub constant: MapState<Option<Seq<Field>>>,
    /// The mapping of `plaintext hash` to `(optional) plaintext`.
    pub public: MapState<Option<Seq<Field>>>,
    /// The mapping of `ciphertext hash` to `(optional) ciphertext`.
    pub private: MapState<Option<Seq<Field>>>,
    /// The mapping of `commitment` to `(checksum, (optional) record ciphertext)`.
    pub record: MapState<(Field, Option<RecordCiphertextView>)>,
    /// The mapping of `record nonce` to `commitment`.
    pub record_nonce: MapState<Field>,
    /// The mapping of `external hash` to `()`. Note: This is **not** the record commitment.
    pub external_record: MapState<()>,
}

impl StoreState {
    /// The store that holds nothing, with no write waiting and no batch in progress.
    pub open spec fn empty() -> StoreState {
        StoreState {
            id: MapState::empty(),
            reverse_id: MapState::empty(),
            constant: MapState::empty(),
            public: MapState::empty(),
            private: MapState::empty(),
            record: MapState::empty(),
            record_nonce: MapState::empty(),
            external_record: MapState::empty(),
        }
    }

    /// Whether an atomic batch is in progress in one of the maps.
    pub open spec fn in_progress(self) -> bool {
        self.id.in_progress || self.reverse_id.in_progress || self.constant.in_progress
            || self.public.in_progress || self.private.in_progress || self.record.in_progress
            || self.record_nonce.in_progress || self.external_record.in_progress
    }

    /// Whether an atomic batch is in progress in each of the maps.
    pub open spec fn all_in_progress(self) -> bool {
        self.id.in_progress && self.reverse_id.in_progress && self.constant.in_progress
            && self.public.in_progress && self.private.in_progress && self.record.in_progress
            && self.record_nonce.in_progress && self.external_record.in_progress
    }

    /// The store with a batch in progress in each map.
    pub open spec fn started(self) -> StoreState {
        StoreState {
            id: self.id.started(),
            reverse_id: self.reverse_id.started(),
            constant: self.constant.started(),
            public: self.public.started(),
            private: self.private.started(),
            record: self.record.started(),
            record_nonce: self.record_nonce.started(),
            external_record: self.external_record.started(),
        }
    }

    /// The store after the batch of each map is aborted.
    pub open spec fn aborted(self) -> StoreState {
        StoreState {
            id: self.id.aborted(),
            reverse_id: self.reverse_id.aborted(),
            constant: self.constant.aborted(),
            public: self.public.aborted(),
            private: self.private.aborted(),
            record: self.record.aborted(),
            record_nonce: self.record_nonce.aborted(),
            external_record: self.external_record.aborted(),
        }
    }

    /// The store after the batch of each map is finished.
    pub open spec fn finished(self) -> StoreState {
        StoreState {
            id: self.id.finished(),
            reverse_id: self.reverse_id.finished(),
            constant: self.constant.finished(),
            public: self.public.finished(),
            private: self.private.finished(),
            record: self.record.finished(),
            record_nonce: self.record_nonce.finished(),
            external_record: self.external_record.finished(),
        }
    }

    /// Whether each map of `after` is the map of this store after some
    /// writes that all wait in a batch.
    pub open spec fn advanced_to(self, after: StoreState) -> bool {
        &&& self.id.advanced_to(after.id)
        &&& self.reverse_id.advanced_to(after.reverse_id)
        &&& self.constant.advanced_to(after.constant)
        &&& self.public.advanced_to(after.public)
        &&& self.private.advanced_to(after.private)
        &&& self.record.advanced_to(after.record)
        &&& self.record_nonce.advanced_to(after.record_nonce)
        &&& self.external_record.advanced_to(after.external_record)
    }

    /// Whether each map of `after` is the map of this store rolled back.
    pub open spec fn rolled_back_to(self, after: StoreState) -> bool {
        &&& self.id.rolled_back_to(after.id)
        &&& self.reverse_id.rolled_back_to(after.reverse_id)
        &&& self.constant.rolled_back_to(after.constant)
        &&& self.public.rolled_back_to(after.public)
        &&& self.private.rolled_back_to(after.private)
        &&& self.record.rolled_back_to(after.record)
        &&& self.record_nonce.rolled_back_to(after.record_nonce)
        &&& self.external_record.rolled_back_to(after.external_record)
    }

    /// Whether each map of `after` is the map of this store with its batch
    /// finished, or as it is in this store.
    pub open spec fn partly_finished_to(self, after: StoreState) -> bool {
        &&& after.id == self.id.finished() || after.id == self.id
        &&& after.reverse_id == self.reverse_id.finished() || after.reverse_id == self.reverse_id
        &&& after.constant == self.constant.finished() || after.constant == self.constant
        &&& after.public == self.public.finished() || after.public == self.public
        &&& after.private == self.private.finished() || after.private == self.private
        &&& after.record == self.record.finished() || after.record == self.record
        &&& after.record_nonce == self.record_nonce.finished() || after.record_nonce
            == self.record_nonce
        &&& after.external_record == self.external_record.finished() || after.external_record
            == self.external_record
    }

    /// The store after one output of a transition is stored: the reverse
    /// output ID, the output in the map of its kind, and for a record that
    /// holds its ciphertext the record nonce.
    pub open spec fn store_output(self, transition_id: Field, output: OutputView) -> StoreState {
        let with_id = StoreState {
            reverse_id: self.reverse_id.write(output.id(), Some(transition_id)),
            ..self
        };
        match output {
            OutputView::Constant(output_id, constant) => StoreState {
                constant: with_id.constant.write(output_id, Some(constant)),
                ..with_id
            },
            OutputView::Public(output_id, public) => StoreState {
                public: with_id.public.write(output_id, Some(public)),
                ..with_id
            },
            OutputView::Private(output_id, private) => StoreState {
                private: with_id.private.write(output_id, Some(private)),
                ..with_id
            },
            OutputView::Record(commitment, checksum, optional_record) => StoreState {
                record_nonce: match optional_record {
                    Some(record) => with_id.record_nonce.write(record.nonce.x, Some(commitment)),
                    None => with_id.record_nonce,
                },
                record: with_id.record.write(commitment, Some((checksum, optional_record))),
                ..with_id
            },
            OutputView::ExternalRecord(output_id) => StoreState {
                external_record: with_id.external_record.write(output_id, Some(())),
                ..with_id
            },
        }
    }

    /// The store after the first `n` outputs of a transition are stored.
    pub open spec fn store_outputs(self, transition_id: Field, outputs: Seq<OutputView>, n: nat) -> StoreState
        decreases n,
    {
        if n == 0 {
            self
        } else {
            self.store_outputs(transition_id, outputs, (n - 1) as nat).store_output(
                transition_id,
                outputs[n - 1],
            )
        }
    }

    /// The store after the outputs of a transition are written: the output
    /// IDs of the transition, then each output.
    pub open spec fn inserted(self, transition_id: Field, outputs: Seq<OutputView>) -> StoreState {
        (StoreState {
            id: self.id.write(transition_id, Some(output_ids(outputs))),
            ..self
        }).store_outputs(transition_id, outputs, outputs.len())
    }
}

/// The IDs of a list of outputs, in order.
pub open spec fn output_ids(outputs: Seq<OutputView>) -> Seq<Field> {
    Seq::new(outputs.len(), |i: int| outputs[i].id())
}

/// The eight maps of a backend of transition output storage.
pub trait OutputStorage {
    /// The mapping of `transition ID` to `output IDs`.
    type IDMap: MapStorage<Vec<Field>>;

    /// The mapping of `output ID` to `transition ID`.
    type ReverseIDMap: MapStorage<Field>;

    /// The mapping of `plaintext hash` to `(optional) plaintext`.
    type ConstantMap: MapStorage<Option<Plaintext>>;

    /// The mapping of `plaintext hash` to `(optional) plaintext`.
    type PublicMap: MapStorage<Option<Plaintext>>;

    /// The mapping of `ciphertext hash` to `(optional) ciphertext`.
    type PrivateMap: MapStorage<Option<Ciphertext>>;

    /// The mapping of `commitment` to `(checksum, (optional) record ciphertext)`.
    type RecordMap: MapStorage<(Field, Option<RecordCiphertext>)>;

    /// The mapping of `record nonce` to `commitment`.
    type RecordNonceMap: MapStorage<Field>;

    /// The mapping of `external hash` to `()`. Note: This is **not** the record commitment.
    type ExternalRecordMap: MapStorage<()>;
}

/// An in-memory transition output storage.
#[derive(Clone, Copy, Debug)]
pub struct OutputMemory;

impl OutputStorage for OutputMemory {
    type IDMap = MemoryMap<Vec<Field>>;

    type ReverseIDMap = MemoryMap<Field>;

    type ConstantMap = MemoryMap<Option<Plaintext>>;

    type PublicMap = MemoryMap<Option<Plaintext>>;

    type PrivateMap = MemoryMap<Option<Ciphertext>>;

    type RecordMap = MemoryMap<(Field, Option<RecordCiphertext>)>;

    type RecordNonceMap = MemoryMap<Field>;

    type ExternalRecordMap = MemoryMap<()>;
}

/// The transition output store.
pub struct OutputStore<O: OutputStorage> {
    /// The map of output IDs.
    pub id_map: O::IDMap,
    /// The map of reverse output IDs.
    pub reverse_id_map: O::ReverseIDMap,
    /// The map of constant outputs.
    pub constant: O::ConstantMap,
    /// The map of public outputs.
    pub public: O::PublicMap,
    /// The map of private outputs.
    pub private: O::PrivateMap,
    /// The map of record outputs.
    pub record: O::RecordMap,
    /// The map of record nonces.
    pub record_nonce: O::RecordNonceMap,
    /// The map of external record outputs.
    pub external_record: O::ExternalRecordMap,
    /// The optional development ID.
    pub dev: Option<u16>,
}

impl<O: OutputStorage> OutputStore<O> {
    /// The ghost value of the store.
    pub open spec fn state(&self) -> StoreState {
        StoreState {
            id: state_of::<Vec<Field>, O::IDMap>(self.id_map),
            reverse_id: state_of::<Field, O::ReverseIDMap>(self.reverse_id_map),
            constant: state_of::<Option<Plaintext>, O::ConstantMap>(self.constant),
            public: state_of::<Option<Plaintext>, O::PublicMap>(self.public),
            private: state_of::<Option<Ciphertext>, O::PrivateMap>(self.private),
            record: state_of::<(Field, Option<RecordCiphertext>), O::RecordMap>(self.record),
            record_nonce: state_of::<Field, O::RecordNonceMap>(self.record_nonce),
            external_record: state_of::<(), O::ExternalRecordMap>(self.external_record),
        }
    }

    /// Whether none of the maps of the storage ever fails.
    pub open spec fn reliable() -> bool {
        &&& O::IDMap::reliable()
        &&& O::ReverseIDMap::reliable()
        &&& O::ConstantMap::reliable()
        &&& O::PublicMap::reliable()
        &&& O::PrivateMap::reliable()
        &&& O::RecordMap::reliable()
        &&& O::RecordNonceMap::reliable()
        &&& O::ExternalRecordMap::reliable()
    }

    /// Whether each map of the store keeps its promises.
    pub open spec fn well_formed(&self) -> bool {
        &&& self.id_map.well_formed()
        &&& self.reverse_id_map.well_formed()
        &&& self.constant.well_formed()
        &&& self.public.well_formed()
        &&& self.private.well_formed()
        &&& self.record.well_formed()
        &&& self.record_nonce.well_formed()
        &&& self.external_record.well_formed()
    }

    /// Initializes the transition output store.
    pub fn open(dev: Option<u16>) -> (r: Self)
        ensures
            r.well_formed(),
            r.dev == dev,
            r.state() == StoreState::empty(),
            !r.state().in_progress(),
            r.state().id.contents == Map::<Field, Seq<Field>>::empty(),
            r.state().reverse_id.contents == Map::<Field, Field>::empty(),
            r.state().constant.contents == Map::<Field, Option<Seq<Field>>>::empty(),
            r.state().public.contents == Map::<Field, Option<Seq<Field>>>::empty(),
            r.state().private.contents == Map::<Field, Option<Seq<Field>>>::empty(),
            r.state().record.contents == Map::<
                Field,
                (Field, Option<RecordCiphertextView>),
            >::empty(),
            r.state().record_nonce.contents == Map::<Field, Field>::empty(),
            r.state().external_record.contents == Map::<Field, ()>::empty(),
    {
        OutputStore {
            id_map: O::IDMap::new(),
            reverse_id_map: O::ReverseIDMap::new(),
            constant: O::ConstantMap::new(),
            public: O::PublicMap::new(),
            private: O::PrivateMap::new(),
            record: O::RecordMap::new(),
            record_nonce: O::RecordNonceMap::new(),
            external_record: O::ExternalRecordMap::new(),
            dev,
        }
    }

    /// Initializes a transition output store from the maps of a storage.
    pub fn from(
        id_map: O::IDMap,
        reverse_id_map: O::ReverseIDMap,
        constant: O::ConstantMap,
        public: O::PublicMap,
        private: O::PrivateMap,
        record: O::RecordMap,
        record_nonce: O::RecordNonceMap,
        external_record: O::ExternalRecordMap,
        dev: Option<u16>,
    ) -> (r: Self)
        ensures
            r.id_map == id_map,
            r.reverse_id_map == reverse_id_map,
            r.constant == constant,
            r.public == public,
            r.private == private,
            r.record == record,
            r.record_nonce == record_nonce,
            r.external_record == external_record,
            r.dev == dev,
    {
        OutputStore {
            id_map,
            reverse_id_map,
            constant,
            public,
            private,
            record,
            record_nonce,
            external_record,
            dev,
        }
    }

    /// Returns the optional development ID.
    pub fn dev(&self) -> (r: Option<u16>)
        ensures
            r == self.dev,
    {
        self.dev
    }

    /// Starts an atomic batch write operation.
    pub fn start_atomic(&mut self)
        requires
            old(self).well_formed(),
        ensures
            final(self).well_formed(),
            final(self).state() == old(self).state().started(),
            final(self).dev == old(self).dev,
    {
        self.id_map.start_atomic();
        self.reverse_id_map.start_atomic();
        self.constant.start_atomic();
        self.public.start_atomic();
        self.private.start_atomic();
        self.record.start_atomic();
        self.record_nonce.start_atomic();
        self.external_record.start_atomic();
    }

    /// Checks if an atomic batch is in progress.
    pub fn is_atomic_in_progress(&self) -> (r: bool)
        requires
            self.well_formed(),
        ensures
            r == self.state().in_progress(),
    {
        self.id_map.is_atomic_in_progress() || self.reverse_id_map.is_atomic_in_progress()
            || self.constant.is_atomic_in_progress() || self.public.is_atomic_in_progress()
            || self.private.is_atomic_in_progress() || self.record.is_atomic_in_progress()
            || self.record_nonce.is_atomic_in_progress()
            || self.external_record.is_atomic_in_progress()
    }

    /// Aborts an atomic batch write operation.
    pub fn abort_atomic(&mut self)
        requires
            old(self).well_formed(),
        ensures
            final(self).well_formed(),
            final(self).state() == old(self).state().aborted(),
            final(self).dev == old(self).dev,
    {
        self.id_map.abort_atomic();
        self.reverse_id_map.abort_atomic();
        self.constant.abort_atomic();
        self.public.abort_atomic();
        self.private.abort_atomic();
        self.record.abort_atomic();
        self.record_nonce.abort_atomic();
        self.external_record.abort_atomic();
    }

    /// Finishes an atomic batch write operation, map by map. Where a map
    /// fails, the maps before it are finished and the others are as they
    /// were.
    pub fn finish_atomic(&mut self) -> (r: Result<(), StorageError>)
        requires
            old(self).well_formed(),
        ensures
            final(self).well_formed(),
            final(self).dev == old(self).dev,
            Self::reliable() ==> r is Ok,
            match r {
                Ok(()) => final(self).state() == old(self).state().finished(),
                Err(e) => e == StorageError::Commit && old(self).state().partly_finished_to(
                    final(self).state(),
                ),
            },
    {
        if self.id_map.finish_atomic().is_err() {
            return Err(StorageError::Commit);
        }
        if self.reverse_id_map.finish_atomic().is_err() {
            return Err(StorageError::Commit);
        }
        if self.constant.finish_atomic().is_err() {
            return Err(StorageError::Commit);
        }
        if self.public.finish_atomic().is_err() {
            return Err(StorageError::Commit);
        }
        if self.private.finish_atomic().is_err() {
            return Err(StorageError::Commit);
        }
        if self.record.finish_atomic().is_err() {
            return Err(StorageError::Commit);
        }
        if self.record_nonce.finish_atomic().is_err() {
            return Err(StorageError::Commit);
        }
        if self.external_record.finish_atomic().is_err() {
            return Err(StorageError::Commit);
        }
        Ok(())
    }
}

/// Copies an optional plaintext.
pub fn copy_plaintext(plaintext: &Option<Plaintext>) -> (r: Option<Plaintext>)
    ensures
        r.deep_view() == plaintext.deep_view(),
{
    match plaintext {
        Some(plaintext) => Some(plaintext.duplicate()),
        None => None,
    }
}

/// Copies an optional ciphertext.
pub fn copy_ciphertext(ciphertext: &Option<Ciphertext>) -> (r: Option<Ciphertext>)
    ensures
        r.deep_view() == ciphertext.deep_view(),
{
    match ciphertext {
        Some(ciphertext) => Some(ciphertext.duplicate()),
        None => None,
    }
}

/// Copies an optional encrypted record.
pub fn copy_record(record: &Option<RecordCiphertext>) -> (r: Option<RecordCiphertext>)
    ensures
        r.deep_view() == record.deep_view(),
{
    match record {
        Some(record) => Some(record.duplicate()),
        None => None,
    }
}

/// Returns the IDs of a list of outputs, in order.
pub fn ids_of(outputs: &Vec<Output>) -> (r: Vec<Field>)
    ensures
        r.deep_view() == output_ids(outputs.deep_view()),
{
    let mut out: Vec<Field> = Vec::new();
    let mut i: usize = 0;
    while i < outputs.len()
        invariant
            i <= outputs.len(),
            out@.len() == i,
            forall|j: int| 0 <= j < i ==> out@[j] == outputs@[j].deep_view().id(),
        decreases outputs.len() - i,
    {
        out.push(outputs[i].id());
        i += 1;
    }
    assert(out.deep_view() =~= output_ids(outputs.deep_view()));
    out
}

impl<O: OutputStorage> OutputStore<O> {
    /// Stores one output of a transition.
    pub fn store_output(&mut self, transition_id: Field, output: &Output) -> (r: Result<
        (),
        StorageError,
    >)
        requires
            old(self).well_formed(),
        ensures
            final(self).well_formed(),
            final(self).dev == old(self).dev,
            old(self).state().advanced_to(final(self).state()),
            Self::reliable() ==> r is Ok,
            match r {
                Ok(()) => final(self).state() == old(self).state().store_output(
                    transition_id,
                    output.deep_view(),
                ),
                Err(e) => e == StorageError::Operation,
            },
    {
        // Store the reverse output ID.
        if self.reverse_id_map.insert(output.id(), transition_id).is_err() {
            return Err(StorageError::Operation);
        }
        // Store the output.
        match output {
            Output::Constant(output_id, constant) => {
                if self.constant.insert(*output_id, copy_plaintext(constant)).is_err() {
                    return Err(StorageError::Operation);
                }
            },
            Output::Public(output_id, public) => {
                if self.public.insert(*output_id, copy_plaintext(public)).is_err() {
                    return Err(StorageError::Operation);
                }
            },
            Output::Private(output_id, private) => {
                if self.private.insert(*output_id, copy_ciphertext(private)).is_err() {
                    return Err(StorageError::Operation);
                }
            },
            Output::Record(commitment, checksum, optional_record) => {
                // If the optional record exists, insert the record nonce.
                if let Some(record) = optional_record {
                    if self.record_nonce.insert(record.nonce().x, *commitment).is_err() {
                        return Err(StorageError::Operation);
                    }
                }
                // Insert the record entry.
                if self.record.insert(*commitment, (*checksum, copy_record(optional_record))).is_err() {
                    return Err(StorageError::Operation);
                }
            },
            Output::ExternalRecord(output_id) => {
                if self.external_record.insert(*output_id, ()).is_err() {
                    return Err(StorageError::Operation);
                }
            },
        }
        Ok(())
    }

    /// Writes the output IDs and the outputs of a transition, map by map.
    pub fn insert_outputs(&mut self, transition_id: Field, outputs: &Vec<Output>) -> (r: Result<
        (),
        StorageError,
    >)
        requires
            old(self).well_formed(),
        ensures
            final(self).well_formed(),
            final(self).dev == old(self).dev,
            old(self).state().advanced_to(final(self).state()),
            Self::reliable() ==> r is Ok,
            match r {
                Ok(()) => final(self).state() == old(self).state().inserted(
                    transition_id,
                    outputs.deep_view(),
                ),
                Err(e) => e == StorageError::Operation,
            },
    {
        // Store the output IDs.
        if self.id_map.insert(transition_id, ids_of(outputs)).is_err() {
            return Err(StorageError::Operation);
        }
        let ghost with_ids = self.state();

        // Store the outputs.
        let mut i: usize = 0;
        while i < outputs.len()
            invariant
                i <= outputs.len(),
                self.well_formed(),
                self.dev == old(self).dev,
                old(self).state().advanced_to(self.state()),
                self.state() == with_ids.store_outputs(
                    transition_id,
                    outputs.deep_view(),
                    i as nat,
                ),
            decreases outputs.len() - i,
        {
            proof {
                assert(outputs.deep_view()[i as int] == outputs@[i as int].deep_view());
            }
            match self.store_output(transition_id, &outputs[i]) {
                Ok(()) => {},
                Err(e) => {
                    return Err(e);
                },
            }
            i += 1;
        }
        Ok(())
    }

    /// Stores the given `(transition ID, output)` pair into storage, in one
    /// atomic batch. Where a write fails, the batch is aborted and no map
    /// that a batch was in progress in has changed.
    pub fn insert(&mut self, transition_id: Field, outputs: &Vec<Output>) -> (r: Result<
        (),
        StorageError,
    >)
        requires
            old(self).well_formed(),
        ensures
            final(self).well_formed(),
            final(self).dev == old(self).dev,
            Self::reliable() ==> r is Ok,
            match r {
                Ok(()) => final(self).state() == if old(self).state().in_progress() {
                    old(self).state().inserted(transition_id, outputs.deep_view())
                } else {
                    old(self).state().started().inserted(
                        transition_id,
                        outputs.deep_view(),
                    ).finished()
                },
                Err(e) => if e == StorageError::Operation {
                    (if old(self).state().in_progress() {
                        old(self).state()
                    } else {
                        old(self).state().started()
                    }).rolled_back_to(final(self).state())
                } else {
                    e == StorageError::Commit && !old(self).state().in_progress() && old(self).state().started().inserted(
                        transition_id,
                        outputs.deep_view(),
                    ).partly_finished_to(final(self).state())
                },
            },
    {
        // Check if an atomic batch write is already in progress.
        let is_part_of_atomic_batch = self.is_atomic_in_progress();

        // Start an atomic batch write operation IFF it's not already part of one.
        if !is_part_of_atomic_batch {
            self.start_atomic();
        }

        // Abort if any of the underlying operations has failed.
        if let Err(e) = self.insert_outputs(transition_id, outputs) {
            self.abort_atomic();
            return Err(e);
        }

        // Finish an atomic batch write operation IFF it's not already part of one.
        if !is_part_of_atomic_batch {
            match self.finish_atomic() {
                Ok(()) => {},
                Err(e) => {
                    return Err(e);
                },
            }
        }

        Ok(())
    }
}

/// Storage atomicity: where a write of `insert` or `remove` fails, and
/// before the call a batch was in progress in none of the maps or in each of
/// them, each map holds what it held before the call, and no batch is left.
pub proof fn law_failed_write_leaves_no_partial_state(before: StoreState, after: StoreState)
    requires
        !before.in_progress() || before.all_in_progress(),
        (if before.in_progress() {
            before
        } else {
            before.started()
        }).rolled_back_to(after),
    ensures
        !after.in_progress(),
        after.id == before.id.aborted(),
        after.reverse_id == before.reverse_id.aborted(),
        after.constant == before.constant.aborted(),
        after.public == before.public.aborted(),
        after.private == before.private.aborted(),
        after.record == before.record.aborted(),
        after.record_nonce == before.record_nonce.aborted(),
        after.external_record == before.external_record.aborted(),
{
}

impl StoreState {
    /// The store after one output of a transition is removed: the reverse
    /// output ID, the record nonce where the record is stored with its
    /// ciphertext, and the output ID in each map of outputs.
    pub open spec fn remove_output(self, output_id: Field) -> StoreState {
        StoreState {
            id: self.id,
            reverse_id: self.reverse_id.write(output_id, None),
            record_nonce: if self.record.contents.contains_key(output_id)
                && self.record.contents[output_id].1 is Some {
                self.record_nonce.write(self.record.contents[output_id].1.unwrap().nonce.x, None)
            } else {
                self.record_nonce
            },
            constant: self.constant.write(output_id, None),
            public: self.public.write(output_id, None),
            private: self.private.write(output_id, None),
            record: self.record.write(output_id, None),
            external_record: self.external_record.write(output_id, None),
        }
    }

    /// The store after the first `n` of the outputs with the given IDs are removed.
    pub open spec fn remove_outputs(self, output_ids: Seq<Field>, n: nat) -> StoreState
        decreases n,
    {
        if n == 0 {
            self
        } else {
            self.remove_outputs(output_ids, (n - 1) as nat).remove_output(output_ids[n - 1])
        }
    }

    /// The store after a transition is removed: its output IDs, then each output.
    pub open spec fn removed(self, transition_id: Field, output_ids: Seq<Field>) -> StoreState {
        (StoreState { id: self.id.write(transition_id, None), ..self }).remove_outputs(
            output_ids,
            output_ids.len(),
        )
    }

    /// The number of maps of outputs that hold an output ID.
    pub open spec fn holders(self, output_id: Field) -> int {
        (if self.constant.contents.contains_key(output_id) {
            1int
        } else {
            0int
        }) + (if self.public.contents.contains_key(output_id) {
            1int
        } else {
            0int
        }) + (if self.private.contents.contains_key(output_id) {
            1int
        } else {
            0int
        }) + (if self.record.contents.contains_key(output_id) {
            1int
        } else {
            0int
        }) + (if self.external_record.contents.contains_key(output_id) {
            1int
        } else {
            0int
        })
    }

    /// The output that is stored under an output ID: an error where the ID
    /// is in none of the maps of outputs, or in more than one.
    pub open spec fn output_at(self, output_id: Field, index: int) -> Result<
        OutputView,
        StorageError,
    > {
        if self.holders(output_id) == 0 {
            Err(StorageError::MissingOutput { index: index as usize })
        } else if self.holders(output_id) > 1 {
            Err(StorageError::MultipleOutputs { index: index as usize })
        } else if self.constant.contents.contains_key(output_id) {
            Ok(OutputView::Constant(output_id, self.constant.contents[output_id]))
        } else if self.public.contents.contains_key(output_id) {
            Ok(OutputView::Public(output_id, self.public.contents[output_id]))
        } else if self.private.contents.contains_key(output_id) {
            Ok(OutputView::Private(output_id, self.private.contents[output_id]))
        } else if self.record.contents.contains_key(output_id) {
            Ok(
                OutputView::Record(
                    output_id,
                    self.record.contents[output_id].0,
                    self.record.contents[output_id].1,
                ),
            )
        } else {
            Ok(OutputView::ExternalRecord(output_id))
        }
    }

    /// The outputs that are stored under the first `n` output IDs, or the
    /// error of the first that is missing or stored twice.
    pub open spec fn outputs_at(self, output_ids: Seq<Field>, n: nat) -> Result<
        Seq<OutputView>,
        StorageError,
    >
        decreases n,
    {
        if n == 0 {
            Ok(Seq::empty())
        } else {
            match self.outputs_at(output_ids, (n - 1) as nat) {
                Err(e) => Err(e),
                Ok(head) => match self.output_at(output_ids[n - 1], n - 1) {
                    Err(e) => Err(e),
                    Ok(output) => Ok(head.push(output)),
                },
            }
        }
    }

    /// The outputs of a transition: none where the transition is not stored.
    pub open spec fn outputs_of(self, transition_id: Field) -> Result<
        Seq<OutputView>,
        StorageError,
    > {
        if self.id.contents.contains_key(transition_id) {
            self.outputs_at(
                self.id.contents[transition_id],
                self.id.contents[transition_id].len(),
            )
        } else {
            Ok(Seq::empty())
        }
    }
}

/// An output that is missing or stored twice keeps the outputs from being
/// read, however many more follow it.
pub proof fn lemma_outputs_at_error_stays(state: StoreState, output_ids: Seq<Field>, n: nat, m: nat)
    requires
        n <= m,
        state.outputs_at(output_ids, n) is Err,
    ensures
        state.outputs_at(output_ids, m) == state.outputs_at(output_ids, n),
    decreases m,
{
    if n < m {
        lemma_outputs_at_error_stays(state, output_ids, n, (m - 1) as nat);
    }
}

impl<O: OutputStorage> OutputStore<O> {
    /// Removes one output of a transition.
    pub fn remove_output(&mut self, output_id: &Field) -> (r: Result<(), StorageError>)
        requires
            old(self).well_formed(),
        ensures
            final(self).well_formed(),
            final(self).dev == old(self).dev,
            old(self).state().advanced_to(final(self).state()),
            Self::reliable() ==> r is Ok,
            match r {
                Ok(()) => final(self).state() == old(self).state().remove_output(*output_id),
                Err(e) => e == StorageError::Operation,
            },
    {
        // Remove the reverse output ID.
        if self.reverse_id_map.remove(output_id).is_err() {
            return Err(StorageError::Operation);
        }

        // If the output is a record, remove the record nonce.
        let nonce = match self.record.get(output_id) {
            Ok(Some(record)) => match &record.1 {
                Some(record) => Some(record.nonce()),
                None => None,
            },
            Ok(None) => None,
            Err(_) => return Err(StorageError::Operation),
        };
        if let Some(nonce) = nonce {
            if self.record_nonce.remove(&nonce.x).is_err() {
                return Err(StorageError::Operation);
            }
        }

        // Remove the output.
        if self.constant.remove(output_id).is_err() {
            return Err(StorageError::Operation);
        }
        if self.public.remove(output_id).is_err() {
            return Err(StorageError::Operation);
        }
        if self.private.remove(output_id).is_err() {
            return Err(StorageError::Operation);
        }
        if self.record.remove(output_id).is_err() {
            return Err(StorageError::Operation);
        }
        if self.external_record.remove(output_id).is_err() {
            return Err(StorageError::Operation);
        }
        Ok(())
    }

    /// Removes the output IDs and the outputs of a transition, map by map.
    pub fn remove_outputs(&mut self, transition_id: &Field, output_ids: &Vec<Field>) -> (r: Result<
        (),
        StorageError,
    >)
        requires
            old(self).well_formed(),
        ensures
            final(self).well_formed(),
            final(self).dev == old(self).dev,
            old(self).state().advanced_to(final(self).state()),
            Self::reliable() ==> r is Ok,
            match r {
                Ok(()) => final(self).state() == old(self).state().removed(
                    *transition_id,
                    output_ids@,
                ),
                Err(e) => e == StorageError::Operation,
            },
    {
        // Remove the output IDs.
        if self.id_map.remove(transition_id).is_err() {
            return Err(StorageError::Operation);
        }
        let ghost without_ids = self.state();

        // Remove the outputs.
        let mut i: usize = 0;
        while i < output_ids.len()
            invariant
                i <= output_ids.len(),
                self.well_formed(),
                self.dev == old(self).dev,
                old(self).state().advanced_to(self.state()),
                self.state() == without_ids.remove_outputs(output_ids@, i as nat),
            decreases output_ids.len() - i,
        {
            match self.remove_output(&output_ids[i]) {
                Ok(()) => {},
                Err(e) => {
                    return Err(e);
                },
            }
            i += 1;
        }
        Ok(())
    }

    /// Removes the output for the given `transition ID`, in one atomic
    /// batch. Where the transition is not stored, nothing changes. Where a
    /// write fails, the batch is aborted and no map that a batch was in
    /// progress in has changed.
    pub fn remove(&mut self, transition_id: &Field) -> (r: Result<(), StorageError>)
        requires
            old(self).well_formed(),
        ensures
            final(self).well_formed(),
            final(self).dev == old(self).dev,
            Self::reliable() ==> r is Ok,
            !old(self).state().id.contents.contains_key(*transition_id) ==> (r is Ok || r
                == Err::<(), StorageError>(StorageError::Read)) && final(self).state() == old(self).state(),
            match r {
                Ok(()) => final(self).state() == if !old(self).state().id.contents.contains_key(
                    *transition_id,
                ) {
                    old(self).state()
                } else if old(self).state().in_progress() {
                    old(self).state().removed(
                        *transition_id,
                        old(self).state().id.contents[*transition_id],
                    )
                } else {
                    old(self).state().started().removed(
                        *transition_id,
                        old(self).state().id.contents[*transition_id],
                    ).finished()
                },
                Err(e) => if e == StorageError::Read {
                    final(self).state() == old(self).state()
                } else if e == StorageError::Operation {
                    (if old(self).state().in_progress() {
                        old(self).state()
                    } else {
                        old(self).state().started()
                    }).rolled_back_to(final(self).state())
                } else {
                    e == StorageError::Commit && !old(self).state().in_progress() && old(self).state().id.contents.contains_key(*transition_id) && old(self).state().started().removed(
                        *transition_id,
                        old(self).state().id.contents[*transition_id],
                    ).partly_finished_to(final(self).state())
                },
            },
    {
        // Retrieve the output IDs.
        let output_ids: Vec<Field> = match self.id_map.get(transition_id) {
            Ok(Some(ids)) => {
                let copy = crate::program::copy_fields(ids);
                assert(copy@ =~= ids.deep_view());
                copy
            },
            Ok(None) => return Ok(()),
            Err(_) => return Err(StorageError::Read),
        };

        // Check if an atomic batch write is already in progress.
        let is_part_of_atomic_batch = self.is_atomic_in_progress();

        // Start an atomic batch write operation IFF it's not already part of one.
        if !is_part_of_atomic_batch {
            self.start_atomic();
        }

        // Abort if any of the underlying operations has failed.
        if let Err(e) = self.remove_outputs(transition_id, &output_ids) {
            self.abort_atomic();
            return Err(e);
        }

        // Finish an atomic batch write operation IFF it's not already part of one.
        if !is_part_of_atomic_batch {
            match self.finish_atomic() {
                Ok(()) => {},
                Err(e) => {
                    return Err(e);
                },
            }
        }

        Ok(())
    }

    /// Returns the transition ID that contains the given `output ID`.
    pub fn find_transition_id(&self, output_id: &Field) -> (r: Result<Option<Field>, StorageError>)
        requires
            self.well_formed(),
        ensures
            Self::reliable() ==> !(r matches Err(StorageError::Read)),
            match r {
                Ok(Some(transition_id)) => self.state().reverse_id.contents.contains_key(
                    *output_id,
                ) && self.state().reverse_id.contents[*output_id] == transition_id,
                Ok(None) => !self.state().reverse_id.contents.contains_key(*output_id),
                Err(e) => e == StorageError::Read,
            },
    {
        match self.reverse_id_map.get(output_id) {
            Ok(Some(transition_id)) => Ok(Some(*transition_id)),
            Ok(None) => Ok(None),
            Err(_) => Err(StorageError::Read),
        }
    }

    /// Returns the output IDs for the given `transition ID`.
    pub fn get_output_ids(&self, transition_id: &Field) -> (r: Result<Vec<Field>, StorageError>)
        requires
            self.well_formed(),
        ensures
            Self::reliable() ==> !(r matches Err(StorageError::Read)),
            match r {
                Ok(ids) => if self.state().id.contents.contains_key(*transition_id) {
                    ids@ == self.state().id.contents[*transition_id]
                } else {
                    ids@.len() == 0
                },
                Err(e) => e == StorageError::Read,
            },
    {
        // Retrieve the output IDs.
        match self.id_map.get(transition_id) {
            Ok(Some(outputs)) => {
                let copy = crate::program::copy_fields(outputs);
                assert(copy@ =~= outputs.deep_view());
                Ok(copy)
            },
            Ok(None) => Ok(Vec::new()),
            Err(_) => Err(StorageError::Read),
        }
    }

    /// Constructs the output that is stored under the given output ID.
    pub fn construct_output(&self, output_id: Field, index: usize) -> (r: Result<
        Output,
        StorageError,
    >)
        requires
            self.well_formed(),
        ensures
            Self::reliable() ==> !(r matches Err(StorageError::Read)),
            match r {
                Ok(output) => self.state().output_at(output_id, index as int) == Ok::<
                    OutputView,
                    StorageError,
                >(output.deep_view()),
                Err(e) => e == StorageError::Read || self.state().output_at(
                    output_id,
                    index as int,
                ) == Err::<OutputView, StorageError>(e),
            },
    {
        let constant = match self.constant.get(&output_id) {
            Ok(found) => found,
            Err(_) => return Err(StorageError::Read),
        };
        let public = match self.public.get(&output_id) {
            Ok(found) => found,
            Err(_) => return Err(StorageError::Read),
        };
        let private = match self.private.get(&output_id) {
            Ok(found) => found,
            Err(_) => return Err(StorageError::Read),
        };
        let record = match self.record.get(&output_id) {
            Ok(found) => found,
            Err(_) => return Err(StorageError::Read),
        };
        let external_record = match self.external_record.get(&output_id) {
            Ok(found) => found,
            Err(_) => return Err(StorageError::Read),
        };

        // Retrieve the output.
        match (constant, public, private, record, external_record) {
            (Some(constant), None, None, None, None) => Ok(
                Output::Constant(output_id, copy_plaintext(constant)),
            ),
            (None, Some(public), None, None, None) => Ok(
                Output::Public(output_id, copy_plaintext(public)),
            ),
            (None, None, Some(private), None, None) => Ok(
                Output::Private(output_id, copy_ciphertext(private)),
            ),
            (None, None, None, Some(record), None) => Ok(
                Output::Record(output_id, record.0, copy_record(&record.1)),
            ),
            (None, None, None, None, Some(_)) => Ok(Output::ExternalRecord(output_id)),
            (None, None, None, None, None) => Err(StorageError::MissingOutput { index }),
            _ => Err(StorageError::MultipleOutputs { index }),
        }
    }

    /// Returns the outputs for the given `transition ID`.
    pub fn get_outputs(&self, transition_id: &Field) -> (r: Result<Vec<Output>, StorageError>)
        requires
            self.well_formed(),
        ensures
            Self::reliable() ==> !(r matches Err(StorageError::Read)),
            match r {
                Ok(outputs) => self.state().outputs_of(*transition_id) == Ok::<
                    Seq<OutputView>,
                    StorageError,
                >(outputs.deep_view()),
                Err(e) => e == StorageError::Read || self.state().outputs_of(*transition_id)
                    == Err::<Seq<OutputView>, StorageError>(e),
            },
    {
        // Retrieve the output IDs.
        let ids = match self.id_map.get(transition_id) {
            Ok(Some(ids)) => ids,
            Ok(None) => {
                let none: Vec<Output> = Vec::new();
                assert(none.deep_view() =~= Seq::<OutputView>::empty());
                return Ok(none);
            },
            Err(_) => return Err(StorageError::Read),
        };
        assert(ids.deep_view() =~= ids@);
        let mut outputs: Vec<Output> = Vec::new();
        let mut i: usize = 0;
        assert(outputs.deep_view() =~= Seq::<OutputView>::empty());
        while i < ids.len()
            invariant
                i <= ids.len(),
                self.well_formed(),
                self.state().id.contents.contains_key(*transition_id),
                self.state().id.contents[*transition_id] == ids@,
                self.state().outputs_at(ids@, i as nat) == Ok::<Seq<OutputView>, StorageError>(
                    outputs.deep_view(),
                ),
            decreases ids.len() - i,
        {
            match self.construct_output(ids[i], i) {
                Ok(output) => {
                    let ghost before = outputs.deep_view();
                    let ghost view = output.deep_view();
                    outputs.push(output);
                    assert(outputs.deep_view() =~= before.push(view));
                },
                Err(e) => {
                    proof {
                        if e != StorageError::Read {
                            assert(self.state().outputs_at(ids@, (i + 1) as nat) == Err::<
                                Seq<OutputView>,
                                StorageError,
                            >(e));
                            lemma_outputs_at_error_stays(
                                self.state(),
                                ids@,
                                (i + 1) as nat,
                                ids@.len(),
                            );
                        }
                    }
                    return Err(e);
                },
            }
            i += 1;
        }
        Ok(outputs)
    }

    /// Returns the record for the given `commitment`.
    ///
    /// If the record exists, `Ok(Some(record))` is returned.
    /// If the record was purged, `Ok(None)` is returned.
    /// If the record does not exist, `Err(error)` is returned.
    pub fn get_record(&self, commitment: &Field) -> (r: Result<
        Option<RecordCiphertext>,
        StorageError,
    >)
        requires
            self.well_formed(),
        ensures
            Self::reliable() ==> !(r matches Err(StorageError::Read)),
            match r {
                Ok(record) => self.state().record.contents.contains_key(*commitment)
                    && self.state().record.contents[*commitment].1 == record.deep_view(),
                Err(e) => e == StorageError::Read || (e == StorageError::RecordNotFound
                    && !self.state().record.contents.contains_key(*commitment)),
            },
    {
        match self.record.get(commitment) {
            Ok(Some(stored)) => Ok(copy_record(&stored.1)),
            Ok(None) => Err(StorageError::RecordNotFound),
            Err(_) => Err(StorageError::Read),
        }
    }

    /// Returns `true` if the given output ID exists.
    pub fn contains_output_id(&self, output_id: &Field) -> (r: Result<bool, StorageError>)
        requires
            self.well_formed(),
        ensures
            Self::reliable() ==> !(r matches Err(StorageError::Read)),
            match r {
                Ok(found) => found == self.state().reverse_id.contents.contains_key(*output_id),
                Err(e) => e == StorageError::Read,
            },
    {
        match self.reverse_id_map.contains_key(output_id) {
            Ok(found) => Ok(found),
            Err(_) => Err(StorageError::Read),
        }
    }

    /// Returns `true` if the given commitment exists.
    pub fn contains_commitment(&self, commitment: &Field) -> (r: Result<bool, StorageError>)
        requires
            self.well_formed(),
        ensures
            Self::reliable() ==> !(r matches Err(StorageError::Read)),
            match r {
                Ok(found) => found == self.state().record.contents.contains_key(*commitment),
                Err(e) => e == StorageError::Read,
            },
    {
        match self.record.contains_key(commitment) {
            Ok(found) => Ok(found),
            Err(_) => Err(StorageError::Read),
        }
    }

    /// Returns `true` if the given nonce exists.
    pub fn contains_nonce(&self, nonce: &Group) -> (r: Result<bool, StorageError>)
        requires
            self.well_formed(),
        ensures
            Self::reliable() ==> !(r matches Err(StorageError::Read)),
            match r {
                Ok(found) => found == self.state().record_nonce.contents.contains_key(nonce.x),
                Err(e) => e == StorageError::Read,
            },
    {
        match self.record_nonce.contains_key(&nonce.x) {
            Ok(found) => Ok(found),
            Err(_) => Err(StorageError::Read),
        }
    }
}

impl StoreState {
    /// Whether a record is stored with the given checksum.
    pub open spec fn has_checksum(self, checksum: Field) -> bool {
        exists|commitment: Field|
            self.record.contents.contains_key(commitment) && (
            #[trigger] self.record.contents[commitment]).0 == checksum
    }
}

/// Whether a list holds each entry of a map once: its keys are the keys of
/// the map, each once, and each value is the value of its key.
pub open spec fn lists_entries<V: DeepView>(
    contents: Map<Field, V::V>,
    entries: Seq<(Field, &V)>,
) -> bool {
    &&& forall|i: int, j: int| 0 <= i < j < entries.len() ==> entries[i].0 != entries[j].0
    &&& forall|i: int|
        0 <= i < entries.len() ==> contents.contains_key(#[trigger] entries[i].0)
            && contents[entries[i].0] == entries[i].1.deep_view()
    &&& forall|key: Field|
        contents.contains_key(key) ==> exists|i: int|
            0 <= i < entries.len() && #[trigger] entries[i].0 == key
}

/// Returns the entries of a map, each once, in no order that is promised.
pub fn entries_of<V: DeepView, M: MapStorage<V>>(map: &M) -> (r: Result<
    Vec<(Field, &V)>,
    StorageError,
>)
    requires
        map.well_formed(),
    ensures
        M::reliable() ==> r is Ok,
        match r {
            Ok(entries) => lists_entries::<V>(map.contents(), entries@),
            Err(e) => e == StorageError::Read,
        },
{
    let keys = map.keys();
    let mut out: Vec<(Field, &V)> = Vec::new();
    let mut i: usize = 0;
    while i < keys.len()
        invariant
            i <= keys.len(),
            map.well_formed(),
            keys@.no_duplicates(),
            forall|key: Field| keys@.contains(key) <==> map.contents().contains_key(key),
            out@.len() == i,
            forall|j: int| 0 <= j < i ==> (#[trigger] out@[j]).0 == keys@[j],
            forall|j: int|
                0 <= j < i ==> map.contents()[keys@[j]] == (#[trigger] out@[j]).1.deep_view(),
        decreases keys.len() - i,
    {
        assert(keys@.contains(keys@[i as int]));
        match map.get(&keys[i]) {
            Ok(Some(value)) => {
                out.push((keys[i], value));
            },
            Ok(None) => {
                // The key was listed, so its value is there.
                assert(false);
                return Err(StorageError::Read);
            },
            Err(_) => {
                return Err(StorageError::Read);
            },
        }
        i += 1;
    }
    proof {
        assert forall|key: Field| map.contents().contains_key(key) implies exists|i: int|
            0 <= i < out@.len() && #[trigger] out@[i].0 == key by {
            assert(keys@.contains(key));
            let j = choose|j: int| 0 <= j < keys@.len() && keys@[j] == key;
            assert(out@[j].0 == key);
        }
        assert forall|i: int| 0 <= i < out@.len() implies map.contents().contains_key(
            #[trigger] out@[i].0,
        ) && map.contents()[out@[i].0] == out@[i].1.deep_view() by {
            assert(keys@.contains(keys@[i]));
        }
    }
    Ok(out)
}

impl<O: OutputStorage> OutputStore<O> {
    /// Returns the output IDs, for all transition outputs.
    pub fn output_ids(&self) -> (r: Vec<Field>)
        requires
            self.well_formed(),
        ensures
            r@.no_duplicates(),
            forall|id: Field| r@.contains(id) <==> self.state().reverse_id.contents.contains_key(id),
    {
        self.reverse_id_map.keys()
    }

    /// Returns the constant output IDs, for all transition outputs that are constant.
    pub fn constant_output_ids(&self) -> (r: Vec<Field>)
        requires
            self.well_formed(),
        ensures
            r@.no_duplicates(),
            forall|id: Field| r@.contains(id) <==> self.state().constant.contents.contains_key(id),
    {
        self.constant.keys()
    }

    /// Returns the public output IDs, for all transition outputs that are public.
    pub fn public_output_ids(&self) -> (r: Vec<Field>)
        requires
            self.well_formed(),
        ensures
            r@.no_duplicates(),
            forall|id: Field| r@.contains(id) <==> self.state().public.contents.contains_key(id),
    {
        self.public.keys()
    }

    /// Returns the private output IDs, for all transition outputs that are private.
    pub fn private_output_ids(&self) -> (r: Vec<Field>)
        requires
            self.well_formed(),
        ensures
            r@.no_duplicates(),
            forall|id: Field| r@.contains(id) <==> self.state().private.contents.contains_key(id),
    {
        self.private.keys()
    }

    /// Returns the commitments, for all transition outputs that are records.
    pub fn commitments(&self) -> (r: Vec<Field>)
        requires
            self.well_formed(),
        ensures
            r@.no_duplicates(),
            forall|id: Field| r@.contains(id) <==> self.state().record.contents.contains_key(id),
    {
        self.record.keys()
    }

    /// Returns the external record output IDs, for all transition outputs that are external records.
    pub fn external_output_ids(&self) -> (r: Vec<Field>)
        requires
            self.well_formed(),
        ensures
            r@.no_duplicates(),
            forall|id: Field|
                r@.contains(id) <==> self.state().external_record.contents.contains_key(id),
    {
        self.external_record.keys()
    }

    /// Returns the nonces, for all transition outputs that are records, as
    /// their x-coordinates.
    pub fn nonces(&self) -> (r: Vec<Field>)
        requires
            self.well_formed(),
        ensures
            r@.no_duplicates(),
            forall|x: Field| r@.contains(x) <==> self.state().record_nonce.contents.contains_key(x),
    {
        self.record_nonce.keys()
    }

    /// Returns the checksums, for all transition outputs that are records,
    /// one for each commitment.
    pub fn checksums(&self) -> (r: Result<Vec<Field>, StorageError>)
        requires
            self.well_formed(),
        ensures
            Self::reliable() ==> !(r matches Err(StorageError::Read)),
            match r {
                Ok(checksums) => forall|checksum: Field|
                    checksums@.contains(checksum) <==> self.state().has_checksum(checksum),
                Err(e) => e == StorageError::Read,
            },
    {
        let entries = match entries_of::<(Field, Option<RecordCiphertext>), O::RecordMap>(
            &self.record,
        ) {
            Ok(entries) => entries,
            Err(e) => return Err(e),
        };
        let mut out: Vec<Field> = Vec::new();
        let mut i: usize = 0;
        while i < entries.len()
            invariant
                i <= entries.len(),
                out@.len() == i,
                forall|j: int| 0 <= j < i ==> out@[j] == (#[trigger] entries@[j]).1.0,
            decreases entries.len() - i,
        {
            out.push(entries[i].1.0);
            i += 1;
        }
        proof {
            let contents = self.state().record.contents;
            assert forall|checksum: Field|
                out@.contains(checksum) <==> self.state().has_checksum(checksum) by {
                if out@.contains(checksum) {
                    let j = choose|j: int| 0 <= j < out@.len() && out@[j] == checksum;
                    assert(contents.contains_key(entries@[j].0));
                    assert(contents[entries@[j].0].0 == checksum);
                }
                if self.state().has_checksum(checksum) {
                    let commitment = choose|commitment: Field|
                        contents.contains_key(commitment) && (#[trigger] contents[commitment]).0
                            == checksum;
                    let j = choose|j: int| 0 <= j < entries@.len() && entries@[j].0 == commitment;
                    assert(out@[j] == checksum);
                }
            }
        }
        Ok(out)
    }

    /// Returns `true` if the given checksum exists.
    pub fn contains_checksum(&self, checksum: &Field) -> (r: Result<bool, StorageError>)
        requires
            self.well_formed(),
        ensures
            Self::reliable() ==> !(r matches Err(StorageError::Read)),
            match r {
                Ok(found) => found == self.state().has_checksum(*checksum),
                Err(e) => e == StorageError::Read,
            },
    {
        let checksums = match self.checksums() {
            Ok(checksums) => checksums,
            Err(e) => return Err(e),
        };
        let mut i: usize = 0;
        while i < checksums.len()
            invariant
                i <= checksums.len(),
                checksums@.contains(*checksum) <==> self.state().has_checksum(*checksum),
                forall|j: int| 0 <= j < i ==> checksums@[j] != *checksum,
            decreases checksums.len() - i,
        {
            if checksums[i] == *checksum {
                assert(checksums@.contains(*checksum));
                return Ok(true);
            }
            i += 1;
        }
        assert(!checksums@.contains(*checksum));
        Ok(false)
    }

    /// Returns the `(commitment, record)` pairs, for all transition outputs
    /// that are records with their ciphertext.
    pub fn records(&self) -> (r: Result<Vec<(Field, RecordCiphertext)>, StorageError>)
        requires
            self.well_formed(),
        ensures
            Self::reliable() ==> !(r matches Err(StorageError::Read)),
            match r {
                Ok(records) => {
                    &&& forall|i: int|
                        0 <= i < records@.len() ==> self.state().record.contents.contains_key(
                            (#[trigger] records@[i]).0,
                        ) && self.state().record.contents[records@[i].0].1 == Some(
                            records@[i].1.deep_view(),
                        )
                    &&& forall|commitment: Field|
                        self.state().record.contents.contains_key(commitment)
                            && self.state().record.contents[commitment].1 is Some ==> exists|i: int|
                            0 <= i < records@.len() && (#[trigger] records@[i]).0 == commitment
                },
                Err(e) => e == StorageError::Read,
            },
    {
        let entries = match entries_of::<(Field, Option<RecordCiphertext>), O::RecordMap>(
            &self.record,
        ) {
            Ok(entries) => entries,
            Err(e) => return Err(e),
        };
        let ghost contents = self.state().record.contents;
        let mut out: Vec<(Field, RecordCiphertext)> = Vec::new();
        let mut i: usize = 0;
        while i < entries.len()
            invariant
                i <= entries.len(),
                lists_entries::<(Field, Option<RecordCiphertext>)>(contents, entries@),
                forall|j: int|
                    0 <= j < out@.len() ==> contents.contains_key((#[trigger] out@[j]).0)
                        && contents[out@[j].0].1 == Some(out@[j].1.deep_view()),
                forall|k: int|
                    0 <= k < i && contents[(#[trigger] entries@[k]).0].1 is Some ==> exists|j: int|
                        0 <= j < out@.len() && (#[trigger] out@[j]).0 == entries@[k].0,
            decreases entries.len() - i,
        {
            let ghost before = out@;
            if let Some(record) = &entries[i].1.1 {
                out.push((entries[i].0, record.duplicate()));
                proof {
                    assert(out@[out@.len() - 1].0 == entries@[i as int].0);
                    assert forall|k: int|
                        0 <= k < i + 1 && contents[(#[trigger] entries@[k]).0].1
                            is Some implies exists|j: int|
                        0 <= j < out@.len() && (#[trigger] out@[j]).0 == entries@[k].0 by {
                        if k < i {
                            let j = choose|j: int|
                                0 <= j < before.len() && (#[trigger] before[j]).0 == entries@[k].0;
                            assert(out@[j] == before[j]);
                        }
                    }
                }
            }
            i += 1;
        }
        proof {
            assert forall|commitment: Field|
                contents.contains_key(commitment) && contents[commitment].1
                    is Some implies exists|i: int|
                0 <= i < out@.len() && (#[trigger] out@[i]).0 == commitment by {
                let k = choose|k: int| 0 <= k < entries@.len() && entries@[k].0 == commitment;
                assert(contents[entries@[k].0].1 is Some);
            }
        }
        Ok(out)
    }
}

/// Whether a map holds a value under one of its keys.
pub open spec fn holds_value<W>(contents: Map<Field, Option<W>>, value: W) -> bool {
    exists|key: Field| contents.contains_key(key) && #[trigger] contents[key] == Some(value)
}

/// Whether a list holds the values of a map that are there: each value
/// of the list is held by the map, and each value of the map is in the list.
pub open spec fn plaintexts_of_listed(contents: Map<Field, Option<Seq<Field>>>, values: Seq<Plaintext>) -> bool {
    &&& forall|i: int|
        0 <= i < values.len() ==> holds_value(contents, (#[trigger] values[i]).deep_view())
    &&& forall|key: Field|
        contents.contains_key(key) && (#[trigger] contents[key]) is Some ==> exists|i: int|
            0 <= i < values.len() && Some((#[trigger] values[i]).deep_view()) == contents[key]
}

/// Returns the plaintexts of a map that are there, one for each key whose value is there.
pub fn plaintexts_of<M: MapStorage<Option<Plaintext>>>(map: &M) -> (r: Result<Vec<Plaintext>, StorageError>)
    requires
        map.well_formed(),
    ensures
        M::reliable() ==> r is Ok,
        match r {
            Ok(values) => plaintexts_of_listed(map.contents(), values@),
            Err(e) => e == StorageError::Read,
        },
{
    let entries = match entries_of::<Option<Plaintext>, M>(map) {
        Ok(entries) => entries,
        Err(e) => return Err(e),
    };
    let ghost contents = map.contents();
    let mut out: Vec<Plaintext> = Vec::new();
    let mut i: usize = 0;
    while i < entries.len()
        invariant
            i <= entries.len(),
            lists_entries::<Option<Plaintext>>(contents, entries@),
            forall|j: int|
                0 <= j < out@.len() ==> holds_value(contents, (#[trigger] out@[j]).deep_view()),
            forall|k: int|
                0 <= k < i && contents[(#[trigger] entries@[k]).0] is Some ==> exists|j: int|
                    0 <= j < out@.len() && Some((#[trigger] out@[j]).deep_view())
                        == contents[entries@[k].0],
        decreases entries.len() - i,
    {
        let ghost before = out@;
        if let Some(value) = entries[i].1 {
            out.push(value.duplicate());
            proof {
                let last = out@.len() - 1;
                assert(contents.contains_key(entries@[i as int].0));
                assert(contents[entries@[i as int].0] == Some(out@[last].deep_view()));
                assert forall|j: int| 0 <= j < out@.len() implies holds_value(
                    contents,
                    (#[trigger] out@[j]).deep_view(),
                ) by {
                    if j < last {
                        assert(out@[j] == before[j]);
                    }
                }
                assert forall|k: int|
                    0 <= k < i + 1 && contents[(#[trigger] entries@[k]).0] is Some implies exists|
                    j: int,
                |
                    0 <= j < out@.len() && Some((#[trigger] out@[j]).deep_view())
                        == contents[entries@[k].0] by {
                    if k < i {
                        let j = choose|j: int|
                            0 <= j < before.len() && Some((#[trigger] before[j]).deep_view())
                                == contents[entries@[k].0];
                        assert(out@[j] == before[j]);
                    } else {
                        assert(Some(out@[last].deep_view()) == contents[entries@[k].0]);
                    }
                }
            }
        }
        i += 1;
    }
    proof {
        assert forall|key: Field|
            contents.contains_key(key) && (#[trigger] contents[key]) is Some implies exists|i: int|
            0 <= i < out@.len() && Some((#[trigger] out@[i]).deep_view()) == contents[key] by {
            let k = choose|k: int| 0 <= k < entries@.len() && entries@[k].0 == key;
            assert(contents[entries@[k].0] is Some);
        }
    }
    Ok(out)
}

/// Whether a list holds the values of a map that are there: each value
/// of the list is held by the map, and each value of the map is in the list.
pub open spec fn ciphertexts_of_listed(contents: Map<Field, Option<Seq<Field>>>, values: Seq<Ciphertext>) -> bool {
    &&& forall|i: int|
        0 <= i < values.len() ==> holds_value(contents, (#[trigger] values[i]).deep_view())
    &&& forall|key: Field|
        contents.contains_key(key) && (#[trigger] contents[key]) is Some ==> exists|i: int|
            0 <= i < values.len() && Some((#[trigger] values[i]).deep_view()) == contents[key]
}

/// Returns the ciphertexts of a map that are there, one for each key whose value is there.
pub fn ciphertexts_of<M: MapStorage<Option<Ciphertext>>>(map: &M) -> (r: Result<Vec<Ciphertext>, StorageError>)
    requires
        map.well_formed(),
    ensures
        M::reliable() ==> r is Ok,
        match r {
            Ok(values) => ciphertexts_of_listed(map.contents(), values@),
            Err(e) => e == StorageError::Read,
        },
{
    let entries = match entries_of::<Option<Ciphertext>, M>(map) {
        Ok(entries) => entries,
        Err(e) => return Err(e),
    };
    let ghost contents = map.contents();
    let mut out: Vec<Ciphertext> = Vec::new();
    let mut i: usize = 0;
    while i < entries.len()
        invariant
            i <= entries.len(),
            lists_entries::<Option<Ciphertext>>(contents, entries@),
            forall|j: int|
                0 <= j < out@.len() ==> holds_value(contents, (#[trigger] out@[j]).deep_view()),
            forall|k: int|
                0 <= k < i && contents[(#[trigger] entries@[k]).0] is Some ==> exists|j: int|
                    0 <= j < out@.len() && Some((#[trigger] out@[j]).deep_view())
                        == contents[entries@[k].0],
        decreases entries.len() - i,
    {
        let ghost before = out@;
        if let Some(value) = entries[i].1 {
            out.push(value.duplicate());
            proof {
                let last = out@.len() - 1;
                assert(contents.contains_key(entries@[i as int].0));
                assert(contents[entries@[i as int].0] == Some(out@[last].deep_view()));
                assert forall|j: int| 0 <= j < out@.len() implies holds_value(
                    contents,
                    (#[trigger] out@[j]).deep_view(),
                ) by {
                    if j < last {
                        assert(out@[j] == before[j]);
                    }
                }
                assert forall|k: int|
                    0 <= k < i + 1 && contents[(#[trigger] entries@[k]).0] is Some implies exists|
                    j: int,
                |
                    0 <= j < out@.len() && Some((#[trigger] out@[j]).deep_view())
                        == contents[entries@[k].0] by {
                    if k < i {
                        let j = choose|j: int|
                            0 <= j < before.len() && Some((#[trigger] before[j]).deep_view())
                                == contents[entries@[k].0];
                        assert(out@[j] == before[j]);
                    } else {
                        assert(Some(out@[last].deep_view()) == contents[entries@[k].0]);
                    }
                }
            }
        }
        i += 1;
    }
    proof {
        assert forall|key: Field|
            contents.contains_key(key) && (#[trigger] contents[key]) is Some implies exists|i: int|
            0 <= i < out@.len() && Some((#[trigger] out@[i]).deep_view()) == contents[key] by {
            let k = choose|k: int| 0 <= k < entries@.len() && entries@[k].0 == key;
            assert(contents[entries@[k].0] is Some);
        }
    }
    Ok(out)
}

impl<O: OutputStorage> OutputStore<O> {
    /// Returns the constant outputs, for all transitions.
    pub fn constant_outputs(&self) -> (r: Result<Vec<Plaintext>, StorageError>)
        requires
            self.well_formed(),
        ensures
            Self::reliable() ==> !(r matches Err(StorageError::Read)),
            match r {
                Ok(values) => plaintexts_of_listed(self.state().constant.contents, values@),
                Err(e) => e == StorageError::Read,
            },
    {
        plaintexts_of::<O::ConstantMap>(&self.constant)
    }

    /// Returns the public outputs, for all transitions.
    pub fn public_outputs(&self) -> (r: Result<Vec<Plaintext>, StorageError>)
        requires
            self.well_formed(),
        ensures
            Self::reliable() ==> !(r matches Err(StorageError::Read)),
            match r {
                Ok(values) => plaintexts_of_listed(self.state().public.contents, values@),
                Err(e) => e == StorageError::Read,
            },
    {
        plaintexts_of::<O::PublicMap>(&self.public)
    }

    /// Returns the private outputs, for all transitions.
    pub fn private_outputs(&self) -> (r: Result<Vec<Ciphertext>, StorageError>)
        requires
            self.well_formed(),
        ensures
            Self::reliable() ==> !(r matches Err(StorageError::Read)),
            match r {
                Ok(values) => ciphertexts_of_listed(self.state().private.contents, values@),
                Err(e) => e == StorageError::Read,
            },
    {
        ciphertexts_of::<O::PrivateMap>(&self.private)
    }
}

/// Insert and read back: in a store that was opened and holds nothing yet,
/// once one output of a transition is inserted, the outputs of the
/// transition are that output, the output ID leads to the transition, and
/// no batch is left.
pub proof fn law_inserted_output_is_read_back(transition_id: Field, output: OutputView)
    ensures
        ({
            let after = StoreState::empty().started().inserted(
                transition_id,
                seq![output],
            ).finished();
            &&& !after.in_progress()
            &&& after.outputs_of(transition_id) == Ok::<Seq<OutputView>, StorageError>(
                seq![output],
            )
            &&& after.reverse_id.contents.contains_key(output.id())
            &&& after.reverse_id.contents[output.id()] == transition_id
        }),
{
    let start = StoreState::empty().started();
    let outputs = seq![output];
    let ids = output_ids(outputs);
    assert(ids =~= seq![output.id()]);
    let with_ids = StoreState { id: start.id.write(transition_id, Some(ids)), ..start };
    assert(with_ids.store_outputs(transition_id, outputs, 0) == with_ids);
    let stored = with_ids.store_outputs(transition_id, outputs, 1);
    assert(stored == with_ids.store_output(transition_id, output));
    let after = stored.finished();
    reveal_with_fuel(applied, 3);
    assert(stored.id.batch =~= seq![(transition_id, Some(ids))]);
    assert(stored.id.batch.skip(1) =~= Seq::empty());
    assert(after.id.contents == Map::<Field, Seq<Field>>::empty().insert(transition_id, ids));
    assert(stored.reverse_id.batch =~= seq![(output.id(), Some(transition_id))]);
    assert(stored.reverse_id.batch.skip(1) =~= Seq::empty());
    match output {
        OutputView::Constant(id, value) => {
            assert(stored.constant.batch =~= seq![(id, Some(value))]);
            assert(stored.constant.batch.skip(1) =~= Seq::empty());
        },
        OutputView::Public(id, value) => {
            assert(stored.public.batch =~= seq![(id, Some(value))]);
            assert(stored.public.batch.skip(1) =~= Seq::empty());
        },
        OutputView::Private(id, value) => {
            assert(stored.private.batch =~= seq![(id, Some(value))]);
            assert(stored.private.batch.skip(1) =~= Seq::empty());
        },
        OutputView::Record(commitment, checksum, record) => {
            assert(stored.record.batch =~= seq![(commitment, Some((checksum, record)))]);
            assert(stored.record.batch.skip(1) =~= Seq::empty());
        },
        OutputView::ExternalRecord(id) => {
            assert(stored.external_record.batch =~= seq![(id, Some(()))]);
            assert(stored.external_record.batch.skip(1) =~= Seq::empty());
        },
    }
    assert(after.outputs_at(ids, 0) == Ok::<Seq<OutputView>, StorageError>(Seq::empty()));
    assert(after.holders(output.id()) == 1);
    assert(after.output_at(output.id(), 0) == Ok::<OutputView, StorageError>(output));
    assert(Seq::<OutputView>::empty().push(output) =~= seq![output]);
}

/// Remove after insert: once a transition that was stored is removed, in a
/// batch of its own, it has no outputs, and its output IDs lead to no
/// transition.
pub proof fn law_removed_transition_is_gone(
    before: StoreState,
    transition_id: Field,
    output_ids: Seq<Field>,
    i: int,
)
    requires
        !before.in_progress(),
        before.id.batch.len() == 0,
        before.reverse_id.batch.len() == 0,
        0 <= i < output_ids.len(),
    ensures
        ({
            let after = before.started().removed(transition_id, output_ids).finished();
            &&& !after.in_progress()
            &&& after.outputs_of(transition_id) == Ok::<Seq<OutputView>, StorageError>(
                Seq::empty(),
            )
            &&& !after.reverse_id.contents.contains_key(output_ids[i])
        }),
{
    let start = before.started();
    let without = StoreState { id: start.id.write(transition_id, None), ..start };
    lemma_remove_outputs(without, output_ids, output_ids.len());
    let removed = without.remove_outputs(output_ids, output_ids.len());
    assert(before.id.batch =~= Seq::empty());
    assert(before.reverse_id.batch =~= Seq::empty());
    reveal_with_fuel(applied, 3);
    assert(removed.id.batch =~= seq![(transition_id, None)]);
    assert(removed.id.batch.skip(1) =~= Seq::empty());
    lemma_applied_removals(before.reverse_id.contents, output_ids, output_ids.len());
}

/// The writes that wait for the reverse output IDs after `n` outputs are
/// removed in a batch are the removals of the output IDs, and the map of
/// output IDs is not written to.
proof fn lemma_remove_outputs(state: StoreState, output_ids: Seq<Field>, n: nat)
    requires
        state.id.in_progress,
        state.reverse_id.in_progress,
        n <= output_ids.len(),
    ensures
        state.remove_outputs(output_ids, n).id == state.id,
        state.remove_outputs(output_ids, n).reverse_id.in_progress,
        state.remove_outputs(output_ids, n).reverse_id.contents == state.reverse_id.contents,
        state.remove_outputs(output_ids, n).reverse_id.batch == state.reverse_id.batch
            + removals(output_ids, n),
    decreases n,
{
    if n == 0 {
        assert(state.reverse_id.batch + removals(output_ids, 0) =~= state.reverse_id.batch);
    } else {
        lemma_remove_outputs(state, output_ids, (n - 1) as nat);
        assert(state.reverse_id.batch + removals(output_ids, n) =~= (state.reverse_id.batch
            + removals(output_ids, (n - 1) as nat)).push((output_ids[n - 1], None)));
    }
}

/// The removals of the first `n` keys, in order.
pub open spec fn removals(keys: Seq<Field>, n: nat) -> Seq<(Field, Option<Field>)> {
    Seq::new(n, |i: int| (keys[i], None))
}

/// After the removals of the first `n` keys none of them is a key of the map.
proof fn lemma_applied_removals(contents: Map<Field, Field>, keys: Seq<Field>, n: nat)
    requires
        n <= keys.len(),
    ensures
        forall|i: int|
            0 <= i < n ==> !applied(contents, removals(keys, n)).contains_key(#[trigger] keys[i]),
        forall|key: Field|
            !contents.contains_key(key) ==> !applied(contents, removals(keys, n)).contains_key(
                key,
            ),
    decreases n,
{
    lemma_applied_removals_from(contents, keys, n, 0);
}

/// After the removals of the keys from the `k`-th to the `n`-th none of
/// these is a key of the map, and no key is new.
proof fn lemma_applied_removals_from(contents: Map<Field, Field>, keys: Seq<Field>, n: nat, k: nat)
    requires
        k <= n <= keys.len(),
    ensures
        forall|i: int|
            k <= i < n ==> !applied(contents, removals(keys, n).skip(k as int)).contains_key(
                #[trigger] keys[i],
            ),
        forall|key: Field|
            !contents.contains_key(key) ==> !applied(
                contents,
                removals(keys, n).skip(k as int),
            ).contains_key(key),
        k == 0 ==> removals(keys, n).skip(0) == removals(keys, n),
    decreases n - k,
{
    let rest = removals(keys, n).skip(k as int);
    assert(removals(keys, n).skip(0) =~= removals(keys, n));
    if k < n {
        let next = contents.remove(keys[k as int]);
        assert(rest[0] == (keys[k as int], None::<Field>));
        assert(rest.skip(1) =~= removals(keys, n).skip(k as int + 1));
        lemma_applied_removals_from(next, keys, n, k + 1);
        let later = removals(keys, n).skip(k as int + 1);
        assert(applied(contents, rest) == applied(next, later));
        assert forall|key: Field| !contents.contains_key(key) implies !applied(
            contents,
            rest,
        ).contains_key(key) by {
            assert(!next.contains_key(key));
        }
        assert forall|i: int| k <= i < n implies !applied(contents, rest).contains_key(
            #[trigger] keys[i],
        ) by {
            if i == k {
                assert(!next.contains_key(keys[i]));
            }
        }
    } else {
        assert(rest.len() == 0);
    }
}

} // verus!

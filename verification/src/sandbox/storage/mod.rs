//! The versioned object store with its ownership index.

pub mod indices;
pub mod laws;
pub mod snapshot;
pub mod timeline;

use crate::base_types::{ObjectID, Owner, SequenceNumber, TransactionDigest};
use crate::collections::{
    collect, enumerates, lemma_collect_push, seq_view, DeepClone, KeySet, VecMap,
};
use crate::object::{Object, ObjectView};
use crate::rpc_types::{
    ObjectChange, ObjectChangeView, PastObjectRead, PastObjectReadView, TransactionBlockResponse,
    TransactionBlockResponseView, TransactionFilter,
};
use crate::sandbox::storage::indices::{metadata_of, IndicesView, TransactionIndices};
use crate::codec::{Reader, Wire};
use crate::sandbox::storage::snapshot::{
    compress, decoded, decompress, gzip_stream, lemma_snapshot_round_trip, snapshot_of,
    SnapshotError, StorageSnapshot,
};
use crate::sandbox::storage::timeline::{ObjectTimeline, TimelineView};
use crate::transaction::{InnerTemporaryStore, TransactionData};
use vstd::prelude::*;

verus! {

/// The owner of every object.
pub open spec fn owners_of(objects: Map<ObjectID, ObjectView>) -> Map<ObjectID, Owner> {
    Map::new(|id: ObjectID| objects.contains_key(id), |id: ObjectID| objects[id].owner)
}

/// Whether `object` is held under `id` and belongs to `owner`.
pub open spec fn held_by(
    objects: Map<ObjectID, ObjectView>,
    owner: Owner,
    id: ObjectID,
) -> bool {
    objects.contains_key(id) && objects[id].owner == owner
}

/// The objects of every owner that has any.
pub open spec fn owned_sets(objects: Map<ObjectID, ObjectView>) -> Map<Owner, Set<ObjectID>> {
    Map::new(
        |owner: Owner| exists|id: ObjectID| #[trigger] held_by(objects, owner, id),
        |owner: Owner| Set::new(|id: ObjectID| held_by(objects, owner, id)),
    )
}

/// The view of the store: the current objects, the ownership index in both
/// directions, the history of every object, the recorded transactions with
/// their index, and the checkpoint counter.
pub struct StorageView {
    pub objects: Map<ObjectID, ObjectView>,
    pub address_objects: Map<Owner, Set<ObjectID>>,
    pub object_addresses: Map<ObjectID, Owner>,
    pub timelines: Map<ObjectID, TimelineView>,
    pub transactions: Map<TransactionDigest, TransactionBlockResponseView>,
    pub transaction_indices: IndicesView,
    pub checkpoint: u64,
}

impl StorageView {
    /// The store that holds `objects` as current objects, each listed
    /// under its owner, and nothing else.
    pub open spec fn initial(objects: Map<ObjectID, ObjectView>) -> StorageView {
        StorageView {
            objects,
            address_objects: owned_sets(objects),
            object_addresses: owners_of(objects),
            timelines: Map::empty(),
            transactions: Map::empty(),
            transaction_indices: IndicesView::empty(),
            checkpoint: 0,
        }
    }

    /// The objects that the ownership index lists for `owner`.
    pub open spec fn owned_by(self, owner: Owner) -> Set<ObjectID> {
        if self.address_objects.contains_key(owner) {
            self.address_objects[owner]
        } else {
            Set::empty()
        }
    }

    /// The history of `id`; empty where nothing was ever recorded.
    pub open spec fn timeline(self, id: ObjectID) -> TimelineView {
        if self.timelines.contains_key(id) {
            self.timelines[id]
        } else {
            TimelineView::empty()
        }
    }

    /// The store after a record was handed in under a digest: records are
    /// written once, so a record that is held already stays.
    pub open spec fn record(
        self,
        digest: TransactionDigest,
        response: TransactionBlockResponseView,
    ) -> StorageView {
        if self.transactions.contains_key(digest) {
            self
        } else {
            StorageView { transactions: self.transactions.insert(digest, response), ..self }
        }
    }

    /// The store after `id` left the ownership index.
    pub open spec fn clear_ownership(self, id: ObjectID) -> StorageView {
        if self.object_addresses.contains_key(id) {
            let previous = self.object_addresses[id];
            StorageView {
                address_objects: if self.address_objects.contains_key(previous) {
                    self.address_objects.insert(previous, self.address_objects[previous].remove(id))
                } else {
                    self.address_objects
                },
                object_addresses: self.object_addresses.remove(id),
                ..self
            }
        } else {
            self
        }
    }

    /// The store after the ownership index was brought up to date for an
    /// object `id` that now has `owner`: the index lists it under that
    /// owner, of whatever kind, and under no other.
    pub open spec fn update_ownership(self, id: ObjectID, owner: Owner) -> StorageView {
        let cleared = self.clear_ownership(id);
        StorageView {
            address_objects: cleared.address_objects.insert(
                owner,
                cleared.owned_by(owner).insert(id),
            ),
            object_addresses: cleared.object_addresses.insert(id, owner),
            ..cleared
        }
    }

    /// The store after `object` became the current version of its identifier.
    pub open spec fn insert_object(self, object: ObjectView) -> StorageView {
        let kept = self.update_ownership(object.id, object.owner);
        StorageView {
            objects: self.objects.insert(object.id, object),
            timelines: self.timelines.insert(
                object.id,
                self.timeline(object.id).record(object).clear_deleted(),
            ),
            ..kept
        }
    }

    /// The store after `id` was deleted: its history stays, marked.
    pub open spec fn remove_object(self, id: ObjectID) -> StorageView {
        let kept = self.clear_ownership(id);
        StorageView {
            objects: self.objects.remove(id),
            timelines: if self.timelines.contains_key(id) {
                self.timelines.insert(id, self.timelines[id].mark_deleted())
            } else {
                self.timelines
            },
            ..kept
        }
    }

    /// The store after `id` was removed together with its history.
    pub open spec fn remove_object_without_trace(self, id: ObjectID) -> StorageView {
        let removed = self.remove_object(id);
        StorageView { timelines: removed.timelines.remove(id), ..removed }
    }

    /// The store after `id` was wrapped into another object: `object` joins
    /// the history of `id` and becomes current under its own identifier, and
    /// `id` leaves the ownership index. No deletion is marked.
    pub open spec fn wrap_object(self, id: ObjectID, object: ObjectView) -> StorageView {
        let kept = self.clear_ownership(id);
        StorageView {
            objects: self.objects.insert(object.id, object),
            timelines: self.timelines.insert(id, self.timeline(id).record(object)),
            ..kept
        }
    }

    /// What a read of `id` at `version` finds.
    pub open spec fn read_at(self, id: ObjectID, version: SequenceNumber) -> PastObjectReadView {
        if !self.timelines.contains_key(id) {
            PastObjectReadView::ObjectNotExists(id)
        } else {
            let t = self.timelines[id];
            if t.versions.contains_key(version) {
                if t.deleted_at == Some(version) {
                    PastObjectReadView::ObjectDeleted(t.versions[version].object_ref())
                } else {
                    PastObjectReadView::VersionFound(
                        t.versions[version].object_ref(),
                        t.versions[version],
                    )
                }
            } else {
                match (t.deleted_at, t.latest()) {
                    (None, Some(latest)) if version > latest => PastObjectReadView::VersionTooHigh {
                        object_id: id,
                        asked_version: version,
                        latest_version: latest,
                    },
                    _ => PastObjectReadView::VersionNotFound(id, version),
                }
            }
        }
    }

    /// The store after an object was brought back to a version of its history.
    pub open spec fn rollback(self, id: ObjectID, version: SequenceNumber) -> StorageView {
        if self.timelines.contains_key(id) && self.timelines[id].versions.contains_key(version) {
            let object = self.timelines[id].versions[version];
            let kept = self.update_ownership(id, object.owner);
            StorageView {
                objects: self.objects.insert(object.id, object),
                timelines: self.timelines.insert(id, self.timelines[id].clear_deleted()),
                ..kept
            }
        } else {
            self
        }
    }
}

/// The objects under the first `upto` of the keys.
pub open spec fn first_objects(
    keys: Seq<ObjectID>,
    objects: Map<ObjectID, ObjectView>,
    upto: int,
) -> Map<ObjectID, ObjectView> {
    Map::new(
        |id: ObjectID| exists|j: int| 0 <= j < upto && j < keys.len() && #[trigger] keys[j] == id,
        |id: ObjectID| objects[id],
    )
}

/// One more key brings its object, and no other.
pub proof fn lemma_first_objects_step(
    keys: Seq<ObjectID>,
    objects: Map<ObjectID, ObjectView>,
    i: int,
)
    requires
        0 <= i < keys.len(),
        keys.no_duplicates(),
    ensures
        !first_objects(keys, objects, i).contains_key(keys[i]),
        first_objects(keys, objects, i + 1) == first_objects(keys, objects, i).insert(
            keys[i],
            objects[keys[i]],
        ),
{
    let before = first_objects(keys, objects, i);
    let after = first_objects(keys, objects, i + 1);
    assert forall|id: ObjectID| after.contains_key(id) <==> before.insert(
        keys[i],
        objects[keys[i]],
    ).contains_key(id) by {
        if after.contains_key(id) {
            let j = choose|j: int| 0 <= j < i + 1 && j < keys.len() && #[trigger] keys[j] == id;
            if j < i {
                assert(before.contains_key(id));
            }
        }
        if before.contains_key(id) {
            let j = choose|j: int| 0 <= j < i && j < keys.len() && #[trigger] keys[j] == id;
            assert(0 <= j < i + 1 && keys[j] == id);
        }
        assert(keys[i] == keys[i]);
    }
    assert(after =~= before.insert(keys[i], objects[keys[i]]));
}

/// The store of the ledger.
pub struct StorageExtension {
    objects: VecMap<ObjectID, Object>,
    address_objects: VecMap<Owner, KeySet<ObjectID>>,
    object_addresses: VecMap<ObjectID, Owner>,
    timelines: VecMap<ObjectID, ObjectTimeline>,
    transactions: VecMap<TransactionDigest, TransactionBlockResponse>,
    transaction_indices: TransactionIndices,
    checkpoint: u64,
}

impl View for StorageExtension {
    type V = StorageView;

    closed spec fn view(&self) -> StorageView {
        StorageView {
            objects: self.objects@,
            address_objects: self.address_objects@,
            object_addresses: self.object_addresses@,
            timelines: self.timelines@,
            transactions: self.transactions@,
            transaction_indices: self.transaction_indices@,
            checkpoint: self.checkpoint,
        }
    }
}

impl StorageExtension {
    /// Every part of the store is well formed.
    pub closed spec fn wf(&self) -> bool {
        &&& self.objects.wf()
        &&& self.address_objects.wf()
        &&& self.object_addresses.wf()
        &&& self.timelines.wf()
        &&& self.transactions.wf()
        &&& self.transaction_indices.wf()
    }

    /// A store that holds `inner` as its current objects, each listed
    /// under its owner, with no history and no transactions.
    pub fn new(inner: VecMap<ObjectID, Object>) -> (s: Self)
        requires
            inner.wf(),
        ensures
            s.wf(),
            s@ == StorageView::initial(inner@),
    {
        let mut address_objects: VecMap<Owner, KeySet<ObjectID>> = VecMap::new();
        let mut object_addresses: VecMap<ObjectID, Owner> = VecMap::new();
        let ghost keys = inner.key_seq();
        let mut i: usize = 0;
        proof {
            inner.lemma_entries();
            assert(owners_of(first_objects(keys, inner@, 0)) =~= Map::<ObjectID, Owner>::empty());
            assert(owned_sets(first_objects(keys, inner@, 0)) =~= Map::<
                Owner,
                Set<ObjectID>,
            >::empty());
        }
        while i < inner.len()
            invariant
                i <= keys.len(),
                keys == inner.key_seq(),
                inner.wf(),
                address_objects.wf(),
                object_addresses.wf(),
                object_addresses@ == owners_of(first_objects(keys, inner@, i as int)),
                address_objects@ == owned_sets(first_objects(keys, inner@, i as int)),
            decreases keys.len() - i,
        {
            let id = *inner.key_at(i);
            let owner = inner.value_at(i).owner;
            proof {
                inner.lemma_entries();
                lemma_first_objects_step(keys, inner@, i as int);
            }
            if !address_objects.contains_key(&owner) {
                address_objects.insert(owner, KeySet::new());
            }
            match address_objects.get_mut(&owner) {
                Some(set) => {
                    set.insert(id);
                },
                None => {},
            }
            object_addresses.insert(id, owner);
            proof {
                let before = first_objects(keys, inner@, i as int);
                let after = first_objects(keys, inner@, i + 1);
                assert(object_addresses@ =~= owners_of(after));
                assert(address_objects@ =~= owned_sets(after)) by {
                    assert forall|o: Owner| #[trigger]
                        address_objects@.contains_key(o) <==> owned_sets(after).contains_key(
                            o,
                        ) by {
                        if owned_sets(after).contains_key(o) {
                            let x = choose|x: ObjectID| #[trigger] held_by(after, o, x);
                            if x != id {
                                assert(held_by(before, o, x));
                            }
                        }
                        if owned_sets(before).contains_key(o) {
                            let x = choose|x: ObjectID| #[trigger] held_by(before, o, x);
                            assert(held_by(after, o, x));
                        }
                        assert(held_by(after, owner, id));
                    }
                    assert forall|o: Owner| #[trigger]
                        address_objects@.contains_key(o) implies address_objects@[o]
                        =~= owned_sets(after)[o] by {
                        assert forall|x: ObjectID|
                            address_objects@[o].contains(x) <==> held_by(after, o, x) by {
                            if x != id {
                                assert(held_by(after, o, x) <==> held_by(before, o, x));
                            }
                        }
                    }
                }
            }
            i += 1;
        }
        proof {
            inner.lemma_entries();
            assert(first_objects(keys, inner@, keys.len() as int) =~= inner@);
        }
        Self {
            objects: inner,
            address_objects,
            object_addresses,
            timelines: VecMap::new(),
            transactions: VecMap::new(),
            transaction_indices: TransactionIndices::new(),
            checkpoint: 0,
        }
    }

    pub fn checkpoint(&self) -> (c: u64)
        ensures
            c == self@.checkpoint,
    {
        self.checkpoint
    }

    /// Advances the checkpoint counter by one.
    pub fn bump_checkpoint(&mut self)
        requires
            old(self)@.checkpoint < u64::MAX,
        ensures
            final(self)@ == (StorageView {
                checkpoint: (old(self)@.checkpoint + 1) as u64,
                ..old(self)@
            }),
            old(self).wf() ==> final(self).wf(),
    {
        self.checkpoint += 1;
    }

    /// The current objects.
    pub fn as_inner(&self) -> (inner: &VecMap<ObjectID, Object>)
        ensures
            inner@ == self@.objects,
            self.wf() ==> inner.wf(),
    {
        &self.objects
    }

    /// Makes `object` the current version of its identifier: it joins the
    /// history at its version, a deletion marker is cleared, and the
    /// ownership index follows the owner.
    pub fn insert_object(&mut self, object: Object)
        requires
            old(self).wf(),
        ensures
            final(self).wf(),
            final(self)@ == old(self)@.insert_object(object@),
    {
        let object_id = object.id();

        if !self.timelines.contains_key(&object_id) {
            self.timelines.insert(object_id, ObjectTimeline::new());
        }
        match self.timelines.get_mut(&object_id) {
            Some(timeline) => {
                timeline.record(object.deep_clone());
                timeline.clear_deleted();
            },
            None => {},
        }
        assert(self.timelines@ =~= old(self)@.timelines.insert(
            object_id,
            old(self)@.timeline(object_id).record(object@).clear_deleted(),
        ));

        self.update_ownership_tracking(object_id, &object);
        self.objects.insert(object_id, object);
    }

    /// Removes an object and every trace of it: for objects that were made
    /// only to drive a computation.
    pub fn remove_object_without_trace(&mut self, object_id: ObjectID)
        requires
            old(self).wf(),
        ensures
            final(self).wf(),
            final(self)@ == old(self)@.remove_object_without_trace(object_id),
    {
        self.remove_object(object_id);

        self.timelines.remove(&object_id);
    }

    /// Deletes an object: it has no current version any more and leaves the
    /// ownership index; its history stays and is marked as deleted at its
    /// highest version.
    pub fn remove_object(&mut self, object_id: ObjectID)
        requires
            old(self).wf(),
        ensures
            final(self).wf(),
            final(self)@ == old(self)@.remove_object(object_id),
    {
        match self.timelines.get_mut(&object_id) {
            Some(timeline) => {
                timeline.mark_deleted();
            },
            None => {},
        }
        assert(self.timelines@ =~= old(self)@.remove_object(object_id).timelines);

        self.clear_ownership_tracking(object_id);
        self.objects.remove(&object_id);
    }

    /// Records the transaction in the index of transactions.
    pub fn record_transaction(
        &mut self,
        transaction_data: &TransactionData,
        object_changes: &[ObjectChange],
    )
        requires
            old(self).wf(),
        ensures
            final(self).wf(),
            final(self)@ == (StorageView {
                transaction_indices: old(self)@.transaction_indices.index(
                    metadata_of(*transaction_data, seq_view(object_changes@)),
                ),
                ..old(self)@
            }),
    {
        self.transaction_indices.index_transaction(transaction_data, object_changes);
    }

    /// Stores the record of a transaction under its digest, once: where a
    /// record is held under the digest already, it stays. Returns whether
    /// the record was stored.
    pub fn insert_transaction(&mut self, digest: TransactionDigest, response: TransactionBlockResponse) -> (stored:
        bool)
        requires
            old(self).wf(),
        ensures
            final(self).wf(),
            final(self)@ == old(self)@.record(digest, response@),
            stored == !old(self)@.transactions.contains_key(digest),
    {
        if self.transactions.contains_key(&digest) {
            false
        } else {
            self.transactions.insert(digest, response);
            true
        }
    }

    fn update_ownership_tracking(&mut self, object_id: ObjectID, object: &Object)
        requires
            old(self).wf(),
        ensures
            final(self).wf(),
            final(self)@ == old(self)@.update_ownership(object_id, object@.owner),
    {
        match self.object_addresses.remove(&object_id) {
            Some(previous_address) => {
                match self.address_objects.get_mut(&previous_address) {
                    Some(set) => {
                        set.remove(&object_id);
                    },
                    None => {},
                }
            },
            None => {},
        }
        assert(self@.address_objects =~= old(self)@.clear_ownership(object_id).address_objects);
        assert(self@.object_addresses =~= old(self)@.clear_ownership(object_id).object_addresses);
        assert(self@ == old(self)@.clear_ownership(object_id));

        let owner = object.owner;
        if !self.address_objects.contains_key(&owner) {
            self.address_objects.insert(owner, KeySet::new());
        }
        match self.address_objects.get_mut(&owner) {
            Some(set) => {
                set.insert(object_id);
            },
            None => {},
        }
        self.object_addresses.insert(object_id, owner);
        assert(self@.address_objects =~= old(self)@.update_ownership(
            object_id,
            object@.owner,
        ).address_objects);
    }

    fn clear_ownership_tracking(&mut self, object_id: ObjectID)
        requires
            old(self).wf(),
        ensures
            final(self).wf(),
            final(self)@ == old(self)@.clear_ownership(object_id),
    {
        match self.object_addresses.remove(&object_id) {
            Some(address) => {
                match self.address_objects.get_mut(&address) {
                    Some(set) => {
                        set.remove(&object_id);
                    },
                    None => {},
                }
            },
            None => {},
        }
        assert(self@.address_objects =~= old(self)@.clear_ownership(object_id).address_objects);
        assert(self@.object_addresses =~= old(self)@.clear_ownership(object_id).object_addresses);
    }

    /// Wraps the object `object_id` into another: `wrapped_object` joins its
    /// history and becomes current, and the object leaves the ownership index.
    pub fn wrap_object(&mut self, object_id: ObjectID, wrapped_object: Object)
        requires
            old(self).wf(),
        ensures
            final(self).wf(),
            final(self)@ == old(self)@.wrap_object(object_id, wrapped_object@),
    {
        if !self.timelines.contains_key(&object_id) {
            self.timelines.insert(object_id, ObjectTimeline::new());
        }
        match self.timelines.get_mut(&object_id) {
            Some(timeline) => {
                timeline.record(wrapped_object.deep_clone());
            },
            None => {},
        }
        assert(self.timelines@ =~= old(self)@.timelines.insert(
            object_id,
            old(self)@.timeline(object_id).record(wrapped_object@),
        ));

        self.clear_ownership_tracking(object_id);
        let id = wrapped_object.id();
        self.objects.insert(id, wrapped_object);
    }

    /// The current version of an object.
    pub fn get_object(&self, id: &ObjectID) -> (r: Option<&Object>)
        requires
            self.wf(),
        ensures
            match r {
                Some(o) => self@.objects.contains_key(*id) && o@ == self@.objects[*id],
                None => !self@.objects.contains_key(*id),
            },
    {
        self.objects.get(id)
    }

    /// Reads an object at a version of its history.
    pub fn get_object_at_version(&self, id: &ObjectID, version: SequenceNumber) -> (r:
        PastObjectRead)
        requires
            self.wf(),
        ensures
            r@ == self@.read_at(*id, version),
    {
        let timeline = match self.timelines.get(id) {
            Some(timeline) => timeline,
            None => {
                return PastObjectRead::ObjectNotExists(*id);
            },
        };

        match timeline.get(version) {
            Some(obj) => {
                match timeline.deleted_at() {
                    Some(deleted_at) => {
                        if deleted_at == version {
                            return PastObjectRead::ObjectDeleted(obj.compute_object_reference());
                        }
                    },
                    None => {},
                }
                PastObjectRead::VersionFound(obj.compute_object_reference(), obj.deep_clone())
            },
            None => {
                if timeline.deleted_at().is_none() {
                    match timeline.latest_version() {
                        Some(max_version) => {
                            if version > max_version {
                                return PastObjectRead::VersionTooHigh {
                                    object_id: *id,
                                    asked_version: version,
                                    latest_version: max_version,
                                };
                            }
                        },
                        None => {},
                    }
                }
                PastObjectRead::VersionNotFound(*id, version)
            },
        }
    }

    /// The record of a transaction.
    pub fn get_transaction(&self, digest: &TransactionDigest) -> (r: Option<&TransactionBlockResponse>)
        requires
            self.wf(),
        ensures
            match r {
                Some(t) => self@.transactions.contains_key(*digest) && t@
                    == self@.transactions[*digest],
                None => !self@.transactions.contains_key(*digest),
            },
    {
        self.transactions.get(digest)
    }
}


impl StorageView {
    /// The store after every object of `objects` was inserted, in order.
    pub open spec fn insert_all(self, objects: Seq<ObjectView>) -> StorageView
        decreases objects.len(),
    {
        if objects.len() == 0 {
            self
        } else {
            self.insert_all(objects.drop_last()).insert_object(objects.last())
        }
    }

    /// The store after one change of a transaction was carried out, with
    /// `store` holding what the execution wrote: a created, mutated,
    /// transferred or published object is inserted as it was written, a
    /// wrapped one is wrapped, and a deleted one is removed. A change whose
    /// object was not written changes nothing.
    pub open spec fn apply_change(
        self,
        change: ObjectChangeView,
        store: InnerTemporaryStore,
    ) -> StorageView {
        let id = change.object_id();
        if change is Deleted {
            self.remove_object(id)
        } else {
            if !store.by_id().contains_key(id) {
                self
            } else if change is Wrapped {
                self.wrap_object(id, store.by_id()[id])
            } else {
                self.insert_object(store.by_id()[id])
            }
        }
    }

    /// The store after every change was carried out, in order.
    pub open spec fn apply_changes(
        self,
        changes: Seq<ObjectChangeView>,
        store: InnerTemporaryStore,
    ) -> StorageView
        decreases changes.len(),
    {
        if changes.len() == 0 {
            self
        } else {
            self.apply_changes(changes.drop_last(), store).apply_change(changes.last(), store)
        }
    }

    /// The store after the effects of a transaction were applied and the
    /// transaction was recorded in the index.
    pub open spec fn apply_transaction_effects(
        self,
        transaction_data: TransactionData,
        changes: Seq<ObjectChangeView>,
        store: InnerTemporaryStore,
    ) -> StorageView {
        let applied = self.apply_changes(changes, store);
        StorageView {
            transaction_indices: applied.transaction_indices.index(
                metadata_of(transaction_data, changes),
            ),
            ..applied
        }
    }
}

impl StorageExtension {
    /// Inserts every written object, in order.
    pub fn finish(&mut self, written: Vec<Object>)
        requires
            old(self).wf(),
        ensures
            final(self).wf(),
            final(self)@ == old(self)@.insert_all(seq_view(written@)),
    {
        let ghost views = seq_view(written@);
        let mut i: usize = 0;
        assert(views.take(0) =~= Seq::<ObjectView>::empty());
        while i < written.len()
            invariant
                i <= written@.len(),
                views == seq_view(written@),
                self.wf(),
                self@ == old(self)@.insert_all(views.take(i as int)),
            decreases written@.len() - i,
        {
            proof {
                assert(views.take(i + 1).drop_last() =~= views.take(i as int));
                assert(views.take(i + 1).last() == written@[i as int]@);
            }
            self.insert_object(written[i].deep_clone());
            i += 1;
        }
        assert(views.take(i as int) =~= views);
    }

    /// The order in which the ownership index holds the objects of `owner`.
    pub closed spec fn owned_order(&self, owner: Owner) -> Seq<ObjectID> {
        if self.address_objects@.contains_key(owner) {
            self.address_objects.value_of(owner).seq()
        } else {
            Seq::empty()
        }
    }

    /// The current objects of `owner`, in the order of the ownership index.
    pub open spec fn owned_objects(&self, owner: Owner) -> Seq<ObjectView> {
        collect(self.owned_order(owner), self@.objects)
    }

    /// The order of the ownership index lists what the index holds, each
    /// object once.
    pub proof fn lemma_owned_order(&self, owner: Owner)
        requires
            self.wf(),
        ensures
            enumerates(self.owned_order(owner), self@.owned_by(owner)),
    {
        if self.address_objects@.contains_key(owner) {
            let set = self.address_objects.value_of(owner);
            self.address_objects.lemma_value_of(owner);
            set.lemma_members();
            set.lemma_view_is_seq_set();
        } else {
            assert(Seq::<ObjectID>::empty().to_set() =~= Set::<ObjectID>::empty());
        }
    }

    /// The current objects that the ownership index lists for `owner`.
    pub fn objects_for(&self, owner: &Owner) -> (r: Vec<&Object>)
        requires
            self.wf(),
        ensures
            seq_view(r@) == self.owned_objects(*owner),
    {
        let mut found: Vec<&Object> = Vec::new();
        match self.address_objects.get(owner) {
            Some(set) => {
                let mut i: usize = 0;
                proof {
                    lemma_collect_push(Seq::<ObjectID>::empty(), arbitrary(), self@.objects);
                }
                while i < set.len()
                    invariant
                        i <= set.seq().len(),
                        self.wf(),
                        seq_view(found@) == collect(set.seq().take(i as int), self@.objects),
                    decreases set.seq().len() - i,
                {
                    let id = set.get(i);
                    proof {
                        assert(set.seq().take(i + 1) =~= set.seq().take(i as int).push(*id));
                        lemma_collect_push(set.seq().take(i as int), *id, self@.objects);
                    }
                    let ghost before = seq_view(found@);
                    match self.objects.get(id) {
                        Some(object) => {
                            found.push(object);
                            assert(seq_view(found@) =~= before.push(object@));
                        },
                        None => {},
                    }
                    i += 1;
                }
                proof {
                    assert(set.seq().take(i as int) =~= set.seq());
                }
            },
            None => {
                proof {
                    let order = Seq::<ObjectID>::empty();
                    assert(seq_view(found@) =~= collect(order, self@.objects));
                }
            },
        }
        found
    }

    /// Brings an object back to a version of its history: that version
    /// becomes current, the ownership index follows, and a deletion marker
    /// is cleared. Returns the object, or nothing where the history lacks
    /// the version.
    pub fn _rollback_to_version(&mut self, id: &ObjectID, version: SequenceNumber) -> (r: Option<
        Object,
    >)
        requires
            old(self).wf(),
        ensures
            final(self).wf(),
            final(self)@ == old(self)@.rollback(*id, version),
            match r {
                Some(o) => old(self)@.timelines.contains_key(*id) && old(
                    self,
                )@.timelines[*id].versions.contains_key(version) && o@ == old(
                    self,
                )@.timelines[*id].versions[version],
                None => !(old(self)@.timelines.contains_key(*id) && old(
                    self,
                )@.timelines[*id].versions.contains_key(version)),
            },
    {
        let object = match self.timelines.get(id) {
            Some(timeline) => match timeline.get(version) {
                Some(object) => object.deep_clone(),
                None => {
                    return None;
                },
            },
            None => {
                return None;
            },
        };

        self.update_ownership_tracking(*id, &object);
        let object_id = object.id();
        self.objects.insert(object_id, object.deep_clone());

        match self.timelines.get_mut(id) {
            Some(timeline) => {
                timeline.clear_deleted();
            },
            None => {},
        }

        Some(object)
    }

    /// Applies what a transaction changed and records the transaction in
    /// the index.
    pub fn apply_transaction_effects(
        &mut self,
        transaction_data: &TransactionData,
        object_changes: &[ObjectChange],
        temporary_store: &InnerTemporaryStore,
    )
        requires
            old(self).wf(),
        ensures
            final(self).wf(),
            final(self)@ == old(self)@.apply_transaction_effects(
                *transaction_data,
                seq_view(object_changes@),
                *temporary_store,
            ),
    {
        self.apply_changes(object_changes, temporary_store);

        self.record_transaction(transaction_data, object_changes);
    }

    fn apply_changes(&mut self, object_changes: &[ObjectChange], temporary_store: &InnerTemporaryStore)
        requires
            old(self).wf(),
        ensures
            final(self).wf(),
            final(self)@ == old(self)@.apply_changes(seq_view(object_changes@), *temporary_store),
    {
        let ghost views = seq_view(object_changes@);
        let mut i: usize = 0;
        assert(views.take(0) =~= Seq::<ObjectChangeView>::empty());
        while i < object_changes.len()
            invariant
                i <= object_changes@.len(),
                views == seq_view(object_changes@),
                self.wf(),
                self@ == old(self)@.apply_changes(views.take(i as int), *temporary_store),
            decreases object_changes@.len() - i,
        {
            proof {
                assert(views.take(i + 1).drop_last() =~= views.take(i as int));
                assert(views.take(i + 1).last() == object_changes@[i as int]@);
            }
            let change = &object_changes[i];
            let object_id = change.object_id();
            match change {
                ObjectChange::Deleted { .. } => {
                    self.remove_object(object_id);
                },
                ObjectChange::Wrapped { .. } => {
                    match temporary_store.get(object_id) {
                        Some(object) => {
                            self.wrap_object(object_id, object.deep_clone());
                        },
                        None => {},
                    }
                },
                _ => {
                    match temporary_store.get(object_id) {
                        Some(object) => {
                            self.insert_object(object.deep_clone());
                        },
                        None => {},
                    }
                },
            }
            i += 1;
        }
        assert(views.take(i as int) =~= views);
    }

    /// The records of the transactions that `filter` asks for, each once, in
    /// no particular order; every record where no filter is given.
    pub fn query(&self, filter: Option<TransactionFilter>) -> (r: Vec<TransactionBlockResponse>)
        requires
            self.wf(),
        ensures
            exists|order: Seq<TransactionDigest>|
                enumerates(
                    order,
                    match filter {
                        Some(f) => self@.transaction_indices.query(f),
                        None => self@.transactions.dom(),
                    },
                ) && seq_view(r@) == #[trigger] collect(order, self@.transactions),
    {
        let mut found: Vec<TransactionBlockResponse> = Vec::new();
        match filter {
            Some(filter) => {
                let digests = self.transaction_indices.query(&filter);
                let mut i: usize = 0;
                proof {
                    lemma_collect_push(
                        Seq::<TransactionDigest>::empty(),
                        arbitrary(),
                        self@.transactions,
                    );
                }
                while i < digests.len()
                    invariant
                        i <= digests.seq().len(),
                        self.wf(),
                        seq_view(found@) == collect(
                            digests.seq().take(i as int),
                            self@.transactions,
                        ),
                    decreases digests.seq().len() - i,
                {
                    let key = digests.get(i);
                    proof {
                        assert(digests.seq().take(i + 1) =~= digests.seq().take(i as int).push(
                            *key,
                        ));
                        lemma_collect_push(digests.seq().take(i as int), *key, self@.transactions);
                    }
                    let ghost before = seq_view(found@);
                    match self.transactions.get(key) {
                        Some(response) => {
                            found.push(response.deep_clone());
                            assert(seq_view(found@) =~= before.push(response@));
                        },
                        None => {},
                    }
                    i += 1;
                }
                proof {
                    assert(digests.seq().take(i as int) =~= digests.seq());
                    digests.lemma_members();
                    digests.lemma_view_is_seq_set();
                    assert(enumerates(digests.seq(), self@.transaction_indices.query(filter)));
                }
            },
            None => {
                let mut i: usize = 0;
                proof {
                    self.transactions.lemma_entries();
                    lemma_collect_push(
                        Seq::<TransactionDigest>::empty(),
                        arbitrary(),
                        self@.transactions,
                    );
                }
                while i < self.transactions.len()
                    invariant
                        i <= self.transactions.key_seq().len(),
                        self.wf(),
                        seq_view(found@) == collect(
                            self.transactions.key_seq().take(i as int),
                            self@.transactions,
                        ),
                    decreases self.transactions.key_seq().len() - i,
                {
                    let ghost keys = self.transactions.key_seq();
                    proof {
                        self.transactions.lemma_entries();
                        assert(keys.take(i + 1) =~= keys.take(i as int).push(keys[i as int]));
                        lemma_collect_push(keys.take(i as int), keys[i as int], self@.transactions);
                    }
                    let ghost before = seq_view(found@);
                    let response = self.transactions.value_at(i);
                    found.push(response.deep_clone());
                    assert(seq_view(found@) =~= before.push(response@));
                    i += 1;
                }
                proof {
                    let keys = self.transactions.key_seq();
                    assert(keys.take(i as int) =~= keys);
                    assert(enumerates(keys, self@.transactions.dom()));
                }
            },
        }
        found
    }
}


impl StorageExtension {
    /// A copy of everything that the store holds.
    pub fn to_snapshot(&self) -> (snapshot: StorageSnapshot)
        requires
            self.wf(),
        ensures
            snapshot.wf(),
            snapshot@ == self@,
    {
        StorageSnapshot {
            objects: self.objects.deep_clone(),
            address_objects: self.address_objects.deep_clone(),
            object_addresses: self.object_addresses.deep_clone(),
            timelines: self.timelines.deep_clone(),
            transactions: self.transactions.deep_clone(),
            transaction_indices: self.transaction_indices.deep_clone(),
            checkpoint: self.checkpoint,
        }
    }

    /// The store that holds what the snapshot holds.
    pub fn from_snapshot(snapshot: StorageSnapshot) -> (s: Self)
        requires
            snapshot.wf(),
        ensures
            s.wf(),
            s@ == snapshot@,
    {
        Self {
            objects: snapshot.objects,
            address_objects: snapshot.address_objects,
            object_addresses: snapshot.object_addresses,
            timelines: snapshot.timelines,
            transactions: snapshot.transactions,
            transaction_indices: snapshot.transaction_indices,
            checkpoint: snapshot.checkpoint,
        }
    }

    /// Replaces everything that the store holds by what the snapshot
    /// holds: nothing of the old state stays.
    pub fn restore_from_snapshot(&mut self, snapshot: StorageSnapshot)
        requires
            snapshot.wf(),
        ensures
            final(self).wf(),
            final(self)@ == snapshot@,
    {
        self.objects = snapshot.objects;
        self.address_objects = snapshot.address_objects;
        self.object_addresses = snapshot.object_addresses;
        self.timelines = snapshot.timelines;
        self.transactions = snapshot.transactions;
        self.transaction_indices = snapshot.transaction_indices;
        self.checkpoint = snapshot.checkpoint;
    }
}


impl StorageExtension {
    /// The binary form of everything that the store holds.
    pub fn to_bytes(&self) -> (bytes: Vec<u8>)
        requires
            self.wf(),
        ensures
            decoded(bytes@) == Ok::<StorageView, SnapshotError>(self@),
    {
        let snapshot = self.to_snapshot();
        let mut bytes: Vec<u8> = Vec::new();
        snapshot.encode(&mut bytes);
        proof {
            lemma_snapshot_round_trip(snapshot);
            assert(bytes@ =~= snapshot.wire());
        }
        bytes
    }

    /// Replaces everything that the store holds by what a compressed
    /// snapshot holds. The bytes are decompressed and decoded in full
    /// before anything changes: where either fails, the store stays as it
    /// is.
    pub fn restone_from_bytes(&mut self, bytes: &[u8]) -> (r: Result<(), SnapshotError>)
        requires
            old(self).wf(),
        ensures
            final(self).wf(),
            match snapshot_of(bytes@) {
                Ok(view) => r is Ok && final(self)@ == view,
                Err(e) => r == Err::<(), SnapshotError>(e) && *final(self) == *old(self),
            },
    {
        let decompressed = match decompress(bytes) {
            Ok(decompressed) => decompressed,
            Err(e) => {
                return Err(e);
            },
        };
        let mut reader = Reader::new(decompressed.as_slice());
        let snapshot = match StorageSnapshot::decode(&mut reader) {
            Some(snapshot) => snapshot,
            None => {
                return Err(SnapshotError::Decoding);
            },
        };
        if !reader.is_done() {
            return Err(SnapshotError::Decoding);
        }

        self.restore_from_snapshot(snapshot);

        Ok(())
    }

    /// The compressed binary form of everything that the store holds: a
    /// stream that decodes to the store. It fails only where the encoder
    /// makes no stream of the binary form.
    pub fn to_bytes_compressed(&self) -> (r: Result<Vec<u8>, SnapshotError>)
        requires
            self.wf(),
        ensures
            match r {
                Ok(stream) => snapshot_of(stream@) == Ok::<StorageView, SnapshotError>(self@),
                Err(e) => e == SnapshotError::Compression && exists|encoded: Seq<u8>|
                    decoded(encoded) == Ok::<StorageView, SnapshotError>(self@) && (
                    #[trigger] gzip_stream(encoded)) is None,
            },
    {
        let bytes = self.to_bytes();
        compress(bytes.as_slice())
    }
}

} // verus!

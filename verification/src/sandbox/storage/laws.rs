//! What holds of the store after any sequence of its operations.

use crate::base_types::{ObjectID, Owner, SequenceNumber};
use crate::object::ObjectView;
use crate::rpc_types::PastObjectReadView;
use crate::sandbox::storage::{held_by, owned_sets, owners_of, StorageView};
use vstd::prelude::*;

verus! {

/// One operation on the objects of the store.
pub enum StoreOp {
    Insert(ObjectView),
    Remove(ObjectID),
    Wrap(ObjectID, ObjectView),
}

impl StoreOp {
    /// Whether the operation leaves the ownership index exact: an insertion
    /// and a removal do. A wrap does not: the index drops the identifier,
    /// while the object that the wrap records stays current.
    pub open spec fn keeps_index_exact(self) -> bool {
        !(self is Wrap)
    }

    /// Whether the operation leaves the ownership index sound: a wrap does
    /// where the object that it records has the identifier that is wrapped.
    pub open spec fn keeps_index_sound(self) -> bool {
        match self {
            StoreOp::Insert(_) => true,
            StoreOp::Remove(_) => true,
            StoreOp::Wrap(id, object) => object.id == id,
        }
    }
}

impl StorageView {
    /// The store after one operation.
    pub open spec fn apply_op(self, op: StoreOp) -> StorageView {
        match op {
            StoreOp::Insert(object) => self.insert_object(object),
            StoreOp::Remove(id) => self.remove_object(id),
            StoreOp::Wrap(id, object) => self.wrap_object(id, object),
        }
    }

    /// The store after a sequence of operations.
    pub open spec fn apply_ops(self, ops: Seq<StoreOp>) -> StorageView
        decreases ops.len(),
    {
        if ops.len() == 0 {
            self
        } else {
            self.apply_ops(ops.drop_last()).apply_op(ops.last())
        }
    }

    /// The two directions of the ownership index agree: an object is listed
    /// under an owner exactly if the reverse index gives it that owner.
    pub open spec fn index_coherent(self) -> bool {
        forall|owner: Owner, id: ObjectID|
            #[trigger] self.owned_by(owner).contains(id) <==> (self.object_addresses.contains_key(
                id,
            ) && self.object_addresses[id] == owner)
    }

    /// Every object that the ownership index lists is current, and is
    /// listed under its current owner.
    pub open spec fn index_sound(self) -> bool {
        &&& self.index_coherent()
        &&& forall|id: ObjectID| #[trigger]
            self.object_addresses.contains_key(id) ==> self.objects.contains_key(id)
                && self.object_addresses[id] == self.objects[id].owner
    }

    /// The ownership index lists exactly the current objects, each under
    /// its current owner, of whatever kind.
    pub open spec fn index_exact(self) -> bool {
        &&& self.index_sound()
        &&& forall|id: ObjectID| #[trigger]
            self.objects.contains_key(id) ==> self.object_addresses.contains_key(id)
    }

    /// Taking an object out of the ownership index keeps the two directions
    /// of the index in agreement, and touches no other object.
    pub proof fn lemma_clear_keeps_coherent(self, id: ObjectID)
        requires
            self.index_coherent(),
        ensures
            self.clear_ownership(id).index_coherent(),
            self.clear_ownership(id).object_addresses == self.object_addresses.remove(id),
    {
        let after = self.clear_ownership(id);
        assert(after.object_addresses =~= self.object_addresses.remove(id));
        assert forall|owner: Owner, x: ObjectID| #[trigger]
            after.owned_by(owner).contains(x) <==> (after.object_addresses.contains_key(x)
                && after.object_addresses[x] == owner) by {
            assert(self.owned_by(owner).contains(x) <==> (self.object_addresses.contains_key(x)
                && self.object_addresses[x] == owner));
            if self.object_addresses.contains_key(id) {
                let previous = self.object_addresses[id];
                assert(self.owned_by(previous).contains(id));
            }
        }
    }

    /// Bringing the ownership index up to date for one object keeps the two
    /// directions of the index in agreement, and touches no other object.
    pub proof fn lemma_update_keeps_coherent(self, id: ObjectID, owner: Owner)
        requires
            self.index_coherent(),
        ensures
            self.update_ownership(id, owner).index_coherent(),
            self.update_ownership(id, owner).object_addresses == self.object_addresses.insert(
                id,
                owner,
            ),
    {
        self.lemma_clear_keeps_coherent(id);
        let cleared = self.clear_ownership(id);
        let after = self.update_ownership(id, owner);
        assert(after.object_addresses =~= self.object_addresses.insert(id, owner));
        assert forall|o: Owner, x: ObjectID| #[trigger]
            after.owned_by(o).contains(x) <==> (after.object_addresses.contains_key(x)
                && after.object_addresses[x] == o) by {
            assert(cleared.owned_by(o).contains(x) <==> (cleared.object_addresses.contains_key(x)
                && cleared.object_addresses[x] == o));
        }
    }

    /// What an operation does to the ownership index: it stays coherent,
    /// and the reverse index changes for the one object only.
    pub proof fn lemma_op_on_index(self, op: StoreOp)
        requires
            self.index_coherent(),
        ensures
            self.apply_op(op).index_coherent(),
            self.apply_op(op).object_addresses == match op {
                StoreOp::Insert(object) => self.object_addresses.insert(object.id, object.owner),
                StoreOp::Remove(id) => self.object_addresses.remove(id),
                StoreOp::Wrap(id, _) => self.object_addresses.remove(id),
            },
    {
        let after = self.apply_op(op);
        match op {
            StoreOp::Insert(object) => {
                self.lemma_update_keeps_coherent(object.id, object.owner);
                let kept = self.update_ownership(object.id, object.owner);
                assert(after.address_objects == kept.address_objects);
                assert forall|owner: Owner, id: ObjectID| #[trigger]
                    after.owned_by(owner).contains(id) <==> (after.object_addresses.contains_key(
                        id,
                    ) && after.object_addresses[id] == owner) by {
                    assert(kept.owned_by(owner).contains(id) <==> (
                    kept.object_addresses.contains_key(id) && kept.object_addresses[id] == owner));
                }
            },
            StoreOp::Remove(id) => {
                self.lemma_clear_keeps_coherent(id);
                let kept = self.clear_ownership(id);
                assert(after.address_objects == kept.address_objects);
                assert forall|owner: Owner, x: ObjectID| #[trigger]
                    after.owned_by(owner).contains(x) <==> (after.object_addresses.contains_key(x)
                        && after.object_addresses[x] == owner) by {
                    assert(kept.owned_by(owner).contains(x) <==> (
                    kept.object_addresses.contains_key(x) && kept.object_addresses[x] == owner));
                }
            },
            StoreOp::Wrap(id, object) => {
                self.lemma_clear_keeps_coherent(id);
                let kept = self.clear_ownership(id);
                assert(after.address_objects == kept.address_objects);
                assert forall|owner: Owner, x: ObjectID| #[trigger]
                    after.owned_by(owner).contains(x) <==> (after.object_addresses.contains_key(x)
                        && after.object_addresses[x] == owner) by {
                    assert(kept.owned_by(owner).contains(x) <==> (
                    kept.object_addresses.contains_key(x) && kept.object_addresses[x] == owner));
                }
            },
        }
    }

    /// An operation that keeps the index sound does keep it sound.
    pub proof fn lemma_op_keeps_index_sound(self, op: StoreOp)
        requires
            self.index_sound(),
            op.keeps_index_sound(),
        ensures
            self.apply_op(op).index_sound(),
    {
        self.lemma_op_on_index(op);
        let after = self.apply_op(op);
        assert forall|id: ObjectID| #[trigger]
            after.object_addresses.contains_key(id) implies after.objects.contains_key(id)
            && after.object_addresses[id] == after.objects[id].owner by {
            if self.object_addresses.contains_key(id) {
                assert(self.objects.contains_key(id));
            }
        }
    }

    /// An insertion and a removal keep the index exact.
    pub proof fn lemma_op_keeps_index_exact(self, op: StoreOp)
        requires
            self.index_exact(),
            op.keeps_index_exact(),
        ensures
            self.apply_op(op).index_exact(),
    {
        self.lemma_op_keeps_index_sound(op);
        self.lemma_op_on_index(op);
        let after = self.apply_op(op);
        assert forall|id: ObjectID| #[trigger]
            after.objects.contains_key(id) implies after.object_addresses.contains_key(id) by {
            if self.objects.contains_key(id) {
                assert(self.object_addresses.contains_key(id));
            }
        }
    }

    /// In a store whose index is exact, the objects listed for an owner,
    /// of whatever kind, are exactly the current objects of that owner.
    pub proof fn lemma_exact_listing(self, owner: Owner, id: ObjectID)
        requires
            self.index_exact(),
        ensures
            self.owned_by(owner).contains(id) <==> held_by(self.objects, owner, id),
    {
        assert(self.owned_by(owner).contains(id) <==> (self.object_addresses.contains_key(id)
            && self.object_addresses[id] == owner));
        if self.objects.contains_key(id) {
            assert(self.object_addresses.contains_key(id));
        }
    }
}

/// A store that starts with any objects has an exact ownership index.
pub proof fn lemma_initial_index_exact(objects: Map<ObjectID, ObjectView>)
    ensures
        StorageView::initial(objects).index_exact(),
{
    let s = StorageView::initial(objects);
    assert forall|owner: Owner, id: ObjectID| #[trigger]
        s.owned_by(owner).contains(id) <==> (s.object_addresses.contains_key(id)
            && s.object_addresses[id] == owner) by {
        if s.object_addresses.contains_key(id) && s.object_addresses[id] == owner {
            assert(held_by(objects, owner, id));
        }
    }
}

/// After any sequence of insertions and removals, on a store that starts
/// with any objects, the objects that the ownership index lists for an
/// owner, of whatever kind, are exactly those whose current version has
/// that owner.
pub proof fn lemma_ownership_index_exact(
    objects: Map<ObjectID, ObjectView>,
    ops: Seq<StoreOp>,
    owner: Owner,
    id: ObjectID,
)
    requires
        forall|i: int| 0 <= i < ops.len() ==> (#[trigger] ops[i]).keeps_index_exact(),
    ensures
        StorageView::initial(objects).apply_ops(ops).owned_by(owner).contains(id) <==> held_by(
            StorageView::initial(objects).apply_ops(ops).objects,
            owner,
            id,
        ),
{
    lemma_initial_index_exact(objects);
    lemma_ops_keep_index_exact(StorageView::initial(objects), ops);
    StorageView::initial(objects).apply_ops(ops).lemma_exact_listing(owner, id);
}

/// A sequence of insertions and removals keeps the ownership index exact.
pub proof fn lemma_ops_keep_index_exact(s: StorageView, ops: Seq<StoreOp>)
    requires
        s.index_exact(),
        forall|i: int| 0 <= i < ops.len() ==> (#[trigger] ops[i]).keeps_index_exact(),
    ensures
        s.apply_ops(ops).index_exact(),
    decreases ops.len(),
{
    if ops.len() > 0 {
        let before = ops.drop_last();
        assert forall|i: int| 0 <= i < before.len() implies (#[trigger] before[i]).keeps_index_exact() by {
            assert(before[i] == ops[i]);
        }
        lemma_ops_keep_index_exact(s, before);
        s.apply_ops(before).lemma_op_keeps_index_exact(ops.last());
    }
}

/// With wraps among the operations the ownership index stays sound: every
/// object that it lists for an owner is current and has that owner. A
/// wrapped object is listed under no owner, though what the wrap recorded
/// stays current.
pub proof fn lemma_ownership_index_sound(
    s: StorageView,
    ops: Seq<StoreOp>,
    owner: Owner,
    id: ObjectID,
)
    requires
        s.index_sound(),
        forall|i: int| 0 <= i < ops.len() ==> (#[trigger] ops[i]).keeps_index_sound(),
    ensures
        s.apply_ops(ops).index_sound(),
        s.apply_ops(ops).owned_by(owner).contains(id) ==> held_by(
            s.apply_ops(ops).objects,
            owner,
            id,
        ),
    decreases ops.len(),
{
    if ops.len() > 0 {
        let before = ops.drop_last();
        assert forall|i: int| 0 <= i < before.len() implies (#[trigger] before[i]).keeps_index_sound() by {
            assert(before[i] == ops[i]);
        }
        lemma_ownership_index_sound(s, before, owner, id);
        s.apply_ops(before).lemma_op_keeps_index_sound(ops.last());
    }
    let after = s.apply_ops(ops);
    assert(after.owned_by(owner).contains(id) <==> (after.object_addresses.contains_key(id)
        && after.object_addresses[id] == owner));
}

/// Three versions of one object, inserted in increasing order, are each read
/// back as they were inserted; and where no higher version was recorded
/// before, a read above the third reports the third as the latest.
pub proof fn lemma_versions_in_order(
    s: StorageView,
    first: ObjectView,
    second: ObjectView,
    third: ObjectView,
    asked: SequenceNumber,
)
    requires
        first.id == second.id,
        second.id == third.id,
        first.version < second.version,
        second.version < third.version,
    ensures
        ({
            let t = s.insert_object(first).insert_object(second).insert_object(third);
            &&& t.read_at(first.id, first.version) == PastObjectReadView::VersionFound(
                first.object_ref(),
                first,
            )
            &&& t.read_at(first.id, second.version) == PastObjectReadView::VersionFound(
                second.object_ref(),
                second,
            )
            &&& t.read_at(first.id, third.version) == PastObjectReadView::VersionFound(
                third.object_ref(),
                third,
            )
            &&& (asked > third.version && (forall|v: SequenceNumber|
                s.timeline(first.id).versions.contains_key(v) ==> v <= third.version)) ==> t.read_at(
                first.id,
                asked,
            ) == PastObjectReadView::VersionTooHigh {
                object_id: first.id,
                asked_version: asked,
                latest_version: third.version,
            }
        }),
{
    let id = first.id;
    let t = s.insert_object(first).insert_object(second).insert_object(third);
    let line = t.timelines[id];
    assert(line.versions.contains_key(first.version));
    assert(line.versions.contains_key(second.version));
    assert(line.versions.contains_key(third.version));
    if asked > third.version && (forall|v: SequenceNumber|
        s.timeline(id).versions.contains_key(v) ==> v <= third.version) {
        assert(line.is_latest(third.version));
        line.lemma_latest_unique(third.version);
    }
}

/// An object that is inserted and then removed reads as deleted at the
/// version at which it was inserted, where no higher version was recorded
/// before; and a version that was never recorded reads as not found.
pub proof fn lemma_delete_then_read(s: StorageView, object: ObjectView, asked: SequenceNumber)
    requires
        forall|v: SequenceNumber|
            s.timeline(object.id).versions.contains_key(v) ==> v <= object.version,
        asked != object.version,
        !s.timeline(object.id).versions.contains_key(asked),
    ensures
        s.insert_object(object).remove_object(object.id).read_at(object.id, object.version)
            == PastObjectReadView::ObjectDeleted(object.object_ref()),
        s.insert_object(object).remove_object(object.id).read_at(object.id, asked)
            == PastObjectReadView::VersionNotFound(object.id, asked),
{
    let inserted = s.insert_object(object);
    let line = inserted.timelines[object.id];
    assert(line.is_latest(object.version));
    line.lemma_latest_unique(object.version);
}

} // verus!

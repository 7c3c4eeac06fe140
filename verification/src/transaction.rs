//! Transactions as the engine sees them, and what an execution hands back.

use crate::base_types::{ObjectID, ObjectRef, SequenceNumber, SuiAddress, TransactionDigest};
use crate::collections::{seq_view, DeepClone, VecMap};
use crate::object::{
    by_id, ids_distinct, ids_of, lemma_by_id_distinct, lemma_by_id_has, Object, ObjectView,
};
use vstd::prelude::*;

verus! {

/// An object that a programmable transaction names as an input.
#[derive(Debug)]
pub enum ObjectArg {
    /// An owned or immutable object, at a version.
    ImmOrOwnedObject(ObjectRef),
    /// A shared object.
    SharedObject { id: ObjectID, initial_shared_version: SequenceNumber, mutable: bool },
    /// An object that is received from another object.
    Receiving(ObjectRef),
}

impl ObjectArg {
    /// The identifier of the object that the argument names.
    pub open spec fn spec_id(&self) -> ObjectID {
        match *self {
            ObjectArg::ImmOrOwnedObject(r) => r.0,
            ObjectArg::SharedObject { id, .. } => id,
            ObjectArg::Receiving(r) => r.0,
        }
    }

    #[verifier::when_used_as_spec(spec_id)]
    pub fn id(&self) -> (r: ObjectID)
        ensures
            r == self.spec_id(),
    {
        match self {
            ObjectArg::ImmOrOwnedObject(r) => r.0,
            ObjectArg::SharedObject { id, .. } => *id,
            ObjectArg::Receiving(r) => r.0,
        }
    }
}

/// An input of a programmable transaction.
#[derive(Debug)]
pub enum CallArg {
    /// A value in its binary form.
    Pure(Vec<u8>),
    /// An object.
    Object(ObjectArg),
}

/// A call of a Move function: where the function is found. Its type
/// arguments and arguments are in their binary form.
#[derive(Debug)]
pub struct MoveCall {
    pub package: ObjectID,
    pub module: String,
    pub function: String,
    pub arguments: Vec<u8>,
}

/// One command of a programmable transaction.
#[derive(Debug)]
pub enum Command {
    /// A call of a Move function.
    MoveCall(MoveCall),
    /// Any other command, in its binary form.
    Other(Vec<u8>),
}

/// A sequence of commands over a list of inputs.
#[derive(Debug)]
pub struct ProgrammableTransaction {
    pub inputs: Vec<CallArg>,
    pub commands: Vec<Command>,
}

/// What a transaction does.
#[derive(Debug)]
pub enum TransactionKind {
    /// Commands chosen by the sender.
    ProgrammableTransaction(ProgrammableTransaction),
    /// A transaction of the system itself, in its binary form.
    System(Vec<u8>),
}

/// How a transaction pays for its execution.
#[derive(Debug)]
pub struct GasData {
    pub payment: Vec<ObjectRef>,
    pub owner: SuiAddress,
    pub price: u64,
    pub budget: u64,
}

/// An object that an execution reads, by the way it is held.
#[derive(Clone, Copy, Debug)]
pub enum InputObjectKind {
    MovePackage(ObjectID),
    ImmOrOwnedMoveObject(ObjectRef),
    SharedMoveObject { id: ObjectID, initial_shared_version: SequenceNumber, mutable: bool },
}

impl InputObjectKind {
    pub open spec fn spec_object_id(&self) -> ObjectID {
        match *self {
            InputObjectKind::MovePackage(id) => id,
            InputObjectKind::ImmOrOwnedMoveObject(r) => r.0,
            InputObjectKind::SharedMoveObject { id, .. } => id,
        }
    }

    #[verifier::when_used_as_spec(spec_object_id)]
    pub fn object_id(&self) -> (r: ObjectID)
        ensures
            r == self.spec_object_id(),
    {
        match self {
            InputObjectKind::MovePackage(id) => *id,
            InputObjectKind::ImmOrOwnedMoveObject(r) => r.0,
            InputObjectKind::SharedMoveObject { id, .. } => *id,
        }
    }
}

/// A transaction before it is signed.
///
/// The digest, the label of the kind, the list of input objects and the
/// binary form are derived from the rest by whoever builds the value; the
/// engine reads them and does not derive them again.
pub struct TransactionData {
    pub digest: TransactionDigest,
    pub sender: SuiAddress,
    pub kind: TransactionKind,
    /// The kind, as a label for queries.
    pub kind_label: String,
    pub gas_data: GasData,
    /// The objects that the transaction reads besides its gas payment, or
    /// why they cannot be listed.
    pub input_objects: Result<Vec<InputObjectKind>, String>,
    /// The transaction in its canonical binary form.
    pub raw: Vec<u8>,
}

impl TransactionData {
    pub fn digest(&self) -> (r: TransactionDigest)
        ensures
            r == self.digest,
    {
        self.digest
    }

    pub fn sender(&self) -> (r: SuiAddress)
        ensures
            r == self.sender,
    {
        self.sender
    }

    pub fn kind(&self) -> (r: &TransactionKind)
        ensures
            *r == self.kind,
    {
        &self.kind
    }

    pub fn gas_data(&self) -> (r: &GasData)
        ensures
            *r == self.gas_data,
    {
        &self.gas_data
    }

    pub fn gas_budget(&self) -> (r: u64)
        ensures
            r == self.gas_data.budget,
    {
        self.gas_data.budget
    }
}

/// A signature on a transaction, with the address that its public key
/// stands for. The address is absent where the key cannot be read.
#[derive(Debug)]
pub struct Signature {
    pub bytes: Vec<u8>,
    pub signer: Option<SuiAddress>,
}

/// Why an execution failed: the message of the failure, and of its cause
/// where one is known.
#[derive(Debug)]
pub struct ExecutionError {
    pub message: String,
    pub source: Option<String>,
}

/// What an execution changed, as far as the engine reads it; the rest is
/// carried in its binary form.
#[derive(Debug)]
pub struct TransactionEffects {
    /// Every object that ceased to exist on its own, deleted or wrapped,
    /// with the version at which it did.
    pub tombstones: Vec<(ObjectID, SequenceNumber)>,
    /// Those of them that were wrapped into another object.
    pub wrapped: Vec<ObjectRef>,
    /// The effects as they are reported.
    pub rendered: Vec<u8>,
    /// The effects in their canonical binary form.
    pub raw: Vec<u8>,
}

impl TransactionEffects {
    /// Whether `id` is among the wrapped objects.
    pub open spec fn spec_is_wrapped(&self, id: ObjectID) -> bool {
        exists|i: int| 0 <= i < self.wrapped@.len() && (#[trigger] self.wrapped@[i]).0 == id
    }

    #[verifier::when_used_as_spec(spec_is_wrapped)]
    pub fn is_wrapped(&self, id: ObjectID) -> (b: bool)
        ensures
            b == self.spec_is_wrapped(id),
    {
        let mut i: usize = 0;
        while i < self.wrapped.len()
            invariant
                i <= self.wrapped.len(),
                forall|j: int| 0 <= j < i ==> (#[trigger] self.wrapped@[j]).0 != id,
            decreases self.wrapped.len() - i,
        {
            if self.wrapped[i].0 == id {
                return true;
            }
            i += 1;
        }
        false
    }
}

/// The objects that an execution wrote, each under its identifier: no
/// identifier occurs twice.
pub struct InnerTemporaryStore {
    written: VecMap<ObjectID, Object>,
}

impl InnerTemporaryStore {
    /// The written objects are held by their own identifiers.
    #[verifier::type_invariant]
    pub closed spec fn wf(&self) -> bool {
        &&& self.written.wf()
        &&& forall|id: ObjectID| #[trigger]
            self.written@.contains_key(id) ==> self.written@[id].id == id
    }

    /// The written objects by their identifiers.
    pub closed spec fn by_id(&self) -> Map<ObjectID, ObjectView> {
        self.written@
    }

    /// The written objects in the order in which they are held: that in
    /// which their identifiers first came.
    pub closed spec fn written(&self) -> Seq<ObjectView> {
        Seq::new(self.written.key_seq().len(), |i: int| self.written@[self.written.key_seq()[i]])
    }

    /// The sequence and the map hold the same objects, each once.
    pub proof fn lemma_written(&self)
        requires
            self.wf(),
        ensures
            forall|i: int, j: int|
                0 <= i < j < self.written().len() ==> (#[trigger] self.written()[i]).id != (
                #[trigger] self.written()[j]).id,
            forall|i: int|
                0 <= i < self.written().len() ==> self.by_id().contains_key(
                    (#[trigger] self.written()[i]).id,
                ) && self.by_id()[self.written()[i].id] == self.written()[i],
            forall|id: ObjectID|
                self.by_id().contains_key(id) ==> exists|i: int|
                    0 <= i < self.written().len() && (#[trigger] self.written()[i]).id == id,
    {
        self.written.lemma_entries();
        let keys = self.written.key_seq();
        assert forall|i: int| 0 <= i < self.written().len() implies (#[trigger] self.written()[i]).id
            == keys[i] by {
            assert(self.written@.contains_key(keys[i]));
        }
        assert forall|id: ObjectID| self.by_id().contains_key(id) implies exists|i: int|
            0 <= i < self.written().len() && (#[trigger] self.written()[i]).id == id by {
            let i = keys.index_of(id);
            assert(keys[i] == id);
            assert(self.written()[i].id == id);
        }
    }

    /// Holds the objects by their identifiers, in the order in which the
    /// identifiers first come; of two objects with one identifier, the
    /// later stands in the place of the earlier.
    pub fn new(objects: Vec<Object>) -> (r: Self)
        ensures
            r.wf(),
            r.by_id() == by_id(seq_view(objects@)),
            ids_distinct(seq_view(objects@)) ==> r.written() == seq_view(objects@),
    {
        let mut written: VecMap<ObjectID, Object> = VecMap::new();
        let ghost views = seq_view(objects@);
        let mut i: usize = 0;
        assert(views.take(0) =~= Seq::<ObjectView>::empty());
        assert(written.key_seq() =~= ids_of(views.take(0)));
        while i < objects.len()
            invariant
                i <= objects@.len(),
                views == seq_view(objects@),
                written.wf(),
                written@ == by_id(views.take(i as int)),
                forall|id: ObjectID| #[trigger]
                    written@.contains_key(id) ==> written@[id].id == id,
                ids_distinct(views.take(i as int)) ==> written.key_seq() == ids_of(
                    views.take(i as int),
                ),
            decreases objects@.len() - i,
        {
            let ghost keys = written.key_seq();
            proof {
                let now = views.take(i as int);
                let next = views.take(i + 1);
                assert(next.drop_last() =~= now);
                assert(next.last() == objects@[i as int]@);
                if ids_distinct(next) {
                    assert(ids_distinct(now)) by {
                        assert forall|a: int, b: int| 0 <= a < b < now.len() implies (
                        #[trigger] now[a]).id != (#[trigger] now[b]).id by {
                            assert(now[a] == next[a] && now[b] == next[b]);
                        }
                    }
                    if written@.contains_key(objects@[i as int].id) {
                        lemma_by_id_has(now, objects@[i as int].id);
                        let j = choose|j: int|
                            0 <= j < now.len() && (#[trigger] now[j]).id == objects@[i as int].id;
                        assert(next[j].id == next[i as int].id);
                    }
                }
            }
            let object = objects[i].deep_clone();
            written.insert(object.id(), object);
            proof {
                let next = views.take(i + 1);
                if ids_distinct(next) {
                    assert(written.key_seq() =~= ids_of(next));
                }
            }
            i += 1;
        }
        assert(views.take(i as int) =~= views);
        let r = InnerTemporaryStore { written };
        proof {
            if ids_distinct(views) {
                r.written.lemma_entries();
                assert forall|k: int| 0 <= k < views.len() implies r.written()[k] == views[k] by {
                    lemma_by_id_distinct(views, k);
                }
                assert(r.written() =~= views);
            }
        }
        r
    }

    /// How many objects were written.
    pub fn len(&self) -> (n: usize)
        ensures
            n == self.written().len(),
            self.wf(),
    {
        proof {
            use_type_invariant(self);
        }
        self.written.len()
    }

    /// The written object at a position.
    pub fn object_at(&self, i: usize) -> (r: &Object)
        requires
            i < self.written().len(),
        ensures
            r@ == self.written()[i as int],
            self.wf(),
    {
        proof {
            use_type_invariant(self);
        }
        self.written.value_at(i)
    }

    /// The written object with identifier `id`.
    pub fn get(&self, id: ObjectID) -> (r: Option<&Object>)
        ensures
            match r {
                Some(o) => self.by_id().contains_key(id) && o@ == self.by_id()[id],
                None => !self.by_id().contains_key(id),
            },
            self.wf(),
    {
        proof {
            use_type_invariant(self);
        }
        self.written.get(&id)
    }
}

} // verus!

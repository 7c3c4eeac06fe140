//! What the engine reports: changes to objects and balances, responses to
//! transactions, reads of objects, and the filters of transaction queries.

use crate::base_types::{
    ObjectDigest, ObjectID, ObjectRef, Owner, SequenceNumber, SuiAddress, TransactionDigest,
};
use crate::collections::{clone_vec, seq_view, DeepClone};
use crate::object::{Object, ObjectView, StructTag, StructTagView, TypeTag};
use vstd::prelude::*;

verus! {

/// What a transaction did to one object.
#[derive(Debug)]
pub enum ObjectChange {
    /// A package was published.
    Published { package_id: ObjectID, version: SequenceNumber, digest: ObjectDigest, modules: Vec<String> },
    /// An object went to another owner.
    Transferred {
        sender: SuiAddress,
        recipient: Owner,
        object_type: StructTag,
        object_id: ObjectID,
        version: SequenceNumber,
        digest: ObjectDigest,
    },
    /// An object changed and kept its owner.
    Mutated {
        sender: SuiAddress,
        owner: Owner,
        object_type: StructTag,
        object_id: ObjectID,
        version: SequenceNumber,
        previous_version: SequenceNumber,
        digest: ObjectDigest,
    },
    /// An object was deleted.
    Deleted { sender: SuiAddress, object_type: StructTag, object_id: ObjectID, version: SequenceNumber },
    /// An object was wrapped into another object.
    Wrapped { sender: SuiAddress, object_type: StructTag, object_id: ObjectID, version: SequenceNumber },
    /// An object came into being.
    Created {
        sender: SuiAddress,
        owner: Owner,
        object_type: StructTag,
        object_id: ObjectID,
        version: SequenceNumber,
        digest: ObjectDigest,
    },
}

pub enum ObjectChangeView {
    Published {
        package_id: ObjectID,
        version: SequenceNumber,
        digest: ObjectDigest,
        modules: Seq<Seq<char>>,
    },
    Transferred {
        sender: SuiAddress,
        recipient: Owner,
        object_type: StructTagView,
        object_id: ObjectID,
        version: SequenceNumber,
        digest: ObjectDigest,
    },
    Mutated {
        sender: SuiAddress,
        owner: Owner,
        object_type: StructTagView,
        object_id: ObjectID,
        version: SequenceNumber,
        previous_version: SequenceNumber,
        digest: ObjectDigest,
    },
    Deleted {
        sender: SuiAddress,
        object_type: StructTagView,
        object_id: ObjectID,
        version: SequenceNumber,
    },
    Wrapped {
        sender: SuiAddress,
        object_type: StructTagView,
        object_id: ObjectID,
        version: SequenceNumber,
    },
    Created {
        sender: SuiAddress,
        owner: Owner,
        object_type: StructTagView,
        object_id: ObjectID,
        version: SequenceNumber,
        digest: ObjectDigest,
    },
}

impl ObjectChangeView {
    /// The object that the change is about.
    pub open spec fn object_id(self) -> ObjectID {
        match self {
            ObjectChangeView::Published { package_id, .. } => package_id,
            ObjectChangeView::Transferred { object_id, .. } => object_id,
            ObjectChangeView::Mutated { object_id, .. } => object_id,
            ObjectChangeView::Deleted { object_id, .. } => object_id,
            ObjectChangeView::Wrapped { object_id, .. } => object_id,
            ObjectChangeView::Created { object_id, .. } => object_id,
        }
    }
}

impl View for ObjectChange {
    type V = ObjectChangeView;

    open spec fn view(&self) -> ObjectChangeView {
        match *self {
            ObjectChange::Published { package_id, version, digest, modules } => {
                ObjectChangeView::Published {
                    package_id,
                    version,
                    digest,
                    modules: seq_view(modules@),
                }
            },
            ObjectChange::Transferred { sender, recipient, object_type, object_id, version, digest } => {
                ObjectChangeView::Transferred {
                    sender,
                    recipient,
                    object_type: object_type@,
                    object_id,
                    version,
                    digest,
                }
            },
            ObjectChange::Mutated {
                sender,
                owner,
                object_type,
                object_id,
                version,
                previous_version,
                digest,
            } => ObjectChangeView::Mutated {
                sender,
                owner,
                object_type: object_type@,
                object_id,
                version,
                previous_version,
                digest,
            },
            ObjectChange::Deleted { sender, object_type, object_id, version } => {
                ObjectChangeView::Deleted { sender, object_type: object_type@, object_id, version }
            },
            ObjectChange::Wrapped { sender, object_type, object_id, version } => {
                ObjectChangeView::Wrapped { sender, object_type: object_type@, object_id, version }
            },
            ObjectChange::Created { sender, owner, object_type, object_id, version, digest } => {
                ObjectChangeView::Created {
                    sender,
                    owner,
                    object_type: object_type@,
                    object_id,
                    version,
                    digest,
                }
            },
        }
    }
}

impl DeepClone for ObjectChange {
    open spec fn valid(&self) -> bool {
        true
    }

    fn deep_clone(&self) -> (r: Self) {
        let r = match self {
            ObjectChange::Published { package_id, version, digest, modules } => {
                let copied = modules.clone();
                assert(seq_view(copied@) =~= seq_view(modules@));
                ObjectChange::Published {
                    package_id: *package_id,
                    version: *version,
                    digest: *digest,
                    modules: copied,
                }
            },
            ObjectChange::Transferred { sender, recipient, object_type, object_id, version, digest } => {
                ObjectChange::Transferred {
                    sender: *sender,
                    recipient: *recipient,
                    object_type: object_type.deep_clone(),
                    object_id: *object_id,
                    version: *version,
                    digest: *digest,
                }
            },
            ObjectChange::Mutated {
                sender,
                owner,
                object_type,
                object_id,
                version,
                previous_version,
                digest,
            } => ObjectChange::Mutated {
                sender: *sender,
                owner: *owner,
                object_type: object_type.deep_clone(),
                object_id: *object_id,
                version: *version,
                previous_version: *previous_version,
                digest: *digest,
            },
            ObjectChange::Deleted { sender, object_type, object_id, version } => {
                ObjectChange::Deleted {
                    sender: *sender,
                    object_type: object_type.deep_clone(),
                    object_id: *object_id,
                    version: *version,
                }
            },
            ObjectChange::Wrapped { sender, object_type, object_id, version } => {
                ObjectChange::Wrapped {
                    sender: *sender,
                    object_type: object_type.deep_clone(),
                    object_id: *object_id,
                    version: *version,
                }
            },
            ObjectChange::Created { sender, owner, object_type, object_id, version, digest } => {
                ObjectChange::Created {
                    sender: *sender,
                    owner: *owner,
                    object_type: object_type.deep_clone(),
                    object_id: *object_id,
                    version: *version,
                    digest: *digest,
                }
            },
        };
        assert(r.valid());
        r
    }
}

impl ObjectChange {
    /// The object that the change is about.
    pub fn object_id(&self) -> (r: ObjectID)
        ensures
            r == self@.object_id(),
    {
        match self {
            ObjectChange::Published { package_id, .. } => *package_id,
            ObjectChange::Transferred { object_id, .. } => *object_id,
            ObjectChange::Mutated { object_id, .. } => *object_id,
            ObjectChange::Deleted { object_id, .. } => *object_id,
            ObjectChange::Wrapped { object_id, .. } => *object_id,
            ObjectChange::Created { object_id, .. } => *object_id,
        }
    }
}

/// The net change of what one owner holds of one currency.
#[derive(Debug)]
pub struct BalanceChange {
    pub owner: Owner,
    pub coin_type: TypeTag,
    pub amount: i128,
}

pub struct BalanceChangeView {
    pub owner: Owner,
    pub coin_type: Seq<char>,
    pub amount: i128,
}

impl View for BalanceChange {
    type V = BalanceChangeView;

    open spec fn view(&self) -> BalanceChangeView {
        BalanceChangeView { owner: self.owner, coin_type: self.coin_type@, amount: self.amount }
    }
}

impl DeepClone for BalanceChange {
    open spec fn valid(&self) -> bool {
        true
    }

    fn deep_clone(&self) -> (r: Self) {
        let r = BalanceChange {
            owner: self.owner,
            coin_type: self.coin_type.clone(),
            amount: self.amount,
        };
        assert(r.valid());
        r
    }
}

/// The view of what an option holds.
pub open spec fn opt_view<T: View>(o: Option<T>) -> Option<T::V> {
    match o {
        Some(t) => Some(t@),
        None => None,
    }
}

/// Copies what an option holds.
pub fn clone_opt<T: DeepClone>(o: &Option<T>) -> (r: Option<T>)
    ensures
        opt_view(r) == opt_view(*o),
{
    match o {
        Some(t) => Some(t.deep_clone()),
        None => None,
    }
}

/// The views of the elements of an optional list.
pub open spec fn opt_seq_view<T: View>(o: Option<Vec<T>>) -> Option<Seq<T::V>> {
    match o {
        Some(v) => Some(seq_view(v@)),
        None => None,
    }
}

fn clone_opt_vec<T: DeepClone>(o: &Option<Vec<T>>) -> (r: Option<Vec<T>>)
    ensures
        opt_seq_view(r) == opt_seq_view(*o),
{
    match o {
        Some(v) => Some(clone_vec(v)),
        None => None,
    }
}

/// The record of one transaction: what was submitted, what it did, and why
/// it failed, if it did. Effects and events are carried as they were
/// rendered by whoever executed the transaction.
#[derive(Debug)]
pub struct TransactionBlockResponse {
    pub digest: TransactionDigest,
    pub raw_transaction: Vec<u8>,
    pub effects: Option<Vec<u8>>,
    pub events: Option<Vec<u8>>,
    pub object_changes: Option<Vec<ObjectChange>>,
    pub balance_changes: Option<Vec<BalanceChange>>,
    pub timestamp_ms: Option<u64>,
    pub confirmed_local_execution: Option<bool>,
    pub checkpoint: Option<u64>,
    pub errors: Vec<String>,
    pub raw_effects: Vec<u8>,
}

pub struct TransactionBlockResponseView {
    pub digest: TransactionDigest,
    pub raw_transaction: Seq<u8>,
    pub effects: Option<Seq<u8>>,
    pub events: Option<Seq<u8>>,
    pub object_changes: Option<Seq<ObjectChangeView>>,
    pub balance_changes: Option<Seq<BalanceChangeView>>,
    pub timestamp_ms: Option<u64>,
    pub confirmed_local_execution: Option<bool>,
    pub checkpoint: Option<u64>,
    pub errors: Seq<Seq<char>>,
    pub raw_effects: Seq<u8>,
}

impl View for TransactionBlockResponse {
    type V = TransactionBlockResponseView;

    open spec fn view(&self) -> TransactionBlockResponseView {
        TransactionBlockResponseView {
            digest: self.digest,
            raw_transaction: self.raw_transaction@,
            effects: opt_view(self.effects),
            events: opt_view(self.events),
            object_changes: opt_seq_view(self.object_changes),
            balance_changes: opt_seq_view(self.balance_changes),
            timestamp_ms: self.timestamp_ms,
            confirmed_local_execution: self.confirmed_local_execution,
            checkpoint: self.checkpoint,
            errors: seq_view(self.errors@),
            raw_effects: self.raw_effects@,
        }
    }
}

impl DeepClone for TransactionBlockResponse {
    open spec fn valid(&self) -> bool {
        true
    }

    fn deep_clone(&self) -> (r: Self) {
        let errors = self.errors.clone();
        assert(seq_view(errors@) =~= seq_view(self.errors@));
        let r = TransactionBlockResponse {
            digest: self.digest,
            raw_transaction: self.raw_transaction.deep_clone(),
            effects: clone_opt(&self.effects),
            events: clone_opt(&self.events),
            object_changes: clone_opt_vec(&self.object_changes),
            balance_changes: clone_opt_vec(&self.balance_changes),
            timestamp_ms: self.timestamp_ms,
            confirmed_local_execution: self.confirmed_local_execution,
            checkpoint: self.checkpoint,
            errors,
            raw_effects: self.raw_effects.deep_clone(),
        };
        assert(r.valid());
        r
    }
}

/// The outcome of a dry run: what the transaction would do.
#[derive(Debug)]
pub struct DryRunTransactionBlockResponse {
    pub effects: Vec<u8>,
    pub events: Vec<u8>,
    pub object_changes: Vec<ObjectChange>,
    pub balance_changes: Vec<BalanceChange>,
    /// The transaction that was run, in its canonical binary form.
    pub input: Vec<u8>,
    pub execution_error_source: Option<String>,
    pub suggested_gas_price: Option<u64>,
}

/// What a read of an object at a past version finds.
#[derive(Debug)]
pub enum PastObjectRead {
    /// Nothing is known of the object.
    ObjectNotExists(ObjectID),
    /// The object at the version asked for.
    VersionFound(ObjectRef, Object),
    /// The object was deleted at the version asked for.
    ObjectDeleted(ObjectRef),
    /// The object is known, but not at this version.
    VersionNotFound(ObjectID, SequenceNumber),
    /// The version asked for is higher than any that the object has had.
    VersionTooHigh { object_id: ObjectID, asked_version: SequenceNumber, latest_version: SequenceNumber },
}

pub enum PastObjectReadView {
    ObjectNotExists(ObjectID),
    VersionFound(ObjectRef, ObjectView),
    ObjectDeleted(ObjectRef),
    VersionNotFound(ObjectID, SequenceNumber),
    VersionTooHigh { object_id: ObjectID, asked_version: SequenceNumber, latest_version: SequenceNumber },
}

impl View for PastObjectRead {
    type V = PastObjectReadView;

    open spec fn view(&self) -> PastObjectReadView {
        match *self {
            PastObjectRead::ObjectNotExists(id) => PastObjectReadView::ObjectNotExists(id),
            PastObjectRead::VersionFound(r, o) => PastObjectReadView::VersionFound(r, o@),
            PastObjectRead::ObjectDeleted(r) => PastObjectReadView::ObjectDeleted(r),
            PastObjectRead::VersionNotFound(id, v) => PastObjectReadView::VersionNotFound(id, v),
            PastObjectRead::VersionTooHigh { object_id, asked_version, latest_version } => {
                PastObjectReadView::VersionTooHigh { object_id, asked_version, latest_version }
            },
        }
    }
}

/// What a read of the current version of an object finds.
#[derive(Debug)]
pub enum ObjectRead {
    NotExists(ObjectID),
    Exists(ObjectRef, Object),
}

pub enum ObjectReadView {
    NotExists(ObjectID),
    Exists(ObjectRef, ObjectView),
}

impl View for ObjectRead {
    type V = ObjectReadView;

    open spec fn view(&self) -> ObjectReadView {
        match *self {
            ObjectRead::NotExists(id) => ObjectReadView::NotExists(id),
            ObjectRead::Exists(r, o) => ObjectReadView::Exists(r, o@),
        }
    }
}

/// A coin, as a balance query lists it.
#[derive(Debug)]
pub struct Coin {
    pub coin_type: String,
    pub coin_object_id: ObjectID,
    pub version: SequenceNumber,
    pub digest: ObjectDigest,
    pub balance: u64,
    pub previous_transaction: TransactionDigest,
}

pub struct CoinView {
    pub coin_type: Seq<char>,
    pub coin_object_id: ObjectID,
    pub version: SequenceNumber,
    pub digest: ObjectDigest,
    pub balance: u64,
    pub previous_transaction: TransactionDigest,
}

impl View for Coin {
    type V = CoinView;

    open spec fn view(&self) -> CoinView {
        CoinView {
            coin_type: self.coin_type@,
            coin_object_id: self.coin_object_id,
            version: self.version,
            digest: self.digest,
            balance: self.balance,
            previous_transaction: self.previous_transaction,
        }
    }
}

/// Which transactions a query asks for.
#[derive(Debug)]
pub enum TransactionFilter {
    /// Those of one checkpoint. No index by checkpoint is kept, so this
    /// matches nothing.
    Checkpoint(u64),
    /// Those that call into a package; into one of its modules, where one is
    /// named; and a function of that module, where one is named too.
    MoveFunction { package: ObjectID, module: Option<String>, function: Option<String> },
    /// Those that take the object as an input.
    InputObject(ObjectID),
    /// Those that created, mutated or wrapped the object.
    ChangedObject(ObjectID),
    /// Those that read or changed the object in any way.
    AffectedObject(ObjectID),
    /// Those sent from the address.
    FromAddress(SuiAddress),
    /// Those that gave an object to the address.
    ToAddress(SuiAddress),
    /// Those sent from one address that gave an object to the other.
    FromAndToAddress { from: SuiAddress, to: SuiAddress },
    /// Those sent from the address or that gave an object to it.
    FromOrToAddress { addr: SuiAddress },
    /// Those of one kind.
    TransactionKind(String),
    /// Those of any of several kinds.
    TransactionKindIn(Vec<String>),
}

} // verus!

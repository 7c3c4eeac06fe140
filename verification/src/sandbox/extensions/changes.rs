//! What a transaction reads and what it changed: the checked input
//! objects, the changes to objects, and the changes to balances.

use crate::base_types::{ObjectID, ObjectRef, Owner, SequenceNumber, SuiAddress};
use crate::collections::{seq_view, DeepClone};
use crate::error::SandboxError;
use crate::object::{Object, ObjectView};
use crate::rpc_types::{BalanceChange, BalanceChangeView, ObjectChange, ObjectChangeView};
use crate::sandbox::extensions::auth_extension::AuthExtension;
use crate::sandbox::storage::{StorageExtension, StorageView};
use crate::transaction::{
    InnerTemporaryStore, InputObjectKind, Signature, TransactionData, TransactionEffects,
};
use vstd::prelude::*;

verus! {

/// An input object as it was found in the store.
pub struct ObjectReadResult {
    pub input_object_kind: InputObjectKind,
    pub object: Object,
}

/// The input objects of a transaction, each found and checked.
pub struct CheckedInputObjects {
    pub inputs: Vec<ObjectReadResult>,
}

impl View for ObjectReadResult {
    type V = (InputObjectKind, ObjectView);

    open spec fn view(&self) -> (InputObjectKind, ObjectView) {
        (self.input_object_kind, self.object@)
    }
}

impl View for CheckedInputObjects {
    type V = Seq<(InputObjectKind, ObjectView)>;

    open spec fn view(&self) -> Seq<(InputObjectKind, ObjectView)> {
        seq_view(self.inputs@)
    }
}

/// The gas payment of a transaction as input objects.
pub open spec fn gas_kinds(payment: Seq<ObjectRef>) -> Seq<InputObjectKind> {
    payment.map_values(|r: ObjectRef| InputObjectKind::ImmOrOwnedMoveObject(r))
}

/// What resolving one input object comes to: the current version of the
/// object, unless the store lacks it, or it belongs to an account that did
/// not sign while signatures are given and checked.
pub open spec fn resolve_one(
    store: StorageView,
    auth: AuthExtension,
    signatures: Option<Seq<Signature>>,
    kind: InputObjectKind,
    gas: bool,
) -> Result<ObjectView, SandboxError> {
    let id = kind.spec_object_id();
    if !store.objects.contains_key(id) {
        if gas {
            Err(SandboxError::GasObjectNotFound(id))
        } else {
            Err(SandboxError::ObjectNotFound(id))
        }
    } else {
        let object = store.objects[id];
        match (signatures, object.owner) {
            (Some(given), Owner::AddressOwner(account)) => match auth.ownership_verdict(
                account,
                given,
            ) {
                Err(e) => Err(e),
                Ok(_) => Ok(object),
            },
            _ => Ok(object),
        }
    }
}

/// What resolving the first `upto` of `kinds` comes to: every object, in
/// order, or the error of the first that fails.
pub open spec fn resolve_all(
    store: StorageView,
    auth: AuthExtension,
    signatures: Option<Seq<Signature>>,
    kinds: Seq<InputObjectKind>,
    gas: bool,
    upto: int,
) -> Result<Seq<(InputObjectKind, ObjectView)>, SandboxError>
    decreases upto,
{
    if upto <= 0 {
        Ok(Seq::empty())
    } else {
        match resolve_all(store, auth, signatures, kinds, gas, upto - 1) {
            Err(e) => Err(e),
            Ok(done) => match resolve_one(store, auth, signatures, kinds[upto - 1], gas) {
                Err(e) => Err(e),
                Ok(object) => Ok(done.push((kinds[upto - 1], object))),
            },
        }
    }
}

/// The checked input objects of a transaction: its gas payment first, then
/// the objects that it reads; or the first error on the way.
pub open spec fn checked_objects(
    store: StorageView,
    auth: AuthExtension,
    signatures: Option<Seq<Signature>>,
    tx: TransactionData,
) -> Result<Seq<(InputObjectKind, ObjectView)>, SandboxError> {
    let gas = gas_kinds(tx.gas_data.payment@);
    match resolve_all(store, auth, signatures, gas, true, gas.len() as int) {
        Err(e) => Err(e),
        Ok(paid) => match tx.input_objects {
            Err(why) => Err(SandboxError::InvalidInputObjects(why)),
            Ok(kinds) => match resolve_all(
                store,
                auth,
                signatures,
                kinds@,
                false,
                kinds@.len() as int,
            ) {
                Err(e) => Err(e),
                Ok(read) => Ok(paid + read),
            },
        },
    }
}

/// The change that a written object stands for, given the store before the
/// transaction: a package is published; an object that the store lacks is
/// created; one that keeps its owner is mutated; one that changes its owner
/// is transferred.
pub open spec fn classify_written(store: StorageView, new: ObjectView, sender: SuiAddress) -> ObjectChangeView {
    match new.struct_tag() {
        None => ObjectChangeView::Published {
            package_id: new.id,
            version: new.version,
            digest: new.digest,
            modules: new.module_names(),
        },
        Some(tag) => if !store.objects.contains_key(new.id) {
            ObjectChangeView::Created {
                sender,
                owner: new.owner,
                object_type: tag,
                object_id: new.id,
                version: new.version,
                digest: new.digest,
            }
        } else if store.objects[new.id].owner == new.owner {
            ObjectChangeView::Mutated {
                sender,
                owner: new.owner,
                object_type: tag,
                object_id: new.id,
                previous_version: store.objects[new.id].version,
                version: new.version,
                digest: new.digest,
            }
        } else {
            ObjectChangeView::Transferred {
                sender,
                recipient: new.owner,
                object_type: tag,
                object_id: new.id,
                version: new.version,
                digest: new.digest,
            }
        },
    }
}

/// The change that a tombstone stands for: the object is wrapped where the
/// effects list it as wrapped, and deleted otherwise. A tombstone of an
/// object that the store lacks, or of a package, stands for no change.
pub open spec fn classify_tombstone(
    store: StorageView,
    effects: TransactionEffects,
    id: ObjectID,
    version: SequenceNumber,
    sender: SuiAddress,
) -> Option<ObjectChangeView> {
    if store.objects.contains_key(id) {
        match store.objects[id].struct_tag() {
            Some(tag) => Some(
                if effects.spec_is_wrapped(id) {
                    ObjectChangeView::Wrapped { sender, object_type: tag, object_id: id, version }
                } else {
                    ObjectChangeView::Deleted { sender, object_type: tag, object_id: id, version }
                },
            ),
            None => None,
        }
    } else {
        None
    }
}

/// The changes of the first `upto` written objects, in order.
pub open spec fn written_changes(
    store: StorageView,
    written: Seq<ObjectView>,
    sender: SuiAddress,
    upto: int,
) -> Seq<ObjectChangeView>
    decreases upto,
{
    if upto <= 0 {
        Seq::empty()
    } else {
        written_changes(store, written, sender, upto - 1).push(
            classify_written(store, written[upto - 1], sender),
        )
    }
}

/// The changes of the first `upto` tombstones, in order.
pub open spec fn tombstone_changes(
    store: StorageView,
    effects: TransactionEffects,
    sender: SuiAddress,
    upto: int,
) -> Seq<ObjectChangeView>
    decreases upto,
{
    if upto <= 0 {
        Seq::empty()
    } else {
        let done = tombstone_changes(store, effects, sender, upto - 1);
        let (id, version) = effects.tombstones@[upto - 1];
        match classify_tombstone(store, effects, id, version, sender) {
            Some(change) => done.push(change),
            None => done,
        }
    }
}

/// The changes of a transaction: those of the written objects, then those
/// of the tombstones.
pub open spec fn object_changes(
    store: StorageView,
    written: Seq<ObjectView>,
    effects: TransactionEffects,
    sender: SuiAddress,
) -> Seq<ObjectChangeView> {
    written_changes(store, written, sender, written.len() as int) + tombstone_changes(
        store,
        effects,
        sender,
        effects.tombstones@.len() as int,
    )
}

/// What one object adds to or takes from the balance of its owner.
pub struct Contribution {
    pub owner: Owner,
    pub coin_type: Seq<char>,
    pub amount: int,
}

/// The balance of a coin whose contents decode; zero otherwise.
pub open spec fn value_or_zero(object: ObjectView) -> int {
    match object.coin_value_maybe() {
        Some(v) => v as int,
        None => 0,
    }
}

/// What a written object adds: its balance, where it is a coin that
/// the store did not hold before, that is, a coin that the transaction
/// created. A coin that was held before and is written again adds nothing.
pub open spec fn written_contribution(store: StorageView, object: ObjectView) -> Option<
    Contribution,
> {
    match object.coin_type_maybe() {
        Some(coin_type) => if store.objects.contains_key(object.id) {
            None
        } else {
            Some(Contribution { owner: object.owner, coin_type, amount: value_or_zero(object) })
        },
        None => None,
    }
}

/// What a tombstone takes: the balance of the current version of the
/// object, where the store has it and its type is named `coin::Coin`.
pub open spec fn tombstone_contribution(store: StorageView, id: ObjectID) -> Option<Contribution> {
    if store.objects.contains_key(id) {
        match store.objects[id].struct_tag() {
            Some(tag) => match tag.coin_type() {
                Some(coin_type) => Some(
                    Contribution {
                        owner: store.objects[id].owner,
                        coin_type,
                        amount: -value_or_zero(store.objects[id]),
                    },
                ),
                None => None,
            },
            None => None,
        }
    } else {
        None
    }
}

/// Whether the entry at `i` is the first for the owner and the currency.
pub open spec fn is_entry_at(
    changes: Seq<BalanceChangeView>,
    owner: Owner,
    coin_type: Seq<char>,
    i: int,
) -> bool {
    &&& 0 <= i < changes.len()
    &&& changes[i].owner == owner
    &&& changes[i].coin_type == coin_type
    &&& forall|j: int|
        0 <= j < i ==> !((#[trigger] changes[j]).owner == owner && changes[j].coin_type
            == coin_type)
}

/// The balance changes after one more contribution: it is added to the
/// entry of its owner and currency, or opens a new entry at the end.
pub open spec fn accumulate(changes: Seq<BalanceChangeView>, c: Contribution) -> Seq<
    BalanceChangeView,
> {
    if exists|i: int| is_entry_at(changes, c.owner, c.coin_type, i) {
        let i = choose|i: int| is_entry_at(changes, c.owner, c.coin_type, i);
        changes.update(
            i,
            BalanceChangeView { amount: (changes[i].amount + c.amount) as i128, ..changes[i] },
        )
    } else {
        changes.push(
            BalanceChangeView { owner: c.owner, coin_type: c.coin_type, amount: c.amount as i128 },
        )
    }
}

/// The balance changes after the first `upto` written objects.
pub open spec fn balances_after_written(
    store: StorageView,
    written: Seq<ObjectView>,
    upto: int,
) -> Seq<BalanceChangeView>
    decreases upto,
{
    if upto <= 0 {
        Seq::empty()
    } else {
        let done = balances_after_written(store, written, upto - 1);
        match written_contribution(store, written[upto - 1]) {
            Some(c) => accumulate(done, c),
            None => done,
        }
    }
}

/// The balance changes after every written object and the first `upto`
/// tombstones.
pub open spec fn balances_after_tombstones(
    store: StorageView,
    written: Seq<ObjectView>,
    tombstones: Seq<(ObjectID, SequenceNumber)>,
    upto: int,
) -> Seq<BalanceChangeView>
    decreases upto,
{
    if upto <= 0 {
        balances_after_written(store, written, written.len() as int)
    } else {
        let done = balances_after_tombstones(store, written, tombstones, upto - 1);
        match tombstone_contribution(store, tombstones[upto - 1].0) {
            Some(c) => accumulate(done, c),
            None => done,
        }
    }
}

/// The balance changes of a transaction: for every owner and currency with
/// a coin created or tombstoned, the sum of what was created less what was
/// tombstoned.
pub open spec fn balance_changes(
    store: StorageView,
    written: Seq<ObjectView>,
    tombstones: Seq<(ObjectID, SequenceNumber)>,
) -> Seq<BalanceChangeView> {
    balances_after_tombstones(store, written, tombstones, tombstones.len() as int)
}

/// The most objects, written and tombstoned together, for which the sums of
/// balances are certain to fit in 128 bits.
pub const MAX_BALANCE_TERMS: u64 = 0x3fff_ffff_ffff_ffff;

/// Every amount is within `terms` times the largest balance.
pub open spec fn amounts_within(changes: Seq<BalanceChangeView>, terms: int) -> bool {
    forall|j: int|
        0 <= j < changes.len() ==> -terms * 0x1_0000_0000_0000_0000 <= (
        #[trigger] changes[j]).amount <= terms * 0x1_0000_0000_0000_0000
}

fn find_entry(changes: &Vec<BalanceChange>, owner: &Owner, coin_type: &String) -> (r: Option<usize>)
    ensures
        match r {
            Some(i) => is_entry_at(seq_view(changes@), *owner, coin_type@, i as int),
            None => !exists|i: int| is_entry_at(seq_view(changes@), *owner, coin_type@, i),
        },
{
    let ghost views = seq_view(changes@);
    let mut i: usize = 0;
    while i < changes.len()
        invariant
            i <= changes@.len(),
            views == seq_view(changes@),
            forall|j: int|
                0 <= j < i ==> !((#[trigger] views[j]).owner == *owner && views[j].coin_type
                    == coin_type@),
        decreases changes@.len() - i,
    {
        if changes[i].owner == *owner && changes[i].coin_type == *coin_type {
            assert(views[i as int] == changes@[i as int]@);
            return Some(i);
        }
        assert(views[i as int] == changes@[i as int]@);
        i += 1;
    }
    proof {
        if exists|k: int| is_entry_at(views, *owner, coin_type@, k) {
            let k = choose|k: int| is_entry_at(views, *owner, coin_type@, k);
            assert(!(views[k].owner == *owner && views[k].coin_type == coin_type@));
        }
    }
    None
}

fn add_contribution(
    changes: &mut Vec<BalanceChange>,
    owner: Owner,
    coin_type: &String,
    amount: i128,
    Ghost(terms): Ghost<int>,
)
    requires
        0 <= terms < MAX_BALANCE_TERMS,
        amounts_within(seq_view(old(changes)@), terms),
        -0x1_0000_0000_0000_0000 <= amount <= 0x1_0000_0000_0000_0000,
    ensures
        seq_view(final(changes)@) == accumulate(
            seq_view(old(changes)@),
            Contribution { owner, coin_type: coin_type@, amount: amount as int },
        ),
        amounts_within(seq_view(final(changes)@), terms + 1),
{
    let ghost before = seq_view(changes@);
    let ghost c = Contribution { owner, coin_type: coin_type@, amount: amount as int };
    assert(terms * 0x1_0000_0000_0000_0000 <= 0x3fff_ffff_ffff_ffff * 0x1_0000_0000_0000_0000)
        by (nonlinear_arith)
        requires
            0 <= terms < 0x3fff_ffff_ffff_ffff,
    ;
    match find_entry(changes, &owner, coin_type) {
        Some(i) => {
            proof {
                let k = choose|k: int| is_entry_at(before, owner, coin_type@, k);
                assert(is_entry_at(before, owner, coin_type@, k));
                assert(k == i) by {
                    if k < i {
                        assert(!(before[k].owner == owner && before[k].coin_type == coin_type@));
                    }
                    if i < k {
                        assert(!(before[i as int].owner == owner && before[i as int].coin_type
                            == coin_type@));
                    }
                }
                assert(before[i as int] == changes@[i as int]@);
            }
            let entry = &mut changes[i];
            entry.amount = entry.amount + amount;
            proof {
                assert(seq_view(changes@) =~= accumulate(before, c));
                assert forall|j: int| 0 <= j < seq_view(changes@).len() implies -(terms + 1)
                    * 0x1_0000_0000_0000_0000 <= (#[trigger] seq_view(changes@)[j]).amount <= (terms
                    + 1) * 0x1_0000_0000_0000_0000 by {
                    assert(-terms * 0x1_0000_0000_0000_0000 <= before[j].amount <= terms
                        * 0x1_0000_0000_0000_0000);
                }
            }
        },
        None => {
            changes.push(BalanceChange { coin_type: coin_type.clone(), amount, owner });
            proof {
                assert(seq_view(changes@) =~= accumulate(before, c));
                assert forall|j: int| 0 <= j < seq_view(changes@).len() implies -(terms + 1)
                    * 0x1_0000_0000_0000_0000 <= (#[trigger] seq_view(changes@)[j]).amount <= (terms
                    + 1) * 0x1_0000_0000_0000_0000 by {
                    if j < before.len() {
                        assert(-terms * 0x1_0000_0000_0000_0000 <= before[j].amount <= terms
                            * 0x1_0000_0000_0000_0000);
                    }
                }
            }
        },
    }
}

/// The balance of a coin whose contents decode; zero otherwise.
fn extract_coin_value(object: &Object) -> (r: u64)
    ensures
        r == value_or_zero(object@),
{
    match object.as_coin_maybe() {
        Some(v) => v,
        None => 0,
    }
}

/// The names of the modules of a package.
fn extract_module_names(object: &Object) -> (r: Vec<String>)
    ensures
        seq_view(r@) == object@.module_names(),
{
    object.module_names()
}

/// What the store can say of a transaction: what it reads, and what it
/// changed.
pub trait Changes {
    /// Whether the store is in a state to be asked.
    spec fn ready(&self) -> bool;

    /// Finds every object that the transaction pays with or reads, and
    /// checks that the accounts that own them signed, where signatures are
    /// given.
    fn get_checked_objects(
        &self,
        tx_data: &TransactionData,
        signatures: Option<&[Signature]>,
        auth_extension: &AuthExtension,
    ) -> Result<CheckedInputObjects, SandboxError>
        requires
            self.ready(),
    ;

    /// The net change of every balance, from the coins that the execution
    /// wrote and those that it tombstoned.
    fn extract_balance_changes(
        &self,
        effects: &TransactionEffects,
        temporary_store: &InnerTemporaryStore,
    ) -> Vec<BalanceChange>
        requires
            self.ready(),
            temporary_store.written().len() + effects.tombstones@.len() < MAX_BALANCE_TERMS,
    ;

    /// The change of every object that the execution wrote or tombstoned.
    fn compute_object_changes(
        &self,
        temporary_store: &InnerTemporaryStore,
        effects: &TransactionEffects,
        sender: SuiAddress,
    ) -> Vec<ObjectChange>
        requires
            self.ready(),
    ;
}

impl StorageExtension {
    fn resolve(
        &self,
        kind: InputObjectKind,
        gas: bool,
        signatures: Option<&[Signature]>,
        auth_extension: &AuthExtension,
    ) -> (r: Result<Object, SandboxError>)
        requires
            self.wf(),
        ensures
            match r {
                Ok(o) => resolve_one(
                    self@,
                    *auth_extension,
                    match signatures {
                        Some(s) => Some(s@),
                        None => None,
                    },
                    kind,
                    gas,
                ) == Ok::<ObjectView, SandboxError>(o@),
                Err(e) => resolve_one(
                    self@,
                    *auth_extension,
                    match signatures {
                        Some(s) => Some(s@),
                        None => None,
                    },
                    kind,
                    gas,
                ) == Err::<ObjectView, SandboxError>(e),
            },
    {
        let id = kind.object_id();
        let object = match self.get_object(&id) {
            Some(object) => object,
            None => {
                if gas {
                    return Err(SandboxError::GasObjectNotFound(id));
                } else {
                    return Err(SandboxError::ObjectNotFound(id));
                }
            },
        };
        match signatures {
            Some(signatures) => {
                match object.owner().get_address_owner_address() {
                    Some(address) => {
                        match auth_extension.verify_object_ownership(address, signatures) {
                            Err(e) => {
                                return Err(e);
                            },
                            Ok(_) => {},
                        }
                    },
                    None => {},
                }
            },
            None => {},
        }
        Ok(object.deep_clone())
    }
}

impl Changes for StorageExtension {
    open spec fn ready(&self) -> bool {
        self.wf()
    }

    fn get_checked_objects(
        &self,
        tx_data: &TransactionData,
        signatures: Option<&[Signature]>,
        auth_extension: &AuthExtension,
    ) -> (r: Result<CheckedInputObjects, SandboxError>)
        ensures
            match r {
                Ok(checked) => checked_objects(
                    self@,
                    *auth_extension,
                    match signatures {
                        Some(s) => Some(s@),
                        None => None,
                    },
                    *tx_data,
                ) == Ok::<Seq<(InputObjectKind, ObjectView)>, SandboxError>(checked@),
                Err(e) => checked_objects(
                    self@,
                    *auth_extension,
                    match signatures {
                        Some(s) => Some(s@),
                        None => None,
                    },
                    *tx_data,
                ) == Err::<Seq<(InputObjectKind, ObjectView)>, SandboxError>(e),
            },
    {
        let ghost given = match signatures {
            Some(s) => Some(s@),
            None => None,
        };
        let ghost gas = gas_kinds(tx_data.gas_data.payment@);
        let mut inputs: Vec<ObjectReadResult> = Vec::new();

        let payment = &tx_data.gas_data().payment;
        let mut i: usize = 0;
        assert(seq_view(inputs@) =~= Seq::<(InputObjectKind, ObjectView)>::empty());
        while i < payment.len()
            invariant
                i <= payment@.len(),
                self.wf(),
                payment@ == tx_data.gas_data.payment@,
                gas == gas_kinds(tx_data.gas_data.payment@),
                given == match signatures {
                    Some(s) => Some(s@),
                    None => None,
                },
                resolve_all(self@, *auth_extension, given, gas, true, i as int) == Ok::<
                    Seq<(InputObjectKind, ObjectView)>,
                    SandboxError,
                >(seq_view(inputs@)),
            decreases payment@.len() - i,
        {
            let kind = InputObjectKind::ImmOrOwnedMoveObject(payment[i]);
            assert(gas[i as int] == kind);
            let ghost before = seq_view(inputs@);
            match self.resolve(kind, true, signatures, auth_extension) {
                Ok(gas_object) => {
                    inputs.push(ObjectReadResult { input_object_kind: kind, object: gas_object });
                    assert(seq_view(inputs@) =~= before.push((kind, gas_object@)));
                },
                Err(e) => {
                    proof {
                        lemma_resolve_error_stays(
                            self@,
                            *auth_extension,
                            given,
                            gas,
                            true,
                            i + 1,
                            gas.len() as int,
                        );
                    }
                    return Err(e);
                },
            }
            i += 1;
        }
        let ghost paid = seq_view(inputs@);
        assert(gas.len() == payment@.len());

        let kinds = match &tx_data.input_objects {
            Ok(kinds) => kinds,
            Err(why) => {
                return Err(SandboxError::InvalidInputObjects(why.clone()));
            },
        };
        let mut k: usize = 0;
        assert(seq_view(inputs@) =~= paid + Seq::<(InputObjectKind, ObjectView)>::empty());
        while k < kinds.len()
            invariant
                k <= kinds@.len(),
                self.wf(),
                given == match signatures {
                    Some(s) => Some(s@),
                    None => None,
                },
                gas == gas_kinds(tx_data.gas_data.payment@),
                tx_data.input_objects == Ok::<Vec<InputObjectKind>, String>(*kinds),
                resolve_all(self@, *auth_extension, given, gas, true, gas.len() as int) == Ok::<
                    Seq<(InputObjectKind, ObjectView)>,
                    SandboxError,
                >(paid),
                exists|read: Seq<(InputObjectKind, ObjectView)>|
                    resolve_all(self@, *auth_extension, given, kinds@, false, k as int) == Ok::<
                        Seq<(InputObjectKind, ObjectView)>,
                        SandboxError,
                    >(read) && seq_view(inputs@) == paid + read,
            decreases kinds@.len() - k,
        {
            let ik = kinds[k];
            let ghost before = seq_view(inputs@);
            let ghost read = choose|read: Seq<(InputObjectKind, ObjectView)>|
                resolve_all(self@, *auth_extension, given, kinds@, false, k as int) == Ok::<
                    Seq<(InputObjectKind, ObjectView)>,
                    SandboxError,
                >(read) && seq_view(inputs@) == paid + read;
            match self.resolve(ik, false, signatures, auth_extension) {
                Ok(object) => {
                    inputs.push(ObjectReadResult { input_object_kind: ik, object });
                    assert(seq_view(inputs@) =~= before.push((ik, object@)));
                    assert(seq_view(inputs@) =~= paid + read.push((ik, object@)));
                },
                Err(e) => {
                    proof {
                        assert(resolve_all(self@, *auth_extension, given, kinds@, false, k + 1)
                            == Err::<Seq<(InputObjectKind, ObjectView)>, SandboxError>(e));
                        lemma_resolve_error_stays(
                            self@,
                            *auth_extension,
                            given,
                            kinds@,
                            false,
                            k + 1,
                            kinds@.len() as int,
                        );
                    }
                    return Err(e);
                },
            }
            k += 1;
        }

        Ok(CheckedInputObjects { inputs })
    }

    fn extract_balance_changes(
        &self,
        effects: &TransactionEffects,
        temporary_store: &InnerTemporaryStore,
    ) -> (r: Vec<BalanceChange>)
        ensures
            seq_view(r@) == balance_changes(
                self@,
                temporary_store.written(),
                effects.tombstones@,
            ),
    {
        let ghost written = temporary_store.written();
        let mut balance_changes: Vec<BalanceChange> = Vec::new();

        let mut i: usize = 0;
        assert(seq_view(balance_changes@) =~= balances_after_written(self@, written, 0));
        while i < temporary_store.len()
            invariant
                i <= temporary_store.written().len(),
                written == temporary_store.written(),
                temporary_store.written().len() + effects.tombstones@.len() < MAX_BALANCE_TERMS,
                self.wf(),
                seq_view(balance_changes@) == balances_after_written(self@, written, i as int),
                amounts_within(seq_view(balance_changes@), i as int),
            decreases temporary_store.written().len() - i,
        {
            let created_obj = temporary_store.object_at(i);
            assert(written[i as int] == created_obj@);
            let ghost kept = seq_view(balance_changes@);
            let mut added = false;
            match created_obj.coin_type_maybe() {
                Some(coin_type) => {
                    if self.get_object(&created_obj.id).is_none() {
                        let value = extract_coin_value(created_obj);
                        add_contribution(
                            &mut balance_changes,
                            created_obj.owner,
                            coin_type,
                            value as i128,
                            Ghost(i as int),
                        );
                        added = true;
                    }
                },
                None => {},
            }
            proof {
                if !added {
                    assert forall|j: int| 0 <= j < kept.len() implies -(i + 1)
                        * 0x1_0000_0000_0000_0000 <= (#[trigger] kept[j]).amount <= (i + 1)
                        * 0x1_0000_0000_0000_0000 by {
                        assert(-i * 0x1_0000_0000_0000_0000 <= kept[j].amount <= i
                            * 0x1_0000_0000_0000_0000);
                    }
                }
            }
            i += 1;
        }

        let ghost base = i as int;
        let mut t: usize = 0;
        while t < effects.tombstones.len()
            invariant
                t <= effects.tombstones@.len(),
                self.wf(),
                written == temporary_store.written(),
                base == temporary_store.written().len(),
                temporary_store.written().len() + effects.tombstones@.len() < MAX_BALANCE_TERMS,
                seq_view(balance_changes@) == balances_after_tombstones(
                    self@,
                    written,
                    effects.tombstones@,
                    t as int,
                ),
                amounts_within(seq_view(balance_changes@), base + t),
            decreases effects.tombstones@.len() - t,
        {
            let deleted_id = effects.tombstones[t].0;
            let ghost kept = seq_view(balance_changes@);
            let mut added = false;
            match self.get_object(&deleted_id) {
                Some(deleted_obj) => {
                    match deleted_obj.struct_tag() {
                        Some(tag) => {
                            match tag.coin_type() {
                                Some(coin_type) => {
                                    let value = extract_coin_value(deleted_obj);
                                    add_contribution(
                                        &mut balance_changes,
                                        deleted_obj.owner,
                                        coin_type,
                                        -(value as i128),
                                        Ghost(base + t),
                                    );
                                    added = true;
                                },
                                None => {},
                            }
                        },
                        None => {},
                    }
                },
                None => {},
            }
            proof {
                if !added {
                    assert forall|j: int| 0 <= j < kept.len() implies -(base + t + 1)
                        * 0x1_0000_0000_0000_0000 <= (#[trigger] kept[j]).amount <= (base + t + 1)
                        * 0x1_0000_0000_0000_0000 by {
                        assert(-(base + t) * 0x1_0000_0000_0000_0000 <= kept[j].amount <= (base
                            + t) * 0x1_0000_0000_0000_0000);
                    }
                }
            }
            t += 1;
        }

        balance_changes
    }

    fn compute_object_changes(
        &self,
        temporary_store: &InnerTemporaryStore,
        effects: &TransactionEffects,
        sender: SuiAddress,
    ) -> (r: Vec<ObjectChange>)
        ensures
            seq_view(r@) == object_changes(
                self@,
                temporary_store.written(),
                *effects,
                sender,
            ),
    {
        let ghost written = temporary_store.written();
        let mut changes: Vec<ObjectChange> = Vec::new();

        let mut i: usize = 0;
        assert(seq_view(changes@) =~= written_changes(self@, written, sender, 0));
        while i < temporary_store.len()
            invariant
                i <= temporary_store.written().len(),
                self.wf(),
                written == temporary_store.written(),
                seq_view(changes@) == written_changes(self@, written, sender, i as int),
            decreases temporary_store.written().len() - i,
        {
            let new_object = temporary_store.object_at(i);
            let id = new_object.id();
            assert(written[i as int] == new_object@);
            let ghost before = seq_view(changes@);
            let change = match new_object.struct_tag() {
                Some(tag) => match self.get_object(&id) {
                    None => ObjectChange::Created {
                        sender,
                        owner: new_object.owner,
                        object_type: tag.deep_clone(),
                        object_id: id,
                        version: new_object.version(),
                        digest: new_object.digest(),
                    },
                    Some(old) => if old.owner == new_object.owner {
                        ObjectChange::Mutated {
                            sender,
                            owner: new_object.owner,
                            object_type: tag.deep_clone(),
                            object_id: id,
                            previous_version: old.version(),
                            version: new_object.version(),
                            digest: new_object.digest(),
                        }
                    } else {
                        ObjectChange::Transferred {
                            sender,
                            recipient: new_object.owner,
                            object_type: tag.deep_clone(),
                            object_id: id,
                            version: new_object.version(),
                            digest: new_object.digest(),
                        }
                    },
                },
                None => ObjectChange::Published {
                    package_id: new_object.id(),
                    version: new_object.version(),
                    digest: new_object.digest(),
                    modules: extract_module_names(new_object),
                },
            };
            assert(change@ == classify_written(self@, new_object@, sender));
            changes.push(change);
            assert(seq_view(changes@) =~= before.push(change@));
            i += 1;
        }

        let ghost first = seq_view(changes@);
        let mut t: usize = 0;
        assert(seq_view(changes@) =~= first + tombstone_changes(self@, *effects, sender, 0));
        while t < effects.tombstones.len()
            invariant
                t <= effects.tombstones@.len(),
                self.wf(),
                seq_view(changes@) == first + tombstone_changes(self@, *effects, sender, t as int),
            decreases effects.tombstones@.len() - t,
        {
            let id = effects.tombstones[t].0;
            let version = effects.tombstones[t].1;
            let ghost before = seq_view(changes@);
            match self.get_object(&id) {
                Some(object) => {
                    match object.struct_tag() {
                        Some(tag) => {
                            let change = if effects.is_wrapped(id) {
                                ObjectChange::Wrapped {
                                    sender,
                                    object_type: tag.deep_clone(),
                                    object_id: id,
                                    version,
                                }
                            } else {
                                ObjectChange::Deleted {
                                    sender,
                                    object_type: tag.deep_clone(),
                                    object_id: id,
                                    version,
                                }
                            };
                            changes.push(change);
                            assert(seq_view(changes@) =~= before.push(change@));
                        },
                        None => {},
                    }
                },
                None => {},
            }
            assert(seq_view(changes@) =~= first + tombstone_changes(
                self@,
                *effects,
                sender,
                t + 1,
            ));
            t += 1;
        }

        changes
    }
}

/// Once resolving a prefix fails, resolving any longer prefix fails with
/// the same error.
pub proof fn lemma_resolve_error_stays(
    store: StorageView,
    auth: AuthExtension,
    signatures: Option<Seq<Signature>>,
    kinds: Seq<InputObjectKind>,
    gas: bool,
    failed: int,
    upto: int,
)
    requires
        resolve_all(store, auth, signatures, kinds, gas, failed) is Err,
        failed <= upto,
    ensures
        resolve_all(store, auth, signatures, kinds, gas, upto) == resolve_all(
            store,
            auth,
            signatures,
            kinds,
            gas,
            failed,
        ),
    decreases upto - failed,
{
    if failed < upto {
        lemma_resolve_error_stays(store, auth, signatures, kinds, gas, failed, upto - 1);
    }
}

} // verus!

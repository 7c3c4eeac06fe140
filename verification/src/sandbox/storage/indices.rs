//! The secondary index over transactions: for each predicate of a query, a
//! map from the value asked for to the digests of the transactions that
//! match it.

use crate::base_types::{ObjectID, Owner, SuiAddress, TransactionDigest};
use crate::collections::{lemma_push_to_set, seq_view, DeepClone, Key, KeySet, VecMap};
use crate::rpc_types::{ObjectChange, ObjectChangeView, TransactionFilter};
use crate::transaction::{
    CallArg, Command, ProgrammableTransaction, TransactionData, TransactionKind,
};
use vstd::prelude::*;

verus! {

/// The function that a Move call names.
pub struct MoveCallSignature {
    pub package: ObjectID,
    pub module: String,
    pub function: String,
}

pub struct MoveCallSignatureView {
    pub package: ObjectID,
    pub module: Seq<char>,
    pub function: Seq<char>,
}

impl View for MoveCallSignature {
    type V = MoveCallSignatureView;

    open spec fn view(&self) -> MoveCallSignatureView {
        MoveCallSignatureView {
            package: self.package,
            module: self.module@,
            function: self.function@,
        }
    }
}

impl DeepClone for MoveCallSignature {
    open spec fn valid(&self) -> bool {
        true
    }

    fn deep_clone(&self) -> (r: Self) {
        let r = MoveCallSignature {
            package: self.package,
            module: self.module.clone(),
            function: self.function.clone(),
        };
        assert(r.valid());
        r
    }
}

impl Key for MoveCallSignature {
    fn key_eq(&self, other: &Self) -> (r: bool) {
        self.package == other.package && self.module == other.module && self.function
            == other.function
    }

    proof fn lemma_key_valid(&self) {
    }

    open spec fn spec_code(v: MoveCallSignatureView) -> u64 {
        <(ObjectID, String)>::spec_code((v.package, v.function))
    }

    fn code(&self) -> (h: u64) {
        let a: u64 = self.package.code() % 0x1_0000_0000;
        let b: u64 = self.function.code() % 0x1_0000_0000;
        a * 31 + b
    }
}

/// A set of transaction digests.
pub type DigestSet = KeySet<TransactionDigest>;

/// One index: the digests recorded under each key.
pub type DigestIndex<K> = VecMap<K, DigestSet>;

/// What is recorded of a transaction for the sake of queries.
pub struct TransactionMetadata {
    pub digest: TransactionDigest,
    pub sender: SuiAddress,
    pub recipients: KeySet<SuiAddress>,
    pub input_objects: KeySet<ObjectID>,
    pub created_objects: KeySet<ObjectID>,
    pub mutated_objects: KeySet<ObjectID>,
    pub deleted_objects: KeySet<ObjectID>,
    pub wrapped_objects: KeySet<ObjectID>,
    pub move_calls: Vec<MoveCallSignature>,
    pub transaction_kind: String,
}

pub struct MetadataView {
    pub digest: TransactionDigest,
    pub sender: SuiAddress,
    pub recipients: Set<SuiAddress>,
    pub input_objects: Set<ObjectID>,
    pub created_objects: Set<ObjectID>,
    pub mutated_objects: Set<ObjectID>,
    pub deleted_objects: Set<ObjectID>,
    pub wrapped_objects: Set<ObjectID>,
    pub move_calls: Set<MoveCallSignatureView>,
    pub transaction_kind: Seq<char>,
}

impl View for TransactionMetadata {
    type V = MetadataView;

    open spec fn view(&self) -> MetadataView {
        MetadataView {
            digest: self.digest,
            sender: self.sender,
            recipients: self.recipients@,
            input_objects: self.input_objects@,
            created_objects: self.created_objects@,
            mutated_objects: self.mutated_objects@,
            deleted_objects: self.deleted_objects@,
            wrapped_objects: self.wrapped_objects@,
            move_calls: seq_view(self.move_calls@).to_set(),
            transaction_kind: self.transaction_kind@,
        }
    }
}

impl TransactionMetadata {
    pub open spec fn wf(&self) -> bool {
        &&& self.recipients.wf()
        &&& self.input_objects.wf()
        &&& self.created_objects.wf()
        &&& self.mutated_objects.wf()
        &&& self.deleted_objects.wf()
        &&& self.wrapped_objects.wf()
    }
}

/// The way in which a change counts for the index. A transfer counts as a
/// mutation; a publication is not indexed.
pub enum ChangeClass {
    Created,
    Mutated,
    Deleted,
    Wrapped,
}

pub open spec fn change_class(c: ObjectChangeView) -> Option<ChangeClass> {
    match c {
        ObjectChangeView::Created { .. } => Some(ChangeClass::Created),
        ObjectChangeView::Mutated { .. } => Some(ChangeClass::Mutated),
        ObjectChangeView::Transferred { .. } => Some(ChangeClass::Mutated),
        ObjectChangeView::Deleted { .. } => Some(ChangeClass::Deleted),
        ObjectChangeView::Wrapped { .. } => Some(ChangeClass::Wrapped),
        ObjectChangeView::Published { .. } => None,
    }
}

/// The account that a change gives an object to: the owner of a created
/// object, the recipient of a transferred one, where that is an account.
pub open spec fn change_recipient(c: ObjectChangeView) -> Option<SuiAddress> {
    match c {
        ObjectChangeView::Created { owner: Owner::AddressOwner(a), .. } => Some(a),
        ObjectChangeView::Transferred { recipient: Owner::AddressOwner(a), .. } => Some(a),
        _ => None,
    }
}

/// The objects with a change of the given class among the first `upto` changes.
pub open spec fn changed_ids(changes: Seq<ObjectChangeView>, class: ChangeClass, upto: int) -> Set<
    ObjectID,
> {
    Set::new(
        |id: ObjectID|
            exists|i: int|
                0 <= i < upto && i < changes.len() && change_class(#[trigger] changes[i]) == Some(
                    class,
                ) && changes[i].object_id() == id,
    )
}

/// The accounts that the first `upto` changes give an object to.
pub open spec fn recipients_of(changes: Seq<ObjectChangeView>, upto: int) -> Set<SuiAddress> {
    Set::new(
        |a: SuiAddress|
            exists|i: int|
                0 <= i < upto && i < changes.len() && change_recipient(#[trigger] changes[i])
                    == Some(a),
    )
}

/// The object that an input names, where it names one.
pub open spec fn input_id(input: CallArg) -> Option<ObjectID> {
    match input {
        CallArg::Object(arg) => Some(arg.spec_id()),
        CallArg::Pure(_) => None,
    }
}

/// The objects among the first `upto` inputs of a programmable transaction.
pub open spec fn input_ids(inputs: Seq<CallArg>, upto: int) -> Set<ObjectID> {
    Set::new(
        |id: ObjectID|
            exists|i: int|
                0 <= i < upto && i < inputs.len() && input_id(#[trigger] inputs[i]) == Some(id),
    )
}

/// The signature of each Move call among the commands, in order.
pub open spec fn call_signatures(commands: Seq<Command>) -> Seq<MoveCallSignatureView>
    decreases commands.len(),
{
    if commands.len() == 0 {
        Seq::empty()
    } else {
        let rest = call_signatures(commands.drop_last());
        match commands.last() {
            Command::MoveCall(c) => rest.push(
                MoveCallSignatureView { package: c.package, module: c.module@, function: c.function@ },
            ),
            Command::Other(_) => rest,
        }
    }
}

/// The objects that a transaction names as inputs. Only a programmable
/// transaction names any.
pub open spec fn input_objects_of(kind: TransactionKind) -> Set<ObjectID> {
    match kind {
        TransactionKind::ProgrammableTransaction(pt) => input_ids(pt.inputs@, pt.inputs@.len() as int),
        TransactionKind::System(_) => Set::empty(),
    }
}

/// The Move calls that a transaction makes.
pub open spec fn move_calls_of(kind: TransactionKind) -> Seq<MoveCallSignatureView> {
    match kind {
        TransactionKind::ProgrammableTransaction(pt) => call_signatures(pt.commands@),
        TransactionKind::System(_) => Seq::empty(),
    }
}

/// What the index records of a transaction with the given changes.
pub open spec fn metadata_of(tx: TransactionData, changes: Seq<ObjectChangeView>) -> MetadataView {
    let n = changes.len() as int;
    MetadataView {
        digest: tx.digest,
        sender: tx.sender,
        recipients: recipients_of(changes, n),
        input_objects: input_objects_of(tx.kind),
        created_objects: changed_ids(changes, ChangeClass::Created, n),
        mutated_objects: changed_ids(changes, ChangeClass::Mutated, n),
        deleted_objects: changed_ids(changes, ChangeClass::Deleted, n),
        wrapped_objects: changed_ids(changes, ChangeClass::Wrapped, n),
        move_calls: move_calls_of(tx.kind).to_set(),
        transaction_kind: tx.kind_label@,
    }
}

/// The digests recorded under `k`; none where the key is absent.
pub open spec fn lookup<K>(m: Map<K, Set<TransactionDigest>>, k: K) -> Set<TransactionDigest> {
    if m.contains_key(k) {
        m[k]
    } else {
        Set::empty()
    }
}

/// The index after `d` was recorded under every key of `keys`.
pub open spec fn add_all<K>(
    m: Map<K, Set<TransactionDigest>>,
    keys: Set<K>,
    d: TransactionDigest,
) -> Map<K, Set<TransactionDigest>> {
    Map::new(
        |k: K| m.contains_key(k) || keys.contains(k),
        |k: K|
            if keys.contains(k) {
                lookup(m, k).insert(d)
            } else {
                m[k]
            },
    )
}

pub proof fn lemma_add_all_none<K>(m: Map<K, Set<TransactionDigest>>, d: TransactionDigest)
    ensures
        add_all(m, Set::<K>::empty(), d) == m,
{
    assert(add_all(m, Set::<K>::empty(), d) =~= m);
}

pub proof fn lemma_add_all_step<K>(
    m: Map<K, Set<TransactionDigest>>,
    keys: Set<K>,
    k: K,
    d: TransactionDigest,
)
    ensures
        add_all(add_all(m, keys, d), set![k], d) == add_all(m, keys.insert(k), d),
{
    let a = add_all(add_all(m, keys, d), set![k], d);
    let b = add_all(m, keys.insert(k), d);
    assert forall|x: K| a.contains_key(x) implies #[trigger] a[x] == b[x] by {
        if x == k {
            assert(lookup(add_all(m, keys, d), k).insert(d) =~= lookup(m, k).insert(d));
        }
    }
    assert(a =~= b);
}

/// Looking up a key after `add_all`: the digest joined exactly the sets of
/// the keys that were named.
pub proof fn lemma_lookup_add_all<K>(
    m: Map<K, Set<TransactionDigest>>,
    keys: Set<K>,
    d: TransactionDigest,
    k: K,
)
    ensures
        lookup(add_all(m, keys, d), k) == if keys.contains(k) {
            lookup(m, k).insert(d)
        } else {
            lookup(m, k)
        },
{
}

/// The view of the index: one map for each predicate.
pub struct IndicesView {
    pub by_sender: Map<SuiAddress, Set<TransactionDigest>>,
    pub by_recipient: Map<SuiAddress, Set<TransactionDigest>>,
    pub by_sender_and_recipient: Map<(SuiAddress, SuiAddress), Set<TransactionDigest>>,
    pub by_input_object: Map<ObjectID, Set<TransactionDigest>>,
    pub by_created_object: Map<ObjectID, Set<TransactionDigest>>,
    pub by_mutated_object: Map<ObjectID, Set<TransactionDigest>>,
    pub by_deleted_object: Map<ObjectID, Set<TransactionDigest>>,
    pub by_wrapped_object: Map<ObjectID, Set<TransactionDigest>>,
    pub by_move_call: Map<MoveCallSignatureView, Set<TransactionDigest>>,
    pub by_package: Map<ObjectID, Set<TransactionDigest>>,
    pub by_module: Map<(ObjectID, Seq<char>), Set<TransactionDigest>>,
    pub by_transaction_kind: Map<Seq<char>, Set<TransactionDigest>>,
}

/// The pairs of `sender` with each of `recipients`.
pub open spec fn sender_pairs(sender: SuiAddress, recipients: Set<SuiAddress>) -> Set<
    (SuiAddress, SuiAddress),
> {
    Set::new(|p: (SuiAddress, SuiAddress)| p.0 == sender && recipients.contains(p.1))
}

/// The packages that the calls go into.
pub open spec fn call_packages(calls: Set<MoveCallSignatureView>) -> Set<ObjectID> {
    Set::new(
        |p: ObjectID|
            exists|c: MoveCallSignatureView| #[trigger] calls.contains(c) && c.package == p,
    )
}

/// The modules that the calls go into, each with its package.
pub open spec fn call_modules(calls: Set<MoveCallSignatureView>) -> Set<(ObjectID, Seq<char>)> {
    Set::new(
        |p: (ObjectID, Seq<char>)|
            exists|c: MoveCallSignatureView|
                #[trigger] calls.contains(c) && c.package == p.0 && c.module == p.1,
    )
}

impl IndicesView {
    pub open spec fn empty() -> IndicesView {
        IndicesView {
            by_sender: Map::empty(),
            by_recipient: Map::empty(),
            by_sender_and_recipient: Map::empty(),
            by_input_object: Map::empty(),
            by_created_object: Map::empty(),
            by_mutated_object: Map::empty(),
            by_deleted_object: Map::empty(),
            by_wrapped_object: Map::empty(),
            by_move_call: Map::empty(),
            by_package: Map::empty(),
            by_module: Map::empty(),
            by_transaction_kind: Map::empty(),
        }
    }

    /// The index after the transaction that `m` describes was recorded.
    pub open spec fn index(self, m: MetadataView) -> IndicesView {
        let d = m.digest;
        IndicesView {
            by_sender: add_all(self.by_sender, set![m.sender], d),
            by_recipient: add_all(self.by_recipient, m.recipients, d),
            by_sender_and_recipient: add_all(
                self.by_sender_and_recipient,
                sender_pairs(m.sender, m.recipients),
                d,
            ),
            by_input_object: add_all(self.by_input_object, m.input_objects, d),
            by_created_object: add_all(self.by_created_object, m.created_objects, d),
            by_mutated_object: add_all(self.by_mutated_object, m.mutated_objects, d),
            by_deleted_object: add_all(self.by_deleted_object, m.deleted_objects, d),
            by_wrapped_object: add_all(self.by_wrapped_object, m.wrapped_objects, d),
            by_move_call: add_all(self.by_move_call, m.move_calls, d),
            by_package: add_all(self.by_package, call_packages(m.move_calls), d),
            by_module: add_all(self.by_module, call_modules(m.move_calls), d),
            by_transaction_kind: add_all(self.by_transaction_kind, set![m.transaction_kind], d),
        }
    }

    /// The digests recorded under any of the first `upto` kinds.
    pub open spec fn of_kinds(self, kinds: Seq<String>, upto: int) -> Set<TransactionDigest> {
        Set::new(
            |d: TransactionDigest|
                exists|i: int|
                    0 <= i < upto && i < kinds.len() && lookup(
                        self.by_transaction_kind,
                        (#[trigger] kinds[i])@,
                    ).contains(d),
        )
    }

    /// The digests of the transactions that created, mutated or wrapped the object.
    pub open spec fn changed(self, id: ObjectID) -> Set<TransactionDigest> {
        lookup(self.by_created_object, id).union(lookup(self.by_mutated_object, id)).union(
            lookup(self.by_wrapped_object, id),
        )
    }

    /// The digests of the transactions that read or changed the object.
    pub open spec fn affected(self, id: ObjectID) -> Set<TransactionDigest> {
        lookup(self.by_input_object, id).union(lookup(self.by_created_object, id)).union(
            lookup(self.by_mutated_object, id),
        ).union(lookup(self.by_deleted_object, id)).union(lookup(self.by_wrapped_object, id))
    }

    /// The digests of the transactions that call into the package, its
    /// module, or the function of the module, as far as each is named.
    pub open spec fn of_move_function(
        self,
        package: ObjectID,
        module: Option<String>,
        function: Option<String>,
    ) -> Set<TransactionDigest> {
        match (module, function) {
            (Some(m), Some(f)) => lookup(
                self.by_move_call,
                MoveCallSignatureView { package, module: m@, function: f@ },
            ),
            (Some(m), None) => lookup(self.by_module, (package, m@)),
            (None, _) => lookup(self.by_package, package),
        }
    }

    /// The digests that a query with `filter` returns.
    pub open spec fn query(self, filter: TransactionFilter) -> Set<TransactionDigest> {
        match filter {
            TransactionFilter::Checkpoint(_) => Set::empty(),
            TransactionFilter::MoveFunction { package, module, function } => self.of_move_function(
                package,
                module,
                function,
            ),
            TransactionFilter::InputObject(id) => lookup(self.by_input_object, id),
            TransactionFilter::ChangedObject(id) => self.changed(id),
            TransactionFilter::AffectedObject(id) => self.affected(id),
            TransactionFilter::FromAddress(a) => lookup(self.by_sender, a),
            TransactionFilter::ToAddress(a) => lookup(self.by_recipient, a),
            TransactionFilter::FromAndToAddress { from, to } => lookup(
                self.by_sender_and_recipient,
                (from, to),
            ),
            TransactionFilter::FromOrToAddress { addr } => lookup(self.by_sender, addr).union(
                lookup(self.by_recipient, addr),
            ),
            TransactionFilter::TransactionKind(kind) => lookup(self.by_transaction_kind, kind@),
            TransactionFilter::TransactionKindIn(kinds) => self.of_kinds(
                kinds@,
                kinds@.len() as int,
            ),
        }
    }
}

impl MetadataView {
    /// Whether a transaction with this metadata is one that `filter` asks for.
    pub open spec fn matches(self, filter: TransactionFilter) -> bool {
        match filter {
            TransactionFilter::Checkpoint(_) => false,
            TransactionFilter::MoveFunction { package, module, function } => match (
                module,
                function,
            ) {
                (Some(m), Some(f)) => self.move_calls.contains(
                    MoveCallSignatureView { package, module: m@, function: f@ },
                ),
                (Some(m), None) => call_modules(self.move_calls).contains((package, m@)),
                (None, _) => call_packages(self.move_calls).contains(package),
            },
            TransactionFilter::InputObject(id) => self.input_objects.contains(id),
            TransactionFilter::ChangedObject(id) => self.created_objects.contains(id)
                || self.mutated_objects.contains(id) || self.wrapped_objects.contains(id),
            TransactionFilter::AffectedObject(id) => self.input_objects.contains(id)
                || self.created_objects.contains(id) || self.mutated_objects.contains(id)
                || self.deleted_objects.contains(id) || self.wrapped_objects.contains(id),
            TransactionFilter::FromAddress(a) => self.sender == a,
            TransactionFilter::ToAddress(a) => self.recipients.contains(a),
            TransactionFilter::FromAndToAddress { from, to } => self.sender == from
                && self.recipients.contains(to),
            TransactionFilter::FromOrToAddress { addr } => self.sender == addr
                || self.recipients.contains(addr),
            TransactionFilter::TransactionKind(kind) => self.transaction_kind == kind@,
            TransactionFilter::TransactionKindIn(kinds) => exists|i: int|
                0 <= i < kinds@.len() && (#[trigger] kinds@[i])@ == self.transaction_kind,
        }
    }
}

/// Recording a transaction adds its digest to the answer of exactly the
/// queries that the transaction matches, and changes no other answer.
pub proof fn lemma_index_is_exact(indices: IndicesView, m: MetadataView, filter: TransactionFilter)
    ensures
        indices.index(m).query(filter) == if m.matches(filter) {
            indices.query(filter).insert(m.digest)
        } else {
            indices.query(filter)
        },
{
    let after = indices.index(m);
    let d = m.digest;
    match filter {
        TransactionFilter::TransactionKindIn(kinds) => {
            let n = kinds@.len() as int;
            assert forall|x: TransactionDigest|
                after.query(filter).contains(x) <==> (indices.query(filter).contains(x) || (x == d
                    && m.matches(filter))) by {
                if after.of_kinds(kinds@, n).contains(x) {
                    let i = choose|i: int|
                        0 <= i < n && i < kinds@.len() && lookup(
                            after.by_transaction_kind,
                            (#[trigger] kinds@[i])@,
                        ).contains(x);
                    lemma_lookup_add_all(
                        indices.by_transaction_kind,
                        set![m.transaction_kind],
                        d,
                        kinds@[i]@,
                    );
                    if !lookup(indices.by_transaction_kind, kinds@[i]@).contains(x) {
                        assert(kinds@[i]@ == m.transaction_kind);
                    }
                }
                if indices.of_kinds(kinds@, n).contains(x) {
                    let i = choose|i: int|
                        0 <= i < n && i < kinds@.len() && lookup(
                            indices.by_transaction_kind,
                            (#[trigger] kinds@[i])@,
                        ).contains(x);
                    assert(lookup(after.by_transaction_kind, kinds@[i]@).contains(x));
                }
                if x == d && m.matches(filter) {
                    let i = choose|i: int|
                        0 <= i < kinds@.len() && (#[trigger] kinds@[i])@ == m.transaction_kind;
                    assert(lookup(after.by_transaction_kind, kinds@[i]@).contains(x));
                }
            }
            if m.matches(filter) {
                assert(after.query(filter) =~= indices.query(filter).insert(d));
            } else {
                assert(after.query(filter) =~= indices.query(filter));
            }
        },
        TransactionFilter::ChangedObject(id) => {
            if m.matches(filter) {
                assert(after.query(filter) =~= indices.query(filter).insert(d));
            } else {
                assert(after.query(filter) =~= indices.query(filter));
            }
        },
        TransactionFilter::AffectedObject(id) => {
            if m.matches(filter) {
                assert(after.query(filter) =~= indices.query(filter).insert(d));
            } else {
                assert(after.query(filter) =~= indices.query(filter));
            }
        },
        TransactionFilter::FromOrToAddress { addr } => {
            if m.matches(filter) {
                assert(after.query(filter) =~= indices.query(filter).insert(d));
            } else {
                assert(after.query(filter) =~= indices.query(filter));
            }
        },
        TransactionFilter::FromAndToAddress { from, to } => {
            assert(sender_pairs(m.sender, m.recipients).contains((from, to)) == m.matches(filter));
        },
        _ => {},
    }
}


pub proof fn lemma_changed_ids_step(changes: Seq<ObjectChangeView>, class: ChangeClass, i: int)
    requires
        0 <= i < changes.len(),
    ensures
        changed_ids(changes, class, i + 1) == if change_class(changes[i]) == Some(class) {
            changed_ids(changes, class, i).insert(changes[i].object_id())
        } else {
            changed_ids(changes, class, i)
        },
        changed_ids(changes, class, 0) == Set::<ObjectID>::empty(),
{
    let next = changed_ids(changes, class, i + 1);
    let now = changed_ids(changes, class, i);
    if change_class(changes[i]) == Some(class) {
        assert(next =~= now.insert(changes[i].object_id()));
    } else {
        assert(next =~= now);
    }
    assert(changed_ids(changes, class, 0) =~= Set::<ObjectID>::empty());
}

pub proof fn lemma_recipients_step(changes: Seq<ObjectChangeView>, i: int)
    requires
        0 <= i < changes.len(),
    ensures
        recipients_of(changes, i + 1) == match change_recipient(changes[i]) {
            Some(a) => recipients_of(changes, i).insert(a),
            None => recipients_of(changes, i),
        },
        recipients_of(changes, 0) == Set::<SuiAddress>::empty(),
{
    let next = recipients_of(changes, i + 1);
    let now = recipients_of(changes, i);
    match change_recipient(changes[i]) {
        Some(a) => {
            assert(next =~= now.insert(a));
        },
        None => {
            assert(next =~= now);
        },
    }
    assert(recipients_of(changes, 0) =~= Set::<SuiAddress>::empty());
}

pub proof fn lemma_input_ids_step(inputs: Seq<CallArg>, i: int)
    requires
        0 <= i < inputs.len(),
    ensures
        input_ids(inputs, i + 1) == match input_id(inputs[i]) {
            Some(id) => input_ids(inputs, i).insert(id),
            None => input_ids(inputs, i),
        },
        input_ids(inputs, 0) == Set::<ObjectID>::empty(),
{
    let next = input_ids(inputs, i + 1);
    let now = input_ids(inputs, i);
    match input_id(inputs[i]) {
        Some(id) => {
            assert(next =~= now.insert(id));
        },
        None => {
            assert(next =~= now);
        },
    }
    assert(input_ids(inputs, 0) =~= Set::<ObjectID>::empty());
}

pub proof fn lemma_sender_pairs_step(sender: SuiAddress, recipients: Set<SuiAddress>, r: SuiAddress)
    ensures
        sender_pairs(sender, recipients.insert(r)) == sender_pairs(sender, recipients).insert(
            (sender, r),
        ),
        sender_pairs(sender, Set::<SuiAddress>::empty()) == Set::<(SuiAddress, SuiAddress)>::empty(),
{
    assert(sender_pairs(sender, recipients.insert(r)) =~= sender_pairs(sender, recipients).insert(
        (sender, r),
    ));
    assert(sender_pairs(sender, Set::<SuiAddress>::empty()) =~= Set::<
        (SuiAddress, SuiAddress),
    >::empty());
}

pub proof fn lemma_call_sets_step(calls: Set<MoveCallSignatureView>, c: MoveCallSignatureView)
    ensures
        call_packages(calls.insert(c)) == call_packages(calls).insert(c.package),
        call_modules(calls.insert(c)) == call_modules(calls).insert((c.package, c.module)),
        call_packages(Set::<MoveCallSignatureView>::empty()) == Set::<ObjectID>::empty(),
        call_modules(Set::<MoveCallSignatureView>::empty()) == Set::<(ObjectID, Seq<char>)>::empty(),
{
    assert forall|p: ObjectID|
        call_packages(calls.insert(c)).contains(p) <==> call_packages(calls).insert(
            c.package,
        ).contains(p) by {
        if call_packages(calls.insert(c)).contains(p) {
            let w = choose|w: MoveCallSignatureView|
                #[trigger] calls.insert(c).contains(w) && w.package == p;
            if w != c {
                assert(calls.contains(w));
            }
        }
        if call_packages(calls).contains(p) {
            let w = choose|w: MoveCallSignatureView| #[trigger] calls.contains(w) && w.package == p;
            assert(calls.insert(c).contains(w));
        }
        assert(calls.insert(c).contains(c));
    }
    assert(call_packages(calls.insert(c)) =~= call_packages(calls).insert(c.package));
    assert forall|p: (ObjectID, Seq<char>)|
        call_modules(calls.insert(c)).contains(p) <==> call_modules(calls).insert(
            (c.package, c.module),
        ).contains(p) by {
        if call_modules(calls.insert(c)).contains(p) {
            let w = choose|w: MoveCallSignatureView|
                #[trigger] calls.insert(c).contains(w) && w.package == p.0 && w.module == p.1;
            if w != c {
                assert(calls.contains(w));
            }
        }
        if call_modules(calls).contains(p) {
            let w = choose|w: MoveCallSignatureView|
                #[trigger] calls.contains(w) && w.package == p.0 && w.module == p.1;
            assert(calls.insert(c).contains(w));
        }
        assert(calls.insert(c).contains(c));
    }
    assert(call_modules(calls.insert(c)) =~= call_modules(calls).insert((c.package, c.module)));
    assert(call_packages(Set::<MoveCallSignatureView>::empty()) =~= Set::<ObjectID>::empty());
    assert(call_modules(Set::<MoveCallSignatureView>::empty()) =~= Set::<
        (ObjectID, Seq<char>),
    >::empty());
}

/// Records `digest` under `key`.
fn add_digest<K: Key>(index: &mut DigestIndex<K>, key: K, digest: TransactionDigest)
    requires
        old(index).wf(),
    ensures
        final(index).wf(),
        final(index)@ == add_all(old(index)@, set![key@], digest),
{
    match index.get_mut(&key) {
        Some(set) => {
            set.insert(digest);
        },
        None => {
            let mut set: DigestSet = KeySet::new();
            set.insert(digest);
            index.insert(key, set);
        },
    }
    assert(index@ =~= add_all(old(index)@, set![key@], digest));
}

/// Records `digest` under every key of `keys`.
fn add_each<K: Key>(index: &mut DigestIndex<K>, keys: &KeySet<K>, digest: TransactionDigest)
    requires
        old(index).wf(),
    ensures
        final(index).wf(),
        final(index)@ == add_all(old(index)@, keys@, digest),
{
    let mut i: usize = 0;
    proof {
        lemma_add_all_none(old(index)@, digest);
        assert(keys.seq().take(0).to_set() =~= Set::<K::V>::empty());
    }
    while i < keys.len()
        invariant
            i <= keys.seq().len(),
            index.wf(),
            index@ == add_all(old(index)@, keys.seq().take(i as int).to_set(), digest),
        decreases keys.seq().len() - i,
    {
        let key = keys.get(i).deep_clone();
        proof {
            let a = keys.seq().take(i as int);
            assert(keys.seq().take(i + 1) =~= a.push(keys.seq()[i as int]));
            lemma_push_to_set(a, keys.seq()[i as int]);
            lemma_add_all_step(old(index)@, a.to_set(), key@, digest);
        }
        add_digest(index, key, digest);
        i += 1;
    }
    proof {
        assert(keys.seq().take(i as int) =~= keys.seq());
        keys.lemma_view_is_seq_set();
    }
}

/// The digests recorded under `key`.
fn digests_of<K: Key>(index: &DigestIndex<K>, key: &K) -> (r: DigestSet)
    requires
        index.wf(),
    ensures
        r.wf(),
        r@ == lookup(index@, key@),
{
    match index.get(key) {
        Some(set) => set.deep_clone(),
        None => KeySet::new(),
    }
}

impl IndicesView {
    /// Whether some index holds the digest.
    pub open spec fn mentions(self, d: TransactionDigest) -> bool {
        ||| exists|k: SuiAddress| (#[trigger] lookup(self.by_sender, k)).contains(d)
        ||| exists|k: SuiAddress| (#[trigger] lookup(self.by_recipient, k)).contains(d)
        ||| exists|k: (SuiAddress, SuiAddress)| (#[trigger] lookup(self.by_sender_and_recipient, k)).contains(d)
        ||| exists|k: ObjectID| (#[trigger] lookup(self.by_input_object, k)).contains(d)
        ||| exists|k: ObjectID| (#[trigger] lookup(self.by_created_object, k)).contains(d)
        ||| exists|k: ObjectID| (#[trigger] lookup(self.by_mutated_object, k)).contains(d)
        ||| exists|k: ObjectID| (#[trigger] lookup(self.by_deleted_object, k)).contains(d)
        ||| exists|k: ObjectID| (#[trigger] lookup(self.by_wrapped_object, k)).contains(d)
        ||| exists|k: MoveCallSignatureView| (#[trigger] lookup(self.by_move_call, k)).contains(d)
        ||| exists|k: ObjectID| (#[trigger] lookup(self.by_package, k)).contains(d)
        ||| exists|k: (ObjectID, Seq<char>)| (#[trigger] lookup(self.by_module, k)).contains(d)
        ||| exists|k: Seq<char>| (#[trigger] lookup(self.by_transaction_kind, k)).contains(d)
    }
}

/// Recording a transaction brings no digest into the index but its own.
pub proof fn lemma_index_mentions(indices: IndicesView, m: MetadataView, d: TransactionDigest)
    requires
        indices.index(m).mentions(d),
    ensures
        indices.mentions(d) || d == m.digest,
{
    let after = indices.index(m);
    if exists|k: SuiAddress| (#[trigger] lookup(after.by_sender, k)).contains(d) {
        let k = choose|k: SuiAddress| (#[trigger] lookup(after.by_sender, k)).contains(d);
        lemma_lookup_add_all(indices.by_sender, set![m.sender], m.digest, k);
        if d != m.digest {
            assert(lookup(indices.by_sender, k).contains(d));
        }
    } else if exists|k: SuiAddress| (#[trigger] lookup(after.by_recipient, k)).contains(d) {
        let k = choose|k: SuiAddress| (#[trigger] lookup(after.by_recipient, k)).contains(d);
        lemma_lookup_add_all(indices.by_recipient, m.recipients, m.digest, k);
        if d != m.digest {
            assert(lookup(indices.by_recipient, k).contains(d));
        }
    } else if exists|k: (SuiAddress, SuiAddress)| (#[trigger] lookup(after.by_sender_and_recipient, k)).contains(d) {
        let k = choose|k: (SuiAddress, SuiAddress)| (#[trigger] lookup(after.by_sender_and_recipient, k)).contains(d);
        lemma_lookup_add_all(indices.by_sender_and_recipient, sender_pairs(m.sender, m.recipients), m.digest, k);
        if d != m.digest {
            assert(lookup(indices.by_sender_and_recipient, k).contains(d));
        }
    } else if exists|k: ObjectID| (#[trigger] lookup(after.by_input_object, k)).contains(d) {
        let k = choose|k: ObjectID| (#[trigger] lookup(after.by_input_object, k)).contains(d);
        lemma_lookup_add_all(indices.by_input_object, m.input_objects, m.digest, k);
        if d != m.digest {
            assert(lookup(indices.by_input_object, k).contains(d));
        }
    } else if exists|k: ObjectID| (#[trigger] lookup(after.by_created_object, k)).contains(d) {
        let k = choose|k: ObjectID| (#[trigger] lookup(after.by_created_object, k)).contains(d);
        lemma_lookup_add_all(indices.by_created_object, m.created_objects, m.digest, k);
        if d != m.digest {
            assert(lookup(indices.by_created_object, k).contains(d));
        }
    } else if exists|k: ObjectID| (#[trigger] lookup(after.by_mutated_object, k)).contains(d) {
        let k = choose|k: ObjectID| (#[trigger] lookup(after.by_mutated_object, k)).contains(d);
        lemma_lookup_add_all(indices.by_mutated_object, m.mutated_objects, m.digest, k);
        if d != m.digest {
            assert(lookup(indices.by_mutated_object, k).contains(d));
        }
    } else if exists|k: ObjectID| (#[trigger] lookup(after.by_deleted_object, k)).contains(d) {
        let k = choose|k: ObjectID| (#[trigger] lookup(after.by_deleted_object, k)).contains(d);
        lemma_lookup_add_all(indices.by_deleted_object, m.deleted_objects, m.digest, k);
        if d != m.digest {
            assert(lookup(indices.by_deleted_object, k).contains(d));
        }
    } else if exists|k: ObjectID| (#[trigger] lookup(after.by_wrapped_object, k)).contains(d) {
        let k = choose|k: ObjectID| (#[trigger] lookup(after.by_wrapped_object, k)).contains(d);
        lemma_lookup_add_all(indices.by_wrapped_object, m.wrapped_objects, m.digest, k);
        if d != m.digest {
            assert(lookup(indices.by_wrapped_object, k).contains(d));
        }
    } else if exists|k: MoveCallSignatureView| (#[trigger] lookup(after.by_move_call, k)).contains(d) {
        let k = choose|k: MoveCallSignatureView| (#[trigger] lookup(after.by_move_call, k)).contains(d);
        lemma_lookup_add_all(indices.by_move_call, m.move_calls, m.digest, k);
        if d != m.digest {
            assert(lookup(indices.by_move_call, k).contains(d));
        }
    } else if exists|k: ObjectID| (#[trigger] lookup(after.by_package, k)).contains(d) {
        let k = choose|k: ObjectID| (#[trigger] lookup(after.by_package, k)).contains(d);
        lemma_lookup_add_all(indices.by_package, call_packages(m.move_calls), m.digest, k);
        if d != m.digest {
            assert(lookup(indices.by_package, k).contains(d));
        }
    } else if exists|k: (ObjectID, Seq<char>)| (#[trigger] lookup(after.by_module, k)).contains(d) {
        let k = choose|k: (ObjectID, Seq<char>)| (#[trigger] lookup(after.by_module, k)).contains(d);
        lemma_lookup_add_all(indices.by_module, call_modules(m.move_calls), m.digest, k);
        if d != m.digest {
            assert(lookup(indices.by_module, k).contains(d));
        }
    } else if exists|k: Seq<char>| (#[trigger] lookup(after.by_transaction_kind, k)).contains(d) {
        let k = choose|k: Seq<char>| (#[trigger] lookup(after.by_transaction_kind, k)).contains(d);
        lemma_lookup_add_all(indices.by_transaction_kind, set![m.transaction_kind], m.digest, k);
        if d != m.digest {
            assert(lookup(indices.by_transaction_kind, k).contains(d));
        }
    }
}

/// The index over the recorded transactions.
pub struct TransactionIndices {
    pub by_sender: DigestIndex<SuiAddress>,
    pub by_recipient: DigestIndex<SuiAddress>,
    pub by_sender_and_recipient: DigestIndex<(SuiAddress, SuiAddress)>,
    pub by_input_object: DigestIndex<ObjectID>,
    pub by_created_object: DigestIndex<ObjectID>,
    pub by_mutated_object: DigestIndex<ObjectID>,
    pub by_deleted_object: DigestIndex<ObjectID>,
    pub by_wrapped_object: DigestIndex<ObjectID>,
    pub by_move_call: DigestIndex<MoveCallSignature>,
    pub by_package: DigestIndex<ObjectID>,
    pub by_module: DigestIndex<(ObjectID, String)>,
    pub by_transaction_kind: DigestIndex<String>,
}

impl View for TransactionIndices {
    type V = IndicesView;

    open spec fn view(&self) -> IndicesView {
        IndicesView {
            by_sender: self.by_sender@,
            by_recipient: self.by_recipient@,
            by_sender_and_recipient: self.by_sender_and_recipient@,
            by_input_object: self.by_input_object@,
            by_created_object: self.by_created_object@,
            by_mutated_object: self.by_mutated_object@,
            by_deleted_object: self.by_deleted_object@,
            by_wrapped_object: self.by_wrapped_object@,
            by_move_call: self.by_move_call@,
            by_package: self.by_package@,
            by_module: self.by_module@,
            by_transaction_kind: self.by_transaction_kind@,
        }
    }
}

impl DeepClone for TransactionIndices {
    open spec fn valid(&self) -> bool {
        self.wf()
    }

    fn deep_clone(&self) -> (r: Self) {
        let r = TransactionIndices {
            by_sender: self.by_sender.deep_clone(),
            by_recipient: self.by_recipient.deep_clone(),
            by_sender_and_recipient: self.by_sender_and_recipient.deep_clone(),
            by_input_object: self.by_input_object.deep_clone(),
            by_created_object: self.by_created_object.deep_clone(),
            by_mutated_object: self.by_mutated_object.deep_clone(),
            by_deleted_object: self.by_deleted_object.deep_clone(),
            by_wrapped_object: self.by_wrapped_object.deep_clone(),
            by_move_call: self.by_move_call.deep_clone(),
            by_package: self.by_package.deep_clone(),
            by_module: self.by_module.deep_clone(),
            by_transaction_kind: self.by_transaction_kind.deep_clone(),
        };
        assert(self.valid() ==> r.valid());
        r
    }
}

impl TransactionIndices {
    /// Every index is well formed.
    pub open spec fn wf(&self) -> bool {
        &&& self.by_sender.wf()
        &&& self.by_recipient.wf()
        &&& self.by_sender_and_recipient.wf()
        &&& self.by_input_object.wf()
        &&& self.by_created_object.wf()
        &&& self.by_mutated_object.wf()
        &&& self.by_deleted_object.wf()
        &&& self.by_wrapped_object.wf()
        &&& self.by_move_call.wf()
        &&& self.by_package.wf()
        &&& self.by_module.wf()
        &&& self.by_transaction_kind.wf()
    }

    pub fn new() -> (r: Self)
        ensures
            r.wf(),
            r@ == IndicesView::empty(),
    {
        Self {
            by_sender: VecMap::new(),
            by_recipient: VecMap::new(),
            by_sender_and_recipient: VecMap::new(),
            by_input_object: VecMap::new(),
            by_created_object: VecMap::new(),
            by_mutated_object: VecMap::new(),
            by_deleted_object: VecMap::new(),
            by_wrapped_object: VecMap::new(),
            by_move_call: VecMap::new(),
            by_package: VecMap::new(),
            by_module: VecMap::new(),
            by_transaction_kind: VecMap::new(),
        }
    }

    /// Records a transaction under every predicate that it matches. The
    /// metadata is built from what the transaction declares and from the
    /// changes that were computed for it.
    pub fn index_transaction(
        &mut self,
        transaction_data: &TransactionData,
        object_changes: &[ObjectChange],
    )
        requires
            old(self).wf(),
        ensures
            final(self).wf(),
            final(self)@ == old(self)@.index(
                metadata_of(*transaction_data, seq_view(object_changes@)),
            ),
    {
        let metadata = self.build_metadata(
            transaction_data.digest(),
            transaction_data,
            object_changes,
        );

        self.index_sender(&metadata);
        self.index_recipients(&metadata);
        self.index_objects(&metadata);
        self.index_move_calls(&metadata);
        self.index_transaction_kind(&metadata);
    }

    /// The digests of the recorded transactions that `filter` asks for.
    pub fn query(&self, filter: &TransactionFilter) -> (r: DigestSet)
        requires
            self.wf(),
        ensures
            r.wf(),
            r@ == self@.query(*filter),
    {
        match filter {
            TransactionFilter::Checkpoint(_) => KeySet::new(),
            TransactionFilter::MoveFunction { package, module, function } => {
                self.query_by_move_function(*package, module, function)
            },
            TransactionFilter::InputObject(object_id) => self.query_by_input_object(*object_id),
            TransactionFilter::ChangedObject(object_id) => self.query_by_changed_object(*object_id),
            TransactionFilter::AffectedObject(object_id) => self.query_by_affected_object(
                *object_id,
            ),
            TransactionFilter::FromAddress(address) => self.query_by_sender(*address),
            TransactionFilter::ToAddress(address) => self.query_by_recipient(*address),
            TransactionFilter::FromAndToAddress { from, to } => self.query_by_sender_and_recipient(
                *from,
                *to,
            ),
            TransactionFilter::FromOrToAddress { addr } => {
                let mut results = self.query_by_sender(*addr);
                let other = self.query_by_recipient(*addr);
                results.extend(&other);
                results
            },
            TransactionFilter::TransactionKind(kind) => self.query_by_transaction_kind(kind),
            TransactionFilter::TransactionKindIn(kinds) => self.query_by_transaction_kinds(kinds),
        }
    }

    fn build_metadata(
        &self,
        digest: TransactionDigest,
        transaction_data: &TransactionData,
        object_changes: &[ObjectChange],
    ) -> (m: TransactionMetadata)
        ensures
            m.wf(),
            m@ == (MetadataView {
                digest,
                ..metadata_of(*transaction_data, seq_view(object_changes@))
            }),
    {
        let sender = transaction_data.sender();
        let mut recipients = KeySet::new();
        let mut input_objects = KeySet::new();
        let mut created_objects = KeySet::new();
        let mut mutated_objects = KeySet::new();
        let mut deleted_objects = KeySet::new();
        let mut wrapped_objects = KeySet::new();
        let mut move_calls = Vec::new();

        self.extract_from_object_changes(
            object_changes,
            &mut recipients,
            &mut created_objects,
            &mut mutated_objects,
            &mut deleted_objects,
            &mut wrapped_objects,
        );

        self.extract_from_transaction_data(transaction_data, &mut input_objects, &mut move_calls);

        let transaction_kind = self.classify_transaction_kind(transaction_data);

        let m = TransactionMetadata {
            digest,
            sender,
            recipients,
            input_objects,
            created_objects,
            mutated_objects,
            deleted_objects,
            wrapped_objects,
            move_calls,
            transaction_kind,
        };
        proof {
            let spec = metadata_of(*transaction_data, seq_view(object_changes@));
            assert(m@.recipients =~= spec.recipients);
            assert(m@.input_objects =~= spec.input_objects);
            assert(m@.created_objects =~= spec.created_objects);
            assert(m@.mutated_objects =~= spec.mutated_objects);
            assert(m@.deleted_objects =~= spec.deleted_objects);
            assert(m@.wrapped_objects =~= spec.wrapped_objects);
            assert(seq_view(m.move_calls@) =~= move_calls_of(transaction_data.kind));
        }
        m
    }

    fn extract_from_object_changes(
        &self,
        object_changes: &[ObjectChange],
        recipients: &mut KeySet<SuiAddress>,
        created_objects: &mut KeySet<ObjectID>,
        mutated_objects: &mut KeySet<ObjectID>,
        deleted_objects: &mut KeySet<ObjectID>,
        wrapped_objects: &mut KeySet<ObjectID>,
    )
        requires
            old(recipients).wf(),
            old(created_objects).wf(),
            old(mutated_objects).wf(),
            old(deleted_objects).wf(),
            old(wrapped_objects).wf(),
        ensures
            final(recipients).wf(),
            final(created_objects).wf(),
            final(mutated_objects).wf(),
            final(deleted_objects).wf(),
            final(wrapped_objects).wf(),
            final(recipients)@ == old(recipients)@.union(
                recipients_of(seq_view(object_changes@), object_changes@.len() as int),
            ),
            final(created_objects)@ == old(created_objects)@.union(
                changed_ids(
                    seq_view(object_changes@),
                    ChangeClass::Created,
                    object_changes@.len() as int,
                ),
            ),
            final(mutated_objects)@ == old(mutated_objects)@.union(
                changed_ids(
                    seq_view(object_changes@),
                    ChangeClass::Mutated,
                    object_changes@.len() as int,
                ),
            ),
            final(deleted_objects)@ == old(deleted_objects)@.union(
                changed_ids(
                    seq_view(object_changes@),
                    ChangeClass::Deleted,
                    object_changes@.len() as int,
                ),
            ),
            final(wrapped_objects)@ == old(wrapped_objects)@.union(
                changed_ids(
                    seq_view(object_changes@),
                    ChangeClass::Wrapped,
                    object_changes@.len() as int,
                ),
            ),
    {
        let ghost views = seq_view(object_changes@);
        let mut i: usize = 0;
        proof {
            if views.len() > 0 {
                lemma_recipients_step(views, 0);
                lemma_changed_ids_step(views, ChangeClass::Created, 0);
                lemma_changed_ids_step(views, ChangeClass::Mutated, 0);
                lemma_changed_ids_step(views, ChangeClass::Deleted, 0);
                lemma_changed_ids_step(views, ChangeClass::Wrapped, 0);
            }
            assert(recipients_of(views, 0) =~= Set::<SuiAddress>::empty());
            assert(changed_ids(views, ChangeClass::Created, 0) =~= Set::<ObjectID>::empty());
            assert(changed_ids(views, ChangeClass::Mutated, 0) =~= Set::<ObjectID>::empty());
            assert(changed_ids(views, ChangeClass::Deleted, 0) =~= Set::<ObjectID>::empty());
            assert(changed_ids(views, ChangeClass::Wrapped, 0) =~= Set::<ObjectID>::empty());
            assert(recipients@ =~= old(recipients)@.union(recipients_of(views, 0)));
            assert(created_objects@ =~= old(created_objects)@.union(
                changed_ids(views, ChangeClass::Created, 0),
            ));
            assert(mutated_objects@ =~= old(mutated_objects)@.union(
                changed_ids(views, ChangeClass::Mutated, 0),
            ));
            assert(deleted_objects@ =~= old(deleted_objects)@.union(
                changed_ids(views, ChangeClass::Deleted, 0),
            ));
            assert(wrapped_objects@ =~= old(wrapped_objects)@.union(
                changed_ids(views, ChangeClass::Wrapped, 0),
            ));
        }
        while i < object_changes.len()
            invariant
                i <= object_changes@.len(),
                views == seq_view(object_changes@),
                recipients.wf(),
                created_objects.wf(),
                mutated_objects.wf(),
                deleted_objects.wf(),
                wrapped_objects.wf(),
                recipients@ == old(recipients)@.union(recipients_of(views, i as int)),
                created_objects@ == old(created_objects)@.union(
                    changed_ids(views, ChangeClass::Created, i as int),
                ),
                mutated_objects@ == old(mutated_objects)@.union(
                    changed_ids(views, ChangeClass::Mutated, i as int),
                ),
                deleted_objects@ == old(deleted_objects)@.union(
                    changed_ids(views, ChangeClass::Deleted, i as int),
                ),
                wrapped_objects@ == old(wrapped_objects)@.union(
                    changed_ids(views, ChangeClass::Wrapped, i as int),
                ),
            decreases object_changes@.len() - i,
        {
            proof {
                lemma_recipients_step(views, i as int);
                lemma_changed_ids_step(views, ChangeClass::Created, i as int);
                lemma_changed_ids_step(views, ChangeClass::Mutated, i as int);
                lemma_changed_ids_step(views, ChangeClass::Deleted, i as int);
                lemma_changed_ids_step(views, ChangeClass::Wrapped, i as int);
                assert(views[i as int] == object_changes@[i as int]@);
            }
            match &object_changes[i] {
                ObjectChange::Created { object_id, owner, .. } => {
                    created_objects.insert(*object_id);
                    if let Owner::AddressOwner(address) = owner {
                        recipients.insert(*address);
                    }
                },
                ObjectChange::Mutated { object_id, .. } => {
                    mutated_objects.insert(*object_id);
                },
                ObjectChange::Deleted { object_id, .. } => {
                    deleted_objects.insert(*object_id);
                },
                ObjectChange::Wrapped { object_id, .. } => {
                    wrapped_objects.insert(*object_id);
                },
                ObjectChange::Transferred { object_id, recipient, .. } => {
                    mutated_objects.insert(*object_id);
                    if let Owner::AddressOwner(address) = recipient {
                        recipients.insert(*address);
                    }
                },
                ObjectChange::Published { .. } => {},
            }
            proof {
                assert(recipients@ =~= old(recipients)@.union(recipients_of(views, i + 1)));
                assert(created_objects@ =~= old(created_objects)@.union(
                    changed_ids(views, ChangeClass::Created, i + 1),
                ));
                assert(mutated_objects@ =~= old(mutated_objects)@.union(
                    changed_ids(views, ChangeClass::Mutated, i + 1),
                ));
                assert(deleted_objects@ =~= old(deleted_objects)@.union(
                    changed_ids(views, ChangeClass::Deleted, i + 1),
                ));
                assert(wrapped_objects@ =~= old(wrapped_objects)@.union(
                    changed_ids(views, ChangeClass::Wrapped, i + 1),
                ));
            }
            i += 1;
        }
    }

    fn extract_from_transaction_data(
        &self,
        transaction_data: &TransactionData,
        input_objects: &mut KeySet<ObjectID>,
        move_calls: &mut Vec<MoveCallSignature>,
    )
        requires
            old(input_objects).wf(),
        ensures
            final(input_objects).wf(),
            final(input_objects)@ == old(input_objects)@.union(
                input_objects_of(transaction_data.kind),
            ),
            seq_view(final(move_calls)@) == seq_view(old(move_calls)@) + move_calls_of(
                transaction_data.kind,
            ),
    {
        match transaction_data.kind() {
            TransactionKind::ProgrammableTransaction(pt) => {
                self.extract_input_objects_from_programmable(pt, input_objects);
                self.extract_move_calls_from_programmable(pt, move_calls);
            },
            TransactionKind::System(_) => {
                assert(input_objects@ =~= old(input_objects)@.union(Set::<ObjectID>::empty()));
                assert(seq_view(move_calls@) =~= seq_view(old(move_calls)@) + Seq::<
                    MoveCallSignatureView,
                >::empty());
            },
        }
    }

    fn extract_input_objects_from_programmable(
        &self,
        pt: &ProgrammableTransaction,
        input_objects: &mut KeySet<ObjectID>,
    )
        requires
            old(input_objects).wf(),
        ensures
            final(input_objects).wf(),
            final(input_objects)@ == old(input_objects)@.union(
                input_ids(pt.inputs@, pt.inputs@.len() as int),
            ),
    {
        let mut i: usize = 0;
        proof {
            assert(input_ids(pt.inputs@, 0) =~= Set::<ObjectID>::empty());
            assert(input_objects@ =~= old(input_objects)@.union(input_ids(pt.inputs@, 0)));
        }
        while i < pt.inputs.len()
            invariant
                i <= pt.inputs@.len(),
                input_objects.wf(),
                input_objects@ == old(input_objects)@.union(input_ids(pt.inputs@, i as int)),
            decreases pt.inputs@.len() - i,
        {
            proof {
                lemma_input_ids_step(pt.inputs@, i as int);
            }
            if let CallArg::Object(object_arg) = &pt.inputs[i] {
                input_objects.insert(object_arg.id());
            }
            proof {
                assert(input_objects@ =~= old(input_objects)@.union(
                    input_ids(pt.inputs@, i + 1),
                ));
            }
            i += 1;
        }
    }

    fn extract_move_calls_from_programmable(
        &self,
        pt: &ProgrammableTransaction,
        move_calls: &mut Vec<MoveCallSignature>,
    )
        ensures
            seq_view(final(move_calls)@) == seq_view(old(move_calls)@) + call_signatures(
                pt.commands@,
            ),
    {
        let mut i: usize = 0;
        proof {
            assert(pt.commands@.take(0) =~= Seq::<Command>::empty());
            assert(seq_view(move_calls@) =~= seq_view(old(move_calls)@) + call_signatures(
                pt.commands@.take(0),
            ));
        }
        while i < pt.commands.len()
            invariant
                i <= pt.commands@.len(),
                seq_view(move_calls@) == seq_view(old(move_calls)@) + call_signatures(
                    pt.commands@.take(i as int),
                ),
            decreases pt.commands@.len() - i,
        {
            let ghost before = seq_view(move_calls@);
            proof {
                let next = pt.commands@.take(i + 1);
                assert(next.drop_last() =~= pt.commands@.take(i as int));
                assert(next.last() == pt.commands@[i as int]);
            }
            if let Command::MoveCall(call) = &pt.commands[i] {
                move_calls.push(
                    MoveCallSignature {
                        package: call.package,
                        module: call.module.clone(),
                        function: call.function.clone(),
                    },
                );
                assert(seq_view(move_calls@) =~= before.push(
                    MoveCallSignatureView {
                        package: call.package,
                        module: call.module@,
                        function: call.function@,
                    },
                ));
            }
            proof {
                assert(seq_view(move_calls@) =~= seq_view(old(move_calls)@) + call_signatures(
                    pt.commands@.take(i + 1),
                ));
            }
            i += 1;
        }
        proof {
            assert(pt.commands@.take(i as int) =~= pt.commands@);
        }
    }

    fn classify_transaction_kind(&self, transaction_data: &TransactionData) -> (r: String)
        ensures
            r@ == transaction_data.kind_label@,
    {
        transaction_data.kind_label.clone()
    }

    fn index_sender(&mut self, metadata: &TransactionMetadata)
        requires
            old(self).wf(),
        ensures
            final(self).wf(),
            final(self)@ == (IndicesView {
                by_sender: add_all(old(self)@.by_sender, set![metadata.sender], metadata.digest),
                ..old(self)@
            }),
    {
        add_digest(&mut self.by_sender, metadata.sender, metadata.digest);
    }

    fn index_recipients(&mut self, metadata: &TransactionMetadata)
        requires
            old(self).wf(),
        ensures
            final(self).wf(),
            final(self)@ == (IndicesView {
                by_recipient: add_all(
                    old(self)@.by_recipient,
                    metadata@.recipients,
                    metadata.digest,
                ),
                by_sender_and_recipient: add_all(
                    old(self)@.by_sender_and_recipient,
                    sender_pairs(metadata.sender, metadata@.recipients),
                    metadata.digest,
                ),
                ..old(self)@
            }),
    {
        let recipients = &metadata.recipients;
        let sender = metadata.sender;
        let digest = metadata.digest;
        let mut i: usize = 0;
        proof {
            lemma_add_all_none(old(self)@.by_recipient, digest);
            lemma_add_all_none(old(self)@.by_sender_and_recipient, digest);
            lemma_sender_pairs_step(sender, Set::empty(), sender);
            assert(recipients.seq().take(0).to_set() =~= Set::<SuiAddress>::empty());
        }
        while i < recipients.len()
            invariant
                i <= recipients.seq().len(),
                self.wf(),
                self@ == (IndicesView {
                    by_recipient: add_all(
                        old(self)@.by_recipient,
                        recipients.seq().take(i as int).to_set(),
                        digest,
                    ),
                    by_sender_and_recipient: add_all(
                        old(self)@.by_sender_and_recipient,
                        sender_pairs(sender, recipients.seq().take(i as int).to_set()),
                        digest,
                    ),
                    ..old(self)@
                }),
            decreases recipients.seq().len() - i,
        {
            let recipient = *recipients.get(i);
            proof {
                let a = recipients.seq().take(i as int);
                assert(recipients.seq().take(i + 1) =~= a.push(recipient));
                lemma_push_to_set(a, recipient);
                lemma_add_all_step(old(self)@.by_recipient, a.to_set(), recipient, digest);
                lemma_sender_pairs_step(sender, a.to_set(), recipient);
                lemma_add_all_step(
                    old(self)@.by_sender_and_recipient,
                    sender_pairs(sender, a.to_set()),
                    (sender, recipient),
                    digest,
                );
            }
            add_digest(&mut self.by_recipient, recipient, digest);
            add_digest(&mut self.by_sender_and_recipient, (sender, recipient), digest);
            i += 1;
        }
        proof {
            assert(recipients.seq().take(i as int) =~= recipients.seq());
            recipients.lemma_view_is_seq_set();
        }
    }

    fn index_objects(&mut self, metadata: &TransactionMetadata)
        requires
            old(self).wf(),
        ensures
            final(self).wf(),
            final(self)@ == (IndicesView {
                by_input_object: add_all(
                    old(self)@.by_input_object,
                    metadata@.input_objects,
                    metadata.digest,
                ),
                by_created_object: add_all(
                    old(self)@.by_created_object,
                    metadata@.created_objects,
                    metadata.digest,
                ),
                by_mutated_object: add_all(
                    old(self)@.by_mutated_object,
                    metadata@.mutated_objects,
                    metadata.digest,
                ),
                by_deleted_object: add_all(
                    old(self)@.by_deleted_object,
                    metadata@.deleted_objects,
                    metadata.digest,
                ),
                by_wrapped_object: add_all(
                    old(self)@.by_wrapped_object,
                    metadata@.wrapped_objects,
                    metadata.digest,
                ),
                ..old(self)@
            }),
    {
        add_each(&mut self.by_input_object, &metadata.input_objects, metadata.digest);
        add_each(&mut self.by_created_object, &metadata.created_objects, metadata.digest);
        add_each(&mut self.by_mutated_object, &metadata.mutated_objects, metadata.digest);
        add_each(&mut self.by_deleted_object, &metadata.deleted_objects, metadata.digest);
        add_each(&mut self.by_wrapped_object, &metadata.wrapped_objects, metadata.digest);
    }

    fn index_move_calls(&mut self, metadata: &TransactionMetadata)
        requires
            old(self).wf(),
        ensures
            final(self).wf(),
            final(self)@ == (IndicesView {
                by_move_call: add_all(old(self)@.by_move_call, metadata@.move_calls, metadata.digest),
                by_package: add_all(
                    old(self)@.by_package,
                    call_packages(metadata@.move_calls),
                    metadata.digest,
                ),
                by_module: add_all(
                    old(self)@.by_module,
                    call_modules(metadata@.move_calls),
                    metadata.digest,
                ),
                ..old(self)@
            }),
    {
        let calls = &metadata.move_calls;
        let digest = metadata.digest;
        let ghost views = seq_view(calls@);
        let mut i: usize = 0;
        proof {
            lemma_add_all_none(old(self)@.by_move_call, digest);
            lemma_add_all_none(old(self)@.by_package, digest);
            lemma_add_all_none(old(self)@.by_module, digest);
            assert(views.take(0).to_set() =~= Set::<MoveCallSignatureView>::empty());
            lemma_call_sets_step(Set::empty(), views.take(0).to_set().choose());
        }
        while i < calls.len()
            invariant
                i <= calls@.len(),
                views == seq_view(calls@),
                self.wf(),
                self@ == (IndicesView {
                    by_move_call: add_all(
                        old(self)@.by_move_call,
                        views.take(i as int).to_set(),
                        digest,
                    ),
                    by_package: add_all(
                        old(self)@.by_package,
                        call_packages(views.take(i as int).to_set()),
                        digest,
                    ),
                    by_module: add_all(
                        old(self)@.by_module,
                        call_modules(views.take(i as int).to_set()),
                        digest,
                    ),
                    ..old(self)@
                }),
            decreases calls@.len() - i,
        {
            let move_call = &calls[i];
            proof {
                let a = views.take(i as int);
                assert(views.take(i + 1) =~= a.push(move_call@));
                lemma_push_to_set(a, move_call@);
                lemma_call_sets_step(a.to_set(), move_call@);
                lemma_add_all_step(old(self)@.by_move_call, a.to_set(), move_call@, digest);
                lemma_add_all_step(
                    old(self)@.by_package,
                    call_packages(a.to_set()),
                    move_call.package,
                    digest,
                );
                lemma_add_all_step(
                    old(self)@.by_module,
                    call_modules(a.to_set()),
                    (move_call.package, move_call.module@),
                    digest,
                );
            }
            add_digest(&mut self.by_move_call, move_call.deep_clone(), digest);
            add_digest(&mut self.by_package, move_call.package, digest);
            add_digest(&mut self.by_module, (move_call.package, move_call.module.clone()), digest);
            i += 1;
        }
        proof {
            assert(views.take(i as int) =~= views);
        }
    }

    fn index_transaction_kind(&mut self, metadata: &TransactionMetadata)
        requires
            old(self).wf(),
        ensures
            final(self).wf(),
            final(self)@ == (IndicesView {
                by_transaction_kind: add_all(
                    old(self)@.by_transaction_kind,
                    set![metadata.transaction_kind@],
                    metadata.digest,
                ),
                ..old(self)@
            }),
    {
        add_digest(
            &mut self.by_transaction_kind,
            metadata.transaction_kind.clone(),
            metadata.digest,
        );
    }

    fn query_by_sender(&self, sender: SuiAddress) -> (r: DigestSet)
        requires
            self.wf(),
        ensures
            r.wf(),
            r@ == lookup(self@.by_sender, sender),
    {
        digests_of(&self.by_sender, &sender)
    }

    fn query_by_recipient(&self, recipient: SuiAddress) -> (r: DigestSet)
        requires
            self.wf(),
        ensures
            r.wf(),
            r@ == lookup(self@.by_recipient, recipient),
    {
        digests_of(&self.by_recipient, &recipient)
    }

    fn query_by_sender_and_recipient(&self, sender: SuiAddress, recipient: SuiAddress) -> (r:
        DigestSet)
        requires
            self.wf(),
        ensures
            r.wf(),
            r@ == lookup(self@.by_sender_and_recipient, (sender, recipient)),
    {
        digests_of(&self.by_sender_and_recipient, &(sender, recipient))
    }

    fn query_by_input_object(&self, object_id: ObjectID) -> (r: DigestSet)
        requires
            self.wf(),
        ensures
            r.wf(),
            r@ == lookup(self@.by_input_object, object_id),
    {
        digests_of(&self.by_input_object, &object_id)
    }

    fn query_by_changed_object(&self, object_id: ObjectID) -> (r: DigestSet)
        requires
            self.wf(),
        ensures
            r.wf(),
            r@ == self@.changed(object_id),
    {
        let mut results = digests_of(&self.by_created_object, &object_id);
        let mutated = digests_of(&self.by_mutated_object, &object_id);
        results.extend(&mutated);
        let wrapped = digests_of(&self.by_wrapped_object, &object_id);
        results.extend(&wrapped);
        results
    }

    fn query_by_affected_object(&self, object_id: ObjectID) -> (r: DigestSet)
        requires
            self.wf(),
        ensures
            r.wf(),
            r@ == self@.affected(object_id),
    {
        let mut results = digests_of(&self.by_input_object, &object_id);
        let created = digests_of(&self.by_created_object, &object_id);
        results.extend(&created);
        let mutated = digests_of(&self.by_mutated_object, &object_id);
        results.extend(&mutated);
        let deleted = digests_of(&self.by_deleted_object, &object_id);
        results.extend(&deleted);
        let wrapped = digests_of(&self.by_wrapped_object, &object_id);
        results.extend(&wrapped);
        results
    }

    fn query_by_move_function(
        &self,
        package: ObjectID,
        module: &Option<String>,
        function: &Option<String>,
    ) -> (r: DigestSet)
        requires
            self.wf(),
        ensures
            r.wf(),
            r@ == self@.of_move_function(package, *module, *function),
    {
        match module {
            Some(mod_name) => match function {
                Some(func_name) => {
                    let signature = MoveCallSignature {
                        package,
                        module: mod_name.clone(),
                        function: func_name.clone(),
                    };
                    digests_of(&self.by_move_call, &signature)
                },
                None => digests_of(&self.by_module, &(package, mod_name.clone())),
            },
            None => digests_of(&self.by_package, &package),
        }
    }

    fn query_by_transaction_kind(&self, kind: &String) -> (r: DigestSet)
        requires
            self.wf(),
        ensures
            r.wf(),
            r@ == lookup(self@.by_transaction_kind, kind@),
    {
        digests_of(&self.by_transaction_kind, kind)
    }

    fn query_by_transaction_kinds(&self, kinds: &Vec<String>) -> (r: DigestSet)
        requires
            self.wf(),
        ensures
            r.wf(),
            r@ == self@.of_kinds(kinds@, kinds@.len() as int),
    {
        let mut results: DigestSet = KeySet::new();
        let mut i: usize = 0;
        proof {
            assert(results@ =~= self@.of_kinds(kinds@, 0));
        }
        while i < kinds.len()
            invariant
                i <= kinds@.len(),
                self.wf(),
                results.wf(),
                results@ == self@.of_kinds(kinds@, i as int),
            decreases kinds@.len() - i,
        {
            let found = self.query_by_transaction_kind(&kinds[i]);
            results.extend(&found);
            proof {
                assert forall|d: TransactionDigest|
                    results@.contains(d) <==> self@.of_kinds(kinds@, i + 1).contains(d) by {
                    if self@.of_kinds(kinds@, i + 1).contains(d) {
                        let j = choose|j: int|
                            0 <= j < i + 1 && j < kinds@.len() && lookup(
                                self@.by_transaction_kind,
                                (#[trigger] kinds@[j])@,
                            ).contains(d);
                        if j < i {
                            assert(self@.of_kinds(kinds@, i as int).contains(d));
                        }
                    }
                    if self@.of_kinds(kinds@, i as int).contains(d) {
                        let j = choose|j: int|
                            0 <= j < i && j < kinds@.len() && lookup(
                                self@.by_transaction_kind,
                                (#[trigger] kinds@[j])@,
                            ).contains(d);
                        assert(0 <= j < i + 1);
                    }
                    if found@.contains(d) {
                        assert(lookup(self@.by_transaction_kind, kinds@[i as int]@).contains(d));
                    }
                }
                assert(results@ =~= self@.of_kinds(kinds@, i + 1));
            }
            i += 1;
        }
        results
    }
}

} // verus!

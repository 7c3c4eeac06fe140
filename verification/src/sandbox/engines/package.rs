//! Packages: finding a module, and publishing.

use crate::base_types::{ObjectDigest, ObjectID, ObjectRef, Owner, SuiAddress};
use crate::collections::DeepClone;
use crate::error::SandboxError;
use crate::object::{Data, DataView, MoveModuleView};
use crate::sandbox::engines::transaction::{
    after_validation, overridden, validated, TransactionEngine,
};
use crate::sandbox::extensions::auth_extension::AuthMode;
use crate::sandbox::extensions::coins::{gas_coin, gas_payment_of, CoinExtension};
use crate::sandbox::storage::StorageView;
use crate::sandbox::transaction_pipeline::stages::{ExecutionInput, ValidationInput};
use crate::sandbox::transaction_pipeline::PipelineResult;
use crate::sandbox::{MoveVMSandbox, SandboxView};
use crate::transaction::{Signature, TransactionData};
use vstd::prelude::*;

verus! {

/// What a sender should hold at the least before a package is published:
/// a thousand units of the native token.
pub const OVERLY_SAFE_SUI_BALANCE: u64 = 1_000_000_000_000;

/// The face of the engine for packages.
pub struct PackageEngine<S> {
    pub sandbox: S,
}

impl<S> PackageEngine<S> {
    pub fn new(storage: S) -> (r: Self)
        ensures
            r.sandbox == storage,
    {
        Self { sandbox: storage }
    }
}

/// Whether the module at `i` is the first with the name.
pub open spec fn is_module_at(modules: Seq<MoveModuleView>, name: Seq<char>, i: int) -> bool {
    &&& 0 <= i < modules.len()
    &&& modules[i].name == name
    &&& forall|j: int| 0 <= j < i ==> (#[trigger] modules[j]).name != name
}

/// The bytes of a module of a package: the object must be in the store and
/// be a package, and the package must hold a module of the name.
pub open spec fn module_of(storage: StorageView, package_id: ObjectID, name: String) -> Result<
    Seq<u8>,
    SandboxError,
> {
    if !storage.objects.contains_key(package_id) {
        Err(SandboxError::ObjectNotFound(package_id))
    } else {
        match storage.objects[package_id].data {
            DataView::Move(_) => Err(SandboxError::NotAPackage(storage.objects[package_id].id)),
            DataView::Package(p) => if exists|i: int| is_module_at(p.modules, name@, i) {
                Ok(p.modules[choose|i: int| is_module_at(p.modules, name@, i)].bytes)
            } else {
                Err(SandboxError::ModuleNotFound(name))
            },
        }
    }
}

impl<'a> PackageEngine<&'a MoveVMSandbox> {
    /// The bytes of a module of a package.
    pub fn get_module(&self, package_id: ObjectID, module_id: &String) -> (r: Result<
        Vec<u8>,
        SandboxError,
    >)
        requires
            self.sandbox.wf(),
        ensures
            match r {
                Ok(bytes) => module_of(self.sandbox@.storage, package_id, *module_id) == Ok::<
                    Seq<u8>,
                    SandboxError,
                >(bytes@),
                Err(e) => module_of(self.sandbox@.storage, package_id, *module_id) == Err::<
                    Seq<u8>,
                    SandboxError,
                >(e),
            },
    {
        let package = match self.sandbox.storage.get_object(&package_id) {
            Some(package) => package,
            None => {
                return Err(SandboxError::ObjectNotFound(package_id));
            },
        };
        let inner = match &package.data {
            Data::Package(inner) => inner,
            Data::Move(_) => {
                return Err(SandboxError::NotAPackage(package.id()));
            },
        };
        let ghost modules = package@.data->Package_0.modules;
        assert(package@.data == DataView::Package(inner@));
        let mut i: usize = 0;
        while i < inner.modules.len()
            invariant
                i <= inner.modules@.len(),
                modules == crate::collections::seq_view(inner.modules@),
                self.sandbox@.storage.objects.contains_key(package_id),
                self.sandbox@.storage.objects[package_id] == package@,
                package@.data == DataView::Package(inner@),
                forall|j: int| 0 <= j < i ==> (#[trigger] modules[j]).name != module_id@,
            decreases inner.modules@.len() - i,
        {
            assert(modules[i as int] == inner.modules@[i as int]@);
            if inner.modules[i].name == *module_id {
                proof {
                    assert(is_module_at(modules, module_id@, i as int));
                    let c = choose|c: int| is_module_at(modules, module_id@, c);
                    assert(is_module_at(modules, module_id@, c));
                    assert(c == i) by {
                        if c < i {
                            assert(modules[c].name != module_id@);
                        }
                        if i < c {
                            assert(modules[i as int].name != module_id@);
                        }
                    }
                }
                let bytes = inner.modules[i].bytes.deep_clone();
                assert(bytes@ == modules[i as int].bytes);
                proof {
                    let storage = self.sandbox@.storage;
                    assert(storage.objects.contains_key(package_id));
                    assert(storage.objects[package_id] == package@);
                    let p = storage.objects[package_id].data->Package_0;
                    assert(p.modules == modules);
                    assert(is_module_at(p.modules, module_id@, i as int));
                    let w = choose|w: int| is_module_at(p.modules, module_id@, w);
                    assert(w == i);
                    assert(module_of(storage, package_id, *module_id) == Ok::<Seq<u8>, SandboxError>(
                        p.modules[w].bytes,
                    ));
                }
                return Ok(bytes);
            }
            i += 1;
        }
        proof {
            if exists|c: int| is_module_at(modules, module_id@, c) {
                let c = choose|c: int| is_module_at(modules, module_id@, c);
                assert(modules[c].name != module_id@);
            }
        }
        Err(SandboxError::ModuleNotFound(module_id.clone()))
    }
}

impl<'a> PackageEngine<&'a mut MoveVMSandbox> {
    /// Makes sure that the sender can pay for a publication: where the
    /// sender holds less than the safe balance, a coin of that worth is
    /// made for the sender, with the identifier and the digest that the
    /// caller chose. Returns what the sender then holds, or nothing where
    /// that does not fit in 64 bits, and the sender's coins as a gas payment.
    pub fn prepare_publish(&mut self, sender: SuiAddress, id: ObjectID, digest: ObjectDigest) -> (r:
        (Option<u64>, Vec<ObjectRef>))
        requires
            old(self).sandbox.wf(),
        ensures
            final(self).sandbox.wf(),
            final(self).sandbox@ == (SandboxView {
                storage: if old(self).sandbox.storage.held(sender, None) < OVERLY_SAFE_SUI_BALANCE {
                    old(self).sandbox@.storage.insert_object(
                        gas_coin(id, sender, OVERLY_SAFE_SUI_BALANCE, digest),
                    )
                } else {
                    old(self).sandbox@.storage
                },
                ..old(self).sandbox@
            }),
            r.0 == if final(self).sandbox.storage.held(sender, None) <= u64::MAX {
                Some(final(self).sandbox.storage.held(sender, None) as u64)
            } else {
                None
            },
            r.1@ == gas_payment_of(
                final(self).sandbox.storage.owned_objects(Owner::AddressOwner(sender)),
                final(self).sandbox.storage.owned_objects(Owner::AddressOwner(sender)).len() as int,
            ),
            *final(final(self).sandbox) == *final(old(self).sandbox),
    {
        let needs_coin = match self.sandbox.storage.checked_balance(sender, None) {
            Some(balance) => balance < OVERLY_SAFE_SUI_BALANCE,
            None => false,
        };
        proof {
            let objects = self.sandbox.storage.owned_objects(Owner::AddressOwner(sender));
            crate::sandbox::extensions::coins::lemma_balance_sum_grows(
                objects,
                crate::sandbox::extensions::coins::target_type(None),
                0,
                objects.len() as int,
            );
        }
        if needs_coin {
            self.sandbox.storage.mint_gas_coin(sender, OVERLY_SAFE_SUI_BALANCE, id, digest);
        }
        let balance = self.sandbox.storage.checked_balance(sender, None);
        let payment = self.sandbox.storage.get_default_gas_payment(sender);
        (balance, payment)
    }

    /// Validates the transaction that publishes a package: as the engine's
    /// own transaction, with the guard for signatures off and no signatures.
    /// The guard is put back as it was, whatever validation came to.
    pub fn publish_package(&mut self, tx: TransactionData, gas_check: Result<(), String>) -> (r:
        PipelineResult<ExecutionInput>)
        requires
            old(self).sandbox.wf(),
        ensures
            final(self).sandbox.wf(),
            final(self).sandbox@.auth == old(self).sandbox@.auth,
            exists|input: ValidationInput|
                input.tx_data == tx && input.signatures@ == Seq::<Signature>::empty()
                    && input.gas_check == gas_check && #[trigger] validated(
                    overridden(old(self).sandbox@, AuthMode::Disabled),
                    input,
                    r,
                ) && final(self).sandbox@ == (SandboxView {
                    auth: old(self).sandbox@.auth,
                    ..after_validation(overridden(old(self).sandbox@, AuthMode::Disabled), input)
                }),
            *final(final(self).sandbox) == *final(old(self).sandbox),
    {
        let input = ValidationInput {
            tx_data: tx,
            signatures: Vec::new(),
            verification: Ok(()),
            gas_check,
        };
        let mut engine = TransactionEngine::new(&mut *self.sandbox);
        let out = engine.validate_as(input, AuthMode::Disabled);
        assert(validated(overridden(old(self).sandbox@, AuthMode::Disabled), input, out));
        out
    }
}

} // verus!

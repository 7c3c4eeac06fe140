//! The ledger engine and its parts.

pub mod builder;
pub mod engines;
pub mod extensions;
pub mod laws;
pub mod storage;
pub mod transaction_pipeline;

use crate::base_types::ObjectID;
use crate::collections::DeepClone;
use crate::object::Object;
use crate::rpc_types::{ObjectRead, ObjectReadView};
use crate::sandbox::engines::clock::ClockEngine;
use crate::sandbox::engines::package::PackageEngine;
use crate::sandbox::engines::transaction::TransactionEngine;
use crate::sandbox::storage::StorageView;
use vstd::prelude::*;

pub use crate::sandbox::builder::SandboxBuilder;
pub use crate::sandbox::extensions::auth_extension::{AuthExtension, AuthMode};
pub use crate::sandbox::extensions::coins::CoinExtension;
pub use crate::sandbox::extensions::transaction_control::TransactionControlExtension;
pub use crate::sandbox::storage::StorageExtension;

verus! {

/// The ledger engine: the store, the epoch, the guard for signatures, the
/// reference price of gas, and the hook that refuses the next transaction.
pub struct MoveVMSandbox {
    pub storage: StorageExtension,
    pub epoch: u64,
    pub auth_extension: AuthExtension,
    pub reference_price: u64,
    pub transaction_control: TransactionControlExtension,
}

/// The view of the engine.
pub struct SandboxView {
    pub storage: StorageView,
    pub epoch: u64,
    pub auth: AuthExtension,
    pub reference_price: u64,
    pub armed: Option<Seq<char>>,
}

impl View for MoveVMSandbox {
    type V = SandboxView;

    open spec fn view(&self) -> SandboxView {
        SandboxView {
            storage: self.storage@,
            epoch: self.epoch,
            auth: self.auth_extension,
            reference_price: self.reference_price,
            armed: match self.transaction_control.armed() {
                Some(reason) => Some(reason@),
                None => None,
            },
        }
    }
}

impl MoveVMSandbox {
    /// The store is well formed.
    pub open spec fn wf(&self) -> bool {
        self.storage.wf()
    }

    /// Takes in what the genesis execution wrote.
    pub fn init(&mut self, written: Vec<Object>)
        requires
            old(self).wf(),
        ensures
            final(self).wf(),
            final(self)@ == (SandboxView {
                storage: old(self)@.storage.insert_all(crate::collections::seq_view(written@)),
                ..old(self)@
            }),
    {
        self.storage.finish(written);
    }

    /// The clock, for reading.
    pub fn clock(&self) -> (r: ClockEngine<&StorageExtension>)
        ensures
            *r.storage == self.storage,
    {
        ClockEngine::new(&self.storage)
    }

    /// The clock, for setting.
    pub fn clock_mut(&mut self) -> (r: ClockEngine<&mut StorageExtension>)
        ensures
            *r.storage == old(self).storage,
            *final(self) == (MoveVMSandbox { storage: *final(r.storage), ..*old(self) }),
    {
        ClockEngine::new(&mut self.storage)
    }

    /// The face of the engine for transactions, for reading.
    pub fn transaction(&self) -> (r: TransactionEngine<&MoveVMSandbox>)
        ensures
            *r.sandbox == *self,
    {
        TransactionEngine::new(self)
    }

    /// The face of the engine for transactions.
    pub fn transaction_mut(&mut self) -> (r: TransactionEngine<&mut MoveVMSandbox>)
        ensures
            *r.sandbox == *old(self),
            *final(self) == *final(r.sandbox),
    {
        TransactionEngine::new(self)
    }

    /// The face of the engine for packages, for reading.
    pub fn package(&self) -> (r: PackageEngine<&MoveVMSandbox>)
        ensures
            *r.sandbox == *self,
    {
        PackageEngine::new(self)
    }

    /// The face of the engine for packages.
    pub fn package_mut(&mut self) -> (r: PackageEngine<&mut MoveVMSandbox>)
        ensures
            *r.sandbox == *old(self),
            *final(self) == *final(r.sandbox),
    {
        PackageEngine::new(self)
    }

    pub fn storage(&self) -> (r: &StorageExtension)
        ensures
            *r == self.storage,
    {
        &self.storage
    }

    pub fn storage_mut(&mut self) -> (r: &mut StorageExtension)
        ensures
            *r == old(self).storage,
            *final(self) == (MoveVMSandbox { storage: *final(r), ..*old(self) }),
    {
        &mut self.storage
    }

    /// Reads the current version of an object.
    pub fn get_object(&self, id: ObjectID) -> (r: ObjectRead)
        requires
            self.wf(),
        ensures
            r@ == if self@.storage.objects.contains_key(id) {
                ObjectReadView::Exists(
                    (
                        id,
                        self@.storage.objects[id].version,
                        self@.storage.objects[id].digest,
                    ),
                    self@.storage.objects[id],
                )
            } else {
                ObjectReadView::NotExists(id)
            },
    {
        match self.storage.get_object(&id) {
            Some(obj) => ObjectRead::Exists((id, obj.version(), obj.digest()), obj.deep_clone()),
            None => ObjectRead::NotExists(id),
        }
    }

    /// Makes `object` the current version of its identifier.
    pub fn create_object(&mut self, object: Object)
        requires
            old(self).wf(),
        ensures
            final(self).wf(),
            final(self)@ == (SandboxView {
                storage: old(self)@.storage.insert_object(object@),
                ..old(self)@
            }),
    {
        self.storage.insert_object(object);
    }

    /// Arms the hook: the next transaction is refused with `reason`.
    pub fn reject_next_tx(&mut self, reason: String)
        ensures
            final(self)@ == (SandboxView { armed: Some(reason@), ..old(self)@ }),
            old(self).wf() ==> final(self).wf(),
    {
        self.transaction_control.reject_with(reason);
    }

    pub fn disable_signature_checks(&mut self)
        ensures
            final(self).auth_extension.mode() == AuthMode::Disabled,
            *final(self) == (MoveVMSandbox { auth_extension: final(self).auth_extension, ..*old(self) }),
    {
        self.auth_extension.set_mode(AuthMode::Disabled);
    }

    pub fn enable_signature_checks(&mut self)
        ensures
            final(self).auth_extension.mode() == AuthMode::Enabled,
            *final(self) == (MoveVMSandbox { auth_extension: final(self).auth_extension, ..*old(self) }),
    {
        self.auth_extension.set_mode(AuthMode::Enabled);
    }

    /// The reference price of gas.
    pub fn gas_price(&self) -> (r: u64)
        ensures
            r == self@.reference_price,
    {
        self.reference_price
    }
}

} // verus!

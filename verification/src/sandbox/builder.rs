//! Building an engine.

use crate::base_types::ObjectID;
use crate::collections::{seq_view, DeepClone, VecMap};
use crate::object::{by_id, Object, ObjectView};
use crate::sandbox::extensions::auth_extension::{AuthExtension, AuthMode};
use crate::sandbox::extensions::transaction_control::TransactionControlExtension;
use crate::sandbox::storage::{StorageExtension, StorageView};
use crate::sandbox::MoveVMSandbox;
use vstd::prelude::*;

verus! {

/// What an engine is built from.
pub struct SandboxBuilder {
    gas_price: u64,
    enable_auth: bool,
    initial_time_ms: Option<u64>,
    genesis_objects: Vec<Object>,
}

fn collect_by_id(objects: &Vec<Object>, into: &mut VecMap<ObjectID, Object>, Ghost(first): Ghost<
    Seq<ObjectView>,
>)
    requires
        old(into).wf(),
        old(into)@ == by_id(first),
    ensures
        final(into).wf(),
        final(into)@ == by_id(first + seq_view(objects@)),
{
    let ghost views = seq_view(objects@);
    let mut i: usize = 0;
    assert(first + views.take(0) =~= first);
    while i < objects.len()
        invariant
            i <= objects@.len(),
            views == seq_view(objects@),
            into.wf(),
            into@ == by_id(first + views.take(i as int)),
        decreases objects@.len() - i,
    {
        proof {
            let next = first + views.take(i + 1);
            assert(next.drop_last() =~= first + views.take(i as int));
            assert(next.last() == objects@[i as int]@);
        }
        let object = objects[i].deep_clone();
        into.insert(object.id(), object);
        i += 1;
    }
    assert(views.take(i as int) =~= views);
}

impl SandboxBuilder {
    /// The price of gas that the engine will refer to.
    pub closed spec fn spec_gas_price(&self) -> u64 {
        self.gas_price
    }

    /// Whether the engine will check signatures.
    pub closed spec fn spec_enable_auth(&self) -> bool {
        self.enable_auth
    }

    /// The time to set the clock to, if any.
    pub closed spec fn spec_initial_time_ms(&self) -> Option<u64> {
        self.initial_time_ms
    }

    /// The objects that the engine will hold besides those of the framework.
    pub closed spec fn spec_genesis_objects(&self) -> Seq<ObjectView> {
        seq_view(self.genesis_objects@)
    }

    /// The store that the engine starts with: the objects of the
    /// framework and then the genesis objects, by their identifiers; the
    /// clock set to the initial time, where one is given and the objects
    /// hold a clock.
    pub open spec fn initial_storage(&self, framework: Seq<ObjectView>) -> StorageView {
        let loaded = StorageView::initial(by_id(framework + self.spec_genesis_objects()));
        match self.spec_initial_time_ms() {
            Some(t) => if loaded.has_clock() {
                loaded.insert_object(loaded.clock_at(t))
            } else {
                loaded
            },
            None => loaded,
        }
    }

    /// Builds the engine over the objects of the framework and the genesis
    /// objects: at epoch zero, with nothing armed.
    pub fn build(self, framework_objects: Vec<Object>) -> (sandbox: MoveVMSandbox)
        ensures
            sandbox.wf(),
            sandbox@.storage == self.initial_storage(seq_view(framework_objects@)),
            sandbox@.epoch == 0,
            sandbox@.reference_price == self.spec_gas_price(),
            sandbox@.auth.mode() == if self.spec_enable_auth() {
                AuthMode::Enabled
            } else {
                AuthMode::Disabled
            },
            sandbox@.armed is None,
    {
        let mut inner: VecMap<ObjectID, Object> = VecMap::new();
        collect_by_id(&framework_objects, &mut inner, Ghost(Seq::empty()));
        assert(Seq::<ObjectView>::empty() + seq_view(framework_objects@) =~= seq_view(
            framework_objects@,
        ));
        collect_by_id(&self.genesis_objects, &mut inner, Ghost(seq_view(framework_objects@)));
        let storage = StorageExtension::new(inner);

        let mut sandbox = MoveVMSandbox {
            storage,
            epoch: 0,
            auth_extension: AuthExtension::new(),
            reference_price: self.gas_price,
            transaction_control: TransactionControlExtension::new(),
        };

        if !self.enable_auth {
            sandbox.disable_signature_checks();
        }

        match self.initial_time_ms {
            Some(time_ms) => {
                let readable = match sandbox.storage.get_object(
                    &ObjectID { hi: 0, lo: crate::object::CLOCK_OBJECT_LO },
                ) {
                    Some(clock) => clock.id().hi == 0 && clock.id().lo
                        == crate::object::CLOCK_OBJECT_LO && clock.trailing_value().is_some(),
                    None => false,
                };
                if readable {
                    sandbox.clock_mut().set_time(time_ms);
                }
            },
            None => {},
        }

        sandbox
    }
}

impl Default for SandboxBuilder {
    /// A builder for an engine that checks signatures, at a price of gas
    /// of ten, with no genesis objects of its own and the clock as it is.
    fn default() -> (r: Self)
        ensures
            r.spec_gas_price() == 10,
            r.spec_enable_auth(),
            r.spec_initial_time_ms() is None,
            r.spec_genesis_objects() == Seq::<ObjectView>::empty(),
    {
        let r = Self {
            gas_price: 10,
            enable_auth: true,
            initial_time_ms: None,
            genesis_objects: Vec::new(),
        };
        assert(seq_view(r.genesis_objects@) =~= Seq::<ObjectView>::empty());
        r
    }
}

} // verus!

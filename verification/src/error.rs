//! Why the engine refuses a transaction or a request.

use crate::base_types::{ObjectID, SuiAddress};
use crate::text::push_id;
use vstd::prelude::*;
use vstd::string::StringExecFns;

verus! {

/// A reason for which a transaction is refused before it is executed, or a
/// request cannot be served.
#[derive(Debug)]
pub enum SandboxError {
    /// The signatures do not hold for the transaction; the text says why.
    InvalidSignature(String),
    /// An object of this account is used, and the account did not sign.
    OwnershipViolation { owner: SuiAddress },
    /// An object named as gas payment is not in the store.
    GasObjectNotFound(ObjectID),
    /// An input object is not in the store.
    ObjectNotFound(ObjectID),
    /// The input objects of the transaction cannot be listed; the text says why.
    InvalidInputObjects(String),
    /// The gas budget or price is not acceptable; the text says why.
    InvalidGas(String),
    /// The gas budget and what the sender holds do not fit in 64 bits
    /// together.
    GasBudgetTooHigh,
    /// The object is no package.
    NotAPackage(ObjectID),
    /// The package has no module of this name.
    ModuleNotFound(String),
}

impl SandboxError {
    /// The message of the error.
    pub open spec fn text(self) -> Seq<char> {
        match self {
            SandboxError::InvalidSignature(why) => why@,
            SandboxError::OwnershipViolation { owner } => "Object owned by "@ + owner.text()
                + " accessed without owner signature"@,
            SandboxError::GasObjectNotFound(id) => "Gas payment object "@ + id.text()
                + " not found"@,
            SandboxError::ObjectNotFound(id) => "No object "@ + id.text(),
            SandboxError::InvalidInputObjects(why) => why@,
            SandboxError::InvalidGas(why) => why@,
            SandboxError::GasBudgetTooHigh => "Gas budget and balance do not fit in 64 bits"@,
            SandboxError::NotAPackage(id) => "Object "@ + id.text() + " is not a package"@,
            SandboxError::ModuleNotFound(name) => "Module "@ + name@ + " not found in package"@,
        }
    }

    /// The message of the error.
    pub fn message(&self) -> (r: String)
        ensures
            r@ == self.text(),
    {
        match self {
            SandboxError::InvalidSignature(why) => why.clone(),
            SandboxError::OwnershipViolation { owner } => {
                let mut out = String::from_str("Object owned by ");
                push_id(&mut out, owner.hi, owner.lo);
                out.append(" accessed without owner signature");
                assert(out@ =~= self.text());
                out
            },
            SandboxError::GasObjectNotFound(id) => {
                let mut out = String::from_str("Gas payment object ");
                push_id(&mut out, id.hi, id.lo);
                out.append(" not found");
                assert(out@ =~= self.text());
                out
            },
            SandboxError::ObjectNotFound(id) => {
                let mut out = String::from_str("No object ");
                push_id(&mut out, id.hi, id.lo);
                assert(out@ =~= self.text());
                out
            },
            SandboxError::InvalidInputObjects(why) => why.clone(),
            SandboxError::InvalidGas(why) => why.clone(),
            SandboxError::GasBudgetTooHigh => String::from_str(
                "Gas budget and balance do not fit in 64 bits",
            ),
            SandboxError::NotAPackage(id) => {
                let mut out = String::from_str("Object ");
                push_id(&mut out, id.hi, id.lo);
                out.append(" is not a package");
                assert(out@ =~= self.text());
                out
            },
            SandboxError::ModuleNotFound(name) => {
                let mut out = String::from_str("Module ");
                out.append(name.as_str());
                out.append(" not found in package");
                assert(out@ =~= self.text());
                out
            },
        }
    }
}

} // verus!

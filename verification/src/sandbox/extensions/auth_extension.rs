//! The guard that checks signatures and ownership, and can be switched off.

use crate::base_types::SuiAddress;
use crate::error::SandboxError;
use crate::transaction::Signature;
use vstd::prelude::*;

verus! {

/// Whether signatures and ownership are checked.
#[derive(Clone, Copy, Debug, PartialEq, Eq, Structural)]
pub enum AuthMode {
    Enabled,
    Disabled,
}

/// The guard, with its mode.
pub struct AuthExtension {
    mode: AuthMode,
}

/// Whether one of the signatures is by the account `owner`.
pub open spec fn signed_by(signatures: Seq<Signature>, owner: SuiAddress) -> bool {
    exists|i: int| 0 <= i < signatures.len() && (#[trigger] signatures[i]).signer == Some(owner)
}

impl AuthExtension {
    /// The mode of the guard.
    pub closed spec fn mode(&self) -> AuthMode {
        self.mode
    }

    /// The guard with its mode set to `mode`.
    pub closed spec fn with_mode(self, mode: AuthMode) -> AuthExtension {
        AuthExtension { mode }
    }

    /// The mode decides the guard.
    pub proof fn lemma_with_mode(self, mode: AuthMode)
        ensures
            self.with_mode(mode).mode() == mode,
            self.with_mode(self.mode()) == self,
            self.with_mode(mode).with_mode(self.mode()) == self,
    {
    }

    /// What the check of the signatures of a transaction comes to: nothing
    /// is checked while the guard is off; while it is on, the outcome of the
    /// verification stands, a failure with its reason.
    pub open spec fn transaction_verdict(&self, verification: Result<(), String>) -> Result<
        (),
        SandboxError,
    > {
        match (self.mode(), verification) {
            (AuthMode::Enabled, Err(why)) => Err(SandboxError::InvalidSignature(why)),
            _ => Ok(()),
        }
    }

    /// What the check of the use of an object of `owner` comes to: nothing
    /// is checked while the guard is off; while it is on, the account must be
    /// among the signers.
    pub open spec fn ownership_verdict(&self, owner: SuiAddress, signatures: Seq<Signature>) -> Result<
        (),
        SandboxError,
    > {
        if self.mode() == AuthMode::Enabled && !signed_by(signatures, owner) {
            Err(SandboxError::OwnershipViolation { owner })
        } else {
            Ok(())
        }
    }

    /// A guard that is on.
    pub fn new() -> (r: Self)
        ensures
            r.mode() == AuthMode::Enabled,
    {
        Self { mode: AuthMode::Enabled }
    }

    /// Checks the signatures of a transaction. `verification` is what the
    /// verification of the signed transaction, at the current epoch, came to.
    pub fn verify_transaction(&self, verification: &Result<(), String>) -> (r: Result<
        (),
        SandboxError,
    >)
        ensures
            r is Ok <==> self.transaction_verdict(*verification) is Ok,
            r matches Err(e) ==> self.transaction_verdict(*verification) matches Err(
                SandboxError::InvalidSignature(why),
            ) && e matches SandboxError::InvalidSignature(text) && text@ == why@,
    {
        if self.is_disabled() {
            return Ok(());
        }
        match verification {
            Ok(_) => Ok(()),
            Err(why) => Err(SandboxError::InvalidSignature(why.clone())),
        }
    }

    /// Checks that the account that owns an object is among the signers.
    pub fn verify_object_ownership(&self, object_owner: SuiAddress, signatures: &[Signature]) -> (r:
        Result<(), SandboxError>)
        ensures
            r == self.ownership_verdict(object_owner, signatures@),
    {
        if self.is_disabled() {
            return Ok(());
        }
        let mut authorized = false;
        let mut i: usize = 0;
        while i < signatures.len()
            invariant
                i <= signatures@.len(),
                authorized <==> exists|j: int|
                    0 <= j < i && (#[trigger] signatures@[j]).signer == Some(object_owner),
            decreases signatures@.len() - i,
        {
            match signatures[i].signer {
                Some(addr) => {
                    if addr == object_owner {
                        authorized = true;
                    }
                },
                None => {},
            }
            i += 1;
        }

        if !authorized {
            return Err(SandboxError::OwnershipViolation { owner: object_owner });
        }
        Ok(())
    }

    /// Sets the mode and returns the mode that was set before, so that a
    /// caller can put it back.
    pub fn set_mode(&mut self, mode: AuthMode) -> (prev: AuthMode)
        ensures
            prev == old(self).mode(),
            final(self).mode() == mode,
            *final(self) == old(self).with_mode(mode),
    {
        let prev = self.mode;
        self.mode = mode;

        prev
    }

    pub fn is_disabled(&self) -> (b: bool)
        ensures
            b == (self.mode() == AuthMode::Disabled),
    {
        match self.mode {
            AuthMode::Disabled => true,
            AuthMode::Enabled => false,
        }
    }
}

} // verus!

//! A hook that makes the next transaction fail, once.

use vstd::prelude::*;

verus! {

/// Why a transaction is to be refused.
pub type RejectReason = String;

/// Holds the reason with which the next transaction is to be refused, if
/// one is armed.
pub struct TransactionControlExtension {
    reject: Option<RejectReason>,
}

impl TransactionControlExtension {
    /// The armed reason.
    pub closed spec fn armed(&self) -> Option<RejectReason> {
        self.reject
    }

    pub fn new() -> (r: Self)
        ensures
            r.armed() is None,
    {
        Self { reject: None }
    }

    /// Arms the hook: the next transaction is refused with `reason`.
    pub fn reject_with(&mut self, reason: RejectReason)
        ensures
            final(self).armed() == Some(reason),
    {
        self.reject = Some(reason)
    }

    /// Takes the armed reason, so that it serves once, and hands it to
    /// `on_reject`; does nothing where no reason is armed.
    pub fn reject<T, F: FnOnce(RejectReason) -> T>(&mut self, on_reject: F) -> (r: Option<T>)
        requires
            old(self).armed() matches Some(reason) ==> on_reject.requires((reason,)),
        ensures
            final(self).armed() is None,
            match r {
                Some(t) => old(self).armed() matches Some(reason) && on_reject.ensures((reason,), t),
                None => old(self).armed() is None,
            },
    {
        let reason = self.reject.take();

        match reason {
            Some(reason) => Some(on_reject(reason)),
            None => None,
        }
    }

    /// Takes the armed reason, so that it serves once.
    pub fn take(&mut self) -> (r: Option<RejectReason>)
        ensures
            final(self).armed() is None,
            r == old(self).armed(),
    {
        self.reject.take()
    }
}

impl Default for TransactionControlExtension {
    fn default() -> (r: Self)
        ensures
            r.armed() is None,
    {
        Self::new()
    }
}

} // verus!

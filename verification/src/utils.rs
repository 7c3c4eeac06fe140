//! Helpers that build responses.

use crate::collections::seq_view;
use crate::rpc_types::{TransactionBlockResponse, TransactionBlockResponseView};
use crate::transaction::TransactionData;
use vstd::prelude::*;

verus! {

/// The response to a transaction that was refused before it was executed:
/// it names the transaction and the errors, and reports nothing else.
pub open spec fn error_response(tx: TransactionData, errors: Seq<Seq<char>>) -> TransactionBlockResponseView {
    TransactionBlockResponseView {
        digest: tx.digest,
        raw_transaction: tx.raw@,
        effects: None,
        events: None,
        object_changes: None,
        balance_changes: None,
        timestamp_ms: None,
        confirmed_local_execution: None,
        checkpoint: None,
        errors,
        raw_effects: Seq::empty(),
    }
}

/// Builds the response to a transaction that was refused with `errors`.
pub fn response_from_errors(tx_data: &TransactionData, errors: Vec<String>) -> (r:
    TransactionBlockResponse)
    ensures
        r@ == error_response(*tx_data, seq_view(errors@)),
{
    let raw_transaction = tx_data.raw.clone();
    assert(raw_transaction@ =~= tx_data.raw@);
    TransactionBlockResponse {
        digest: tx_data.digest(),
        raw_transaction,
        effects: None,
        events: None,
        object_changes: None,
        balance_changes: None,
        timestamp_ms: None,
        confirmed_local_execution: None,
        checkpoint: None,
        errors,
        raw_effects: Vec::new(),
    }
}

} // verus!

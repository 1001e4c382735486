use vstd::prelude::*;

verus! {

/// Every failure the core can report.
///
/// Validation errors (`AssetCountMismatch`, `InsufficientAttachedValue`,
/// `SelfTransferDisallowed`) and ledger invariant errors (`NotRegistered`,
/// `AlreadyRegistered`, `InsufficientBalance`, `Overflow`) are returned
/// synchronously, before any external call is issued and with no state
/// mutated. `SlippageViolated` surfaces only inside the result aggregator,
/// after the swap calls have already run.
#[derive(Clone, Copy, Debug, PartialEq, Eq, Structural)]
pub enum ContractError {
    AlreadyRegistered,
    NotRegistered,
    InsufficientBalance,
    Overflow,
    SelfTransferDisallowed,
    AssetCountMismatch,
    InsufficientAttachedValue,
    SlippageViolated,
}

} // verus!

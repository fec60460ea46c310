//! The error taxonomy shared by all three contracts.

use vstd::prelude::*;

verus! {

/// Why a contract call was rejected.  Every failing operation returns one of
/// these and leaves the contract state exactly as it was.
#[derive(Clone, Copy, Debug, PartialEq, Eq, Structural)]
pub enum RegistryError {
    /// The required principal did not authorize the call, or is not the one
    /// the operation is reserved for.
    NotAuthorized,
    /// A logged action's total amount was not strictly positive.
    InvalidAmount,
    /// An address argument was unusable.
    InvalidAddress,
    /// A lookup by ID, name or address found nothing, or the contract has no
    /// configuration yet.
    RecordNotFound,
    /// The registry is paused and rejects its primary logging operation.
    ContractPaused,
    /// A fee rate above the 10000 basis-point ceiling.
    InvalidFeeRate,
    /// The one-shot initialization was attempted a second time.
    AlreadyInitialized,
    /// A royalty rate above the 10000 basis-point ceiling.
    RoyaltyExceeded,
}

} // verus!

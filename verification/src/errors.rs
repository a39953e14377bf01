use vstd::prelude::*;

verus! {

/// The failure modes of the vesting ledger and the release calculator.
///
/// Every failed operation leaves the ledger unchanged; no error is retried
/// internally.
#[derive(Clone, Copy, Debug, PartialEq, Eq, Structural)]
pub enum VestingError {
    /// Malformed argument: an empty or oversized company name, or a negative
    /// amount.
    InvalidInput,
    /// The schedule does not satisfy `start_time <= cliff_time <= end_time`.
    InvalidSchedule,
    /// The requester is not the owner of the config.
    Unauthorized,
    /// A config with the same company name already exists.
    DuplicateConfig,
    /// A grant for the same (config, beneficiary) pair already exists.
    DuplicateGrant,
    /// No record exists under the given identifier.
    NotFound,
    /// The requested amount exceeds what is currently withdrawable.
    InsufficientUnlocked,
}

} // verus!

//! A token-vesting core: a ledger of company vesting configs and employee
//! grants, and a deterministic release calculator over them.
//!
//! The ledger stores one config per company name and one grant per
//! (config, beneficiary) pair, with identity-gated creation. The calculator
//! is a pure function of a grant and a caller-supplied timestamp: nothing is
//! unlocked before the cliff, everything after the end, and in between the
//! unlocked amount grows linearly with elapsed time. Withdrawals are checked
//! against the unlocked-minus-withdrawn ceiling and recorded atomically.

pub mod calculator;
pub mod errors;
pub mod ledger;
pub mod records;

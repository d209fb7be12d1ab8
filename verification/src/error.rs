//! The error taxonomy: every failure an operation can signal, one variant per
//! cause, so a caller can always tell why an operation was refused.

use vstd::prelude::*;

verus! {

/// Why an operation was refused.
///
/// Authorization: `Unauthorized`. Phase: `ProposalPeriodExpired`,
/// `VotingPeriodExpired`, `VotingPeriodNotExpired`. Funds validation:
/// `ExpectedCoinNotSent`, `MultipleCoinsSent`, `WrongFundCoin`. Lookup:
/// `ProposalNotFound`. Vote integrity: `AddressAlreadyVotedProject`.
/// Algorithm precondition: `CLRConstrainRequired` (no budget ceiling, or an
/// empty support base). Internal: `Overflow` (an amount no longer fits the
/// arithmetic width; the operation aborts with no partial write).
#[derive(Clone, Debug, PartialEq, Eq)]
pub enum ContractError {
    Unauthorized,
    ProposalPeriodExpired,
    VotingPeriodExpired,
    VotingPeriodNotExpired,
    ExpectedCoinNotSent,
    MultipleCoinsSent,
    WrongFundCoin { expected: Vec<u8>, got: Vec<u8> },
    ProposalNotFound,
    AddressAlreadyVotedProject,
    CLRConstrainRequired,
    Overflow,
}

} // verus!

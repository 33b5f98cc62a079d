use vstd::prelude::*;

verus! {

/// Every fault an operation of this library can report.
///
/// Validation faults (`InvalidPercentage`, `NotMultipleOfGranularity`,
/// `InvalidEpochsToReduce`, `UnknownTokenNonce`, `ZeroAmount`) reject
/// malformed input; state-precondition faults (`TokenUnlockable`,
/// `NoTokensAfterPenalty`, `InvalidWeek`, `WeekNotYetClaimable`, `NoEnergy`,
/// `NoPendingFees`, `NoCollectorAddress`, `NotContractAddress`) reject an
/// operation the current state does not allow; `CorruptedEnergyState`
/// signals an internal accounting invariant violation and is never
/// recoverable;
/// `AmountOverflow` signals that a computed value exceeds what the fixed
/// machine integers of this library can hold. In every case the operation
/// aborts with no state change.
#[derive(Clone, Copy, Debug, PartialEq, Eq, Structural)]
pub enum Error {
    InvalidPercentage,
    NotMultipleOfGranularity,
    InvalidEpochsToReduce,
    UnknownTokenNonce,
    ZeroAmount,
    TokenUnlockable,
    NoTokensAfterPenalty,
    InvalidWeek,
    WeekNotYetClaimable,
    NoEnergy,
    NoPendingFees,
    NoCollectorAddress,
    NotContractAddress,
    CorruptedEnergyState,
    AmountOverflow,
}

} // verus!

use vstd::prelude::*;

verus! {

/// Terminal validation and state errors of the staking engine.
/// Every failed call returns exactly one of these and leaves all
/// records unchanged.
#[derive(Clone, Copy, Debug, PartialEq, Eq, Structural)]
pub enum PapayaError {
    /// No active stake in the addressed slot.
    NoDeposits,
    /// Amount is zero or outside the accepted deposit range.
    InvalidAmount,
    /// Slot or partition index out of range.
    OutOfRange,
    /// The vault pool was already initialized.
    AlreadyExists,
    /// Caller balance is smaller than the requested amount.
    InsufficientFunds,
    /// The addressed slot already holds an active stake.
    AlreadyStaked,
    /// Partition capacity cannot fund the reward gain.
    EmptyVault,
    /// The clock reported a negative timestamp.
    TimeConversionError,
    /// An arithmetic step would overflow or underflow.
    MathOverflow,
    /// Supplied custodial account does not match the derived address.
    InvalidVaultAccount,
}

} // verus!

use vstd::prelude::*;

verus! {

/// Failures specific to the wallet program.
#[derive(Clone, Copy, Debug, PartialEq, Eq, Structural)]
pub enum KryptonError {
    NotWriteable,
    NoAccountLength,
    NonZeroData,
    NotSigner,
    InvalidSysProgram,
    TooManyGuardians,
    NotEnoughGuardians,
    NotEnoughAccounts,
    GuardianNotFound,
    MissingGuardianSignatures,
    InvalidRecoveryThreshold,
    InvalidAuthority,
    NotAuthorizedToRecover,
    MissingRecoveredAccounts,
    InsufficientFundsForTransaction,
    Overflow,
    InvalidAccountAddress,
    InvalidDateTime,
    TargetAccountNotFound,
    InvalidGuardTarget,
    GuardContextNotFound,
    ArithmeticOverflow,
}

} // verus!

verus! {

/// Why an instruction was refused.
#[derive(Clone, Copy, Debug, PartialEq, Eq, Structural)]
pub enum WalletError {
    /// A failure of this program.
    Custom(KryptonError),
    /// An account is not at the address derived for it.
    InvalidSeeds,
    /// Stored bytes do not hold a valid record.
    InvalidAccountData,
    /// A record does not fit the account's buffer.
    AccountDataTooSmall,
    /// One account is passed in two roles that must be distinct.
    InvalidArgument,
}

} // verus!

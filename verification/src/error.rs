//! The reasons for which an operation is refused.

use vstd::prelude::*;

verus! {

/// Why an operation was refused. Every refusal ends the operation: nothing is
/// stored and no token movement is ordered.
#[derive(Clone, Copy, Debug, PartialEq, Eq, Structural)]
pub enum PerpetualSwapError {
    /// The instruction bytes name no operation, or are too short for it.
    InvalidInstruction,
    /// The swap, or one of its margin accounts, is already set up.
    AlreadyInUse,
    /// The swap record holds too few lamports to be exempt from rent.
    NotRentExempt,
    /// The authority supplied is not the one derived from the swap identity
    /// and the nonce.
    InvalidAuthority,
    /// The token program supplied, or the owner of a token account, is not the
    /// token program that the swap is bound to.
    IncorrectCustodyIdentity,
    /// The accounts supplied are not those that the swap records, or a
    /// set-up names one account as both margin accounts.
    InvalidAccountKeys,
    /// The incoming holder's account holds another mint than the outgoing one.
    InvalidMints,
    /// The margin left would be under the minimum.
    WouldBeLiquidated,
    /// The margin offered for a position is under the minimum.
    InsufficientMargin,
    /// An account holds less than the operation needs.
    InsufficientFunds,
    /// The margin of the account is still above the minimum.
    DoesNotNeedLiquidation,
    /// The funding settlement comes before the reference time, or too soon
    /// after it.
    InvalidTransferTime,
    /// One side of the swap has not been funded yet.
    AccountNotInitialized,
    /// The account data is not that of a token account in use.
    ExpectedAccount,
    /// The account data is not that of a mint in use.
    ExpectedMint,
    /// No program address exists for the seeds.
    InvalidProgramAddress,
    /// Fewer accounts were supplied than the operation reads.
    NotEnoughAccountKeys,
    /// The account data is not a swap record, or not a token account.
    InvalidAccountData,
    /// The swap record is owned by another program, or the token program is
    /// not the one that the instruction builder knows.
    IncorrectProgramId,
}

} // verus!

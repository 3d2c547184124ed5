//! The operations of the swap and their wire format: one tag byte, then the
//! fields of the operation, each little-endian and of fixed width.

use crate::double::Double;
use crate::error::PerpetualSwapError;
use crate::traits::ByteDeserialize;
use vstd::bytes::spec_u128_from_le_bytes;
use vstd::bytes::spec_u64_from_le_bytes;
use vstd::prelude::*;
use vstd::slice::slice_subrange;

verus! {

/// An operation on a swap.
#[derive(Clone, Copy, Debug, PartialEq, Eq, Structural)]
pub enum PerpetualSwapInstruction {
    /// Binds a fresh swap record to its authority, its two margin accounts and
    /// its token program, and stores the terms of the swap.
    ///
    /// Accounts: the swap record, the swap authority, the long margin account,
    /// the short margin account, the mint, the rent sysvar, the token program.
    InitializePerpetualSwap {
        nonce: u8,
        funding_rate: Double,
        minimum_margin: Double,
        liquidation_bounty: Double,
        minimum_funding_period: u128,
    },
    /// Funds one side for the first time.
    ///
    /// Accounts: the swap record, the swap authority, the transfer authority,
    /// the account that pays, the margin account, the token program.
    InitializeSide { amount_to_deposit: u64 },
    /// Adds to the margin of one side.
    ///
    /// Accounts: the swap record, the swap authority, the transfer authority,
    /// the account that pays, the margin account, the token program.
    DepositToMargin { amount_to_deposit: u64 },
    /// Takes from the margin of one side.
    ///
    /// Accounts: the swap record, the swap authority, the transfer authority,
    /// the margin account, the account that receives, the token program.
    WithdrawFromMargin { amount_to_withdraw: u64 },
    /// Hands the long position to a new holder.
    ///
    /// Accounts: the swap record, the swap authority, the transfer authority,
    /// the long margin account, the account of the holder who leaves, the
    /// account of the holder who comes, the token program.
    TransferLong { amount: u64 },
    /// Hands the short position to a new holder.
    ///
    /// Accounts: the swap record, the swap authority, the transfer authority,
    /// the short margin account, the account of the holder who leaves, the
    /// account of the holder who comes, the token program.
    TransferShort { amount: u64 },
    /// Liquidates a margin account that has fallen to the minimum margin.
    ///
    /// Accounts: the swap record, the swap authority, the transfer authority,
    /// the margin account to liquidate, the liquidator's account, the
    /// insurance fund, the token program.
    TryToLiquidate { collateral: u64 },
    /// Settles the funding payment between the two margin accounts.
    ///
    /// Accounts: the swap record, the swap authority, the transfer authority,
    /// the long margin account, the short margin account, the token program.
    TransferFunds,
    /// Replaces the stored index and mark prices.
    ///
    /// Accounts: the swap record, the swap authority, the token program.
    UpdatePrices { index_price: Double, mark_price: Double },
}

/// The 64-bit field that starts at `at`.
pub open spec fn u64_at(input: Seq<u8>, at: int) -> u64 {
    spec_u64_from_le_bytes(input.subrange(at, at + 8))
}

/// The double whose bits are the 64-bit field that starts at `at`.
pub open spec fn double_at(input: Seq<u8>, at: int) -> Double {
    Double { bits: u64_at(input, at) }
}

/// The 128-bit field that starts at `at`.
pub open spec fn u128_at(input: Seq<u8>, at: int) -> u128 {
    spec_u128_from_le_bytes(input.subrange(at, at + 16))
}

/// The operation that a byte buffer encodes. Bytes after the last field are
/// not read. The two position transfers have no tag.
pub open spec fn decoded(input: Seq<u8>) -> Result<PerpetualSwapInstruction, PerpetualSwapError> {
    if input.len() == 0 {
        Err(PerpetualSwapError::InvalidInstruction)
    } else if input[0] == 0 && input.len() >= 42 {
        Ok(
            PerpetualSwapInstruction::InitializePerpetualSwap {
                nonce: input[1],
                funding_rate: double_at(input, 2),
                minimum_margin: double_at(input, 10),
                liquidation_bounty: double_at(input, 18),
                minimum_funding_period: u128_at(input, 26),
            },
        )
    } else if input[0] == 1 && input.len() >= 9 {
        Ok(PerpetualSwapInstruction::InitializeSide { amount_to_deposit: u64_at(input, 1) })
    } else if input[0] == 2 && input.len() >= 9 {
        Ok(PerpetualSwapInstruction::DepositToMargin { amount_to_deposit: u64_at(input, 1) })
    } else if input[0] == 3 && input.len() >= 9 {
        Ok(PerpetualSwapInstruction::WithdrawFromMargin { amount_to_withdraw: u64_at(input, 1) })
    } else if input[0] == 4 && input.len() >= 9 {
        Ok(PerpetualSwapInstruction::TryToLiquidate { collateral: u64_at(input, 1) })
    } else if input[0] == 5 {
        Ok(PerpetualSwapInstruction::TransferFunds)
    } else if input[0] == 6 && input.len() >= 17 {
        Ok(
            PerpetualSwapInstruction::UpdatePrices {
                index_price: double_at(input, 1),
                mark_price: double_at(input, 9),
            },
        )
    } else {
        Err(PerpetualSwapError::InvalidInstruction)
    }
}

impl PerpetualSwapInstruction {
    /// Decodes a byte buffer into an operation.
    pub fn unpack(input: &[u8]) -> (r: Result<PerpetualSwapInstruction, PerpetualSwapError>)
        ensures
            r == decoded(input@),
    {
        let n: usize = input.len();
        if n == 0 {
            return Err(PerpetualSwapError::InvalidInstruction);
        }
        let tag: u8 = input[0];
        let rest = slice_subrange(input, 1, n);
        if tag == 0 {
            if rest.len() == 0 {
                return Err(PerpetualSwapError::InvalidInstruction);
            }
            let nonce: u8 = rest[0];
            let rest = slice_subrange(rest, 1, rest.len());
            let (funding_rate, rest) = match Self::unpack_fn::<Double>(rest) {
                Ok(pair) => pair,
                Err(e) => return Err(e),
            };
            let (minimum_margin, rest) = match Self::unpack_fn::<Double>(rest) {
                Ok(pair) => pair,
                Err(e) => return Err(e),
            };
            let (liquidation_bounty, rest) = match Self::unpack_fn::<Double>(rest) {
                Ok(pair) => pair,
                Err(e) => return Err(e),
            };
            let (minimum_funding_period, _rest) = match Self::unpack_fn::<u128>(rest) {
                Ok(pair) => pair,
                Err(e) => return Err(e),
            };
            proof {
                let s = input@;
                assert(s.subrange(1, n as int).subrange(1, n - 1).subrange(0, 8) =~= s.subrange(
                    2,
                    10,
                ));
                assert(s.subrange(1, n as int).subrange(1, n - 1).subrange(8, n - 2).subrange(0, 8)
                    =~= s.subrange(10, 18));
                assert(s.subrange(1, n as int).subrange(1, n - 1).subrange(8, n - 2).subrange(
                    8,
                    n - 10,
                ).subrange(0, 8) =~= s.subrange(18, 26));
                assert(s.subrange(1, n as int).subrange(1, n - 1).subrange(8, n - 2).subrange(
                    8,
                    n - 10,
                ).subrange(8, n - 18).subrange(0, 16) =~= s.subrange(26, 42));
            }
            Ok(
                PerpetualSwapInstruction::InitializePerpetualSwap {
                    nonce,
                    funding_rate,
                    minimum_margin,
                    liquidation_bounty,
                    minimum_funding_period,
                },
            )
        } else if tag == 5 {
            Ok(PerpetualSwapInstruction::TransferFunds)
        } else if tag == 6 {
            let (index_price, rest) = match Self::unpack_fn::<Double>(rest) {
                Ok(pair) => pair,
                Err(e) => return Err(e),
            };
            let (mark_price, _rest) = match Self::unpack_fn::<Double>(rest) {
                Ok(pair) => pair,
                Err(e) => return Err(e),
            };
            proof {
                let s = input@;
                assert(s.subrange(1, n as int).subrange(0, 8) =~= s.subrange(1, 9));
                assert(s.subrange(1, n as int).subrange(8, n - 1).subrange(0, 8) =~= s.subrange(
                    9,
                    17,
                ));
            }
            Ok(PerpetualSwapInstruction::UpdatePrices { index_price, mark_price })
        } else if 1 <= tag && tag <= 4 {
            let (amount, _rest) = match Self::unpack_fn::<u64>(rest) {
                Ok(pair) => pair,
                Err(e) => return Err(e),
            };
            proof {
                let s = input@;
                assert(s.subrange(1, n as int).subrange(0, 8) =~= s.subrange(1, 9));
            }
            if tag == 1 {
                Ok(PerpetualSwapInstruction::InitializeSide { amount_to_deposit: amount })
            } else if tag == 2 {
                Ok(PerpetualSwapInstruction::DepositToMargin { amount_to_deposit: amount })
            } else if tag == 3 {
                Ok(PerpetualSwapInstruction::WithdrawFromMargin { amount_to_withdraw: amount })
            } else {
                Ok(PerpetualSwapInstruction::TryToLiquidate { collateral: amount })
            }
        } else {
            Err(PerpetualSwapError::InvalidInstruction)
        }
    }

    /// Reads one field from the front of `input` and hands back the field and
    /// the bytes after it.
    pub fn unpack_fn<T: ByteDeserialize>(input: &[u8]) -> (r: Result<
        (T, &[u8]),
        PerpetualSwapError,
    >)
        ensures
            input@.len() < T::width() ==> r == Err::<(T, &[u8]), _>(
                PerpetualSwapError::InvalidInstruction,
            ),
            input@.len() >= T::width() ==> r is Ok && r->Ok_0.0 == T::decoded(
                input@.subrange(0, T::width() as int),
            ) && r->Ok_0.1@ == input@.subrange(T::width() as int, input@.len() as int),
    {
        let width: usize = T::get_bytes();
        if input.len() >= width {
            let field = slice_subrange(input, 0, width);
            let rest = slice_subrange(input, width, input.len());
            Ok((T::from_le_bytes(field), rest))
        } else {
            Err(PerpetualSwapError::InvalidInstruction)
        }
    }
}

} // verus!

//! What each operation decides: for every input, either the reason for which
//! it is refused or the record to store and the instructions to invoke.
//!
//! An operation reads its accounts by position. The swap record is always the
//! first account, the swap authority the second and the token program the
//! last. Checks are made in the order in which they are written here, and the
//! first that fails refuses the operation: the caller first, then the
//! accounts that the operation names, then what the operation asks of the
//! swap and of the balances, and last what the host and the token program
//! ask, that the program owns the record and that the token program is the
//! one whose instructions are built here.

use crate::account::AccountInfo;
use crate::account::AuthoritySeeds;
use crate::account::Effects;
use crate::account::EffectsView;
use crate::account::InvocationView;
use crate::authority::is_authority;
use crate::double::Double;
use crate::error::PerpetualSwapError;
use crate::instruction::PerpetualSwapInstruction;
use crate::margin::bounty_of;
use crate::margin::funding_payment_of;
use crate::margin::long_pays;
use crate::margin::margin_over;
use crate::margin::margin_under;
use crate::pubkey::Pubkey;
use crate::state::decoded;
use crate::state::SwapView;
use crate::token::account_in_use;
use crate::token::account_layout;
use crate::token::initialize_account_instruction;
use crate::token::spl_token_program;
use crate::token::transfer_instruction;
use vstd::bytes::spec_u64_from_le_bytes;
use vstd::prelude::*;

verus! {

/// What a call returns, with the effects taken by their content.
pub open spec fn outcome(r: Result<Effects, PerpetualSwapError>) -> Result<
    EffectsView,
    PerpetualSwapError,
> {
    match r {
        Ok(effects) => Ok(effects@),
        Err(e) => Err(e),
    }
}

/// The record that an operation on a set-up swap works on, or why the call is
/// refused before the operation looks at anything else: too few accounts, a
/// first account that stores no record, an authority that is not the one
/// derived from the swap identity and the stored nonce, a token program other
/// than the stored one.
pub open spec fn admitted(program: Pubkey, accounts: Seq<AccountInfo>, needed: int) -> Result<
    SwapView,
    PerpetualSwapError,
> {
    if accounts.len() < needed {
        Err(PerpetualSwapError::NotEnoughAccountKeys)
    } else if decoded(accounts[0].data@).is_none() {
        Err(PerpetualSwapError::InvalidAccountData)
    } else {
        let swap = decoded(accounts[0].data@).unwrap();
        if !is_authority(program@, accounts[0].key@, swap.nonce, accounts[1].key@) {
            Err(PerpetualSwapError::InvalidAuthority)
        } else if accounts[needed - 1].key@ != swap.token_program_id {
            Err(PerpetualSwapError::IncorrectCustodyIdentity)
        } else {
            Ok(swap)
        }
    }
}

/// Whether the program owns the swap record. An operation that passes every
/// other check of its own is refused if it does not.
pub open spec fn owns_record(program: Pubkey, accounts: Seq<AccountInfo>) -> bool {
    accounts[0].owner@ == program@
}

/// Why an account is not read as a token account of the token program
/// `custody`, if it is not.
pub open spec fn token_account_error(account: AccountInfo, custody: Seq<u8>) -> Option<
    PerpetualSwapError,
> {
    if account.owner@ != custody {
        Some(PerpetualSwapError::IncorrectCustodyIdentity)
    } else if !account_in_use(account.data@) {
        Some(PerpetualSwapError::ExpectedAccount)
    } else {
        None
    }
}

/// The tokens that a token account holds.
pub open spec fn balance_of(account: AccountInfo) -> u64 {
    spec_u64_from_le_bytes(account.data@.subrange(64, 72))
}

/// The mint of a token account.
pub open spec fn mint_of(account: AccountInfo) -> Seq<u8> {
    account.data@.subrange(0, 32)
}

/// Whether the margin account and the holder's account are those of the long
/// side.
pub open spec fn is_long_pair(swap: SwapView, margin: Seq<u8>, holder: Seq<u8>) -> bool {
    margin == swap.long_margin_pubkey && holder == swap.long_account_pubkey
}

/// Whether the margin account and the holder's account are those of the short
/// side.
pub open spec fn is_short_pair(swap: SwapView, margin: Seq<u8>, holder: Seq<u8>) -> bool {
    margin == swap.short_margin_pubkey && holder == swap.short_account_pubkey
}

/// Whether the margin account and the holder's account are those of exactly
/// one side.
pub open spec fn is_one_pair(swap: SwapView, margin: Seq<u8>, holder: Seq<u8>) -> bool {
    is_long_pair(swap, margin, holder) != is_short_pair(swap, margin, holder)
}

/// Whether the account is the margin account of exactly one side.
pub open spec fn is_one_margin(swap: SwapView, margin: Seq<u8>) -> bool {
    (margin == swap.long_margin_pubkey) != (margin == swap.short_margin_pubkey)
}

/// The transfer of `amount` tokens from the account at `from` to the account
/// at `to`, under the transfer authority (the third account) and signed for
/// the swap authority. The token program is the account at `custody`.
pub open spec fn swap_transfer(
    accounts: Seq<AccountInfo>,
    swap: SwapView,
    custody: int,
    from: int,
    to: int,
    amount: u64,
) -> InvocationView {
    InvocationView {
        instruction: transfer_instruction(
            accounts[custody].key,
            accounts[from].key,
            accounts[to].key,
            accounts[2].key,
            amount,
        ),
        seeds: Some(AuthoritySeeds { swap: accounts[0].key, nonce: swap.nonce }),
    }
}

/// The record after `holder` has funded a side.
pub open spec fn side_initialized(swap: SwapView, long: bool, holder: Seq<u8>, now: u128) -> SwapView {
    let funded = if long {
        SwapView { long_account_pubkey: holder, is_long_initialized: true, ..swap }
    } else {
        SwapView { short_account_pubkey: holder, is_short_initialized: true, ..swap }
    };
    if funded.is_initialized() {
        SwapView { reference_time: now, ..funded }
    } else {
        funded
    }
}

/// Setting up a swap. Accounts: the swap record, the swap authority, the long
/// margin account, the short margin account, the mint, the rent sysvar, the
/// token program. `rent_exempt` says whether the lamports of the record
/// exempt it from rent. The two margin accounts are two accounts. Terms of
/// which one is a NaN cannot be stored, and are refused.
pub open spec fn initialize_perpetual_swap(
    program: Pubkey,
    nonce: u8,
    funding_rate: Double,
    minimum_margin: Double,
    liquidation_bounty: Double,
    minimum_funding_period: u128,
    accounts: Seq<AccountInfo>,
    rent_exempt: bool,
) -> Result<EffectsView, PerpetualSwapError> {
    if accounts.len() < 7 {
        Err(PerpetualSwapError::NotEnoughAccountKeys)
    } else if decoded(accounts[0].data@).is_none() {
        Err(PerpetualSwapError::InvalidAccountData)
    } else if !is_authority(program@, accounts[0].key@, nonce, accounts[1].key@) {
        Err(PerpetualSwapError::InvalidAuthority)
    } else if accounts[2].key@ == accounts[3].key@ {
        Err(PerpetualSwapError::InvalidAccountKeys)
    } else if decoded(accounts[0].data@).unwrap().is_initialized() {
        Err(PerpetualSwapError::AlreadyInUse)
    } else if !rent_exempt {
        Err(PerpetualSwapError::NotRentExempt)
    } else if !account_layout(accounts[2].data@) {
        Err(PerpetualSwapError::InvalidAccountData)
    } else if accounts[2].data@[108] != 0 {
        Err(PerpetualSwapError::AlreadyInUse)
    } else if !account_layout(accounts[3].data@) {
        Err(PerpetualSwapError::InvalidAccountData)
    } else if accounts[3].data@[108] != 0 {
        Err(PerpetualSwapError::AlreadyInUse)
    } else if accounts[6].key != spl_token_program() {
        Err(PerpetualSwapError::IncorrectProgramId)
    } else if funding_rate.nan() || minimum_margin.nan() || liquidation_bounty.nan() {
        Err(PerpetualSwapError::InvalidAccountData)
    } else {
        Ok(
            EffectsView {
                swap: SwapView {
                    is_long_initialized: false,
                    is_short_initialized: false,
                    nonce,
                    token_program_id: accounts[6].key@,
                    long_margin_pubkey: accounts[2].key@,
                    short_margin_pubkey: accounts[3].key@,
                    minimum_margin,
                    liquidation_bounty,
                    funding_rate,
                    minimum_funding_period,
                    ..decoded(accounts[0].data@).unwrap()
                },
                invocations: seq![
                    token_account_setup(accounts, 0),
                    token_account_setup(accounts, 2),
                    token_account_setup(accounts, 3),
                ],
            },
        )
    }
}

/// The set-up of the account at `at` as a token account of the mint (the fifth
/// account) that the swap authority (the second) owns.
pub open spec fn token_account_setup(accounts: Seq<AccountInfo>, at: int) -> InvocationView {
    InvocationView {
        instruction: initialize_account_instruction(
            accounts[6].key,
            accounts[at].key,
            accounts[4].key,
            accounts[1].key,
        ),
        seeds: None,
    }
}

/// Funding a side for the first time. Accounts: the swap record, the swap
/// authority, the transfer authority, the account that pays, the margin
/// account, the token program.
pub open spec fn initialize_side(
    program: Pubkey,
    amount: u64,
    accounts: Seq<AccountInfo>,
    now: u128,
) -> Result<EffectsView, PerpetualSwapError> {
    match admitted(program, accounts, 6) {
        Err(e) => Err(e),
        Ok(swap) => {
            if !is_one_margin(swap, accounts[4].key@) {
                Err(PerpetualSwapError::InvalidAccountKeys)
            } else if let Some(e) = token_account_error(accounts[3], swap.token_program_id) {
                Err(e)
            } else if margin_under(amount as u128, swap.mark_price, swap.minimum_margin) {
                Err(PerpetualSwapError::WouldBeLiquidated)
            } else if balance_of(accounts[3]) < amount {
                Err(PerpetualSwapError::InsufficientFunds)
            } else if !owns_record(program, accounts) {
                Err(PerpetualSwapError::IncorrectProgramId)
            } else if accounts[5].key != spl_token_program() {
                Err(PerpetualSwapError::IncorrectProgramId)
            } else {
                Ok(
                    EffectsView {
                        swap: side_initialized(
                            swap,
                            accounts[4].key@ == swap.long_margin_pubkey,
                            accounts[3].key@,
                            now,
                        ),
                        invocations: seq![swap_transfer(accounts, swap, 5, 3, 4, amount)],
                    },
                )
            }
        },
    }
}

/// Adding to a margin, if the margin with the deposit is not under the
/// minimum. Accounts: the swap record, the swap authority, the transfer
/// authority, the holder's account, which pays, the margin account, the
/// token program.
pub open spec fn deposit_to_margin(program: Pubkey, amount: u64, accounts: Seq<AccountInfo>) -> Result<
    EffectsView,
    PerpetualSwapError,
> {
    match admitted(program, accounts, 6) {
        Err(e) => Err(e),
        Ok(swap) => {
            if !is_one_pair(swap, accounts[4].key@, accounts[3].key@) {
                Err(PerpetualSwapError::InvalidAccountKeys)
            } else if let Some(e) = token_account_error(accounts[3], swap.token_program_id) {
                Err(e)
            } else if let Some(e) = token_account_error(accounts[4], swap.token_program_id) {
                Err(e)
            } else if balance_of(accounts[3]) < amount {
                Err(PerpetualSwapError::InsufficientFunds)
            } else if margin_under(
                (balance_of(accounts[4]) + amount) as u128,
                swap.mark_price,
                swap.minimum_margin,
            ) {
                Err(PerpetualSwapError::WouldBeLiquidated)
            } else if !owns_record(program, accounts) {
                Err(PerpetualSwapError::IncorrectProgramId)
            } else if accounts[5].key != spl_token_program() {
                Err(PerpetualSwapError::IncorrectProgramId)
            } else {
                Ok(
                    EffectsView {
                        swap,
                        invocations: seq![swap_transfer(accounts, swap, 5, 3, 4, amount)],
                    },
                )
            }
        },
    }
}

/// Taking from a margin, if the margin that is left is not under the
/// minimum. Accounts: the swap record, the swap authority, the transfer
/// authority, the margin account, the holder's account, which receives, the
/// token program.
pub open spec fn withdraw_from_margin(program: Pubkey, amount: u64, accounts: Seq<AccountInfo>) -> Result<
    EffectsView,
    PerpetualSwapError,
> {
    match admitted(program, accounts, 6) {
        Err(e) => Err(e),
        Ok(swap) => {
            if !is_one_pair(swap, accounts[3].key@, accounts[4].key@) {
                Err(PerpetualSwapError::InvalidAccountKeys)
            } else if let Some(e) = token_account_error(accounts[3], swap.token_program_id) {
                Err(e)
            } else if balance_of(accounts[3]) < amount {
                Err(PerpetualSwapError::InsufficientFunds)
            } else if margin_under(
                (balance_of(accounts[3]) - amount) as u128,
                swap.mark_price,
                swap.minimum_margin,
            ) {
                Err(PerpetualSwapError::WouldBeLiquidated)
            } else if !owns_record(program, accounts) {
                Err(PerpetualSwapError::IncorrectProgramId)
            } else if accounts[5].key != spl_token_program() {
                Err(PerpetualSwapError::IncorrectProgramId)
            } else {
                Ok(
                    EffectsView {
                        swap,
                        invocations: seq![swap_transfer(accounts, swap, 5, 3, 4, amount)],
                    },
                )
            }
        },
    }
}

/// Handing a position to a new holder, who buys the old holder out: the whole
/// margin goes to the holder who leaves, and the holder who comes pays
/// `margin_amount` into the margin account. Accounts: the swap record, the
/// swap authority, the transfer authority, the margin account of the side,
/// the account of the holder who leaves, the account of the holder who comes,
/// the token program.
pub open spec fn transfer_position(
    program: Pubkey,
    long: bool,
    margin_amount: u64,
    accounts: Seq<AccountInfo>,
) -> Result<EffectsView, PerpetualSwapError> {
    match admitted(program, accounts, 7) {
        Err(e) => Err(e),
        Ok(swap) => {
            let recorded = if long {
                is_long_pair(swap, accounts[3].key@, accounts[4].key@)
            } else {
                is_short_pair(swap, accounts[3].key@, accounts[4].key@)
            };
            if !recorded {
                Err(PerpetualSwapError::InvalidAccountKeys)
            } else if !swap.is_initialized() {
                Err(PerpetualSwapError::AccountNotInitialized)
            } else if let Some(e) = token_account_error(accounts[3], swap.token_program_id) {
                Err(e)
            } else if let Some(e) = token_account_error(accounts[4], swap.token_program_id) {
                Err(e)
            } else if let Some(e) = token_account_error(accounts[5], swap.token_program_id) {
                Err(e)
            } else if mint_of(accounts[4]) != mint_of(accounts[5]) {
                Err(PerpetualSwapError::InvalidMints)
            } else if margin_under(margin_amount as u128, swap.mark_price, swap.minimum_margin) {
                Err(PerpetualSwapError::InsufficientMargin)
            } else if !owns_record(program, accounts) {
                Err(PerpetualSwapError::IncorrectProgramId)
            } else if accounts[6].key != spl_token_program() {
                Err(PerpetualSwapError::IncorrectProgramId)
            } else {
                Ok(
                    EffectsView {
                        swap: if long {
                            SwapView { long_account_pubkey: accounts[5].key@, ..swap }
                        } else {
                            SwapView { short_account_pubkey: accounts[5].key@, ..swap }
                        },
                        invocations: seq![
                            swap_transfer(accounts, swap, 6, 3, 4, balance_of(accounts[3])),
                            swap_transfer(accounts, swap, 6, 5, 3, margin_amount),
                        ],
                    },
                )
            }
        },
    }
}

/// Whether the fourth and the fifth account are the long and the short
/// margin account of the swap.
pub open spec fn names_both_margins(swap: SwapView, accounts: Seq<AccountInfo>) -> bool {
    accounts[3].key@ == swap.long_margin_pubkey && accounts[4].key@ == swap.short_margin_pubkey
}

/// Settling the funding at the time `now`. Accounts: the swap record, the
/// swap authority, the transfer authority, the long margin account, the short
/// margin account, the token program.
pub open spec fn transfer_funds(program: Pubkey, accounts: Seq<AccountInfo>, now: u128) -> Result<
    EffectsView,
    PerpetualSwapError,
> {
    match admitted(program, accounts, 6) {
        Err(e) => Err(e),
        Ok(swap) => {
            if !names_both_margins(swap, accounts) {
                Err(PerpetualSwapError::InvalidAccountKeys)
            } else if !swap.is_initialized() {
                Err(PerpetualSwapError::AccountNotInitialized)
            } else if now < swap.reference_time {
                Err(PerpetualSwapError::InvalidTransferTime)
            } else if now - swap.reference_time < swap.minimum_funding_period {
                Err(PerpetualSwapError::InvalidTransferTime)
            } else if !owns_record(program, accounts) {
                Err(PerpetualSwapError::IncorrectProgramId)
            } else if accounts[5].key != spl_token_program() {
                Err(PerpetualSwapError::IncorrectProgramId)
            } else {
                let payment = funding_payment_of(
                    swap.index_price,
                    swap.mark_price,
                    swap.funding_rate,
                    (now - swap.reference_time) as u128,
                );
                Ok(
                    EffectsView {
                        swap: SwapView { reference_time: now, ..swap },
                        invocations: seq![
                            if long_pays(swap.index_price, swap.mark_price) {
                                swap_transfer(accounts, swap, 5, 3, 4, payment)
                            } else {
                                swap_transfer(accounts, swap, 5, 4, 3, payment)
                            },
                        ],
                    },
                )
            }
        },
    }
}

/// The token movements of a liquidation: the bounty to the liquidator, what
/// is left, if anything, to the insurance fund, and the collateral of the
/// liquidator into the margin account.
pub open spec fn liquidation_transfers(
    accounts: Seq<AccountInfo>,
    swap: SwapView,
    bounty: u64,
    remaining: u64,
    collateral: u64,
) -> Seq<InvocationView> {
    if remaining > 0 {
        seq![
            swap_transfer(accounts, swap, 6, 3, 4, bounty),
            swap_transfer(accounts, swap, 6, 3, 5, remaining),
            swap_transfer(accounts, swap, 6, 4, 3, collateral),
        ]
    } else {
        seq![
            swap_transfer(accounts, swap, 6, 3, 4, bounty),
            swap_transfer(accounts, swap, 6, 4, 3, collateral),
        ]
    }
}

/// Liquidating a margin account. Accounts: the swap record, the swap
/// authority, the transfer authority, the margin account to liquidate, the
/// liquidator's account, the insurance fund, the token program.
pub open spec fn try_to_liquidate(program: Pubkey, collateral: u64, accounts: Seq<AccountInfo>) -> Result<
    EffectsView,
    PerpetualSwapError,
> {
    match admitted(program, accounts, 7) {
        Err(e) => Err(e),
        Ok(swap) => {
            let balance = balance_of(accounts[3]);
            let bounty = bounty_of(swap.liquidation_bounty, balance);
            if accounts[3].key@ != swap.long_margin_pubkey && accounts[3].key@
                != swap.short_margin_pubkey {
                Err(PerpetualSwapError::InvalidAccountKeys)
            } else if !swap.is_initialized() {
                Err(PerpetualSwapError::AccountNotInitialized)
            } else if let Some(e) = token_account_error(accounts[3], swap.token_program_id) {
                Err(e)
            } else if let Some(e) = token_account_error(accounts[4], swap.token_program_id) {
                Err(e)
            } else if margin_over(balance as u128, swap.mark_price, swap.minimum_margin) {
                Err(PerpetualSwapError::DoesNotNeedLiquidation)
            } else if bounty > balance {
                Err(PerpetualSwapError::InsufficientFunds)
            } else if margin_under(
                (balance_of(accounts[4]) + bounty) as u128,
                swap.mark_price,
                swap.minimum_margin,
            ) {
                Err(PerpetualSwapError::InsufficientFunds)
            } else if !owns_record(program, accounts) {
                Err(PerpetualSwapError::IncorrectProgramId)
            } else if accounts[6].key != spl_token_program() {
                Err(PerpetualSwapError::IncorrectProgramId)
            } else {
                Ok(
                    EffectsView {
                        swap,
                        invocations: liquidation_transfers(
                            accounts,
                            swap,
                            bounty,
                            (balance - bounty) as u64,
                            collateral,
                        ),
                    },
                )
            }
        },
    }
}

/// Replacing the stored prices. Accounts: the swap record, the swap
/// authority, the token program. A price that is a NaN cannot be stored, and
/// is refused.
pub open spec fn update_prices(
    program: Pubkey,
    index_price: Double,
    mark_price: Double,
    accounts: Seq<AccountInfo>,
) -> Result<EffectsView, PerpetualSwapError> {
    match admitted(program, accounts, 3) {
        Err(e) => Err(e),
        Ok(swap) => {
            if !swap.is_initialized() {
                Err(PerpetualSwapError::AccountNotInitialized)
            } else if index_price.nan() || mark_price.nan() {
                Err(PerpetualSwapError::InvalidAccountData)
            } else if !owns_record(program, accounts) {
                Err(PerpetualSwapError::IncorrectProgramId)
            } else {
                Ok(
                    EffectsView {
                        swap: SwapView { index_price, mark_price, ..swap },
                        invocations: Seq::empty(),
                    },
                )
            }
        },
    }
}

/// What an operation decides on its accounts at the time `now`.
pub open spec fn performed(
    program: Pubkey,
    instruction: PerpetualSwapInstruction,
    accounts: Seq<AccountInfo>,
    now: u128,
    rent_exempt: bool,
) -> Result<EffectsView, PerpetualSwapError> {
    match instruction {
        PerpetualSwapInstruction::InitializePerpetualSwap {
            nonce,
            funding_rate,
            minimum_margin,
            liquidation_bounty,
            minimum_funding_period,
        } => initialize_perpetual_swap(
            program,
            nonce,
            funding_rate,
            minimum_margin,
            liquidation_bounty,
            minimum_funding_period,
            accounts,
            rent_exempt,
        ),
        PerpetualSwapInstruction::InitializeSide { amount_to_deposit } => initialize_side(
            program,
            amount_to_deposit,
            accounts,
            now,
        ),
        PerpetualSwapInstruction::DepositToMargin { amount_to_deposit } => deposit_to_margin(
            program,
            amount_to_deposit,
            accounts,
        ),
        PerpetualSwapInstruction::WithdrawFromMargin { amount_to_withdraw } => withdraw_from_margin(
            program,
            amount_to_withdraw,
            accounts,
        ),
        PerpetualSwapInstruction::TransferLong { amount } => transfer_position(
            program,
            true,
            amount,
            accounts,
        ),
        PerpetualSwapInstruction::TransferShort { amount } => transfer_position(
            program,
            false,
            amount,
            accounts,
        ),
        PerpetualSwapInstruction::TryToLiquidate { collateral } => try_to_liquidate(
            program,
            collateral,
            accounts,
        ),
        PerpetualSwapInstruction::TransferFunds => transfer_funds(program, accounts, now),
        PerpetualSwapInstruction::UpdatePrices { index_price, mark_price } => update_prices(
            program,
            index_price,
            mark_price,
            accounts,
        ),
    }
}

/// What a call with the instruction bytes `data` decides.
pub open spec fn processed(
    program: Pubkey,
    accounts: Seq<AccountInfo>,
    data: Seq<u8>,
    now: u128,
    rent_exempt: bool,
) -> Result<EffectsView, PerpetualSwapError> {
    match crate::instruction::decoded(data) {
        Err(e) => Err(e),
        Ok(instruction) => performed(program, instruction, accounts, now, rent_exempt),
    }
}

} // verus!

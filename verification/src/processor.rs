//! The operations of the swap. Each one reads the accounts that the host
//! supplies, decides, and hands back what the host is to do: nothing is moved
//! and nothing is stored here.

use crate::account::AccountInfo;
use crate::account::AuthoritySeeds;
use crate::account::Effects;
use crate::account::Invocation;
use crate::account::InvocationView;
use crate::authority::check_authority;
use crate::authority::create_program_address;
use crate::authority::program_address;
use crate::double::Double;
use crate::error::PerpetualSwapError;
use crate::instruction::PerpetualSwapInstruction;
use crate::margin::liquidation_bounty;
use crate::margin::funding_payment;
use crate::margin::margin_ratio;
use crate::model::admitted;
use crate::model::deposit_to_margin;
use crate::model::initialize_perpetual_swap;
use crate::model::initialize_side;
use crate::model::outcome;
use crate::model::processed;
use crate::model::swap_transfer;
use crate::model::token_account_error;
use crate::model::token_account_setup;
use crate::model::transfer_funds;
use crate::model::transfer_position;
use crate::model::try_to_liquidate;
use crate::model::update_prices;
use crate::model::withdraw_from_margin;
use crate::pubkey::Pubkey;
use crate::state::PerpetualSwap;
use crate::state::SwapView;
use crate::token::initialize_account_instruction;
use crate::token::initialize_token_account;
use crate::token::mint_in_use;
use crate::token::mint_to;
use crate::token::mint_to_instruction;
use crate::token::spl_token_program;
use crate::token::transfer;
use crate::token::transfer_instruction;
use crate::token::unpack_account;
use crate::token::unpack_account_unchecked;
use crate::token::unpack_mint_data;
use crate::token::Mint;
use crate::token::TokenAccount;
use vstd::prelude::*;

verus! {

/// The processor of the swap's operations.
pub struct Processor;

impl Processor {
    /// Reads a token account of the token program `token_program_id`.
    pub fn unpack_token_account(account_info: &AccountInfo, token_program_id: &Pubkey) -> (r:
        Result<TokenAccount, PerpetualSwapError>)
        ensures
            match r {
                Ok(account) => token_account_error(*account_info, token_program_id@).is_none()
                    && account.read_from(account_info.data@),
                Err(e) => token_account_error(*account_info, token_program_id@) == Some(e),
            },
    {
        if account_info.owner != *token_program_id {
            Err(PerpetualSwapError::IncorrectCustodyIdentity)
        } else {
            match unpack_account(account_info.data.as_slice()) {
                Some(account) => Ok(account),
                None => Err(PerpetualSwapError::ExpectedAccount),
            }
        }
    }

    /// Reads a mint of the token program `token_program_id`.
    pub fn unpack_mint(account_info: &AccountInfo, token_program_id: &Pubkey) -> (r: Result<
        Mint,
        PerpetualSwapError,
    >)
        ensures
            match r {
                Ok(mint) => account_info.owner@ == token_program_id@ && mint_in_use(
                    account_info.data@,
                ) && mint.read_from(account_info.data@),
                Err(e) => if account_info.owner@ != token_program_id@ {
                    e == PerpetualSwapError::IncorrectCustodyIdentity
                } else {
                    e == PerpetualSwapError::ExpectedMint && !mint_in_use(account_info.data@)
                },
            },
    {
        if account_info.owner != *token_program_id {
            Err(PerpetualSwapError::IncorrectCustodyIdentity)
        } else {
            match unpack_mint_data(account_info.data.as_slice()) {
                Some(mint) => Ok(mint),
                None => Err(PerpetualSwapError::ExpectedMint),
            }
        }
    }

    /// Derives the authority of the swap `my_info` under the nonce `nonce`.
    pub fn authority_id(program_id: &Pubkey, my_info: &Pubkey, nonce: u8) -> (r: Result<
        Pubkey,
        PerpetualSwapError,
    >)
        ensures
            match r {
                Ok(authority) => program_address(my_info@, nonce, program_id@) == Some(authority@),
                Err(e) => e == PerpetualSwapError::InvalidProgramAddress && program_address(
                    my_info@,
                    nonce,
                    program_id@,
                ).is_none(),
            },
    {
        match create_program_address(my_info, nonce, program_id) {
            Some(authority) => Ok(authority),
            None => Err(PerpetualSwapError::InvalidProgramAddress),
        }
    }

    /// Orders `amount` new tokens of `mint` for `destination`, signed for the
    /// authority of `swap`.
    pub fn token_mint_to(
        swap: &Pubkey,
        token_program: &Pubkey,
        mint: &Pubkey,
        destination: &Pubkey,
        authority: &Pubkey,
        nonce: u8,
        amount: u64,
    ) -> (r: Result<Invocation, PerpetualSwapError>)
        ensures
            match r {
                Ok(invocation) => *token_program == spl_token_program() && invocation@ == (
                InvocationView {
                    instruction: mint_to_instruction(
                        *token_program,
                        *mint,
                        *destination,
                        *authority,
                        amount,
                    ),
                    seeds: Some(AuthoritySeeds { swap: *swap, nonce }),
                }),
                Err(e) => e == PerpetualSwapError::IncorrectProgramId && *token_program
                    != spl_token_program(),
            },
    {
        match mint_to(token_program, mint, destination, authority, amount) {
            Some(instruction) => Ok(
                Invocation { instruction, seeds: Some(AuthoritySeeds { swap: *swap, nonce }) },
            ),
            None => Err(PerpetualSwapError::IncorrectProgramId),
        }
    }

    /// Orders the transfer of `amount` tokens from `source` to `destination`,
    /// signed for the authority of `swap`.
    pub fn token_transfer(
        swap: &Pubkey,
        token_program: &Pubkey,
        source: &Pubkey,
        destination: &Pubkey,
        authority: &Pubkey,
        nonce: u8,
        amount: u64,
    ) -> (r: Result<Invocation, PerpetualSwapError>)
        ensures
            match r {
                Ok(invocation) => *token_program == spl_token_program() && invocation@ == (
                InvocationView {
                    instruction: transfer_instruction(
                        *token_program,
                        *source,
                        *destination,
                        *authority,
                        amount,
                    ),
                    seeds: Some(AuthoritySeeds { swap: *swap, nonce }),
                }),
                Err(e) => e == PerpetualSwapError::IncorrectProgramId && *token_program
                    != spl_token_program(),
            },
    {
        match transfer(token_program, source, destination, authority, amount) {
            Some(instruction) => Ok(
                Invocation { instruction, seeds: Some(AuthoritySeeds { swap: *swap, nonce }) },
            ),
            None => Err(PerpetualSwapError::IncorrectProgramId),
        }
    }

    /// Orders the set-up of `account` as a token account of `mint` that
    /// `owner` owns.
    pub fn initialize_account(
        account: &Pubkey,
        mint: &Pubkey,
        owner: &Pubkey,
        token_program: &Pubkey,
    ) -> (r: Result<Invocation, PerpetualSwapError>)
        ensures
            match r {
                Ok(invocation) => *token_program == spl_token_program() && invocation@ == (
                InvocationView {
                    instruction: initialize_account_instruction(
                        *token_program,
                        *account,
                        *mint,
                        *owner,
                    ),
                    seeds: None,
                }),
                Err(e) => e == PerpetualSwapError::IncorrectProgramId && *token_program
                    != spl_token_program(),
            },
    {
        match initialize_token_account(token_program, account, mint, owner) {
            Some(instruction) => Ok(Invocation { instruction, seeds: None }),
            None => Err(PerpetualSwapError::IncorrectProgramId),
        }
    }

    /// Decodes an instruction and performs it on the accounts. `now` is the
    /// time in milliseconds; `rent_exempt` says whether the lamports of the
    /// first account exempt it from rent.
    pub fn process(
        program_id: &Pubkey,
        accounts: &[AccountInfo],
        instruction_data: &[u8],
        now: u128,
        rent_exempt: bool,
    ) -> (r: Result<Effects, PerpetualSwapError>)
        ensures
            outcome(r) == processed(*program_id, accounts@, instruction_data@, now, rent_exempt),
    {
        let instruction = match PerpetualSwapInstruction::unpack(instruction_data) {
            Ok(instruction) => instruction,
            Err(e) => return Err(e),
        };
        match instruction {
            PerpetualSwapInstruction::InitializePerpetualSwap {
                nonce,
                funding_rate,
                minimum_margin,
                liquidation_bounty,
                minimum_funding_period,
            } => Self::process_initialize_perpetual_swap(
                program_id,
                nonce,
                funding_rate,
                minimum_margin,
                liquidation_bounty,
                minimum_funding_period,
                accounts,
                rent_exempt,
            ),
            PerpetualSwapInstruction::InitializeSide {
                amount_to_deposit,
            } => Self::process_initialize_side(program_id, amount_to_deposit, accounts, now),
            PerpetualSwapInstruction::DepositToMargin {
                amount_to_deposit,
            } => Self::process_deposit_to_margin(program_id, amount_to_deposit, accounts),
            PerpetualSwapInstruction::WithdrawFromMargin {
                amount_to_withdraw,
            } => Self::process_withdraw_from_margin(program_id, amount_to_withdraw, accounts),
            PerpetualSwapInstruction::TransferLong { amount } => Self::process_transfer_long(
                program_id,
                amount,
                accounts,
            ),
            PerpetualSwapInstruction::TransferShort { amount } => Self::process_transfer_short(
                program_id,
                amount,
                accounts,
            ),
            PerpetualSwapInstruction::TryToLiquidate {
                collateral,
            } => Self::process_try_to_liquidate(program_id, collateral, accounts),
            PerpetualSwapInstruction::TransferFunds => Self::process_transfer_funds(
                program_id,
                accounts,
                now,
            ),
            PerpetualSwapInstruction::UpdatePrices {
                index_price,
                mark_price,
            } => Self::process_update_prices(program_id, index_price, mark_price, accounts),
        }
    }

    /// Sets up a swap: binds the record to its authority, its margin accounts
    /// and its token program, stores the terms, and orders the set-up of the
    /// record and of the two margin accounts as token accounts.
    pub fn process_initialize_perpetual_swap(
        program_id: &Pubkey,
        nonce: u8,
        funding_rate: Double,
        minimum_margin: Double,
        liquidation_bounty: Double,
        minimum_funding_period: u128,
        accounts: &[AccountInfo],
        rent_exempt: bool,
    ) -> (r: Result<Effects, PerpetualSwapError>)
        ensures
            outcome(r) == initialize_perpetual_swap(
                *program_id,
                nonce,
                funding_rate,
                minimum_margin,
                liquidation_bounty,
                minimum_funding_period,
                accounts@,
                rent_exempt,
            ),
    {
        if accounts.len() < 7 {
            return Err(PerpetualSwapError::NotEnoughAccountKeys);
        }
        let swap = match PerpetualSwap::try_from_slice(accounts[0].data.as_slice()) {
            Ok(swap) => swap,
            Err(e) => return Err(e),
        };
        match check_authority(program_id, &accounts[0].key, nonce, &accounts[1].key) {
            Ok(()) => {},
            Err(e) => return Err(e),
        }
        if accounts[2].key == accounts[3].key {
            return Err(PerpetualSwapError::InvalidAccountKeys);
        }
        if swap.is_initialized() {
            return Err(PerpetualSwapError::AlreadyInUse);
        }
        if !rent_exempt {
            return Err(PerpetualSwapError::NotRentExempt);
        }
        match Self::check_unused(&accounts[2]) {
            Ok(()) => {},
            Err(e) => return Err(e),
        }
        match Self::check_unused(&accounts[3]) {
            Ok(()) => {},
            Err(e) => return Err(e),
        }
        let record = match Self::order_setup(accounts, 0) {
            Ok(invocation) => invocation,
            Err(e) => return Err(e),
        };
        let long_margin = match Self::order_setup(accounts, 2) {
            Ok(invocation) => invocation,
            Err(e) => return Err(e),
        };
        let short_margin = match Self::order_setup(accounts, 3) {
            Ok(invocation) => invocation,
            Err(e) => return Err(e),
        };
        if funding_rate.is_nan() || minimum_margin.is_nan() || liquidation_bounty.is_nan() {
            return Err(PerpetualSwapError::InvalidAccountData);
        }
        let mut bound = swap;
        bound.is_long_initialized = false;
        bound.is_short_initialized = false;
        bound.nonce = nonce;
        bound.token_program_id = accounts[6].key;
        bound.long_margin_pubkey = accounts[2].key;
        bound.short_margin_pubkey = accounts[3].key;
        bound.minimum_margin = minimum_margin;
        bound.liquidation_bounty = liquidation_bounty;
        bound.funding_rate = funding_rate;
        bound.minimum_funding_period = minimum_funding_period;
        let mut invocations: Vec<Invocation> = Vec::new();
        invocations.push(record);
        invocations.push(long_margin);
        invocations.push(short_margin);
        let effects = Effects { swap: bound, invocations };
        assert(effects@.invocations =~= seq![
            token_account_setup(accounts@, 0),
            token_account_setup(accounts@, 2),
            token_account_setup(accounts@, 3),
        ]);
        Ok(effects)
    }

    /// Checks that an account has the layout of a token account and is not
    /// in use.
    fn check_unused(account: &AccountInfo) -> (r: Result<(), PerpetualSwapError>)
        ensures
            r.is_ok() <==> crate::token::account_layout(account.data@) && account.data@[108] == 0,
            !crate::token::account_layout(account.data@) ==> r == Err::<(), PerpetualSwapError>(
                PerpetualSwapError::InvalidAccountData,
            ),
            crate::token::account_layout(account.data@) && account.data@[108] != 0 ==> r == Err::<
                (),
                PerpetualSwapError,
            >(PerpetualSwapError::AlreadyInUse),
    {
        match unpack_account_unchecked(account.data.as_slice()) {
            None => Err(PerpetualSwapError::InvalidAccountData),
            Some(found) => {
                if found.is_initialized {
                    Err(PerpetualSwapError::AlreadyInUse)
                } else {
                    Ok(())
                }
            },
        }
    }

    /// Orders the set-up of the account at `at` as a token account of the
    /// mint, the fifth account, that the swap authority, the second, owns.
    fn order_setup(accounts: &[AccountInfo], at: usize) -> (r: Result<
        Invocation,
        PerpetualSwapError,
    >)
        requires
            accounts@.len() >= 7,
            at < 7,
        ensures
            match r {
                Ok(invocation) => accounts@[6].key == spl_token_program() && invocation@
                    == token_account_setup(accounts@, at as int),
                Err(e) => e == PerpetualSwapError::IncorrectProgramId && accounts@[6].key
                    != spl_token_program(),
            },
    {
        Self::initialize_account(
            &accounts[at].key,
            &accounts[4].key,
            &accounts[1].key,
            &accounts[6].key,
        )
    }

    /// Takes `amount_to_withdraw` tokens from the margin of one side, if the
    /// margin that is left is still enough.
    pub fn process_withdraw_from_margin(
        program_id: &Pubkey,
        amount_to_withdraw: u64,
        accounts: &[AccountInfo],
    ) -> (r: Result<Effects, PerpetualSwapError>)
        ensures
            outcome(r) == withdraw_from_margin(*program_id, amount_to_withdraw, accounts@),
    {
        let swap = match Self::load_swap(program_id, accounts, 6) {
            Ok(swap) => swap,
            Err(e) => return Err(e),
        };
        let is_long = accounts[3].key == swap.long_margin_pubkey && accounts[4].key
            == swap.long_account_pubkey;
        let is_short = accounts[3].key == swap.short_margin_pubkey && accounts[4].key
            == swap.short_account_pubkey;
        if is_long == is_short {
            return Err(PerpetualSwapError::InvalidAccountKeys);
        }
        let margin = match Self::unpack_token_account(&accounts[3], &swap.token_program_id) {
            Ok(account) => account,
            Err(e) => return Err(e),
        };
        if margin.amount < amount_to_withdraw {
            return Err(PerpetualSwapError::InsufficientFunds);
        }
        let left: u64 = margin.amount - amount_to_withdraw;
        if margin_ratio(left as u128, &swap.mark_price).lt(&swap.minimum_margin) {
            return Err(PerpetualSwapError::WouldBeLiquidated);
        }
        if accounts[0].owner != *program_id {
            return Err(PerpetualSwapError::IncorrectProgramId);
        }
        let moved = match Self::order_transfer(accounts, &swap, 5, 3, 4, amount_to_withdraw) {
            Ok(invocation) => invocation,
            Err(e) => return Err(e),
        };
        let mut invocations: Vec<Invocation> = Vec::new();
        invocations.push(moved);
        let effects = Effects { swap, invocations };
        assert(effects@.invocations =~= seq![
            swap_transfer(accounts@, swap@, 5, 3, 4, amount_to_withdraw),
        ]);
        Ok(effects)
    }

    /// Adds `amount_to_deposit` tokens to the margin of one side, if the
    /// margin with the deposit is still enough.
    pub fn process_deposit_to_margin(
        program_id: &Pubkey,
        amount_to_deposit: u64,
        accounts: &[AccountInfo],
    ) -> (r: Result<Effects, PerpetualSwapError>)
        ensures
            outcome(r) == deposit_to_margin(*program_id, amount_to_deposit, accounts@),
    {
        let swap = match Self::load_swap(program_id, accounts, 6) {
            Ok(swap) => swap,
            Err(e) => return Err(e),
        };
        let is_long = accounts[4].key == swap.long_margin_pubkey && accounts[3].key
            == swap.long_account_pubkey;
        let is_short = accounts[4].key == swap.short_margin_pubkey && accounts[3].key
            == swap.short_account_pubkey;
        if is_long == is_short {
            return Err(PerpetualSwapError::InvalidAccountKeys);
        }
        let source = match Self::unpack_token_account(&accounts[3], &swap.token_program_id) {
            Ok(account) => account,
            Err(e) => return Err(e),
        };
        let margin = match Self::unpack_token_account(&accounts[4], &swap.token_program_id) {
            Ok(account) => account,
            Err(e) => return Err(e),
        };
        if source.amount < amount_to_deposit {
            return Err(PerpetualSwapError::InsufficientFunds);
        }
        let held: u128 = margin.amount as u128 + amount_to_deposit as u128;
        if margin_ratio(held, &swap.mark_price).lt(&swap.minimum_margin) {
            return Err(PerpetualSwapError::WouldBeLiquidated);
        }
        if accounts[0].owner != *program_id {
            return Err(PerpetualSwapError::IncorrectProgramId);
        }
        let moved = match Self::order_transfer(accounts, &swap, 5, 3, 4, amount_to_deposit) {
            Ok(invocation) => invocation,
            Err(e) => return Err(e),
        };
        let mut invocations: Vec<Invocation> = Vec::new();
        invocations.push(moved);
        let effects = Effects { swap, invocations };
        assert(effects@.invocations =~= seq![
            swap_transfer(accounts@, swap@, 5, 3, 4, amount_to_deposit),
        ]);
        Ok(effects)
    }

    /// Funds one side for the first time with `amount_to_deposit` tokens, and
    /// starts the funding clock at `now` once both sides are funded.
    pub fn process_initialize_side(
        program_id: &Pubkey,
        amount_to_deposit: u64,
        accounts: &[AccountInfo],
        now: u128,
    ) -> (r: Result<Effects, PerpetualSwapError>)
        ensures
            outcome(r) == initialize_side(*program_id, amount_to_deposit, accounts@, now),
    {
        let swap = match Self::load_swap(program_id, accounts, 6) {
            Ok(swap) => swap,
            Err(e) => return Err(e),
        };
        let is_long = accounts[4].key == swap.long_margin_pubkey;
        let is_short = accounts[4].key == swap.short_margin_pubkey;
        if is_long == is_short {
            return Err(PerpetualSwapError::InvalidAccountKeys);
        }
        let source = match Self::unpack_token_account(&accounts[3], &swap.token_program_id) {
            Ok(account) => account,
            Err(e) => return Err(e),
        };
        if margin_ratio(amount_to_deposit as u128, &swap.mark_price).lt(&swap.minimum_margin) {
            return Err(PerpetualSwapError::WouldBeLiquidated);
        }
        if source.amount < amount_to_deposit {
            return Err(PerpetualSwapError::InsufficientFunds);
        }
        if accounts[0].owner != *program_id {
            return Err(PerpetualSwapError::IncorrectProgramId);
        }
        let moved = match Self::order_transfer(accounts, &swap, 5, 3, 4, amount_to_deposit) {
            Ok(invocation) => invocation,
            Err(e) => return Err(e),
        };
        let mut funded = swap;
        if is_long {
            funded.long_account_pubkey = accounts[3].key;
            funded.is_long_initialized = true;
        } else {
            funded.short_account_pubkey = accounts[3].key;
            funded.is_short_initialized = true;
        }
        if funded.is_initialized() {
            funded.reference_time = now;
        }
        let mut invocations: Vec<Invocation> = Vec::new();
        invocations.push(moved);
        let effects = Effects { swap: funded, invocations };
        assert(effects@.invocations =~= seq![
            swap_transfer(accounts@, swap@, 5, 3, 4, amount_to_deposit),
        ]);
        assert(funded@ == crate::model::side_initialized(swap@, is_long, accounts@[3].key@, now));
        Ok(effects)
    }

    /// Hands the long position to a new holder, who pays `margin_amount`
    /// tokens into the margin account.
    pub fn process_transfer_long(
        program_id: &Pubkey,
        margin_amount: u64,
        accounts: &[AccountInfo],
    ) -> (r: Result<Effects, PerpetualSwapError>)
        ensures
            outcome(r) == transfer_position(*program_id, true, margin_amount, accounts@),
    {
        Self::hand_over(program_id, true, margin_amount, accounts)
    }

    /// Hands the short position to a new holder, who pays `margin_amount`
    /// tokens into the margin account.
    pub fn process_transfer_short(
        program_id: &Pubkey,
        margin_amount: u64,
        accounts: &[AccountInfo],
    ) -> (r: Result<Effects, PerpetualSwapError>)
        ensures
            outcome(r) == transfer_position(*program_id, false, margin_amount, accounts@),
    {
        Self::hand_over(program_id, false, margin_amount, accounts)
    }

    /// Hands the position of one side to a new holder.
    fn hand_over(program_id: &Pubkey, long: bool, margin_amount: u64, accounts: &[AccountInfo]) -> (r:
        Result<Effects, PerpetualSwapError>)
        ensures
            outcome(r) == transfer_position(*program_id, long, margin_amount, accounts@),
    {
        let swap = match Self::load_swap(program_id, accounts, 7) {
            Ok(swap) => swap,
            Err(e) => return Err(e),
        };
        let recorded = if long {
            accounts[3].key == swap.long_margin_pubkey && accounts[4].key
                == swap.long_account_pubkey
        } else {
            accounts[3].key == swap.short_margin_pubkey && accounts[4].key
                == swap.short_account_pubkey
        };
        if !recorded {
            return Err(PerpetualSwapError::InvalidAccountKeys);
        }
        if !swap.is_initialized() {
            return Err(PerpetualSwapError::AccountNotInitialized);
        }
        let margin = match Self::unpack_token_account(&accounts[3], &swap.token_program_id) {
            Ok(account) => account,
            Err(e) => return Err(e),
        };
        let leaving = match Self::unpack_token_account(&accounts[4], &swap.token_program_id) {
            Ok(account) => account,
            Err(e) => return Err(e),
        };
        let coming = match Self::unpack_token_account(&accounts[5], &swap.token_program_id) {
            Ok(account) => account,
            Err(e) => return Err(e),
        };
        if leaving.mint != coming.mint {
            return Err(PerpetualSwapError::InvalidMints);
        }
        if margin_ratio(margin_amount as u128, &swap.mark_price).lt(&swap.minimum_margin) {
            return Err(PerpetualSwapError::InsufficientMargin);
        }
        if accounts[0].owner != *program_id {
            return Err(PerpetualSwapError::IncorrectProgramId);
        }
        let paid_out = match Self::order_transfer(accounts, &swap, 6, 3, 4, margin.amount) {
            Ok(invocation) => invocation,
            Err(e) => return Err(e),
        };
        let paid_in = match Self::order_transfer(accounts, &swap, 6, 5, 3, margin_amount) {
            Ok(invocation) => invocation,
            Err(e) => return Err(e),
        };
        let mut handed = swap;
        if long {
            handed.long_account_pubkey = accounts[5].key;
        } else {
            handed.short_account_pubkey = accounts[5].key;
        }
        let mut invocations: Vec<Invocation> = Vec::new();
        invocations.push(paid_out);
        invocations.push(paid_in);
        let effects = Effects { swap: handed, invocations };
        assert(effects@.invocations =~= seq![
            swap_transfer(accounts@, swap@, 6, 3, 4, margin.amount),
            swap_transfer(accounts@, swap@, 6, 5, 3, margin_amount),
        ]);
        Ok(effects)
    }

    /// Settles the funding between the two margin accounts of the swap at the
    /// time `now`, in milliseconds.
    pub fn process_transfer_funds(program_id: &Pubkey, accounts: &[AccountInfo], now: u128) -> (r:
        Result<Effects, PerpetualSwapError>)
        ensures
            outcome(r) == transfer_funds(*program_id, accounts@, now),
    {
        let swap = match Self::load_swap(program_id, accounts, 6) {
            Ok(swap) => swap,
            Err(e) => return Err(e),
        };
        if accounts[3].key != swap.long_margin_pubkey || accounts[4].key
            != swap.short_margin_pubkey {
            return Err(PerpetualSwapError::InvalidAccountKeys);
        }
        if !swap.is_initialized() {
            return Err(PerpetualSwapError::AccountNotInitialized);
        }
        if now < swap.reference_time {
            return Err(PerpetualSwapError::InvalidTransferTime);
        }
        let elapsed: u128 = now - swap.reference_time;
        if elapsed < swap.minimum_funding_period {
            return Err(PerpetualSwapError::InvalidTransferTime);
        }
        if accounts[0].owner != *program_id {
            return Err(PerpetualSwapError::IncorrectProgramId);
        }
        let payment = funding_payment(
            &swap.index_price,
            &swap.mark_price,
            &swap.funding_rate,
            elapsed,
        );
        let long_pays = swap.index_price.lt(&swap.mark_price);
        let moved = if long_pays {
            match Self::order_transfer(accounts, &swap, 5, 3, 4, payment) {
                Ok(invocation) => invocation,
                Err(e) => return Err(e),
            }
        } else {
            match Self::order_transfer(accounts, &swap, 5, 4, 3, payment) {
                Ok(invocation) => invocation,
                Err(e) => return Err(e),
            }
        };
        let mut settled = swap;
        settled.reference_time = now;
        let mut invocations: Vec<Invocation> = Vec::new();
        invocations.push(moved);
        let effects = Effects { swap: settled, invocations };
        assert(effects@.invocations =~= seq![moved@]);
        Ok(effects)
    }

    /// Liquidates a margin account whose margin has fallen to the minimum:
    /// the liquidator gets the bounty, the insurance fund what is left, and
    /// the liquidator pays `collateral` tokens into the margin account.
    pub fn process_try_to_liquidate(
        program_id: &Pubkey,
        collateral: u64,
        accounts: &[AccountInfo],
    ) -> (r: Result<Effects, PerpetualSwapError>)
        ensures
            outcome(r) == try_to_liquidate(*program_id, collateral, accounts@),
    {
        let swap = match Self::load_swap(program_id, accounts, 7) {
            Ok(swap) => swap,
            Err(e) => return Err(e),
        };
        if accounts[3].key != swap.long_margin_pubkey && accounts[3].key
            != swap.short_margin_pubkey {
            return Err(PerpetualSwapError::InvalidAccountKeys);
        }
        if !swap.is_initialized() {
            return Err(PerpetualSwapError::AccountNotInitialized);
        }
        let margin = match Self::unpack_token_account(&accounts[3], &swap.token_program_id) {
            Ok(account) => account,
            Err(e) => return Err(e),
        };
        let liquidator = match Self::unpack_token_account(&accounts[4], &swap.token_program_id) {
            Ok(account) => account,
            Err(e) => return Err(e),
        };
        if margin_ratio(margin.amount as u128, &swap.mark_price).gt(&swap.minimum_margin) {
            return Err(PerpetualSwapError::DoesNotNeedLiquidation);
        }
        let bounty: u64 = liquidation_bounty(&swap.liquidation_bounty, margin.amount);
        if bounty > margin.amount {
            return Err(PerpetualSwapError::InsufficientFunds);
        }
        let holding: u128 = liquidator.amount as u128 + bounty as u128;
        if margin_ratio(holding, &swap.mark_price).lt(&swap.minimum_margin) {
            return Err(PerpetualSwapError::InsufficientFunds);
        }
        if accounts[0].owner != *program_id {
            return Err(PerpetualSwapError::IncorrectProgramId);
        }
        let remaining: u64 = margin.amount - bounty;
        let reward = match Self::order_transfer(accounts, &swap, 6, 3, 4, bounty) {
            Ok(invocation) => invocation,
            Err(e) => return Err(e),
        };
        let mut invocations: Vec<Invocation> = Vec::new();
        invocations.push(reward);
        if remaining > 0 {
            let swept = match Self::order_transfer(accounts, &swap, 6, 3, 5, remaining) {
                Ok(invocation) => invocation,
                Err(e) => return Err(e),
            };
            invocations.push(swept);
        }
        let posted = match Self::order_transfer(accounts, &swap, 6, 4, 3, collateral) {
            Ok(invocation) => invocation,
            Err(e) => return Err(e),
        };
        invocations.push(posted);
        let effects = Effects { swap, invocations };
        assert(effects@.invocations =~= crate::model::liquidation_transfers(
            accounts@,
            swap@,
            bounty,
            remaining,
            collateral,
        ));
        Ok(effects)
    }

    /// Replaces the stored index and mark prices.
    pub fn process_update_prices(
        program_id: &Pubkey,
        index_price: Double,
        mark_price: Double,
        accounts: &[AccountInfo],
    ) -> (r: Result<Effects, PerpetualSwapError>)
        ensures
            outcome(r) == update_prices(*program_id, index_price, mark_price, accounts@),
    {
        let swap = match Self::load_swap(program_id, accounts, 3) {
            Ok(swap) => swap,
            Err(e) => return Err(e),
        };
        if !swap.is_initialized() {
            return Err(PerpetualSwapError::AccountNotInitialized);
        }
        if index_price.is_nan() || mark_price.is_nan() {
            return Err(PerpetualSwapError::InvalidAccountData);
        }
        if accounts[0].owner != *program_id {
            return Err(PerpetualSwapError::IncorrectProgramId);
        }
        let mut quoted = swap;
        quoted.mark_price = mark_price;
        quoted.index_price = index_price;
        let effects = Effects { swap: quoted, invocations: Vec::new() };
        assert(effects@.invocations =~= Seq::empty());
        Ok(effects)
    }

    /// Reads the record of a set-up swap and checks the caller: the first
    /// account stores the record, the second is the swap authority, the last
    /// of the `needed` accounts is the token program.
    fn load_swap(program_id: &Pubkey, accounts: &[AccountInfo], needed: usize) -> (r: Result<
        PerpetualSwap,
        PerpetualSwapError,
    >)
        requires
            needed >= 3,
        ensures
            match r {
                Ok(swap) => admitted(*program_id, accounts@, needed as int) == Ok::<SwapView, PerpetualSwapError>(
                    swap@,
                ),
                Err(e) => admitted(*program_id, accounts@, needed as int) == Err::<SwapView, PerpetualSwapError>(e),
            },
    {
        if accounts.len() < needed {
            return Err(PerpetualSwapError::NotEnoughAccountKeys);
        }
        let swap = match PerpetualSwap::try_from_slice(accounts[0].data.as_slice()) {
            Ok(swap) => swap,
            Err(e) => return Err(e),
        };
        match check_authority(program_id, &accounts[0].key, swap.nonce, &accounts[1].key) {
            Ok(()) => {},
            Err(e) => return Err(e),
        }
        if accounts[needed - 1].key != swap.token_program_id {
            return Err(PerpetualSwapError::IncorrectCustodyIdentity);
        }
        Ok(swap)
    }

    /// Orders the transfer of `amount` tokens from the account at `from` to
    /// the account at `to`. The token program is the account at `custody`.
    fn order_transfer(
        accounts: &[AccountInfo],
        swap: &PerpetualSwap,
        custody: usize,
        from: usize,
        to: usize,
        amount: u64,
    ) -> (r: Result<Invocation, PerpetualSwapError>)
        requires
            accounts@.len() > custody,
            custody > from,
            custody > to,
            custody > 2,
        ensures
            match r {
                Ok(invocation) => accounts@[custody as int].key == spl_token_program() && invocation@
                    == swap_transfer(
                    accounts@,
                    swap@,
                    custody as int,
                    from as int,
                    to as int,
                    amount,
                ),
                Err(e) => e == PerpetualSwapError::IncorrectProgramId && accounts@[custody as int].key
                    != spl_token_program(),
            },
    {
        Self::token_transfer(
            &accounts[0].key,
            &accounts[custody].key,
            &accounts[from].key,
            &accounts[to].key,
            &accounts[2].key,
            swap.nonce,
            amount,
        )
    }
}

} // verus!

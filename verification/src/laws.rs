//! What holds of the operations, whatever the input.

use crate::account::AccountInfo;
use crate::account::EffectsView;
use crate::arithmetic::lemma_over_itself;
use crate::arithmetic::lemma_times_one;
use crate::authority::is_authority;
use crate::double::integer;
use crate::double::Double;
use crate::error::PerpetualSwapError;
use crate::instruction::PerpetualSwapInstruction;
use crate::margin::bounty_of;
use crate::margin::funding_factor_of;
use crate::margin::funding_payment_of;
use crate::margin::MILLIS_PER_DAY_BITS;
use crate::margin::margin_over;
use crate::margin::margin_under;
use crate::model::admitted;
use crate::model::balance_of;
use crate::model::deposit_to_margin;
use crate::model::initialize_perpetual_swap;
use crate::model::initialize_side;
use crate::model::is_one_pair;
use crate::model::names_both_margins;
use crate::model::owns_record;
use crate::model::is_long_pair;
use crate::model::is_short_pair;
use crate::model::performed;
use crate::model::swap_transfer;
use crate::model::token_account_error;
use crate::model::transfer_funds;
use crate::model::transfer_position;
use crate::model::try_to_liquidate;
use crate::model::update_prices;
use crate::model::withdraw_from_margin;
use crate::pubkey::Pubkey;
use crate::rounding::packed;
use crate::rounding::last_place;
use crate::rounding::lemma_top_bit;
use crate::rounding::nearest;
use crate::state::decoded;
use crate::state::encoded;
use crate::state::lemma_round_trip;
use crate::state::PerpetualSwap;
use crate::state::SwapView;
use crate::token::spl_token_program;
use vstd::arithmetic::power2::lemma2_to64;
use vstd::arithmetic::power2::pow2;
use vstd::prelude::*;

verus! {

/// The number of accounts that an operation reads.
pub open spec fn accounts_read(instruction: PerpetualSwapInstruction) -> int {
    match instruction {
        PerpetualSwapInstruction::InitializePerpetualSwap { .. } => 7,
        PerpetualSwapInstruction::InitializeSide { .. } => 6,
        PerpetualSwapInstruction::DepositToMargin { .. } => 6,
        PerpetualSwapInstruction::WithdrawFromMargin { .. } => 6,
        PerpetualSwapInstruction::TransferLong { .. } => 7,
        PerpetualSwapInstruction::TransferShort { .. } => 7,
        PerpetualSwapInstruction::TryToLiquidate { .. } => 7,
        PerpetualSwapInstruction::TransferFunds => 6,
        PerpetualSwapInstruction::UpdatePrices { .. } => 3,
    }
}

/// The nonce under which an operation derives the swap authority: the one
/// that comes with the set-up of a swap, and after that the stored one.
pub open spec fn nonce_used(instruction: PerpetualSwapInstruction, stored: SwapView) -> u8 {
    match instruction {
        PerpetualSwapInstruction::InitializePerpetualSwap { nonce, .. } => nonce,
        _ => stored.nonce,
    }
}

/// A withdrawal that is accepted leaves a margin that is not under the
/// minimum: it moves exactly the amount asked for out of the margin account,
/// and the margin ratio of what is left is not less than the minimum margin.
/// The record is left as it was.
pub proof fn law_withdrawal_keeps_margin(program: Pubkey, amount: u64, accounts: Seq<AccountInfo>)
    requires
        withdraw_from_margin(program, amount, accounts).is_ok(),
    ensures
        decoded(accounts[0].data@).is_some(),
        balance_of(accounts[3]) >= amount,
        !margin_under(
            (balance_of(accounts[3]) - amount) as u128,
            decoded(accounts[0].data@).unwrap().mark_price,
            decoded(accounts[0].data@).unwrap().minimum_margin,
        ),
        withdraw_from_margin(program, amount, accounts).unwrap().swap == decoded(
            accounts[0].data@,
        ).unwrap(),
        withdraw_from_margin(program, amount, accounts).unwrap().invocations == seq![
            swap_transfer(accounts, decoded(accounts[0].data@).unwrap(), 5, 3, 4, amount),
        ],
{
}

/// A withdrawal that would leave a margin under the minimum is refused for
/// that, where the caller is in order, the accounts are those of one side,
/// the margin account is a token account and holds the amount.
pub proof fn law_short_margin_is_refused(program: Pubkey, amount: u64, accounts: Seq<AccountInfo>)
    requires
        admitted(program, accounts, 6).is_ok(),
        is_one_pair(admitted(program, accounts, 6).unwrap(), accounts[3].key@, accounts[4].key@),
        token_account_error(
            accounts[3],
            admitted(program, accounts, 6).unwrap().token_program_id,
        ).is_none(),
        balance_of(accounts[3]) >= amount,
        margin_under(
            (balance_of(accounts[3]) - amount) as u128,
            admitted(program, accounts, 6).unwrap().mark_price,
            admitted(program, accounts, 6).unwrap().minimum_margin,
        ),
    ensures
        withdraw_from_margin(program, amount, accounts) == Err::<EffectsView, PerpetualSwapError>(
            PerpetualSwapError::WouldBeLiquidated,
        ),
{
}

/// A deposit that is accepted leaves a margin that is not under the minimum:
/// it moves exactly the amount asked for into the margin account, the payer
/// holds that amount, and the margin ratio of what the margin account then
/// holds is not less than the minimum margin. The record is left as it was.
pub proof fn law_deposit_keeps_margin(program: Pubkey, amount: u64, accounts: Seq<AccountInfo>)
    requires
        deposit_to_margin(program, amount, accounts).is_ok(),
    ensures
        decoded(accounts[0].data@).is_some(),
        balance_of(accounts[3]) >= amount,
        !margin_under(
            (balance_of(accounts[4]) + amount) as u128,
            decoded(accounts[0].data@).unwrap().mark_price,
            decoded(accounts[0].data@).unwrap().minimum_margin,
        ),
        deposit_to_margin(program, amount, accounts).unwrap().swap == decoded(
            accounts[0].data@,
        ).unwrap(),
        deposit_to_margin(program, amount, accounts).unwrap().invocations == seq![
            swap_transfer(accounts, decoded(accounts[0].data@).unwrap(), 5, 3, 4, amount),
        ],
{
}

/// A deposit that would leave a margin under the minimum is refused for
/// that, where the caller is in order, the accounts are those of one side,
/// both are token accounts and the payer holds the amount.
pub proof fn law_short_margin_deposit_is_refused(
    program: Pubkey,
    amount: u64,
    accounts: Seq<AccountInfo>,
)
    requires
        admitted(program, accounts, 6).is_ok(),
        is_one_pair(admitted(program, accounts, 6).unwrap(), accounts[4].key@, accounts[3].key@),
        token_account_error(
            accounts[3],
            admitted(program, accounts, 6).unwrap().token_program_id,
        ).is_none(),
        token_account_error(
            accounts[4],
            admitted(program, accounts, 6).unwrap().token_program_id,
        ).is_none(),
        balance_of(accounts[3]) >= amount,
        margin_under(
            (balance_of(accounts[4]) + amount) as u128,
            admitted(program, accounts, 6).unwrap().mark_price,
            admitted(program, accounts, 6).unwrap().minimum_margin,
        ),
    ensures
        deposit_to_margin(program, amount, accounts) == Err::<EffectsView, PerpetualSwapError>(
            PerpetualSwapError::WouldBeLiquidated,
        ),
{
}

/// A side is funded for the first time only with an amount whose margin
/// ratio is not under the minimum.
pub proof fn law_first_funding_keeps_margin(
    program: Pubkey,
    amount: u64,
    accounts: Seq<AccountInfo>,
    now: u128,
)
    requires
        initialize_side(program, amount, accounts, now).is_ok(),
    ensures
        !margin_under(
            amount as u128,
            decoded(accounts[0].data@).unwrap().mark_price,
            decoded(accounts[0].data@).unwrap().minimum_margin,
        ),
{
}

/// A funding settlement that comes before the minimum funding period has
/// passed since the reference time, or before the reference time, is refused
/// for its time, where the caller is in order, the two margin accounts are
/// those of the swap and both sides are funded.
pub proof fn law_early_settlement_is_refused(program: Pubkey, accounts: Seq<AccountInfo>, now: u128)
    requires
        admitted(program, accounts, 6).is_ok(),
        names_both_margins(admitted(program, accounts, 6).unwrap(), accounts),
        admitted(program, accounts, 6).unwrap().is_initialized(),
        now < admitted(program, accounts, 6).unwrap().reference_time + admitted(
            program,
            accounts,
            6,
        ).unwrap().minimum_funding_period,
    ensures
        transfer_funds(program, accounts, now) == Err::<EffectsView, PerpetualSwapError>(
            PerpetualSwapError::InvalidTransferTime,
        ),
{
}

/// A funding settlement that comes within the minimum funding period after
/// an accepted one, on the record that the accepted one left and between the
/// margin accounts of the swap, is refused for its time.
pub proof fn law_second_settlement_is_refused(
    program: Pubkey,
    accounts: Seq<AccountInfo>,
    now: u128,
    later_accounts: Seq<AccountInfo>,
    later: u128,
)
    requires
        transfer_funds(program, accounts, now).is_ok(),
        admitted(program, later_accounts, 6) == Ok::<SwapView, PerpetualSwapError>(
            transfer_funds(program, accounts, now).unwrap().swap,
        ),
        names_both_margins(transfer_funds(program, accounts, now).unwrap().swap, later_accounts),
        later < now + transfer_funds(program, accounts, now).unwrap().swap.minimum_funding_period,
    ensures
        transfer_funds(program, later_accounts, later) == Err::<EffectsView, PerpetualSwapError>(
            PerpetualSwapError::InvalidTransferTime,
        ),
{
}

/// A funding settlement is accepted where the caller is in order, the two
/// margin accounts are those of the swap, both sides are funded, the minimum
/// funding period has passed, the program owns the record and the token
/// program is the one whose instructions are built here. It orders exactly
/// one transfer, of the funding payment: from the long margin account to the
/// short one where the mark price is over the index price, and else from the
/// short to the long. It moves the reference time to the time of the
/// settlement and leaves the rest of the record.
pub proof fn law_settlement_pays_the_spread(program: Pubkey, accounts: Seq<AccountInfo>, now: u128)
    requires
        admitted(program, accounts, 6).is_ok(),
        names_both_margins(admitted(program, accounts, 6).unwrap(), accounts),
        admitted(program, accounts, 6).unwrap().is_initialized(),
        now >= admitted(program, accounts, 6).unwrap().reference_time + admitted(
            program,
            accounts,
            6,
        ).unwrap().minimum_funding_period,
        owns_record(program, accounts),
        accounts[5].key == spl_token_program(),
    ensures
        ({
            let swap = admitted(program, accounts, 6).unwrap();
            let payment = funding_payment_of(
                swap.index_price,
                swap.mark_price,
                swap.funding_rate,
                (now - swap.reference_time) as u128,
            );
            &&& transfer_funds(program, accounts, now).is_ok()
            &&& transfer_funds(program, accounts, now).unwrap().swap == (SwapView {
                reference_time: now,
                ..swap
            })
            &&& transfer_funds(program, accounts, now).unwrap().invocations == seq![
                if swap.index_price.less(swap.mark_price) {
                    swap_transfer(accounts, swap, 5, 3, 4, payment)
                } else {
                    swap_transfer(accounts, swap, 5, 4, 3, payment)
                },
            ]
        }),
{
}

/// An accepted funding settlement moves the reference time to the time of the
/// settlement, which is not before the old reference time, and orders exactly
/// one token movement.
pub proof fn law_settlement_advances_clock(program: Pubkey, accounts: Seq<AccountInfo>, now: u128)
    requires
        transfer_funds(program, accounts, now).is_ok(),
    ensures
        transfer_funds(program, accounts, now).unwrap().swap.reference_time == now,
        decoded(accounts[0].data@).unwrap().reference_time <= now,
        now - decoded(accounts[0].data@).unwrap().reference_time >= decoded(
            accounts[0].data@,
        ).unwrap().minimum_funding_period,
        transfer_funds(program, accounts, now).unwrap().invocations.len() == 1,
{
}

/// An operation that names accounts other than those that the swap records
/// is refused for its account keys, as soon as the caller is in order: a
/// first funding and a liquidation whose margin account is neither margin
/// account of the swap, a deposit and a withdrawal whose margin account and
/// holder's account are the pair of neither side, a position transfer that
/// does not name the pair of its own side, and a funding settlement that does
/// not name the long and the short margin account.
pub proof fn law_unrecorded_accounts_are_refused(
    program: Pubkey,
    amount: u64,
    accounts: Seq<AccountInfo>,
    now: u128,
)
    ensures
        admitted(program, accounts, 6) matches Ok(swap) ==> {
            &&& (accounts[4].key@ != swap.long_margin_pubkey && accounts[4].key@
                != swap.short_margin_pubkey ==> initialize_side(program, amount, accounts, now)
                == Err::<EffectsView, PerpetualSwapError>(PerpetualSwapError::InvalidAccountKeys))
            &&& (!is_long_pair(swap, accounts[4].key@, accounts[3].key@) && !is_short_pair(
                swap,
                accounts[4].key@,
                accounts[3].key@,
            ) ==> deposit_to_margin(program, amount, accounts) == Err::<
                EffectsView,
                PerpetualSwapError,
            >(PerpetualSwapError::InvalidAccountKeys))
            &&& (!is_long_pair(swap, accounts[3].key@, accounts[4].key@) && !is_short_pair(
                swap,
                accounts[3].key@,
                accounts[4].key@,
            ) ==> withdraw_from_margin(program, amount, accounts) == Err::<
                EffectsView,
                PerpetualSwapError,
            >(PerpetualSwapError::InvalidAccountKeys))
            &&& (!names_both_margins(swap, accounts) ==> transfer_funds(program, accounts, now)
                == Err::<EffectsView, PerpetualSwapError>(PerpetualSwapError::InvalidAccountKeys))
        },
        admitted(program, accounts, 7) matches Ok(swap) ==> {
            &&& (!is_long_pair(swap, accounts[3].key@, accounts[4].key@) ==> transfer_position(
                program,
                true,
                amount,
                accounts,
            ) == Err::<EffectsView, PerpetualSwapError>(PerpetualSwapError::InvalidAccountKeys))
            &&& (!is_short_pair(swap, accounts[3].key@, accounts[4].key@) ==> transfer_position(
                program,
                false,
                amount,
                accounts,
            ) == Err::<EffectsView, PerpetualSwapError>(PerpetualSwapError::InvalidAccountKeys))
            &&& (accounts[3].key@ != swap.long_margin_pubkey && accounts[3].key@
                != swap.short_margin_pubkey ==> try_to_liquidate(program, amount, accounts)
                == Err::<EffectsView, PerpetualSwapError>(PerpetualSwapError::InvalidAccountKeys))
        },
        admitted(program, accounts, 6).is_err() ==> initialize_side(
            program,
            amount,
            accounts,
            now,
        ).is_err() && deposit_to_margin(program, amount, accounts).is_err()
            && withdraw_from_margin(program, amount, accounts).is_err() && transfer_funds(
            program,
            accounts,
            now,
        ).is_err(),
        admitted(program, accounts, 7).is_err() ==> transfer_position(
            program,
            true,
            amount,
            accounts,
        ).is_err() && transfer_position(program, false, amount, accounts).is_err()
            && try_to_liquidate(program, amount, accounts).is_err(),
{
}

/// A swap is set up with two margin accounts: a set-up that names one
/// account as both is refused for its account keys as soon as the caller is
/// in order, and the record that an accepted set-up hands back holds two
/// different margin accounts.
pub proof fn law_margins_are_two_accounts(
    program: Pubkey,
    nonce: u8,
    funding_rate: Double,
    minimum_margin: Double,
    liquidation_bounty: Double,
    minimum_funding_period: u128,
    accounts: Seq<AccountInfo>,
    rent_exempt: bool,
)
    ensures
        ({
            let result = initialize_perpetual_swap(
                program,
                nonce,
                funding_rate,
                minimum_margin,
                liquidation_bounty,
                minimum_funding_period,
                accounts,
                rent_exempt,
            );
            &&& result matches Ok(effects) ==> effects.swap.long_margin_pubkey
                != effects.swap.short_margin_pubkey
            &&& accounts.len() >= 7 && decoded(accounts[0].data@).is_some() && is_authority(
                program@,
                accounts[0].key@,
                nonce,
                accounts[1].key@,
            ) && accounts[2].key@ == accounts[3].key@ ==> result == Err::<
                EffectsView,
                PerpetualSwapError,
            >(PerpetualSwapError::InvalidAccountKeys)
        }),
{
}

/// No operation but the set-up changes the margin accounts, the token
/// program, the nonce or the terms of a swap.
pub proof fn law_binding_stays(
    program: Pubkey,
    instruction: PerpetualSwapInstruction,
    accounts: Seq<AccountInfo>,
    now: u128,
    rent_exempt: bool,
)
    requires
        performed(program, instruction, accounts, now, rent_exempt).is_ok(),
        !(instruction is InitializePerpetualSwap),
    ensures
        ({
            let before = decoded(accounts[0].data@).unwrap();
            let after = performed(program, instruction, accounts, now, rent_exempt).unwrap().swap;
            &&& after.long_margin_pubkey == before.long_margin_pubkey
            &&& after.short_margin_pubkey == before.short_margin_pubkey
            &&& after.token_program_id == before.token_program_id
            &&& after.nonce == before.nonce
            &&& after.minimum_margin == before.minimum_margin
            &&& after.liquidation_bounty == before.liquidation_bounty
            &&& after.funding_rate == before.funding_rate
            &&& after.minimum_funding_period == before.minimum_funding_period
        }),
{
}

/// An operation whose second account is not the authority derived from the
/// swap identity and the nonce is refused as unauthorized, whatever else it
/// brings, as soon as it brings the accounts that it reads and a first
/// account that stores a record.
pub proof fn law_unauthorized_caller_is_refused(
    program: Pubkey,
    instruction: PerpetualSwapInstruction,
    accounts: Seq<AccountInfo>,
    now: u128,
    rent_exempt: bool,
)
    requires
        accounts.len() >= accounts_read(instruction),
        decoded(accounts[0].data@).is_some(),
        !is_authority(
            program@,
            accounts[0].key@,
            nonce_used(instruction, decoded(accounts[0].data@).unwrap()),
            accounts[1].key@,
        ),
    ensures
        performed(program, instruction, accounts, now, rent_exempt) == Err::<
            EffectsView,
            PerpetualSwapError,
        >(PerpetualSwapError::InvalidAuthority),
{
}

/// A position transfer, a funding settlement, a liquidation and a change of
/// prices are accepted only on a swap of which both sides are funded.
pub proof fn law_both_sides_funded(
    program: Pubkey,
    instruction: PerpetualSwapInstruction,
    accounts: Seq<AccountInfo>,
    now: u128,
    rent_exempt: bool,
)
    requires
        performed(program, instruction, accounts, now, rent_exempt).is_ok(),
        instruction is TransferLong || instruction is TransferShort
            || instruction is TransferFunds || instruction is TryToLiquidate
            || instruction is UpdatePrices,
    ensures
        decoded(accounts[0].data@).is_some(),
        decoded(accounts[0].data@).unwrap().is_initialized(),
{
}

/// A change of prices replaces the two prices and nothing else, and orders
/// no token movement.
pub proof fn law_prices_only(
    program: Pubkey,
    index_price: Double,
    mark_price: Double,
    accounts: Seq<AccountInfo>,
)
    requires
        update_prices(program, index_price, mark_price, accounts).is_ok(),
    ensures
        update_prices(program, index_price, mark_price, accounts).unwrap().swap == (SwapView {
            index_price,
            mark_price,
            ..decoded(accounts[0].data@).unwrap()
        }),
        update_prices(program, index_price, mark_price, accounts).unwrap().invocations.len() == 0,
{
}

/// A record that holds no NaN is read back from its stored form as it was.
pub proof fn law_stored_record_is_read_back(swap: PerpetualSwap)
    requires
        swap@.storable(),
    ensures
        encoded(swap@).len() == 235,
        decoded(encoded(swap@)) == Some(swap@),
{
    lemma_round_trip(swap@);
}

/// An accepted liquidation happens only to a margin that is not over the
/// minimum, and empties the margin account: the bounty and what goes to the
/// insurance fund are together the whole balance. The liquidator, with the
/// bounty, is not left under the minimum margin. The record is left as it
/// was.
pub proof fn law_liquidation_empties_margin(
    program: Pubkey,
    collateral: u64,
    accounts: Seq<AccountInfo>,
)
    requires
        try_to_liquidate(program, collateral, accounts).is_ok(),
    ensures
        ({
            let swap = decoded(accounts[0].data@).unwrap();
            let balance = balance_of(accounts[3]);
            let bounty = bounty_of(swap.liquidation_bounty, balance);
            let ordered = try_to_liquidate(program, collateral, accounts).unwrap();
            &&& !margin_over(balance as u128, swap.mark_price, swap.minimum_margin)
            &&& !margin_under(
                (balance_of(accounts[4]) + bounty) as u128,
                swap.mark_price,
                swap.minimum_margin,
            )
            &&& bounty <= balance
            &&& ordered.swap == swap
            &&& ordered.invocations[0] == swap_transfer(accounts, swap, 6, 3, 4, bounty)
            &&& ordered.invocations.last() == swap_transfer(accounts, swap, 6, 4, 3, collateral)
            &&& if bounty < balance {
                ordered.invocations.len() == 3 && ordered.invocations[1] == swap_transfer(
                    accounts,
                    swap,
                    6,
                    3,
                    5,
                    (balance - bounty) as u64,
                )
            } else {
                ordered.invocations.len() == 2
            }
        }),
{
}

/// An accepted position transfer pays the whole margin to the holder who
/// leaves, takes the new margin from the holder who comes, and records the
/// holder who comes for the side; the new margin is not under the minimum.
pub proof fn law_handover_is_a_buyout(
    program: Pubkey,
    long: bool,
    margin_amount: u64,
    accounts: Seq<AccountInfo>,
)
    requires
        transfer_position(program, long, margin_amount, accounts).is_ok(),
    ensures
        ({
            let swap = decoded(accounts[0].data@).unwrap();
            let ordered = transfer_position(program, long, margin_amount, accounts).unwrap();
            &&& !margin_under(margin_amount as u128, swap.mark_price, swap.minimum_margin)
            &&& ordered.invocations == seq![
                swap_transfer(accounts, swap, 6, 3, 4, balance_of(accounts[3])),
                swap_transfer(accounts, swap, 6, 5, 3, margin_amount),
            ]
            &&& long ==> ordered.swap.long_account_pubkey == accounts[5].key@
                && ordered.swap.short_account_pubkey == swap.short_account_pubkey
            &&& !long ==> ordered.swap.short_account_pubkey == accounts[5].key@
                && ordered.swap.long_account_pubkey == swap.long_account_pubkey
        }),
{
}

/// Only a funding settlement, and the first funding of a side, move the
/// reference time: every other accepted operation on a set-up swap leaves it
/// as it was.
pub proof fn law_reference_time_stays(
    program: Pubkey,
    instruction: PerpetualSwapInstruction,
    accounts: Seq<AccountInfo>,
    now: u128,
    rent_exempt: bool,
)
    requires
        performed(program, instruction, accounts, now, rent_exempt).is_ok(),
        !(instruction is TransferFunds),
        !(instruction is InitializeSide),
    ensures
        performed(program, instruction, accounts, now, rent_exempt).unwrap().swap.reference_time
            == decoded(accounts[0].data@).unwrap().reference_time,
{
}

/// The record that an accepted operation hands back can be stored: none of
/// its prices, ratios and rates is a NaN.
pub proof fn law_effects_are_storable(
    program: Pubkey,
    instruction: PerpetualSwapInstruction,
    accounts: Seq<AccountInfo>,
    now: u128,
    rent_exempt: bool,
)
    requires
        performed(program, instruction, accounts, now, rent_exempt).is_ok(),
    ensures
        performed(program, instruction, accounts, now, rent_exempt).unwrap().swap.storable(),
{
}

/// A liquidation that would leave the liquidator, with the bounty, under the
/// minimum margin is refused for want of funds, where everything before is
/// in order: the caller, the margin account one of the swap's, both sides
/// funded, the two token accounts, and the margin not over the minimum.
pub proof fn law_weak_liquidator_is_refused(
    program: Pubkey,
    collateral: u64,
    accounts: Seq<AccountInfo>,
)
    requires
        admitted(program, accounts, 7).is_ok(),
        admitted(program, accounts, 7).unwrap().is_initialized(),
        token_account_error(
            accounts[3],
            admitted(program, accounts, 7).unwrap().token_program_id,
        ).is_none(),
        token_account_error(
            accounts[4],
            admitted(program, accounts, 7).unwrap().token_program_id,
        ).is_none(),
        accounts[3].key@ == admitted(program, accounts, 7).unwrap().long_margin_pubkey
            || accounts[3].key@ == admitted(program, accounts, 7).unwrap().short_margin_pubkey,
        !margin_over(
            balance_of(accounts[3]) as u128,
            admitted(program, accounts, 7).unwrap().mark_price,
            admitted(program, accounts, 7).unwrap().minimum_margin,
        ),
        margin_under(
            (balance_of(accounts[4]) + bounty_of(
                admitted(program, accounts, 7).unwrap().liquidation_bounty,
                balance_of(accounts[3]),
            )) as u128,
            admitted(program, accounts, 7).unwrap().mark_price,
            admitted(program, accounts, 7).unwrap().minimum_margin,
        ),
    ensures
        try_to_liquidate(program, collateral, accounts) == Err::<
            EffectsView,
            PerpetualSwapError,
        >(PerpetualSwapError::InsufficientFunds),
{
}

/// A margin account whose margin is over the minimum is not liquidated,
/// where the caller is in order, the margin account is one of the swap's,
/// both sides are funded and the two accounts are token accounts.
pub proof fn law_sound_margin_is_not_liquidated(
    program: Pubkey,
    collateral: u64,
    accounts: Seq<AccountInfo>,
)
    requires
        admitted(program, accounts, 7).is_ok(),
        admitted(program, accounts, 7).unwrap().is_initialized(),
        token_account_error(
            accounts[3],
            admitted(program, accounts, 7).unwrap().token_program_id,
        ).is_none(),
        token_account_error(
            accounts[4],
            admitted(program, accounts, 7).unwrap().token_program_id,
        ).is_none(),
        accounts[3].key@ == admitted(program, accounts, 7).unwrap().long_margin_pubkey
            || accounts[3].key@ == admitted(program, accounts, 7).unwrap().short_margin_pubkey,
        margin_over(
            balance_of(accounts[3]) as u128,
            admitted(program, accounts, 7).unwrap().mark_price,
            admitted(program, accounts, 7).unwrap().minimum_margin,
        ),
    ensures
        try_to_liquidate(program, collateral, accounts) == Err::<
            EffectsView,
            PerpetualSwapError,
        >(PerpetualSwapError::DoesNotNeedLiquidation),
{
}

/// For a span of exactly one day the funding factor is the funding rate,
/// whatever the rate, unless it is a NaN.
pub proof fn law_one_day_of_funding(funding_rate: Double)
    requires
        !funding_rate.nan(),
    ensures
        integer(86_400_000) == (Double { bits: MILLIS_PER_DAY_BITS }),
        funding_factor_of(funding_rate, 86_400_000) == funding_rate,
{
    lemma2_to64();
    lemma_top_bit(86_400_000, 26);
    assert(last_place(26) == -26);
    assert(nearest(86_400_000, 0) == packed(-26, 86_400_000 * pow2(26)));
    let day = Double { bits: MILLIS_PER_DAY_BITS };
    assert(integer(86_400_000) == day);
    lemma_over_itself(day);
    lemma_times_one(funding_rate);
}

} // verus!

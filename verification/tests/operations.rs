use perpetual_swap::account::AccountInfo;
use perpetual_swap::account::AuthoritySeeds;
use perpetual_swap::account::Effects;
use perpetual_swap::account::Invocation;
use perpetual_swap::double::Double;
use perpetual_swap::error::PerpetualSwapError;
use perpetual_swap::processor::Processor;
use perpetual_swap::pubkey::Pubkey;
use perpetual_swap::state::PerpetualSwap;
use perpetual_swap::token::AccountMeta;
use spl_token::solana_program::program_option::COption;
use spl_token::solana_program::program_pack::Pack;

const PROGRAM: u8 = 1;
const SWAP: u8 = 2;
const TRANSFER_AUTHORITY: u8 = 3;
const LONG_MARGIN: u8 = 10;
const LONG_HOLDER: u8 = 11;
const SHORT_MARGIN: u8 = 20;
const SHORT_HOLDER: u8 = 21;
const NEWCOMER: u8 = 30;
const INSURANCE: u8 = 40;
const MINT: u8 = 50;
const DAY: u128 = 86_400_000;

fn key(n: u8) -> Pubkey {
    Pubkey::new_from_array([n; 32])
}

fn quote(x: f64) -> Double {
    Double::from_bits(x.to_bits())
}

fn token_program() -> Pubkey {
    Pubkey::new_from_array(spl_token::id().to_bytes())
}

fn authority() -> (Pubkey, u8) {
    let program = solana_program::pubkey::Pubkey::new_from_array([PROGRAM; 32]);
    let (address, nonce) = solana_program::pubkey::Pubkey::find_program_address(&[&[SWAP; 32]], &program);
    (Pubkey::new_from_array(address.to_bytes()), nonce)
}

fn active_swap() -> PerpetualSwap {
    PerpetualSwap {
        is_long_initialized: true,
        is_short_initialized: true,
        nonce: authority().1,
        token_program_id: token_program(),
        long_margin_pubkey: key(LONG_MARGIN),
        long_account_pubkey: key(LONG_HOLDER),
        short_margin_pubkey: key(SHORT_MARGIN),
        short_account_pubkey: key(SHORT_HOLDER),
        reference_time: 1_000_000,
        index_price: quote(100.0),
        mark_price: quote(101.0),
        minimum_margin: quote(0.05),
        liquidation_bounty: quote(0.1),
        funding_rate: quote(0.1),
        minimum_funding_period: DAY,
    }
}

fn record(swap: &PerpetualSwap) -> AccountInfo {
    AccountInfo { key: key(SWAP), owner: key(PROGRAM), lamports: 1, data: swap.try_to_vec().unwrap() }
}

fn plain(n: u8) -> AccountInfo {
    AccountInfo { key: key(n), owner: key(0), lamports: 0, data: vec![] }
}

fn authority_account() -> AccountInfo {
    AccountInfo { key: authority().0, owner: key(0), lamports: 0, data: vec![] }
}

fn custody() -> AccountInfo {
    AccountInfo { key: token_program(), owner: key(0), lamports: 0, data: vec![] }
}

fn tokens_of(n: u8, mint: u8, amount: u64, state: spl_token::state::AccountState) -> AccountInfo {
    let account = spl_token::state::Account {
        mint: spl_token::solana_program::pubkey::Pubkey::new_from_array([mint; 32]),
        owner: spl_token::solana_program::pubkey::Pubkey::new_from_array([n; 32]),
        amount,
        delegate: COption::None,
        state,
        is_native: COption::None,
        delegated_amount: 0,
        close_authority: COption::None,
    };
    let mut data = vec![0u8; 165];
    spl_token::state::Account::pack(account, &mut data).unwrap();
    AccountInfo { key: key(n), owner: token_program(), lamports: 1, data }
}

fn tokens(n: u8, amount: u64) -> AccountInfo {
    tokens_of(n, MINT, amount, spl_token::state::AccountState::Initialized)
}

fn moved(from: u8, to: u8, amount: u64) -> Invocation {
    let mut data = vec![3u8];
    data.extend_from_slice(&amount.to_le_bytes());
    Invocation {
        instruction: perpetual_swap::token::Instruction {
            program_id: token_program(),
            accounts: vec![
                AccountMeta { pubkey: key(from), is_signer: false, is_writable: true },
                AccountMeta { pubkey: key(to), is_signer: false, is_writable: true },
                AccountMeta { pubkey: key(TRANSFER_AUTHORITY), is_signer: true, is_writable: false },
            ],
            data,
        },
        seeds: Some(AuthoritySeeds { swap: key(SWAP), nonce: authority().1 }),
    }
}

fn refused(result: Result<Effects, PerpetualSwapError>, error: PerpetualSwapError) {
    assert_eq!(result, Err(error));
}

// ---- taking from a margin ----

fn withdraw_accounts(swap: &PerpetualSwap, balance: u64) -> Vec<AccountInfo> {
    vec![
        record(swap),
        authority_account(),
        plain(TRANSFER_AUTHORITY),
        tokens(LONG_MARGIN, balance),
        plain(LONG_HOLDER),
        custody(),
    ]
}

#[test]
fn a_withdrawal_moves_the_amount_to_the_holder() {
    let swap = active_swap();
    let effects = Processor::process_withdraw_from_margin(&key(PROGRAM), 10, &withdraw_accounts(&swap, 50)).unwrap();
    assert_eq!(effects.swap, swap);
    assert_eq!(effects.invocations, vec![moved(LONG_MARGIN, LONG_HOLDER, 10)]);
}

#[test]
fn a_withdrawal_from_the_short_side() {
    let swap = active_swap();
    let mut accounts = withdraw_accounts(&swap, 50);
    accounts[3] = tokens(SHORT_MARGIN, 50);
    accounts[4] = plain(SHORT_HOLDER);
    let effects = Processor::process_withdraw_from_margin(&key(PROGRAM), 50, &accounts).unwrap();
    assert_eq!(effects.invocations, vec![moved(SHORT_MARGIN, SHORT_HOLDER, 50)]);
}

#[test]
fn a_withdrawal_that_leaves_too_little_margin_is_refused() {
    let swap = active_swap();
    // What is left is 97 of a mark price of 101: the ratio 1 - 97/101 is under 0.05.
    refused(
        Processor::process_withdraw_from_margin(&key(PROGRAM), 3, &withdraw_accounts(&swap, 100)),
        PerpetualSwapError::WouldBeLiquidated,
    );
    // 95 are left: the ratio 1 - 95/101 is over 0.05.
    assert!(Processor::process_withdraw_from_margin(&key(PROGRAM), 5, &withdraw_accounts(&swap, 100)).is_ok());
}

#[test]
fn a_withdrawal_at_the_exact_minimum_is_accepted() {
    let mut swap = active_swap();
    swap.mark_price = quote(100.0);
    swap.minimum_margin = quote(0.5);
    assert!(Processor::process_withdraw_from_margin(&key(PROGRAM), 50, &withdraw_accounts(&swap, 100)).is_ok());
    refused(
        Processor::process_withdraw_from_margin(&key(PROGRAM), 49, &withdraw_accounts(&swap, 100)),
        PerpetualSwapError::WouldBeLiquidated,
    );
}

#[test]
fn a_withdrawal_of_more_than_the_margin_holds_is_refused() {
    let swap = active_swap();
    refused(
        Processor::process_withdraw_from_margin(&key(PROGRAM), 51, &withdraw_accounts(&swap, 50)),
        PerpetualSwapError::InsufficientFunds,
    );
}

#[test]
fn a_withdrawal_to_another_account_than_the_holder_s_is_refused() {
    let swap = active_swap();
    let mut accounts = withdraw_accounts(&swap, 50);
    accounts[4] = plain(SHORT_HOLDER);
    refused(
        Processor::process_withdraw_from_margin(&key(PROGRAM), 10, &accounts),
        PerpetualSwapError::InvalidAccountKeys,
    );
    let mut accounts = withdraw_accounts(&swap, 50);
    accounts[3] = tokens(NEWCOMER, 50);
    refused(
        Processor::process_withdraw_from_margin(&key(PROGRAM), 10, &accounts),
        PerpetualSwapError::InvalidAccountKeys,
    );
}

#[test]
fn a_pair_recorded_for_both_sides_resolves_no_side() {
    let mut swap = active_swap();
    swap.short_margin_pubkey = key(LONG_MARGIN);
    swap.short_account_pubkey = key(LONG_HOLDER);
    refused(
        Processor::process_withdraw_from_margin(&key(PROGRAM), 10, &withdraw_accounts(&swap, 50)),
        PerpetualSwapError::InvalidAccountKeys,
    );
}

// ---- what every operation on a set-up swap checks first ----

#[test]
fn too_few_accounts_are_refused() {
    let swap = active_swap();
    let mut accounts = withdraw_accounts(&swap, 50);
    accounts.pop();
    refused(
        Processor::process_withdraw_from_margin(&key(PROGRAM), 10, &accounts),
        PerpetualSwapError::NotEnoughAccountKeys,
    );
    refused(Processor::process_transfer_funds(&key(PROGRAM), &[], 0), PerpetualSwapError::NotEnoughAccountKeys);
}

#[test]
fn a_first_account_without_record_is_refused() {
    let swap = active_swap();
    let mut accounts = withdraw_accounts(&swap, 50);
    accounts[0].data.pop();
    refused(
        Processor::process_withdraw_from_margin(&key(PROGRAM), 10, &accounts),
        PerpetualSwapError::InvalidAccountData,
    );
}

#[test]
fn an_unauthorized_caller_is_refused_by_every_operation() {
    let swap = active_swap();
    let p = key(PROGRAM);
    let mut six = withdraw_accounts(&swap, 50);
    six[1] = plain(99);
    let mut seven = six.clone();
    seven.insert(5, plain(INSURANCE));
    let e = PerpetualSwapError::InvalidAuthority;
    refused(Processor::process_initialize_side(&p, 10, &six, 0), e);
    refused(Processor::process_deposit_to_margin(&p, 10, &six), e);
    refused(Processor::process_withdraw_from_margin(&p, 10, &six), e);
    refused(Processor::process_transfer_long(&p, 10, &seven), e);
    refused(Processor::process_transfer_short(&p, 10, &seven), e);
    refused(Processor::process_transfer_funds(&p, &six, 2 * DAY), e);
    refused(Processor::process_try_to_liquidate(&p, 10, &seven), e);
    refused(Processor::process_update_prices(&p, quote(1.0), quote(2.0), &six[..3]), e);
    refused(
        Processor::process_initialize_perpetual_swap(&p, swap.nonce, quote(0.1), quote(0.05), quote(0.1), DAY, &seven, true),
        e,
    );
}

#[test]
fn an_unauthorized_caller_is_refused_before_anything_else_is_looked_at() {
    let mut swap = active_swap();
    swap.is_long_initialized = false;
    swap.token_program_id = key(77);
    let mut accounts = withdraw_accounts(&swap, 50);
    accounts[0].owner = key(78);
    accounts[1] = plain(99);
    accounts[3] = plain(98);
    refused(Processor::process_transfer_funds(&key(PROGRAM), &accounts, 0), PerpetualSwapError::InvalidAuthority);
    refused(
        Processor::process_withdraw_from_margin(&key(PROGRAM), 1000, &accounts),
        PerpetualSwapError::InvalidAuthority,
    );
}

#[test]
fn the_authority_of_another_nonce_is_refused() {
    let mut swap = active_swap();
    swap.nonce = swap.nonce.wrapping_sub(1);
    refused(
        Processor::process_withdraw_from_margin(&key(PROGRAM), 10, &withdraw_accounts(&swap, 50)),
        PerpetualSwapError::InvalidAuthority,
    );
}

#[test]
fn another_token_program_than_the_recorded_one_is_refused() {
    let swap = active_swap();
    let mut accounts = withdraw_accounts(&swap, 50);
    accounts[5] = plain(77);
    refused(
        Processor::process_withdraw_from_margin(&key(PROGRAM), 10, &accounts),
        PerpetualSwapError::IncorrectCustodyIdentity,
    );
}

#[test]
fn a_record_of_another_program_is_refused() {
    let swap = active_swap();
    let mut accounts = withdraw_accounts(&swap, 50);
    accounts[0].owner = key(77);
    refused(
        Processor::process_withdraw_from_margin(&key(PROGRAM), 10, &accounts),
        PerpetualSwapError::IncorrectProgramId,
    );
}

#[test]
fn a_swap_bound_to_an_unknown_token_program_orders_nothing() {
    let mut swap = active_swap();
    swap.token_program_id = key(77);
    let mut accounts = withdraw_accounts(&swap, 50);
    accounts[3].owner = key(77);
    accounts[5] = plain(77);
    refused(
        Processor::process_withdraw_from_margin(&key(PROGRAM), 10, &accounts),
        PerpetualSwapError::IncorrectProgramId,
    );
}

#[test]
fn a_margin_account_that_is_no_token_account_is_refused() {
    let swap = active_swap();
    let mut accounts = withdraw_accounts(&swap, 50);
    accounts[3].owner = key(77);
    refused(
        Processor::process_withdraw_from_margin(&key(PROGRAM), 10, &accounts),
        PerpetualSwapError::IncorrectCustodyIdentity,
    );
    let mut accounts = withdraw_accounts(&swap, 50);
    accounts[3] = tokens_of(LONG_MARGIN, MINT, 50, spl_token::state::AccountState::Uninitialized);
    refused(
        Processor::process_withdraw_from_margin(&key(PROGRAM), 10, &accounts),
        PerpetualSwapError::ExpectedAccount,
    );
}

#[test]
fn the_accounts_of_a_side_are_looked_at_before_what_they_hold() {
    let swap = active_swap();
    let mut accounts = withdraw_accounts(&swap, 50);
    accounts[3] = plain(NEWCOMER);
    refused(
        Processor::process_withdraw_from_margin(&key(PROGRAM), 10, &accounts),
        PerpetualSwapError::InvalidAccountKeys,
    );
    let mut accounts = handover_accounts(&fresh_swap(), true);
    accounts[4] = plain(NEWCOMER);
    refused(
        Processor::process_transfer_long(&key(PROGRAM), 10, &accounts),
        PerpetualSwapError::InvalidAccountKeys,
    );
    let mut accounts = liquidation_accounts(&fresh_swap(), 50, 40);
    accounts[3] = plain(NEWCOMER);
    refused(
        Processor::process_try_to_liquidate(&key(PROGRAM), 10, &accounts),
        PerpetualSwapError::InvalidAccountKeys,
    );
}

#[test]
fn the_owner_of_the_record_is_looked_at_last() {
    let swap = active_swap();
    let mut accounts = withdraw_accounts(&swap, 100);
    accounts[0].owner = key(77);
    refused(
        Processor::process_withdraw_from_margin(&key(PROGRAM), 3, &accounts),
        PerpetualSwapError::WouldBeLiquidated,
    );
    refused(
        Processor::process_withdraw_from_margin(&key(PROGRAM), 101, &accounts),
        PerpetualSwapError::InsufficientFunds,
    );
    refused(
        Processor::process_withdraw_from_margin(&key(PROGRAM), 5, &accounts),
        PerpetualSwapError::IncorrectProgramId,
    );
    let mut accounts = funding_accounts(&swap);
    accounts[0].owner = key(77);
    refused(
        Processor::process_transfer_funds(&key(PROGRAM), &accounts, swap.reference_time + 1),
        PerpetualSwapError::InvalidTransferTime,
    );
    refused(
        Processor::process_transfer_funds(&key(PROGRAM), &accounts, swap.reference_time + DAY),
        PerpetualSwapError::IncorrectProgramId,
    );
    let mut accounts = vec![record(&swap), authority_account(), custody()];
    accounts[0].owner = key(77);
    refused(
        Processor::process_update_prices(&key(PROGRAM), quote(1.0), quote(2.0), &accounts),
        PerpetualSwapError::IncorrectProgramId,
    );
}

// ---- adding to a margin ----

fn deposit_accounts(swap: &PerpetualSwap, balance: u64) -> Vec<AccountInfo> {
    vec![
        record(swap),
        authority_account(),
        plain(TRANSFER_AUTHORITY),
        tokens(SHORT_HOLDER, balance),
        tokens(SHORT_MARGIN, 0),
        custody(),
    ]
}

#[test]
fn a_deposit_moves_the_amount_into_the_margin() {
    let swap = active_swap();
    let effects = Processor::process_deposit_to_margin(&key(PROGRAM), 30, &deposit_accounts(&swap, 30)).unwrap();
    assert_eq!(effects.swap, swap);
    assert_eq!(effects.invocations, vec![moved(SHORT_HOLDER, SHORT_MARGIN, 30)]);
}

#[test]
fn a_deposit_of_more_than_the_holder_has_is_refused() {
    let swap = active_swap();
    refused(
        Processor::process_deposit_to_margin(&key(PROGRAM), 31, &deposit_accounts(&swap, 30)),
        PerpetualSwapError::InsufficientFunds,
    );
}

#[test]
fn a_deposit_by_another_than_the_holder_is_refused() {
    let swap = active_swap();
    let mut accounts = deposit_accounts(&swap, 30);
    accounts[3] = tokens(LONG_HOLDER, 30);
    refused(
        Processor::process_deposit_to_margin(&key(PROGRAM), 10, &accounts),
        PerpetualSwapError::InvalidAccountKeys,
    );
    let mut accounts = deposit_accounts(&swap, 30);
    accounts[4] = plain(NEWCOMER);
    refused(
        Processor::process_deposit_to_margin(&key(PROGRAM), 10, &accounts),
        PerpetualSwapError::InvalidAccountKeys,
    );
}

#[test]
fn a_deposit_that_leaves_too_little_margin_is_refused() {
    // With 97 in the margin the ratio 1 - 97/101 is under the minimum 0.05; with 95 it is over.
    let swap = active_swap();
    let mut accounts = deposit_accounts(&swap, 100);
    accounts[4] = tokens(SHORT_MARGIN, 90);
    refused(
        Processor::process_deposit_to_margin(&key(PROGRAM), 7, &accounts),
        PerpetualSwapError::WouldBeLiquidated,
    );
    let effects = Processor::process_deposit_to_margin(&key(PROGRAM), 5, &accounts).unwrap();
    assert_eq!(effects.swap, swap);
    assert_eq!(effects.invocations, vec![moved(SHORT_HOLDER, SHORT_MARGIN, 5)]);
    refused(
        Processor::process_deposit_to_margin(&key(PROGRAM), 100, &deposit_accounts(&swap, 100)),
        PerpetualSwapError::WouldBeLiquidated,
    );
}

#[test]
fn a_deposit_at_the_exact_minimum_is_accepted() {
    let mut swap = active_swap();
    swap.mark_price = quote(100.0);
    swap.minimum_margin = quote(0.5);
    let mut accounts = deposit_accounts(&swap, 100);
    accounts[4] = tokens(SHORT_MARGIN, 20);
    assert!(Processor::process_deposit_to_margin(&key(PROGRAM), 30, &accounts).is_ok());
    refused(
        Processor::process_deposit_to_margin(&key(PROGRAM), 31, &accounts),
        PerpetualSwapError::WouldBeLiquidated,
    );
}

#[test]
fn a_deposit_beyond_the_funds_is_refused_for_the_funds() {
    let swap = active_swap();
    let mut accounts = deposit_accounts(&swap, 50);
    accounts[4] = tokens(SHORT_MARGIN, 90);
    refused(
        Processor::process_deposit_to_margin(&key(PROGRAM), 51, &accounts),
        PerpetualSwapError::InsufficientFunds,
    );
}

#[test]
fn a_deposit_into_the_largest_margin_does_not_overflow() {
    let swap = active_swap();
    let mut accounts = deposit_accounts(&swap, u64::MAX);
    accounts[4] = tokens(SHORT_MARGIN, u64::MAX);
    refused(
        Processor::process_deposit_to_margin(&key(PROGRAM), u64::MAX, &accounts),
        PerpetualSwapError::WouldBeLiquidated,
    );
}

#[test]
fn a_deposit_into_an_account_that_is_no_token_account_is_refused() {
    let swap = active_swap();
    let mut accounts = deposit_accounts(&swap, 30);
    accounts[4] = plain(SHORT_MARGIN);
    refused(
        Processor::process_deposit_to_margin(&key(PROGRAM), 10, &accounts),
        PerpetualSwapError::IncorrectCustodyIdentity,
    );
    accounts[4] = tokens_of(SHORT_MARGIN, MINT, 0, spl_token::state::AccountState::Uninitialized);
    refused(
        Processor::process_deposit_to_margin(&key(PROGRAM), 10, &accounts),
        PerpetualSwapError::ExpectedAccount,
    );
}

#[test]
fn a_deposit_from_an_account_that_is_no_token_account_is_refused() {
    let swap = active_swap();
    let mut accounts = deposit_accounts(&swap, 30);
    accounts[3] = plain(SHORT_HOLDER);
    refused(
        Processor::process_deposit_to_margin(&key(PROGRAM), 10, &accounts),
        PerpetualSwapError::IncorrectCustodyIdentity,
    );
}

// ---- funding a side for the first time ----

fn fresh_swap() -> PerpetualSwap {
    let mut swap = active_swap();
    swap.is_long_initialized = false;
    swap.is_short_initialized = false;
    swap.long_account_pubkey = key(0);
    swap.short_account_pubkey = key(0);
    swap.reference_time = 0;
    swap
}

fn side_accounts(swap: &PerpetualSwap, payer: u8, margin: u8, balance: u64) -> Vec<AccountInfo> {
    vec![
        record(swap),
        authority_account(),
        plain(TRANSFER_AUTHORITY),
        tokens(payer, balance),
        plain(margin),
        custody(),
    ]
}

#[test]
fn the_first_side_is_funded_and_the_clock_waits() {
    let swap = fresh_swap();
    let accounts = side_accounts(&swap, LONG_HOLDER, LONG_MARGIN, 80);
    let effects = Processor::process_initialize_side(&key(PROGRAM), 60, &accounts, 5_000).unwrap();
    let mut expected = swap;
    expected.is_long_initialized = true;
    expected.long_account_pubkey = key(LONG_HOLDER);
    assert_eq!(effects.swap, expected);
    assert_eq!(effects.invocations, vec![moved(LONG_HOLDER, LONG_MARGIN, 60)]);
}

#[test]
fn the_second_side_starts_the_clock() {
    let mut swap = fresh_swap();
    swap.is_long_initialized = true;
    swap.long_account_pubkey = key(LONG_HOLDER);
    let accounts = side_accounts(&swap, SHORT_HOLDER, SHORT_MARGIN, 80);
    let effects = Processor::process_initialize_side(&key(PROGRAM), 80, &accounts, 5_000).unwrap();
    let mut expected = swap;
    expected.is_short_initialized = true;
    expected.short_account_pubkey = key(SHORT_HOLDER);
    expected.reference_time = 5_000;
    assert_eq!(effects.swap, expected);
    assert!(effects.swap.is_initialized());
    assert_eq!(effects.invocations, vec![moved(SHORT_HOLDER, SHORT_MARGIN, 80)]);
}

#[test]
fn a_first_funding_needs_a_margin_account_of_the_swap() {
    let swap = fresh_swap();
    let accounts = side_accounts(&swap, LONG_HOLDER, NEWCOMER, 80);
    refused(
        Processor::process_initialize_side(&key(PROGRAM), 60, &accounts, 5_000),
        PerpetualSwapError::InvalidAccountKeys,
    );
    let mut both = fresh_swap();
    both.short_margin_pubkey = key(LONG_MARGIN);
    let accounts = side_accounts(&both, LONG_HOLDER, LONG_MARGIN, 80);
    refused(
        Processor::process_initialize_side(&key(PROGRAM), 60, &accounts, 5_000),
        PerpetualSwapError::InvalidAccountKeys,
    );
}

#[test]
fn a_first_funding_under_the_minimum_margin_is_refused() {
    let swap = fresh_swap();
    let accounts = side_accounts(&swap, LONG_HOLDER, LONG_MARGIN, 200);
    refused(
        Processor::process_initialize_side(&key(PROGRAM), 97, &accounts, 5_000),
        PerpetualSwapError::WouldBeLiquidated,
    );
    // The margin is looked at before the funds.
    refused(
        Processor::process_initialize_side(&key(PROGRAM), 500, &accounts, 5_000),
        PerpetualSwapError::WouldBeLiquidated,
    );
}

#[test]
fn a_first_funding_beyond_the_payer_s_funds_is_refused() {
    let swap = fresh_swap();
    let accounts = side_accounts(&swap, LONG_HOLDER, LONG_MARGIN, 59);
    refused(
        Processor::process_initialize_side(&key(PROGRAM), 60, &accounts, 5_000),
        PerpetualSwapError::InsufficientFunds,
    );
}

#[test]
fn funding_a_side_again_records_the_new_payer() {
    let swap = active_swap();
    let accounts = side_accounts(&swap, NEWCOMER, LONG_MARGIN, 80);
    let effects = Processor::process_initialize_side(&key(PROGRAM), 60, &accounts, 9_000_000).unwrap();
    let mut expected = swap;
    expected.long_account_pubkey = key(NEWCOMER);
    expected.reference_time = 9_000_000;
    assert_eq!(effects.swap, expected);
}

// ---- handing a position over ----

fn handover_accounts(swap: &PerpetualSwap, long: bool) -> Vec<AccountInfo> {
    let (margin, holder) = if long { (LONG_MARGIN, LONG_HOLDER) } else { (SHORT_MARGIN, SHORT_HOLDER) };
    vec![
        record(swap),
        authority_account(),
        plain(TRANSFER_AUTHORITY),
        tokens(margin, 70),
        tokens(holder, 5),
        tokens(NEWCOMER, 500),
        custody(),
    ]
}

#[test]
fn the_long_position_is_bought_out_and_replaced() {
    let swap = active_swap();
    let effects = Processor::process_transfer_long(&key(PROGRAM), 40, &handover_accounts(&swap, true)).unwrap();
    let mut expected = swap;
    expected.long_account_pubkey = key(NEWCOMER);
    assert_eq!(effects.swap, expected);
    assert_eq!(
        effects.invocations,
        vec![moved(LONG_MARGIN, LONG_HOLDER, 70), moved(NEWCOMER, LONG_MARGIN, 40)]
    );
}

#[test]
fn the_short_position_is_bought_out_and_replaced() {
    let swap = active_swap();
    let effects = Processor::process_transfer_short(&key(PROGRAM), 40, &handover_accounts(&swap, false)).unwrap();
    let mut expected = swap;
    expected.short_account_pubkey = key(NEWCOMER);
    assert_eq!(effects.swap, expected);
    assert_eq!(
        effects.invocations,
        vec![moved(SHORT_MARGIN, SHORT_HOLDER, 70), moved(NEWCOMER, SHORT_MARGIN, 40)]
    );
}

#[test]
fn a_position_is_handed_over_only_by_its_own_side() {
    let swap = active_swap();
    refused(
        Processor::process_transfer_long(&key(PROGRAM), 40, &handover_accounts(&swap, false)),
        PerpetualSwapError::InvalidAccountKeys,
    );
    refused(
        Processor::process_transfer_short(&key(PROGRAM), 40, &handover_accounts(&swap, true)),
        PerpetualSwapError::InvalidAccountKeys,
    );
    let mut accounts = handover_accounts(&swap, true);
    accounts[4] = tokens(SHORT_HOLDER, 5);
    refused(
        Processor::process_transfer_long(&key(PROGRAM), 40, &accounts),
        PerpetualSwapError::InvalidAccountKeys,
    );
}

#[test]
fn a_newcomer_with_another_mint_is_refused() {
    let swap = active_swap();
    for long in [true, false] {
        let mut accounts = handover_accounts(&swap, long);
        accounts[5] = tokens_of(NEWCOMER, MINT + 1, 500, spl_token::state::AccountState::Initialized);
        let result = if long {
            Processor::process_transfer_long(&key(PROGRAM), 40, &accounts)
        } else {
            Processor::process_transfer_short(&key(PROGRAM), 40, &accounts)
        };
        refused(result, PerpetualSwapError::InvalidMints);
    }
}

#[test]
fn a_position_needs_the_minimum_margin() {
    let swap = active_swap();
    refused(
        Processor::process_transfer_long(&key(PROGRAM), 97, &handover_accounts(&swap, true)),
        PerpetualSwapError::InsufficientMargin,
    );
    refused(
        Processor::process_transfer_short(&key(PROGRAM), 97, &handover_accounts(&swap, false)),
        PerpetualSwapError::InsufficientMargin,
    );
}

#[test]
fn a_position_of_an_unfunded_swap_is_not_handed_over() {
    let mut swap = active_swap();
    swap.is_short_initialized = false;
    refused(
        Processor::process_transfer_long(&key(PROGRAM), 40, &handover_accounts(&swap, true)),
        PerpetualSwapError::AccountNotInitialized,
    );
}

#[test]
fn every_account_of_a_handover_is_a_token_account() {
    let swap = active_swap();
    for at in 3..6 {
        let mut accounts = handover_accounts(&swap, true);
        accounts[at].data = vec![0u8; 165];
        refused(
            Processor::process_transfer_long(&key(PROGRAM), 40, &accounts),
            PerpetualSwapError::ExpectedAccount,
        );
    }
}

// ---- settling the funding ----

fn funding_accounts(swap: &PerpetualSwap) -> Vec<AccountInfo> {
    vec![
        record(swap),
        authority_account(),
        plain(TRANSFER_AUTHORITY),
        plain(LONG_MARGIN),
        plain(SHORT_MARGIN),
        custody(),
    ]
}

#[test]
fn a_payment_under_one_token_moves_nothing_and_is_no_error() {
    // mark 101, index 100, rate 0.1, one day: the factor is 0.1, the payment 0.1, cut to 0.
    let swap = active_swap();
    let now = swap.reference_time + DAY;
    let effects = Processor::process_transfer_funds(&key(PROGRAM), &funding_accounts(&swap), now).unwrap();
    assert_eq!(effects.invocations, vec![moved(LONG_MARGIN, SHORT_MARGIN, 0)]);
    assert_eq!(effects.swap.reference_time, now);
}

#[test]
fn the_long_side_pays_when_the_mark_is_over_the_index() {
    let mut swap = active_swap();
    swap.mark_price = quote(150.0);
    let now = swap.reference_time + 2 * DAY;
    let effects = Processor::process_transfer_funds(&key(PROGRAM), &funding_accounts(&swap), now).unwrap();
    assert_eq!(effects.invocations, vec![moved(LONG_MARGIN, SHORT_MARGIN, 10)]);
    let mut expected = swap;
    expected.reference_time = now;
    assert_eq!(effects.swap, expected);
}

#[test]
fn the_short_side_pays_otherwise() {
    let mut swap = active_swap();
    swap.mark_price = quote(60.0);
    let now = swap.reference_time + DAY;
    let effects = Processor::process_transfer_funds(&key(PROGRAM), &funding_accounts(&swap), now).unwrap();
    assert_eq!(effects.invocations, vec![moved(SHORT_MARGIN, LONG_MARGIN, 4)]);

    swap.mark_price = swap.index_price;
    let effects = Processor::process_transfer_funds(&key(PROGRAM), &funding_accounts(&swap), now).unwrap();
    assert_eq!(effects.invocations, vec![moved(SHORT_MARGIN, LONG_MARGIN, 0)]);
}

#[test]
fn a_settlement_between_other_accounts_is_refused() {
    let swap = active_swap();
    let now = swap.reference_time + DAY;
    let p = key(PROGRAM);
    let mut accounts = funding_accounts(&swap);
    accounts.swap(3, 4);
    refused(Processor::process_transfer_funds(&p, &accounts, now), PerpetualSwapError::InvalidAccountKeys);
    let mut accounts = funding_accounts(&swap);
    accounts[3] = plain(NEWCOMER);
    refused(Processor::process_transfer_funds(&p, &accounts, now), PerpetualSwapError::InvalidAccountKeys);
    let mut accounts = funding_accounts(&swap);
    accounts[4] = plain(LONG_HOLDER);
    refused(Processor::process_transfer_funds(&p, &accounts, now), PerpetualSwapError::InvalidAccountKeys);
    // The accounts are looked at before the funding, the time and the owner of the record.
    let mut unfunded = swap;
    unfunded.is_long_initialized = false;
    let mut accounts = funding_accounts(&unfunded);
    accounts[0].owner = key(78);
    accounts[4] = plain(NEWCOMER);
    refused(Processor::process_transfer_funds(&p, &accounts, 0), PerpetualSwapError::InvalidAccountKeys);
    assert!(Processor::process_transfer_funds(&p, &funding_accounts(&swap), now).is_ok());
}

#[test]
fn a_second_settlement_within_the_period_is_refused() {
    let mut swap = active_swap();
    swap.mark_price = quote(150.0);
    let now = swap.reference_time + DAY;
    let first = Processor::process_transfer_funds(&key(PROGRAM), &funding_accounts(&swap), now).unwrap();
    for later in [now, now + 1, now + DAY - 1] {
        refused(
            Processor::process_transfer_funds(&key(PROGRAM), &funding_accounts(&first.swap), later),
            PerpetualSwapError::InvalidTransferTime,
        );
    }
    let again = Processor::process_transfer_funds(&key(PROGRAM), &funding_accounts(&first.swap), now + DAY).unwrap();
    assert_eq!(again.swap.reference_time, now + DAY);
    assert_eq!(again.invocations, vec![moved(LONG_MARGIN, SHORT_MARGIN, 5)]);
}

#[test]
fn a_settlement_before_the_reference_time_is_refused() {
    let swap = active_swap();
    refused(
        Processor::process_transfer_funds(&key(PROGRAM), &funding_accounts(&swap), swap.reference_time - 1),
        PerpetualSwapError::InvalidTransferTime,
    );
    refused(
        Processor::process_transfer_funds(&key(PROGRAM), &funding_accounts(&swap), 0),
        PerpetualSwapError::InvalidTransferTime,
    );
}

#[test]
fn an_unfunded_swap_settles_no_funding() {
    let mut swap = active_swap();
    swap.is_long_initialized = false;
    refused(
        Processor::process_transfer_funds(&key(PROGRAM), &funding_accounts(&swap), swap.reference_time + DAY),
        PerpetualSwapError::AccountNotInitialized,
    );
}

// ---- liquidating ----

fn liquidation_swap() -> PerpetualSwap {
    let mut swap = active_swap();
    swap.mark_price = quote(52.0);
    swap
}

fn liquidation_accounts(swap: &PerpetualSwap, margin: u64, liquidator: u64) -> Vec<AccountInfo> {
    vec![
        record(swap),
        authority_account(),
        plain(TRANSFER_AUTHORITY),
        tokens(SHORT_MARGIN, margin),
        tokens(NEWCOMER, liquidator),
        plain(INSURANCE),
        custody(),
    ]
}

#[test]
fn a_liquidation_pays_the_bounty_sweeps_the_rest_and_takes_the_collateral() {
    // Balance 50, bounty 0.1: the bounty is 5 and 45 are left for the insurance fund.
    let swap = liquidation_swap();
    let effects = Processor::process_try_to_liquidate(&key(PROGRAM), 30, &liquidation_accounts(&swap, 50, 40)).unwrap();
    assert_eq!(effects.swap, swap);
    assert_eq!(
        effects.invocations,
        vec![
            moved(SHORT_MARGIN, NEWCOMER, 5),
            moved(SHORT_MARGIN, INSURANCE, 45),
            moved(NEWCOMER, SHORT_MARGIN, 30),
        ]
    );
}

#[test]
fn a_liquidator_left_with_too_little_margin_is_refused() {
    // With 60 and the bounty of 5 the liquidator's ratio 1 - 65/52 is under 0.05.
    let swap = liquidation_swap();
    refused(
        Processor::process_try_to_liquidate(&key(PROGRAM), 30, &liquidation_accounts(&swap, 50, 60)),
        PerpetualSwapError::InsufficientFunds,
    );
    // 44 and 5 are 49: the ratio 1 - 49/52 is over 0.05. 45 and 5 are 50: it is under.
    assert!(Processor::process_try_to_liquidate(&key(PROGRAM), 30, &liquidation_accounts(&swap, 50, 44)).is_ok());
    refused(
        Processor::process_try_to_liquidate(&key(PROGRAM), 30, &liquidation_accounts(&swap, 50, 45)),
        PerpetualSwapError::InsufficientFunds,
    );
}

#[test]
fn a_margin_over_the_minimum_is_not_liquidated() {
    // At the mark price 100 the ratio of the balance 50 is 0.5, over the minimum 0.05.
    let mut swap = active_swap();
    swap.mark_price = quote(100.0);
    refused(
        Processor::process_try_to_liquidate(&key(PROGRAM), 30, &liquidation_accounts(&swap, 50, 40)),
        PerpetualSwapError::DoesNotNeedLiquidation,
    );
}

#[test]
fn a_margin_at_the_minimum_is_liquidated() {
    let mut swap = active_swap();
    swap.mark_price = quote(100.0);
    swap.minimum_margin = quote(0.5);
    let effects = Processor::process_try_to_liquidate(&key(PROGRAM), 7, &liquidation_accounts(&swap, 50, 0)).unwrap();
    assert_eq!(effects.invocations.len(), 3);
    assert_eq!(effects.invocations[2], moved(NEWCOMER, SHORT_MARGIN, 7));
}

#[test]
fn a_whole_bounty_leaves_nothing_to_sweep() {
    let mut swap = active_swap();
    swap.liquidation_bounty = quote(1.0);
    swap.minimum_margin = quote(0.5);
    swap.mark_price = quote(100.0);
    let effects = Processor::process_try_to_liquidate(&key(PROGRAM), 9, &liquidation_accounts(&swap, 50, 0)).unwrap();
    assert_eq!(
        effects.invocations,
        vec![moved(SHORT_MARGIN, NEWCOMER, 50), moved(NEWCOMER, SHORT_MARGIN, 9)]
    );
}

#[test]
fn a_bounty_over_the_balance_is_refused() {
    let mut swap = liquidation_swap();
    swap.liquidation_bounty = quote(1.5);
    refused(
        Processor::process_try_to_liquidate(&key(PROGRAM), 9, &liquidation_accounts(&swap, 50, 0)),
        PerpetualSwapError::InsufficientFunds,
    );
}

#[test]
fn only_a_margin_account_of_the_swap_is_liquidated() {
    let swap = liquidation_swap();
    let mut accounts = liquidation_accounts(&swap, 50, 40);
    accounts[3] = tokens(LONG_HOLDER, 50);
    refused(
        Processor::process_try_to_liquidate(&key(PROGRAM), 30, &accounts),
        PerpetualSwapError::InvalidAccountKeys,
    );
    accounts[3] = tokens(LONG_MARGIN, 50);
    assert!(Processor::process_try_to_liquidate(&key(PROGRAM), 30, &accounts).is_ok());
}

#[test]
fn an_unfunded_swap_is_not_liquidated() {
    let mut swap = liquidation_swap();
    swap.is_short_initialized = false;
    refused(
        Processor::process_try_to_liquidate(&key(PROGRAM), 30, &liquidation_accounts(&swap, 50, 40)),
        PerpetualSwapError::AccountNotInitialized,
    );
}

#[test]
fn a_liquidator_with_the_largest_balance_does_not_overflow() {
    let swap = liquidation_swap();
    refused(
        Processor::process_try_to_liquidate(&key(PROGRAM), 30, &liquidation_accounts(&swap, 50, u64::MAX)),
        PerpetualSwapError::InsufficientFunds,
    );
}

// ---- replacing the prices ----

#[test]
fn the_prices_are_replaced_and_nothing_else() {
    let swap = active_swap();
    let accounts = vec![record(&swap), authority_account(), custody()];
    let effects = Processor::process_update_prices(&key(PROGRAM), quote(7.0), quote(8.0), &accounts).unwrap();
    let mut expected = swap;
    expected.index_price = quote(7.0);
    expected.mark_price = quote(8.0);
    assert_eq!(effects.swap, expected);
    assert!(effects.invocations.is_empty());
}

#[test]
fn the_prices_of_an_unfunded_swap_are_not_replaced() {
    let swap = fresh_swap();
    let accounts = vec![record(&swap), authority_account(), custody()];
    refused(
        Processor::process_update_prices(&key(PROGRAM), quote(7.0), quote(8.0), &accounts),
        PerpetualSwapError::AccountNotInitialized,
    );
}

#[test]
fn a_price_that_is_no_number_is_refused() {
    let swap = active_swap();
    let accounts = vec![record(&swap), authority_account(), custody()];
    refused(
        Processor::process_update_prices(&key(PROGRAM), quote(f64::NAN), quote(8.0), &accounts),
        PerpetualSwapError::InvalidAccountData,
    );
    refused(
        Processor::process_update_prices(&key(PROGRAM), quote(7.0), quote(-f64::NAN), &accounts),
        PerpetualSwapError::InvalidAccountData,
    );
    let effects = Processor::process_update_prices(&key(PROGRAM), quote(f64::INFINITY), quote(0.0), &accounts).unwrap();
    assert!(effects.swap.try_to_vec().is_ok());
}

// ---- setting a swap up ----

fn blank_token_account(n: u8) -> AccountInfo {
    AccountInfo { key: key(n), owner: token_program(), lamports: 1, data: vec![0u8; 165] }
}

fn setup_accounts() -> Vec<AccountInfo> {
    vec![
        AccountInfo { key: key(SWAP), owner: key(PROGRAM), lamports: 1, data: vec![0u8; 235] },
        authority_account(),
        blank_token_account(LONG_MARGIN),
        blank_token_account(SHORT_MARGIN),
        plain(MINT),
        plain(60),
        custody(),
    ]
}

fn set_up(accounts: &[AccountInfo], rent_exempt: bool) -> Result<Effects, PerpetualSwapError> {
    Processor::process_initialize_perpetual_swap(
        &key(PROGRAM),
        authority().1,
        quote(0.1),
        quote(0.05),
        quote(0.2),
        DAY,
        accounts,
        rent_exempt,
    )
}

fn setup_of(n: u8) -> Invocation {
    Processor::initialize_account(&key(n), &key(MINT), &authority().0, &token_program()).unwrap()
}

#[test]
fn a_swap_is_set_up() {
    let effects = set_up(&setup_accounts(), true).unwrap();
    let expected = PerpetualSwap {
        is_long_initialized: false,
        is_short_initialized: false,
        nonce: authority().1,
        token_program_id: token_program(),
        long_margin_pubkey: key(LONG_MARGIN),
        long_account_pubkey: key(0),
        short_margin_pubkey: key(SHORT_MARGIN),
        short_account_pubkey: key(0),
        reference_time: 0,
        index_price: quote(0.0),
        mark_price: quote(0.0),
        minimum_margin: quote(0.05),
        liquidation_bounty: quote(0.2),
        funding_rate: quote(0.1),
        minimum_funding_period: DAY,
    };
    assert_eq!(effects.swap, expected);
    assert_eq!(effects.invocations, vec![setup_of(SWAP), setup_of(LONG_MARGIN), setup_of(SHORT_MARGIN)]);
    assert_eq!(effects.invocations[0].seeds, None);
}

#[test]
fn a_set_up_keeps_what_it_does_not_set() {
    let mut before = fresh_swap();
    before.is_long_initialized = true;
    before.long_account_pubkey = key(LONG_HOLDER);
    before.reference_time = 77;
    before.index_price = quote(3.0);
    let mut accounts = setup_accounts();
    accounts[0] = record(&before);
    let effects = set_up(&accounts, true).unwrap();
    assert!(!effects.swap.is_long_initialized);
    assert_eq!(effects.swap.long_account_pubkey, key(LONG_HOLDER));
    assert_eq!(effects.swap.reference_time, 77);
    assert_eq!(effects.swap.index_price, quote(3.0));
    assert_eq!(effects.swap.mark_price, before.mark_price);
}

#[test]
fn a_swap_in_use_is_not_set_up_again() {
    let mut accounts = setup_accounts();
    accounts[0] = record(&active_swap());
    refused(set_up(&accounts, true), PerpetualSwapError::AlreadyInUse);
}

#[test]
fn a_record_that_is_not_rent_exempt_is_refused() {
    refused(set_up(&setup_accounts(), false), PerpetualSwapError::NotRentExempt);
}

#[test]
fn margin_accounts_in_use_are_refused() {
    for (at, margin) in [(2usize, LONG_MARGIN), (3, SHORT_MARGIN)] {
        let mut accounts = setup_accounts();
        accounts[at] = tokens(margin, 0);
        refused(set_up(&accounts, true), PerpetualSwapError::AlreadyInUse);
        let mut accounts = setup_accounts();
        accounts[at].data = vec![0u8; 164];
        refused(set_up(&accounts, true), PerpetualSwapError::InvalidAccountData);
    }
}

#[test]
fn a_set_up_needs_two_margin_accounts() {
    let mut accounts = setup_accounts();
    accounts[3] = blank_token_account(LONG_MARGIN);
    refused(set_up(&accounts, true), PerpetualSwapError::InvalidAccountKeys);
    let mut accounts = setup_accounts();
    accounts[2] = blank_token_account(SHORT_MARGIN);
    accounts[0] = record(&active_swap());
    refused(set_up(&accounts, false), PerpetualSwapError::InvalidAccountKeys);
    let effects = set_up(&setup_accounts(), true).unwrap();
    assert_ne!(effects.swap.long_margin_pubkey, effects.swap.short_margin_pubkey);
}

#[test]
fn a_set_up_needs_the_authority_of_its_nonce() {
    let mut accounts = setup_accounts();
    accounts[1] = plain(99);
    refused(set_up(&accounts, true), PerpetualSwapError::InvalidAuthority);
    refused(
        Processor::process_initialize_perpetual_swap(
            &key(PROGRAM),
            authority().1.wrapping_sub(1),
            quote(0.1),
            quote(0.05),
            quote(0.2),
            DAY,
            &setup_accounts(),
            true,
        ),
        PerpetualSwapError::InvalidAuthority,
    );
}

#[test]
fn terms_that_are_no_numbers_are_refused() {
    for at in 0..3 {
        let mut terms = [quote(0.1), quote(0.05), quote(0.2)];
        terms[at] = quote(f64::NAN);
        refused(
            Processor::process_initialize_perpetual_swap(
                &key(PROGRAM),
                authority().1,
                terms[0],
                terms[1],
                terms[2],
                DAY,
                &setup_accounts(),
                true,
            ),
            PerpetualSwapError::InvalidAccountData,
        );
    }
}

#[test]
fn a_set_up_with_an_unknown_token_program_is_refused() {
    let mut accounts = setup_accounts();
    accounts[6] = plain(77);
    refused(set_up(&accounts, true), PerpetualSwapError::IncorrectProgramId);
    accounts.pop();
    refused(set_up(&accounts, true), PerpetualSwapError::NotEnoughAccountKeys);
}

// ---- decoding and dispatching ----

fn with_amount(tag: u8, amount: u64) -> Vec<u8> {
    let mut bytes = vec![tag];
    bytes.extend_from_slice(&amount.to_le_bytes());
    bytes
}

#[test]
fn instructions_are_decoded_and_performed() {
    let swap = active_swap();
    let p = key(PROGRAM);
    assert_eq!(
        Processor::process(&p, &withdraw_accounts(&swap, 50), &with_amount(3, 10), 0, false),
        Processor::process_withdraw_from_margin(&p, 10, &withdraw_accounts(&swap, 50))
    );
    assert_eq!(
        Processor::process(&p, &deposit_accounts(&swap, 30), &with_amount(2, 30), 0, false),
        Processor::process_deposit_to_margin(&p, 30, &deposit_accounts(&swap, 30))
    );
    let fresh = fresh_swap();
    assert_eq!(
        Processor::process(&p, &side_accounts(&fresh, LONG_HOLDER, LONG_MARGIN, 80), &with_amount(1, 60), 9, false),
        Processor::process_initialize_side(&p, 60, &side_accounts(&fresh, LONG_HOLDER, LONG_MARGIN, 80), 9)
    );
    let liquidated = liquidation_swap();
    assert_eq!(
        Processor::process(&p, &liquidation_accounts(&liquidated, 50, 40), &with_amount(4, 30), 0, false),
        Processor::process_try_to_liquidate(&p, 30, &liquidation_accounts(&liquidated, 50, 40))
    );
    let now = swap.reference_time + DAY;
    assert_eq!(
        Processor::process(&p, &funding_accounts(&swap), &[5], now, false),
        Processor::process_transfer_funds(&p, &funding_accounts(&swap), now)
    );
    assert!(Processor::process(&p, &funding_accounts(&swap), &[5], now, false).is_ok());
}

#[test]
fn prices_and_terms_are_decoded_and_performed() {
    let swap = active_swap();
    let p = key(PROGRAM);
    let mut prices = vec![6u8];
    prices.extend_from_slice(&7.0f64.to_le_bytes());
    prices.extend_from_slice(&8.0f64.to_le_bytes());
    let accounts = vec![record(&swap), authority_account(), custody()];
    let effects = Processor::process(&p, &accounts, &prices, 0, false).unwrap();
    assert_eq!(effects.swap.index_price, quote(7.0));
    assert_eq!(effects.swap.mark_price, quote(8.0));

    let mut terms = vec![0u8, authority().1];
    terms.extend_from_slice(&0.1f64.to_le_bytes());
    terms.extend_from_slice(&0.05f64.to_le_bytes());
    terms.extend_from_slice(&0.2f64.to_le_bytes());
    terms.extend_from_slice(&DAY.to_le_bytes());
    assert_eq!(Processor::process(&p, &setup_accounts(), &terms, 0, true), set_up(&setup_accounts(), true));
    assert!(set_up(&setup_accounts(), true).is_ok());
    refused(Processor::process(&p, &setup_accounts(), &terms, 0, false), PerpetualSwapError::NotRentExempt);
}

#[test]
fn undecodable_instructions_are_refused() {
    let swap = active_swap();
    let p = key(PROGRAM);
    refused(Processor::process(&p, &withdraw_accounts(&swap, 50), &[], 0, true), PerpetualSwapError::InvalidInstruction);
    refused(Processor::process(&p, &withdraw_accounts(&swap, 50), &[3, 1], 0, true), PerpetualSwapError::InvalidInstruction);
    refused(Processor::process(&p, &withdraw_accounts(&swap, 50), &[9], 0, true), PerpetualSwapError::InvalidInstruction);
}

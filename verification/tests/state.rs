use perpetual_swap::double::Double;
use perpetual_swap::error::PerpetualSwapError;
use perpetual_swap::pubkey::Pubkey;
use perpetual_swap::state::PerpetualSwap;

fn quote(x: f64) -> Double {
    Double::from_bits(x.to_bits())
}

fn unique() -> Pubkey {
    Pubkey::new_from_array(solana_program::pubkey::Pubkey::new_unique().to_bytes())
}

fn sample() -> PerpetualSwap {
    PerpetualSwap {
        is_long_initialized: true,
        is_short_initialized: true,
        nonce: 122,
        token_program_id: unique(),
        long_margin_pubkey: unique(),
        long_account_pubkey: unique(),
        short_margin_pubkey: unique(),
        short_account_pubkey: unique(),
        reference_time: 123456900,
        index_price: quote(100.0),
        mark_price: quote(100.2),
        minimum_margin: quote(10.0),
        liquidation_bounty: quote(0.2),
        funding_rate: quote(0.8),
        minimum_funding_period: 86_400_000,
    }
}

#[test]
pub fn test_perpetual_swap_unpack() {
    let p = PerpetualSwap {
        is_long_initialized: true,
        is_short_initialized: true,
        nonce: 122,
        token_program_id: unique(),
        long_margin_pubkey: unique(),
        long_account_pubkey: unique(),
        short_margin_pubkey: unique(),
        short_account_pubkey: unique(),
        reference_time: 123456900,
        index_price: quote(100.0),
        mark_price: quote(100.2),
        minimum_margin: quote(10.0),
        liquidation_bounty: quote(0.2),
        funding_rate: quote(0.8),
        minimum_funding_period: 86_400_000,
    };
    let packed = p.try_to_vec().unwrap();
    let unpacked = PerpetualSwap::try_from_slice(packed.as_slice()).unwrap();

    assert_eq!(p, unpacked);
}

#[test]
fn stored_record_has_235_bytes() {
    assert_eq!(PerpetualSwap::LEN, 235);
    assert_eq!(sample().try_to_vec().unwrap().len(), 235);
}

#[test]
fn stored_form_is_the_borsh_form_of_the_fields() {
    let p = sample();
    let expected = borsh::to_vec(&(
        p.is_long_initialized,
        p.is_short_initialized,
        p.nonce,
        p.token_program_id.to_bytes(),
        p.long_margin_pubkey.to_bytes(),
        p.long_account_pubkey.to_bytes(),
        p.short_margin_pubkey.to_bytes(),
        p.short_account_pubkey.to_bytes(),
        p.reference_time,
        100.0f64,
        100.2f64,
        10.0f64,
        0.2f64,
        0.8f64,
        p.minimum_funding_period,
    ))
    .unwrap();
    assert_eq!(p.try_to_vec().unwrap(), expected);
}

#[test]
fn borsh_reads_what_the_record_stores() {
    let p = sample();
    let stored = p.try_to_vec().unwrap();
    type Fields = (
        bool,
        bool,
        u8,
        [u8; 32],
        [u8; 32],
        [u8; 32],
        [u8; 32],
        [u8; 32],
        u128,
        f64,
        f64,
        f64,
        f64,
        f64,
        u128,
    );
    let fields: Fields = borsh::from_slice(&stored).unwrap();
    assert_eq!(fields.2, 122);
    assert_eq!(fields.4, p.long_margin_pubkey.to_bytes());
    assert_eq!(fields.8, 123456900);
    assert_eq!(fields.10, 100.2);
    assert_eq!(fields.14, 86_400_000);
}

#[test]
fn fields_stand_at_their_offsets() {
    let mut p = sample();
    p.is_short_initialized = false;
    p.reference_time = 0x0102_0304_0506_0708_090a_0b0c_0d0e_0f10;
    let stored = p.try_to_vec().unwrap();
    assert_eq!(stored[0], 1);
    assert_eq!(stored[1], 0);
    assert_eq!(stored[2], 122);
    assert_eq!(&stored[3..35], &p.token_program_id.to_bytes()[..]);
    assert_eq!(&stored[131..163], &p.short_account_pubkey.to_bytes()[..]);
    assert_eq!(stored[163], 0x10);
    assert_eq!(stored[178], 0x01);
    assert_eq!(&stored[179..187], &100.0f64.to_le_bytes()[..]);
    assert_eq!(&stored[211..219], &0.8f64.to_le_bytes()[..]);
    assert_eq!(&stored[219..235], &86_400_000u128.to_le_bytes()[..]);
}

#[test]
fn a_blank_record_is_read_as_an_unfunded_swap() {
    let blank = PerpetualSwap::try_from_slice(&[0u8; 235]).unwrap();
    assert!(!blank.is_initialized());
    assert_eq!(blank.nonce, 0);
    assert_eq!(blank.mark_price, quote(0.0));
    assert_eq!(blank.try_to_vec().unwrap(), vec![0u8; 235]);
}

#[test]
fn other_lengths_are_refused() {
    let stored = sample().try_to_vec().unwrap();
    assert_eq!(
        PerpetualSwap::try_from_slice(&stored[..234]),
        Err(PerpetualSwapError::InvalidAccountData)
    );
    let mut longer = stored.clone();
    longer.push(0);
    assert_eq!(
        PerpetualSwap::try_from_slice(&longer),
        Err(PerpetualSwapError::InvalidAccountData)
    );
    assert_eq!(PerpetualSwap::try_from_slice(&[]), Err(PerpetualSwapError::InvalidAccountData));
}

#[test]
fn flags_other_than_zero_and_one_are_refused() {
    let mut stored = sample().try_to_vec().unwrap();
    stored[1] = 2;
    assert_eq!(
        PerpetualSwap::try_from_slice(&stored),
        Err(PerpetualSwapError::InvalidAccountData)
    );
    stored[1] = 1;
    stored[0] = 255;
    assert_eq!(
        PerpetualSwap::try_from_slice(&stored),
        Err(PerpetualSwapError::InvalidAccountData)
    );
}

#[test]
fn a_nan_is_not_stored_and_not_read() {
    let mut p = sample();
    p.funding_rate = quote(f64::NAN);
    assert!(p.has_nan());
    assert_eq!(p.try_to_vec(), Err(PerpetualSwapError::InvalidAccountData));

    let mut stored = sample().try_to_vec().unwrap();
    stored[187..195].copy_from_slice(&f64::NAN.to_le_bytes());
    assert_eq!(
        PerpetualSwap::try_from_slice(&stored),
        Err(PerpetualSwapError::InvalidAccountData)
    );
    assert!(!sample().has_nan());
}

#[test]
fn infinite_prices_are_stored() {
    let mut p = sample();
    p.mark_price = quote(f64::INFINITY);
    p.index_price = quote(f64::NEG_INFINITY);
    let stored = p.try_to_vec().unwrap();
    assert_eq!(PerpetualSwap::try_from_slice(&stored), Ok(p));
}

#[test]
fn a_swap_is_usable_when_both_sides_are_funded() {
    let mut p = sample();
    assert!(p.is_initialized());
    p.is_long_initialized = false;
    assert!(!p.is_initialized());
    p.is_long_initialized = true;
    p.is_short_initialized = false;
    assert!(!p.is_initialized());
}

#[test]
fn identities_are_compared_byte_for_byte() {
    let a = Pubkey::new_from_array([7; 32]);
    let mut bytes = [7u8; 32];
    assert_eq!(a, Pubkey::new_from_array(bytes));
    bytes[31] = 8;
    assert_ne!(a, Pubkey::new_from_array(bytes));
    assert_eq!(a.to_bytes(), [7u8; 32]);
    let data: Vec<u8> = (0u8..40).collect();
    assert_eq!(Pubkey::from_slice(&data, 5).to_bytes()[..], data[5..37]);
    let mut out = vec![1u8];
    a.append_to(&mut out);
    assert_eq!(out.len(), 33);
    assert_eq!(&out[1..], &[7u8; 32][..]);
}

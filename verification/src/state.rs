//! The swap record and its stored form: the fields in their declared order,
//! flags as one byte each, identities as their 32 bytes, numbers little-endian
//! and doubles as their bits.

use crate::double::Double;
use crate::error::PerpetualSwapError;
use crate::pubkey::Pubkey;
use vstd::bytes::lemma_auto_spec_u128_to_from_le_bytes;
use vstd::bytes::lemma_auto_spec_u64_to_from_le_bytes;
use vstd::bytes::spec_u128_from_le_bytes;
use vstd::bytes::spec_u128_to_le_bytes;
use vstd::bytes::spec_u64_from_le_bytes;
use vstd::bytes::spec_u64_to_le_bytes;
use vstd::bytes::u128_from_le_bytes;
use vstd::bytes::u128_to_le_bytes;
use vstd::bytes::u64_from_le_bytes;
use vstd::bytes::u64_to_le_bytes;
use vstd::prelude::*;
use vstd::slice::slice_subrange;

verus! {

/// The state of one swap.
#[derive(Clone, Copy, Debug, PartialEq)]
pub struct PerpetualSwap {
    /// Whether the long side has been funded.
    pub is_long_initialized: bool,
    /// Whether the short side has been funded.
    pub is_short_initialized: bool,
    /// The byte from which, with the swap identity, the authority is derived.
    pub nonce: u8,
    /// The token program that the swap is bound to.
    pub token_program_id: Pubkey,
    /// The account that holds the margin of the long side.
    pub long_margin_pubkey: Pubkey,
    /// The account of the holder of the long side.
    pub long_account_pubkey: Pubkey,
    /// The account that holds the margin of the short side.
    pub short_margin_pubkey: Pubkey,
    /// The account of the holder of the short side.
    pub short_account_pubkey: Pubkey,
    /// When funding was last settled, in milliseconds.
    pub reference_time: u128,
    /// The index price.
    pub index_price: Double,
    /// The mark price.
    pub mark_price: Double,
    /// The least margin ratio `1 - balance / mark_price` that is allowed.
    pub minimum_margin: Double,
    /// The part of a liquidated balance that goes to the liquidator.
    pub liquidation_bounty: Double,
    /// The funding rate for one day.
    pub funding_rate: Double,
    /// The least time between two funding settlements, in milliseconds.
    pub minimum_funding_period: u128,
}

/// The mathematical content of a swap record: identities are byte sequences.
pub struct SwapView {
    pub is_long_initialized: bool,
    pub is_short_initialized: bool,
    pub nonce: u8,
    pub token_program_id: Seq<u8>,
    pub long_margin_pubkey: Seq<u8>,
    pub long_account_pubkey: Seq<u8>,
    pub short_margin_pubkey: Seq<u8>,
    pub short_account_pubkey: Seq<u8>,
    pub reference_time: u128,
    pub index_price: Double,
    pub mark_price: Double,
    pub minimum_margin: Double,
    pub liquidation_bounty: Double,
    pub funding_rate: Double,
    pub minimum_funding_period: u128,
}

impl View for PerpetualSwap {
    type V = SwapView;

    open spec fn view(&self) -> SwapView {
        SwapView {
            is_long_initialized: self.is_long_initialized,
            is_short_initialized: self.is_short_initialized,
            nonce: self.nonce,
            token_program_id: self.token_program_id@,
            long_margin_pubkey: self.long_margin_pubkey@,
            long_account_pubkey: self.long_account_pubkey@,
            short_margin_pubkey: self.short_margin_pubkey@,
            short_account_pubkey: self.short_account_pubkey@,
            reference_time: self.reference_time,
            index_price: self.index_price,
            mark_price: self.mark_price,
            minimum_margin: self.minimum_margin,
            liquidation_bounty: self.liquidation_bounty,
            funding_rate: self.funding_rate,
            minimum_funding_period: self.minimum_funding_period,
        }
    }
}

impl SwapView {
    /// Whether both sides have been funded.
    pub open spec fn is_initialized(self) -> bool {
        self.is_long_initialized && self.is_short_initialized
    }

    /// Whether every identity has its 32 bytes.
    pub open spec fn well_formed(self) -> bool {
        &&& self.token_program_id.len() == 32
        &&& self.long_margin_pubkey.len() == 32
        &&& self.long_account_pubkey.len() == 32
        &&& self.short_margin_pubkey.len() == 32
        &&& self.short_account_pubkey.len() == 32
    }

    /// Whether the record can be stored: no price, ratio or rate is a NaN.
    pub open spec fn storable(self) -> bool {
        &&& !self.index_price.nan()
        &&& !self.mark_price.nan()
        &&& !self.minimum_margin.nan()
        &&& !self.liquidation_bounty.nan()
        &&& !self.funding_rate.nan()
    }
}

/// The byte that stores a flag.
pub open spec fn flag_byte(flag: bool) -> u8 {
    if flag {
        1
    } else {
        0
    }
}

/// The stored form of a record.
pub open spec fn encoded(v: SwapView) -> Seq<u8> {
    seq![flag_byte(v.is_long_initialized), flag_byte(v.is_short_initialized), v.nonce]
        + v.token_program_id + v.long_margin_pubkey + v.long_account_pubkey
        + v.short_margin_pubkey + v.short_account_pubkey + spec_u128_to_le_bytes(v.reference_time)
        + spec_u64_to_le_bytes(v.index_price.bits) + spec_u64_to_le_bytes(v.mark_price.bits)
        + spec_u64_to_le_bytes(v.minimum_margin.bits) + spec_u64_to_le_bytes(
        v.liquidation_bounty.bits,
    ) + spec_u64_to_le_bytes(v.funding_rate.bits) + spec_u128_to_le_bytes(
        v.minimum_funding_period,
    )
}

/// The record that 235 bytes hold, read field by field.
pub open spec fn fields_of(s: Seq<u8>) -> SwapView {
    SwapView {
        is_long_initialized: s[0] == 1,
        is_short_initialized: s[1] == 1,
        nonce: s[2],
        token_program_id: s.subrange(3, 35),
        long_margin_pubkey: s.subrange(35, 67),
        long_account_pubkey: s.subrange(67, 99),
        short_margin_pubkey: s.subrange(99, 131),
        short_account_pubkey: s.subrange(131, 163),
        reference_time: spec_u128_from_le_bytes(s.subrange(163, 179)),
        index_price: Double { bits: spec_u64_from_le_bytes(s.subrange(179, 187)) },
        mark_price: Double { bits: spec_u64_from_le_bytes(s.subrange(187, 195)) },
        minimum_margin: Double { bits: spec_u64_from_le_bytes(s.subrange(195, 203)) },
        liquidation_bounty: Double { bits: spec_u64_from_le_bytes(s.subrange(203, 211)) },
        funding_rate: Double { bits: spec_u64_from_le_bytes(s.subrange(211, 219)) },
        minimum_funding_period: spec_u128_from_le_bytes(s.subrange(219, 235)),
    }
}

/// The record that a byte sequence stores, if it stores one: it has exactly
/// 235 bytes, both flags are 0 or 1, and no double is a NaN.
pub open spec fn decoded(s: Seq<u8>) -> Option<SwapView> {
    if s.len() == 235 && s[0] <= 1 && s[1] <= 1 && fields_of(s).storable() {
        Some(fields_of(s))
    } else {
        None
    }
}

impl PerpetualSwap {
    /// The number of bytes of a stored record.
    pub const LEN: usize = 235;

    /// Whether both sides have been funded.
    pub fn is_initialized(&self) -> (r: bool)
        ensures
            r == self@.is_initialized(),
    {
        self.is_long_initialized && self.is_short_initialized
    }

    /// Reads a record from its stored form.
    pub fn try_from_slice(data: &[u8]) -> (r: Result<PerpetualSwap, PerpetualSwapError>)
        ensures
            match r {
                Ok(swap) => decoded(data@) == Some(swap@),
                Err(e) => e == PerpetualSwapError::InvalidAccountData && decoded(data@).is_none(),
            },
    {
        if data.len() != 235 {
            return Err(PerpetualSwapError::InvalidAccountData);
        }
        if data[0] > 1 || data[1] > 1 {
            return Err(PerpetualSwapError::InvalidAccountData);
        }
        let swap = PerpetualSwap {
            is_long_initialized: data[0] == 1,
            is_short_initialized: data[1] == 1,
            nonce: data[2],
            token_program_id: Pubkey::from_slice(data, 3),
            long_margin_pubkey: Pubkey::from_slice(data, 35),
            long_account_pubkey: Pubkey::from_slice(data, 67),
            short_margin_pubkey: Pubkey::from_slice(data, 99),
            short_account_pubkey: Pubkey::from_slice(data, 131),
            reference_time: u128_from_le_bytes(slice_subrange(data, 163, 179)),
            index_price: Double { bits: u64_from_le_bytes(slice_subrange(data, 179, 187)) },
            mark_price: Double { bits: u64_from_le_bytes(slice_subrange(data, 187, 195)) },
            minimum_margin: Double { bits: u64_from_le_bytes(slice_subrange(data, 195, 203)) },
            liquidation_bounty: Double { bits: u64_from_le_bytes(slice_subrange(data, 203, 211)) },
            funding_rate: Double { bits: u64_from_le_bytes(slice_subrange(data, 211, 219)) },
            minimum_funding_period: u128_from_le_bytes(slice_subrange(data, 219, 235)),
        };
        assert(swap@ == fields_of(data@));
        if swap.has_nan() {
            return Err(PerpetualSwapError::InvalidAccountData);
        }
        Ok(swap)
    }

    /// Whether a price, ratio or rate of the record is a NaN.
    pub fn has_nan(&self) -> (r: bool)
        ensures
            r == !self@.storable(),
    {
        self.index_price.is_nan() || self.mark_price.is_nan() || self.minimum_margin.is_nan()
            || self.liquidation_bounty.is_nan() || self.funding_rate.is_nan()
    }

    /// Writes the record in its stored form.
    pub fn try_to_vec(&self) -> (r: Result<Vec<u8>, PerpetualSwapError>)
        ensures
            match r {
                Ok(bytes) => self@.storable() && bytes@ == encoded(self@) && bytes@.len() == 235,
                Err(e) => e == PerpetualSwapError::InvalidAccountData && !self@.storable(),
            },
    {
        if self.has_nan() {
            return Err(PerpetualSwapError::InvalidAccountData);
        }
        let mut out: Vec<u8> = Vec::new();
        out.push(if self.is_long_initialized { 1u8 } else { 0u8 });
        out.push(if self.is_short_initialized { 1u8 } else { 0u8 });
        out.push(self.nonce);
        assert(out@ =~= seq![
            flag_byte(self.is_long_initialized),
            flag_byte(self.is_short_initialized),
            self.nonce,
        ]);
        self.token_program_id.append_to(&mut out);
        self.long_margin_pubkey.append_to(&mut out);
        self.long_account_pubkey.append_to(&mut out);
        self.short_margin_pubkey.append_to(&mut out);
        self.short_account_pubkey.append_to(&mut out);
        let mut field = u128_to_le_bytes(self.reference_time);
        out.append(&mut field);
        let mut field = u64_to_le_bytes(self.index_price.bits);
        out.append(&mut field);
        let mut field = u64_to_le_bytes(self.mark_price.bits);
        out.append(&mut field);
        let mut field = u64_to_le_bytes(self.minimum_margin.bits);
        out.append(&mut field);
        let mut field = u64_to_le_bytes(self.liquidation_bounty.bits);
        out.append(&mut field);
        let mut field = u64_to_le_bytes(self.funding_rate.bits);
        out.append(&mut field);
        let mut field = u128_to_le_bytes(self.minimum_funding_period);
        out.append(&mut field);
        proof {
            lemma_auto_spec_u64_to_from_le_bytes();
            lemma_auto_spec_u128_to_from_le_bytes();
        }
        Ok(out)
    }
}

/// Storing a record and reading it again gives the record back; the stored
/// form has 235 bytes.
pub proof fn lemma_round_trip(v: SwapView)
    requires
        v.well_formed(),
        v.storable(),
    ensures
        encoded(v).len() == 235,
        decoded(encoded(v)) == Some(v),
{
    lemma_auto_spec_u64_to_from_le_bytes();
    lemma_auto_spec_u128_to_from_le_bytes();
    let s = encoded(v);
    assert(s.len() == 235);
    assert(s.subrange(3, 35) =~= v.token_program_id);
    assert(s.subrange(35, 67) =~= v.long_margin_pubkey);
    assert(s.subrange(67, 99) =~= v.long_account_pubkey);
    assert(s.subrange(99, 131) =~= v.short_margin_pubkey);
    assert(s.subrange(131, 163) =~= v.short_account_pubkey);
    assert(s.subrange(163, 179) =~= spec_u128_to_le_bytes(v.reference_time));
    assert(s.subrange(179, 187) =~= spec_u64_to_le_bytes(v.index_price.bits));
    assert(s.subrange(187, 195) =~= spec_u64_to_le_bytes(v.mark_price.bits));
    assert(s.subrange(195, 203) =~= spec_u64_to_le_bytes(v.minimum_margin.bits));
    assert(s.subrange(203, 211) =~= spec_u64_to_le_bytes(v.liquidation_bounty.bits));
    assert(s.subrange(211, 219) =~= spec_u64_to_le_bytes(v.funding_rate.bits));
    assert(s.subrange(219, 235) =~= spec_u128_to_le_bytes(v.minimum_funding_period));
    assert(s[0] == flag_byte(v.is_long_initialized));
    assert(s[1] == flag_byte(v.is_short_initialized));
    assert(s[2] == v.nonce);
    assert(fields_of(s) == v);
}

/// Reading a stored record and storing it again gives the same bytes.
pub proof fn lemma_stored_form_is_unique(s: Seq<u8>)
    requires
        decoded(s).is_some(),
    ensures
        encoded(decoded(s).unwrap()) == s,
{
    lemma_auto_spec_u64_to_from_le_bytes();
    lemma_auto_spec_u128_to_from_le_bytes();
    assert(encoded(fields_of(s)) =~= s);
}

} // verus!

//! The authority of a swap: the program address derived from the identity of
//! the swap record and the nonce that the record stores.

use crate::error::PerpetualSwapError;
use crate::pubkey::Pubkey;
use vstd::prelude::*;

verus! {

/// The program address that `program` owns for the seeds `seed` and `[nonce]`,
/// if there is one: what `Pubkey::create_program_address` of `solana_program`
/// returns for these two seeds and this program.
pub uninterp spec fn program_address(seed: Seq<u8>, nonce: u8, program: Seq<u8>) -> Option<Seq<u8>>;

/// Derives the program address for the seeds `seed` and `[nonce]`. Calls
/// `solana_program::pubkey::Pubkey::create_program_address`, which hashes the
/// seeds with the program identity and refuses a hash that lies on the curve.
/// The contract names the result, an address or a refusal, and says nothing
/// more of it.
#[verifier::external_body]
pub(crate) fn create_program_address(seed: &Pubkey, nonce: u8, program: &Pubkey) -> (r: Option<Pubkey>)
    ensures
        match r {
            Some(address) => program_address(seed@, nonce, program@) == Some(address@),
            None => program_address(seed@, nonce, program@).is_none(),
        },
{
    let program = solana_program::pubkey::Pubkey::new_from_array(program.bytes);
    let seeds: [&[u8]; 2] = [&seed.bytes[..], &[nonce]];
    match solana_program::pubkey::Pubkey::create_program_address(&seeds, &program) {
        Ok(address) => Some(Pubkey { bytes: address.to_bytes() }),
        Err(_) => None,
    }
}

/// Whether `authority` is the authority of the swap `swap` of `program` under
/// the nonce `nonce`.
pub open spec fn is_authority(program: Seq<u8>, swap: Seq<u8>, nonce: u8, authority: Seq<u8>) -> bool {
    program_address(swap, nonce, program) == Some(authority)
}

/// Decides whether the authority that a caller supplied is the authority of
/// the swap.
pub fn check_authority(program_id: &Pubkey, swap: &Pubkey, nonce: u8, authority: &Pubkey) -> (r:
    Result<(), PerpetualSwapError>)
    ensures
        r.is_ok() <==> is_authority(program_id@, swap@, nonce, authority@),
        r.is_err() ==> r == Err::<(), _>(PerpetualSwapError::InvalidAuthority),
{
    match create_program_address(swap, nonce, program_id) {
        Some(derived) => {
            if derived == *authority {
                Ok(())
            } else {
                Err(PerpetualSwapError::InvalidAuthority)
            }
        },
        None => Err(PerpetualSwapError::InvalidAuthority),
    }
}

} // verus!

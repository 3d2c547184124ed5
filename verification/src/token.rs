//! What the swap reads from, and asks of, the token program: the layout of
//! token accounts and mints, and the instructions that move tokens.

use crate::pubkey::Pubkey;
use spl_token::solana_program::program_pack::IsInitialized;
use spl_token::solana_program::program_pack::Pack;
use vstd::bytes::spec_u64_from_le_bytes;
use vstd::bytes::spec_u64_to_le_bytes;
use vstd::prelude::*;

verus! {

/// What the swap reads of a token account.
#[derive(Clone, Copy, Debug, PartialEq)]
pub struct TokenAccount {
    /// The mint of the tokens that the account holds.
    pub mint: Pubkey,
    /// The owner of the account.
    pub owner: Pubkey,
    /// The number of tokens that the account holds.
    pub amount: u64,
    /// Whether the account is in use.
    pub is_initialized: bool,
}

/// What the swap reads of a mint.
#[derive(Clone, Copy, Debug, PartialEq)]
pub struct Mint {
    /// The number of tokens in existence.
    pub supply: u64,
    /// The number of decimal places of an amount.
    pub decimals: u8,
    /// Whether the mint is in use.
    pub is_initialized: bool,
}

/// An account that an instruction names, and how it uses it.
#[derive(Clone, Copy, Debug, PartialEq)]
pub struct AccountMeta {
    pub pubkey: Pubkey,
    pub is_signer: bool,
    pub is_writable: bool,
}

/// An instruction for another program.
#[derive(Clone, Debug, PartialEq)]
pub struct Instruction {
    /// The program that executes the instruction.
    pub program_id: Pubkey,
    /// The accounts that the instruction names, in order.
    pub accounts: Vec<AccountMeta>,
    /// The bytes that the program decodes.
    pub data: Vec<u8>,
}

/// The mathematical content of an instruction.
pub struct InstructionView {
    pub program_id: Pubkey,
    pub accounts: Seq<AccountMeta>,
    pub data: Seq<u8>,
}

impl View for Instruction {
    type V = InstructionView;

    open spec fn view(&self) -> InstructionView {
        InstructionView {
            program_id: self.program_id,
            accounts: self.accounts@,
            data: self.data@,
        }
    }
}

/// The identity of the token program.
pub open spec fn spl_token_program() -> Pubkey {
    Pubkey {
        bytes: [
            6u8, 221, 246, 225, 215, 101, 161, 147, 217, 203, 225, 70, 206, 235, 121, 172,
            28, 180, 133, 237, 95, 91, 55, 145, 58, 140, 245, 133, 126, 255, 0, 169,
        ],
    }
}

/// The identity of the rent sysvar.
pub open spec fn rent_sysvar() -> Pubkey {
    Pubkey {
        bytes: [
            6u8, 167, 213, 23, 25, 44, 92, 81, 33, 140, 201, 76, 61, 74, 241, 127,
            88, 218, 238, 8, 155, 161, 253, 68, 227, 219, 217, 138, 0, 0, 0, 0,
        ],
    }
}

/// Whether the four bytes at `at` are the tag of an optional field: 0 or 1,
/// little-endian.
pub open spec fn option_tag(data: Seq<u8>, at: int) -> bool {
    data[at] <= 1 && data[at + 1] == 0 && data[at + 2] == 0 && data[at + 3] == 0
}

/// Whether the bytes have the layout of a token account: 165 bytes, the tags
/// of the three optional fields valid, and the state one of the three known.
pub open spec fn account_layout(data: Seq<u8>) -> bool {
    &&& data.len() == 165
    &&& option_tag(data, 72)
    &&& data[108] <= 2
    &&& option_tag(data, 109)
    &&& option_tag(data, 129)
}

/// Whether the bytes have the layout of a mint: 82 bytes, the tags of the two
/// optional fields valid, and the flag 0 or 1.
pub open spec fn mint_layout(data: Seq<u8>) -> bool {
    &&& data.len() == 82
    &&& option_tag(data, 0)
    &&& data[45] <= 1
    &&& option_tag(data, 46)
}

/// Whether the bytes are a token account that is in use.
pub open spec fn account_in_use(data: Seq<u8>) -> bool {
    account_layout(data) && data[108] != 0
}

/// Whether the bytes are a mint that is in use.
pub open spec fn mint_in_use(data: Seq<u8>) -> bool {
    mint_layout(data) && data[45] == 1
}

impl TokenAccount {
    /// Whether the account is what the bytes of a token account hold.
    pub open spec fn read_from(self, data: Seq<u8>) -> bool {
        &&& self.mint@ == data.subrange(0, 32)
        &&& self.owner@ == data.subrange(32, 64)
        &&& self.amount == spec_u64_from_le_bytes(data.subrange(64, 72))
        &&& self.is_initialized == (data[108] != 0)
    }
}

impl Mint {
    /// Whether the mint is what the bytes of a mint hold.
    pub open spec fn read_from(self, data: Seq<u8>) -> bool {
        &&& self.supply == spec_u64_from_le_bytes(data.subrange(36, 44))
        &&& self.decimals == data[44]
        &&& self.is_initialized == (data[45] != 0)
    }
}

/// Reads a token account that is in use. Calls `Account::unpack` of
/// `spl_token::state`. The contract says that it accepts exactly the 165-byte
/// layout with a state other than "uninitialized", and that it reads the mint
/// from the first 32 bytes, the owner from the next 32 and the amount,
/// little-endian, from the 8 after them.
#[verifier::external_body]
pub(crate) fn unpack_account(data: &[u8]) -> (r: Option<TokenAccount>)
    ensures
        r.is_some() <==> account_in_use(data@),
        r matches Some(account) ==> account.read_from(data@),
{
    match spl_token::state::Account::unpack(data) {
        Ok(account) => Some(
            TokenAccount {
                mint: Pubkey { bytes: account.mint.to_bytes() },
                owner: Pubkey { bytes: account.owner.to_bytes() },
                amount: account.amount,
                is_initialized: account.is_initialized(),
            },
        ),
        Err(_) => None,
    }
}

/// Reads a token account, in use or not. Calls `Account::unpack_unchecked` of
/// `spl_token::state`. The contract says that it accepts exactly the 165-byte
/// layout, reads mint, owner and amount as `Account::unpack` does, and finds
/// the account in use when its state byte is not 0.
#[verifier::external_body]
pub(crate) fn unpack_account_unchecked(data: &[u8]) -> (r: Option<TokenAccount>)
    ensures
        r.is_some() <==> account_layout(data@),
        r matches Some(account) ==> account.read_from(data@),
{
    match spl_token::state::Account::unpack_unchecked(data) {
        Ok(account) => Some(
            TokenAccount {
                mint: Pubkey { bytes: account.mint.to_bytes() },
                owner: Pubkey { bytes: account.owner.to_bytes() },
                amount: account.amount,
                is_initialized: account.is_initialized(),
            },
        ),
        Err(_) => None,
    }
}

/// Reads a mint that is in use. Calls `Mint::unpack` of `spl_token::state`.
/// The contract says that it accepts exactly the 82-byte layout with the flag
/// set, and that it reads the supply, little-endian, from the bytes 36 to 43
/// and the decimals from the byte 44.
#[verifier::external_body]
pub(crate) fn unpack_mint_data(data: &[u8]) -> (r: Option<Mint>)
    ensures
        r.is_some() <==> mint_in_use(data@),
        r matches Some(mint) ==> mint.read_from(data@),
{
    match spl_token::state::Mint::unpack(data) {
        Ok(mint) => Some(
            Mint {
                supply: mint.supply,
                decimals: mint.decimals,
                is_initialized: mint.is_initialized(),
            },
        ),
        Err(_) => None,
    }
}

/// An account that an instruction writes to.
pub open spec fn writable(pubkey: Pubkey) -> AccountMeta {
    AccountMeta { pubkey, is_signer: false, is_writable: true }
}

/// An account that an instruction only reads.
pub open spec fn readonly(pubkey: Pubkey, is_signer: bool) -> AccountMeta {
    AccountMeta { pubkey, is_signer, is_writable: false }
}

/// The instruction that moves `amount` tokens from `source` to `destination`
/// under the signature of `authority`.
pub open spec fn transfer_instruction(
    program: Pubkey,
    source: Pubkey,
    destination: Pubkey,
    authority: Pubkey,
    amount: u64,
) -> InstructionView {
    InstructionView {
        program_id: program,
        accounts: seq![writable(source), writable(destination), readonly(authority, true)],
        data: seq![3u8] + spec_u64_to_le_bytes(amount),
    }
}

/// The instruction that mints `amount` new tokens of `mint` into `account`
/// under the signature of `owner`.
pub open spec fn mint_to_instruction(
    program: Pubkey,
    mint: Pubkey,
    account: Pubkey,
    owner: Pubkey,
    amount: u64,
) -> InstructionView {
    InstructionView {
        program_id: program,
        accounts: seq![writable(mint), writable(account), readonly(owner, true)],
        data: seq![7u8] + spec_u64_to_le_bytes(amount),
    }
}

/// The instruction that sets up `account` as a token account of `mint` that
/// `owner` owns. Its fourth account is the rent sysvar.
pub open spec fn initialize_account_instruction(
    program: Pubkey,
    account: Pubkey,
    mint: Pubkey,
    owner: Pubkey,
) -> InstructionView {
    InstructionView {
        program_id: program,
        accounts: seq![
            writable(account),
            readonly(mint, false),
            readonly(owner, false),
            readonly(rent_sysvar(), false),
        ],
        data: seq![1u8],
    }
}

/// Builds a transfer. Calls `spl_token::instruction::transfer` with no
/// multisignature signers. The contract says that it refuses every program
/// but the token program, and that the instruction names the source and the
/// destination as writable and the authority as the signer, and holds the tag
/// 3 and the amount, little-endian.
#[verifier::external_body]
pub(crate) fn transfer(
    program: &Pubkey,
    source: &Pubkey,
    destination: &Pubkey,
    authority: &Pubkey,
    amount: u64,
) -> (r: Option<Instruction>)
    ensures
        r.is_some() <==> *program == spl_token_program(),
        r matches Some(built) ==> built@ == transfer_instruction(
            *program,
            *source,
            *destination,
            *authority,
            amount,
        ),
{
    let key = |k: &Pubkey| spl_token::solana_program::pubkey::Pubkey::new_from_array(k.bytes);
    let built = spl_token::instruction::transfer(&key(program), &key(source), &key(destination), &key(authority), &[], amount).ok()?;
    let accounts = built.accounts.iter().map(
        |m| AccountMeta {
            pubkey: Pubkey { bytes: m.pubkey.to_bytes() },
            is_signer: m.is_signer,
            is_writable: m.is_writable,
        },
    ).collect();
    Some(Instruction { program_id: Pubkey { bytes: built.program_id.to_bytes() }, accounts, data: built.data })
}

/// Builds a mint order. Calls `spl_token::instruction::mint_to` with no
/// multisignature signers. The contract says that it refuses every program
/// but the token program, and that the instruction names the mint and the
/// account as writable and the owner as the signer, and holds the tag 7 and
/// the amount, little-endian.
#[verifier::external_body]
pub(crate) fn mint_to(
    program: &Pubkey,
    mint: &Pubkey,
    account: &Pubkey,
    owner: &Pubkey,
    amount: u64,
) -> (r: Option<Instruction>)
    ensures
        r.is_some() <==> *program == spl_token_program(),
        r matches Some(built) ==> built@ == mint_to_instruction(
            *program,
            *mint,
            *account,
            *owner,
            amount,
        ),
{
    let key = |k: &Pubkey| spl_token::solana_program::pubkey::Pubkey::new_from_array(k.bytes);
    let built = spl_token::instruction::mint_to(&key(program), &key(mint), &key(account), &key(owner), &[], amount).ok()?;
    let accounts = built.accounts.iter().map(
        |m| AccountMeta {
            pubkey: Pubkey { bytes: m.pubkey.to_bytes() },
            is_signer: m.is_signer,
            is_writable: m.is_writable,
        },
    ).collect();
    Some(Instruction { program_id: Pubkey { bytes: built.program_id.to_bytes() }, accounts, data: built.data })
}

/// Builds the set-up of a token account. Calls
/// `spl_token::instruction::initialize_account`. The contract says that it
/// refuses every program but the token program, and that the instruction
/// names the account as writable, then the mint, the owner and the rent
/// sysvar as read only, none of them as signer, and holds the tag 1.
#[verifier::external_body]
pub(crate) fn initialize_token_account(
    program: &Pubkey,
    account: &Pubkey,
    mint: &Pubkey,
    owner: &Pubkey,
) -> (r: Option<Instruction>)
    ensures
        r.is_some() <==> *program == spl_token_program(),
        r matches Some(built) ==> built@ == initialize_account_instruction(
            *program,
            *account,
            *mint,
            *owner,
        ),
{
    let key = |k: &Pubkey| spl_token::solana_program::pubkey::Pubkey::new_from_array(k.bytes);
    let built = spl_token::instruction::initialize_account(&key(program), &key(account), &key(mint), &key(owner)).ok()?;
    let accounts = built.accounts.iter().map(
        |m| AccountMeta {
            pubkey: Pubkey { bytes: m.pubkey.to_bytes() },
            is_signer: m.is_signer,
            is_writable: m.is_writable,
        },
    ).collect();
    Some(Instruction { program_id: Pubkey { bytes: built.program_id.to_bytes() }, accounts, data: built.data })
}

} // verus!

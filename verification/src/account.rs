//! What the host hands to an operation, and what an operation hands back.

use crate::pubkey::Pubkey;
use crate::state::PerpetualSwap;
use crate::state::SwapView;
use crate::token::Instruction;
use crate::token::InstructionView;
use vstd::prelude::*;

verus! {

/// An account as the host supplies it.
#[derive(Clone, Debug, PartialEq)]
pub struct AccountInfo {
    /// The identity of the account.
    pub key: Pubkey,
    /// The program that owns the account.
    pub owner: Pubkey,
    /// The lamports that the account holds.
    pub lamports: u64,
    /// The data of the account.
    pub data: Vec<u8>,
}

/// The seeds with which the host signs for the authority of a swap: the
/// identity of the swap record and the nonce.
#[derive(Clone, Copy, Debug, PartialEq)]
pub struct AuthoritySeeds {
    pub swap: Pubkey,
    pub nonce: u8,
}

/// An instruction that the host is to invoke, signed for the swap authority
/// where there are seeds.
#[derive(Clone, Debug, PartialEq)]
pub struct Invocation {
    pub instruction: Instruction,
    pub seeds: Option<AuthoritySeeds>,
}

/// The mathematical content of an invocation.
pub struct InvocationView {
    pub instruction: InstructionView,
    pub seeds: Option<AuthoritySeeds>,
}

impl View for Invocation {
    type V = InvocationView;

    open spec fn view(&self) -> InvocationView {
        InvocationView { instruction: self.instruction@, seeds: self.seeds }
    }
}

/// What an accepted operation asks of the host: to invoke the instructions in
/// order, and then to store the record.
#[derive(Clone, Debug, PartialEq)]
pub struct Effects {
    /// The record after the operation.
    pub swap: PerpetualSwap,
    /// The instructions to invoke, in order.
    pub invocations: Vec<Invocation>,
}

/// The mathematical content of the effects of an operation.
pub struct EffectsView {
    pub swap: SwapView,
    pub invocations: Seq<InvocationView>,
}

impl View for Effects {
    type V = EffectsView;

    open spec fn view(&self) -> EffectsView {
        EffectsView {
            swap: self.swap@,
            invocations: Seq::new(
                self.invocations@.len(),
                |i: int| self.invocations@[i]@,
            ),
        }
    }
}

} // verus!

//! Settlement engine of a two-party perpetual swap.
//!
//! A long and a short holder post collateral into two margin accounts. The
//! engine decides, for each operation that the host submits, whether it is
//! accepted, and if so which token movements the host is to invoke and which
//! record it is to store. It moves nothing and stores nothing itself.
//!
//! - [`instruction`]: the operations and their wire format.
//! - [`state`]: the swap record and its stored form.
//! - [`pubkey`]: account identities.
//! - [`double`], [`rounding`], [`arithmetic`]: the double-precision
//!   quantities in which prices, rates and ratios are kept, held by their bits,
//!   and their arithmetic.
//! - [`authority`]: the derived authority of a swap.
//! - [`token`]: what is read from, and asked of, the token program.
//! - [`margin`]: margin ratio, funding payment and liquidation bounty.
//! - [`model`]: what each operation decides, as mathematics.
//! - [`processor`]: the operations.
//! - [`laws`]: what holds of the operations whatever the input.

pub mod account;
pub mod arithmetic;
pub mod authority;
pub mod double;
pub mod error;
pub mod instruction;
pub mod laws;
pub mod margin;
pub mod model;
pub mod processor;
pub mod pubkey;
pub mod rounding;
pub mod state;
pub mod token;
pub mod traits;

//! Transfer instructions: the values through which the core asks its host
//! to move funds. The core only issues these; it never executes them.

use vstd::prelude::*;

verus! {

/// Who authorizes a transfer.
///
/// A sale can authorize outbound transfers from its vault without holding
/// a secret: its authority descriptor is derived deterministically from
/// the sale identifier (plus the `bump` chosen at creation time).
#[derive(Clone, Copy, Debug, PartialEq, Eq, Structural)]
pub enum Authority {
    /// An ordinary account holder signing for themselves.
    Signer(u64),
    /// The sale's program-controlled authority.
    SaleAuthority { sale_id: u64, bump: u8 },
}

/// What a transfer is denominated in.
#[derive(Clone, Copy, Debug, PartialEq, Eq, Hash, Structural)]
pub enum Currency {
    /// The native currency.
    Native,
    /// A token, named by its mint identifier.
    Token(u64),
}

/// One instruction to the external value-transfer service: move `amount`
/// of `currency` from `source` to `destination`, authorized by `authority`.
/// The host must treat a rejected transfer as aborting the whole operation
/// that issued it.
#[derive(Clone, Copy, Debug, PartialEq, Eq, Structural)]
pub struct TransferInstruction {
    pub currency: Currency,
    pub source: u64,
    pub destination: u64,
    pub amount: u64,
    pub authority: Authority,
}

} // verus!

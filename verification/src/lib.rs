//! Bookkeeping core of a token-sale ("presale") engine.
//!
//! The library admits buyers to a whitelist, enforces per-buyer purchase
//! caps, settles purchases against a fixed unit price, schedules one-shot
//! vested releases, processes time-gated claims, and keeps a cross-sale
//! aggregate index consistent with each sale's own totals.
//!
//! The core never performs value transfers itself: every operation that
//! moves funds returns [`transfer::TransferInstruction`] values describing
//! the transfers it requires, and the caller executes them. Likewise the
//! current time is read once per operation by the caller and passed in.
//! Every mutating operation is validate-then-commit: when it returns an
//! error, no record it touches has changed.

use vstd::prelude::*;

pub mod allocation;
pub mod claim;
pub mod governance;
pub mod presale;
pub mod pricing;
pub mod sale;
pub mod security;
pub mod stats;
pub mod table;
pub mod transfer;
pub mod vesting;
pub mod whitelist;

verus! {

/// The reason an operation was rejected. Every validation failure aborts
/// the whole operation with zero side effects and reports its exact cause.
#[derive(Clone, Copy, Debug, PartialEq, Eq, Structural)]
pub enum PresaleError {
    /// The sale's paused flag is set.
    SalePaused,
    /// The buyer is not on the sale's whitelist.
    NotWhitelisted,
    /// The requested amount exceeds the buyer's remaining allocation.
    AllocationExceeded,
    /// A checked arithmetic step would overflow its integer width.
    CalculationOverflow,
    /// The sale identifier handed in does not match the sale record.
    InvalidSaleId,
    /// A sale with this identifier is already registered.
    DuplicateSaleId,
    /// The current time lies outside the sale's purchase window.
    SaleNotActive,
    /// The vesting release time has not been reached yet.
    VestingPeriodNotEnded,
    /// The buyer has already claimed their vested tokens.
    AlreadyClaimed,
    /// The buyer has no vesting entry with a positive amount.
    NoTokensToClaim,
    /// The buyer has no purchase entry.
    NoPurchaseFound,
    /// The buyer already has a vesting entry; schedules are one-shot.
    VestingAlreadyExists,
    /// Inserting a new key would push a per-sale table past `max_entries`.
    InsufficientCapacity,
    /// The cross-sale index is full.
    TooManyAggregateEntries,
    /// The commission vault is not an account of the raise token.
    InvalidVaultReference,
}

} // verus!

//! The sale record and its cross-record invariants.

use vstd::prelude::*;
use crate::PresaleError;
use crate::pricing::{GlobalStats, PresaleInfo};
use crate::stats::{has_entry, reconcile_err, reconciled, upsert_stats};
use crate::table::{keys_distinct, sum_amounts, table_map};
use crate::transfer::{Authority, Currency, TransferInstruction};
use crate::vesting::VestingInfo;

verus! {

/// Seconds in one week, the unit the creation commission is charged by.
pub const WEEK_SECONDS: u64 = 604800;

/// Commission charged per started week of sale duration.
pub const COMMISSION_PER_WEEK: u64 = 100000000;

/// One sale: supply, pricing, timing and aggregate counters, plus its five
/// bounded per-buyer tables. Identities (creator, tokens, vault, buyers)
/// are plain account identifiers; the host resolves them to real accounts.
pub struct Presale {
    pub id: u64,
    pub creator: u64,
    pub raise_token: u64,
    pub sale_token: u64,
    pub total_tokens: u64,
    pub tokens_sold: u64,
    pub price: u64,
    pub start_time: i64,
    pub end_time: i64,
    pub vesting_end_time: i64,
    pub raise_goal: u64,
    pub total_raised: u64,
    pub total_investors: u32,
    pub paused: bool,
    pub whitelist: Vec<u64>,
    pub allocations: Vec<(u64, u64)>,
    pub buyer_purchases: Vec<(u64, u64)>,
    pub vestings: Vec<(u64, VestingInfo)>,
    pub commission_paid: u64,
    pub bump: u8,
    pub token_vault: u64,
    pub claims: Vec<(u64, bool)>,
    pub max_entries: u64,
}

impl Presale {
    /// The buyer-cap table, read as a map.
    pub open spec fn allocations_map(self) -> Map<u64, u64> {
        table_map(self.allocations@)
    }

    /// The cumulative-purchase table, read as a map.
    pub open spec fn purchases_map(self) -> Map<u64, u64> {
        table_map(self.buyer_purchases@)
    }

    /// The vesting table, read as a map.
    pub open spec fn vestings_map(self) -> Map<u64, VestingInfo> {
        table_map(self.vestings@)
    }

    /// The claimed-flag table, read as a map.
    pub open spec fn claims_map(self) -> Map<u64, bool> {
        table_map(self.claims@)
    }

    /// Whether a buyer has been admitted.
    pub open spec fn whitelisted(self, user: u64) -> bool {
        self.whitelist@.contains(user)
    }

    /// A buyer's purchase cap; zero when no cap was ever set.
    pub open spec fn allocation_of(self, user: u64) -> u64 {
        if self.allocations_map().contains_key(user) {
            self.allocations_map()[user]
        } else {
            0
        }
    }

    /// A buyer's cumulative purchased amount; zero without an entry.
    pub open spec fn purchased_by(self, user: u64) -> u64 {
        if self.purchases_map().contains_key(user) {
            self.purchases_map()[user]
        } else {
            0
        }
    }

    /// Whether a buyer has already claimed their vested tokens.
    pub open spec fn has_claimed(self, user: u64) -> bool {
        self.claims_map().contains_key(user) && self.claims_map()[user]
    }

    /// Well-formedness, maintained by every operation of the library:
    /// every table has pairwise-distinct keys, no table exceeds
    /// `max_entries`, and `tokens_sold` equals the sum of all recorded
    /// purchases.
    pub open spec fn wf(self) -> bool {
        &&& (forall|i: int, j: int|
            0 <= i < j < self.whitelist@.len() ==> self.whitelist@[i] != self.whitelist@[j])
        &&& keys_distinct(self.allocations@)
        &&& keys_distinct(self.buyer_purchases@)
        &&& keys_distinct(self.vestings@)
        &&& keys_distinct(self.claims@)
        &&& self.whitelist@.len() <= self.max_entries
        &&& self.allocations@.len() <= self.max_entries
        &&& self.buyer_purchases@.len() <= self.max_entries
        &&& self.vestings@.len() <= self.max_entries
        &&& self.claims@.len() <= self.max_entries
        &&& self.tokens_sold == sum_amounts(self.buyer_purchases@)
    }

    /// No buyer's recorded purchases exceed their cap. Purchasing
    /// preserves this; lowering a cap below what a buyer already bought
    /// (which the allocation ledger permits) is the one way to break it.
    pub open spec fn caps_respected(self) -> bool {
        forall|b: u64|
            #[trigger] self.purchases_map().contains_key(b)
                ==> self.purchases_map()[b] <= self.allocation_of(b)
    }
}

/// Whether purchases respect caps depends only on the allocation and
/// purchase tables: any operation that leaves both untouched carries the
/// property across.
pub proof fn lemma_caps_respected_frame(a: Presale, b: Presale)
    requires
        a.caps_respected(),
        b.allocations@ == a.allocations@,
        b.buyer_purchases@ == a.buyer_purchases@,
    ensures
        b.caps_respected(),
{
    assert forall|buyer: u64| #[trigger] b.purchases_map().contains_key(buyer)
        implies b.purchases_map()[buyer] <= b.allocation_of(buyer) by {
        assert(b.purchases_map() == a.purchases_map());
        assert(b.allocation_of(buyer) == a.allocation_of(buyer));
    }
}

/// The sale duration in started weeks: the least number of whole weeks
/// covering `end - start`.
pub open spec fn spec_weeks(start: i64, end: i64) -> int {
    let d = end - start;
    if d % (WEEK_SECONDS as int) == 0 {
        d / (WEEK_SECONDS as int)
    } else {
        d / (WEEK_SECONDS as int) + 1
    }
}

/// The one-time creation commission: proportional to the duration in
/// started weeks.
pub open spec fn spec_commission(start: i64, end: i64) -> int {
    spec_weeks(start, end) * COMMISSION_PER_WEEK
}

/// Why creating a sale would be rejected, in validation order; `None`
/// when it succeeds.
pub open spec fn init_err(
    entries: Seq<PresaleInfo>,
    id: u64,
    sale_token: u64,
    raise_token: u64,
    commission_vault_mint: u64,
    start_time: i64,
    end_time: i64,
) -> Option<PresaleError> {
    if has_entry(entries, id) {
        Some(PresaleError::DuplicateSaleId)
    } else if commission_vault_mint != raise_token {
        Some(PresaleError::InvalidVaultReference)
    } else if spec_commission(start_time, end_time) > u64::MAX {
        Some(PresaleError::CalculationOverflow)
    } else {
        reconcile_err(
            entries,
            (PresaleInfo { id, sale_token, total_raised: 0, total_investors: 0 }),
        )
    }
}

/// Create a sale: a fresh record with zeroed counters and empty tables,
/// registered in the aggregate index under a fresh identifier. The
/// creator pays a one-time commission proportional to the sale duration
/// in started weeks, and stocks the vault with the sale's total supply;
/// both transfers come back as instructions for the host to execute as a
/// unit. On any failure the aggregate index is untouched and no sale is
/// created.
pub fn initialize_presale(
    global_stats: &mut GlobalStats,
    id: u64,
    creator: u64,
    sale_token: u64,
    raise_token: u64,
    token_vault: u64,
    creator_token_account: u64,
    commission_vault: u64,
    commission_vault_mint: u64,
    total_tokens: u64,
    price: u64,
    start_time: i64,
    end_time: i64,
    vesting_end_time: i64,
    raise_goal: u64,
    bump: u8,
    max_entries: u64,
) -> (r: Result<(Presale, TransferInstruction, TransferInstruction), PresaleError>)
    requires
        old(global_stats).wf(),
        start_time <= end_time,
    ensures
        final(global_stats).wf(),
        (match r {
            Ok(out) => {
                &&& init_err(
                    old(global_stats).presales@,
                    id,
                    sale_token,
                    raise_token,
                    commission_vault_mint,
                    start_time,
                    end_time,
                ) is None
                &&& out.0 == (Presale {
                    id,
                    creator,
                    raise_token,
                    sale_token,
                    total_tokens,
                    tokens_sold: 0u64,
                    price,
                    start_time,
                    end_time,
                    vesting_end_time,
                    raise_goal,
                    total_raised: 0u64,
                    total_investors: 0u32,
                    paused: false,
                    whitelist: out.0.whitelist,
                    allocations: out.0.allocations,
                    buyer_purchases: out.0.buyer_purchases,
                    vestings: out.0.vestings,
                    commission_paid: spec_commission(start_time, end_time) as u64,
                    bump,
                    token_vault,
                    claims: out.0.claims,
                    max_entries,
                })
                &&& out.0.whitelist@ == Seq::<u64>::empty()
                &&& out.0.allocations@ == Seq::<(u64, u64)>::empty()
                &&& out.0.buyer_purchases@ == Seq::<(u64, u64)>::empty()
                &&& out.0.vestings@ == Seq::<(u64, VestingInfo)>::empty()
                &&& out.0.claims@ == Seq::<(u64, bool)>::empty()
                &&& out.0.wf()
                &&& out.0.caps_respected()
                &&& reconciled(
                    old(global_stats).presales@,
                    (PresaleInfo { id, sale_token, total_raised: 0, total_investors: 0 }),
                    *final(global_stats),
                )
                &&& out.1 == (TransferInstruction {
                    currency: Currency::Native,
                    source: creator,
                    destination: commission_vault,
                    amount: spec_commission(start_time, end_time) as u64,
                    authority: Authority::Signer(creator),
                })
                &&& out.2 == (TransferInstruction {
                    currency: Currency::Token(sale_token),
                    source: creator_token_account,
                    destination: token_vault,
                    amount: total_tokens,
                    authority: Authority::Signer(creator),
                })
            },
            Err(e) => {
                &&& init_err(
                    old(global_stats).presales@,
                    id,
                    sale_token,
                    raise_token,
                    commission_vault_mint,
                    start_time,
                    end_time,
                ) == Some(e)
                &&& *final(global_stats) == *old(global_stats)
            },
        }),
{
    if crate::stats::entry_index(&global_stats.presales, id).is_some() {
        return Err(PresaleError::DuplicateSaleId);
    }
    if commission_vault_mint != raise_token {
        return Err(PresaleError::InvalidVaultReference);
    }
    let duration: u64 = ((end_time as i128) - (start_time as i128)) as u64;
    let weeks: u64 = duration / WEEK_SECONDS + (if duration % WEEK_SECONDS != 0 {
        1
    } else {
        0
    });
    let commission = match weeks.checked_mul(COMMISSION_PER_WEEK) {
        Some(c) => c,
        None => {
            return Err(PresaleError::CalculationOverflow);
        },
    };
    let info = PresaleInfo { id, sale_token, total_raised: 0, total_investors: 0 };
    match upsert_stats(global_stats, info) {
        Ok(()) => {},
        Err(e) => {
            return Err(e);
        },
    }
    let presale = Presale {
        id,
        creator,
        raise_token,
        sale_token,
        total_tokens,
        tokens_sold: 0,
        price,
        start_time,
        end_time,
        vesting_end_time,
        raise_goal,
        total_raised: 0,
        total_investors: 0,
        paused: false,
        whitelist: Vec::new(),
        allocations: Vec::new(),
        buyer_purchases: Vec::new(),
        vestings: Vec::new(),
        commission_paid: commission,
        bump,
        token_vault,
        claims: Vec::new(),
        max_entries,
    };
    Ok(
        (
            presale,
            TransferInstruction {
                currency: Currency::Native,
                source: creator,
                destination: commission_vault,
                amount: commission,
                authority: Authority::Signer(creator),
            },
            TransferInstruction {
                currency: Currency::Token(sale_token),
                source: creator_token_account,
                destination: token_vault,
                amount: total_tokens,
                authority: Authority::Signer(creator),
            },
        ),
    )
}

} // verus!

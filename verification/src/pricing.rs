//! Purchase settlement and the cross-sale aggregate index it keeps current.

use vstd::prelude::*;
use crate::PresaleError;
use crate::presale::Presale;
use crate::stats::{reconcile_err, reconciled, upsert_stats};
use crate::table::{lemma_table_map_contains, table_accumulate, table_get, vec_contains};
use crate::transfer::{Authority, Currency, TransferInstruction};

verus! {

/// Fixed capacity of the cross-sale index.
pub const MAX_PRESALES: usize = 100;

/// One mirror entry of the cross-sale index, derived from the matching
/// sale's own totals.
#[derive(Clone, Copy, Debug, PartialEq, Eq, Structural)]
pub struct PresaleInfo {
    pub id: u64,
    pub sale_token: u64,
    pub total_raised: u64,
    pub total_investors: u64,
}

/// The process-wide aggregate record: one bounded mirror entry per sale,
/// plus totals that are always the sums over those entries, never
/// accumulated independently.
pub struct GlobalStats {
    pub total_raised: u64,
    pub total_investors: u64,
    pub total_presales: u32,
    pub presales: Vec<PresaleInfo>,
}

/// No sale identifier occurs twice in the index.
pub open spec fn ids_distinct(s: Seq<PresaleInfo>) -> bool {
    forall|i: int, j: int| 0 <= i < j < s.len() ==> s[i].id != s[j].id
}

/// The sum of the entries' raised amounts.
pub open spec fn sum_raised(s: Seq<PresaleInfo>) -> int
    decreases s.len(),
{
    if s.len() == 0 {
        0
    } else {
        sum_raised(s.drop_last()) + s.last().total_raised
    }
}

/// The sum of the entries' investor counts.
pub open spec fn sum_investors(s: Seq<PresaleInfo>) -> int
    decreases s.len(),
{
    if s.len() == 0 {
        0
    } else {
        sum_investors(s.drop_last()) + s.last().total_investors
    }
}

impl GlobalStats {
    /// Well-formedness: distinct sale identifiers, the index within its
    /// fixed bound, and every process-wide total derived from the entries.
    pub open spec fn wf(self) -> bool {
        &&& ids_distinct(self.presales@)
        &&& self.presales@.len() <= MAX_PRESALES
        &&& self.total_raised == sum_raised(self.presales@)
        &&& self.total_investors == sum_investors(self.presales@)
        &&& self.total_presales == self.presales@.len()
    }
}

pub proof fn lemma_sum_raised_update(s: Seq<PresaleInfo>, i: int, e: PresaleInfo)
    requires
        0 <= i < s.len(),
    ensures
        sum_raised(s.update(i, e)) == sum_raised(s) - s[i].total_raised + e.total_raised,
        sum_investors(s.update(i, e)) == sum_investors(s) - s[i].total_investors
            + e.total_investors,
    decreases s.len(),
{
    let u = s.update(i, e);
    if i == s.len() - 1 {
        assert(u.drop_last() =~= s.drop_last());
    } else {
        assert(u.drop_last() =~= s.drop_last().update(i, e));
        assert(s.drop_last()[i] == s[i]);
        lemma_sum_raised_update(s.drop_last(), i, e);
        assert(u.last() == s.last());
    }
}

pub proof fn lemma_sum_raised_push(s: Seq<PresaleInfo>, e: PresaleInfo)
    ensures
        sum_raised(s.push(e)) == sum_raised(s) + e.total_raised,
        sum_investors(s.push(e)) == sum_investors(s) + e.total_investors,
{
    assert(s.push(e).drop_last() =~= s);
}

/// A prefix of the index never sums to more than the whole index.
pub proof fn lemma_sum_prefix(s: Seq<PresaleInfo>, k: int)
    requires
        0 <= k <= s.len(),
    ensures
        sum_raised(s.take(k)) <= sum_raised(s),
        sum_investors(s.take(k)) <= sum_investors(s),
    decreases s.len(),
{
    if k == s.len() {
        assert(s.take(k) =~= s);
    } else {
        assert(s.take(k) =~= s.drop_last().take(k));
        lemma_sum_prefix(s.drop_last(), k);
    }
}

/// Extending a prefix by one entry adds that entry's amounts.
pub proof fn lemma_sum_take_step(s: Seq<PresaleInfo>, k: int)
    requires
        0 <= k < s.len(),
    ensures
        sum_raised(s.take(k + 1)) == sum_raised(s.take(k)) + s[k].total_raised,
        sum_investors(s.take(k + 1)) == sum_investors(s.take(k)) + s[k].total_investors,
{
    assert(s.take(k + 1).drop_last() =~= s.take(k));
    assert(s.take(k + 1).last() == s[k]);
}

/// Subtraction floored at zero.
pub open spec fn sat_sub(a: u64, b: u64) -> u64 {
    if a >= b {
        (a - b) as u64
    } else {
        0
    }
}

/// The sale's investor count after a purchase: a saturating increment for
/// a buyer's first purchase, unchanged for a top-up.
pub open spec fn buy_new_investors(sale: Presale, buyer: u64) -> u32 {
    if sale.purchases_map().contains_key(buyer) {
        sale.total_investors
    } else if sale.total_investors + 1 > u32::MAX {
        u32::MAX
    } else {
        (sale.total_investors + 1) as u32
    }
}

/// The mirror entry a successful purchase writes into the aggregate index:
/// the sale's totals as they stand after the purchase.
pub open spec fn buy_mirror(sale: Presale, buyer: u64, amount: u64) -> PresaleInfo {
    PresaleInfo {
        id: sale.id,
        sale_token: sale.sale_token,
        total_raised: (sale.total_raised + sale.price * amount) as u64,
        total_investors: buy_new_investors(sale, buyer) as u64,
    }
}

/// Why a purchase would be rejected, in validation order; `None` when it
/// succeeds. Every check precedes every mutation and every transfer.
pub open spec fn buy_err(
    sale: Presale,
    entries: Seq<PresaleInfo>,
    presale_id: u64,
    buyer: u64,
    amount: u64,
    now: i64,
) -> Option<PresaleError> {
    if sale.id != presale_id {
        Some(PresaleError::InvalidSaleId)
    } else if sale.paused {
        Some(PresaleError::SalePaused)
    } else if !sale.whitelisted(buyer) {
        Some(PresaleError::NotWhitelisted)
    } else if !(sale.start_time <= now && now <= sale.end_time) {
        Some(PresaleError::SaleNotActive)
    } else if amount > sat_sub(sale.allocation_of(buyer), sale.purchased_by(buyer)) {
        Some(PresaleError::AllocationExceeded)
    } else if sale.price * amount > u64::MAX {
        Some(PresaleError::CalculationOverflow)
    } else if !sale.purchases_map().contains_key(buyer) && sale.buyer_purchases@.len()
        >= sale.max_entries {
        Some(PresaleError::InsufficientCapacity)
    } else if sale.tokens_sold + amount > u64::MAX {
        Some(PresaleError::CalculationOverflow)
    } else if sale.total_raised + sale.price * amount > u64::MAX {
        Some(PresaleError::CalculationOverflow)
    } else {
        reconcile_err(entries, buy_mirror(sale, buyer, amount))
    }
}

/// How a successful purchase rewrites the sale record: `amount` added to
/// the buyer's cumulative purchases and to `tokens_sold`, the cost added
/// to `total_raised`, the investor count bumped for a first purchase, and
/// nothing else touched.
pub open spec fn buy_updated(pre: Presale, post: Presale, buyer: u64, amount: u64) -> bool {
    &&& post == (Presale {
        tokens_sold: (pre.tokens_sold + amount) as u64,
        total_raised: (pre.total_raised + pre.price * amount) as u64,
        total_investors: buy_new_investors(pre, buyer),
        buyer_purchases: post.buyer_purchases,
        ..pre
    })
    &&& post.purchases_map() == pre.purchases_map().insert(
        buyer,
        (pre.purchased_by(buyer) + amount) as u64,
    )
    &&& post.buyer_purchases@.len() == pre.buyer_purchases@.len() + (
    if pre.purchases_map().contains_key(buyer) {
        0int
    } else {
        1int
    })
}

/// Settle a purchase: validate the handle, the pause flag, the whitelist,
/// the purchase window, the buyer's remaining allocation and every
/// arithmetic step, then commit the sale's new totals, mirror them into
/// the aggregate index, and return the two transfer instructions the host
/// must execute as a unit: the payment (buyer to treasury, in the native
/// currency) and the token delivery (vault to buyer, authorized by the
/// sale's derived authority). On any failure neither record changes.
pub fn buy_tokens(
    sale: &mut Presale,
    global_stats: &mut GlobalStats,
    presale_id: u64,
    buyer: u64,
    buyer_token_account: u64,
    treasury: u64,
    amount: u64,
    now: i64,
) -> (r: Result<(TransferInstruction, TransferInstruction), PresaleError>)
    requires
        old(sale).wf(),
        old(global_stats).wf(),
    ensures
        final(sale).wf(),
        final(global_stats).wf(),
        (match r {
            Ok(instrs) => {
                &&& buy_err(
                    *old(sale),
                    old(global_stats).presales@,
                    presale_id,
                    buyer,
                    amount,
                    now,
                ) is None
                &&& buy_updated(*old(sale), *final(sale), buyer, amount)
                &&& reconciled(
                    old(global_stats).presales@,
                    buy_mirror(*old(sale), buyer, amount),
                    *final(global_stats),
                )
                &&& instrs.0 == (TransferInstruction {
                    currency: Currency::Native,
                    source: buyer,
                    destination: treasury,
                    amount: (old(sale).price * amount) as u64,
                    authority: Authority::Signer(buyer),
                })
                &&& instrs.1 == (TransferInstruction {
                    currency: Currency::Token(old(sale).sale_token),
                    source: old(sale).token_vault,
                    destination: buyer_token_account,
                    amount: amount,
                    authority: Authority::SaleAuthority {
                        sale_id: old(sale).id,
                        bump: old(sale).bump,
                    },
                })
            },
            Err(e) => {
                &&& buy_err(
                    *old(sale),
                    old(global_stats).presales@,
                    presale_id,
                    buyer,
                    amount,
                    now,
                ) == Some(e)
                &&& *final(sale) == *old(sale)
                &&& *final(global_stats) == *old(global_stats)
            },
        }),
        old(sale).caps_respected() ==> final(sale).caps_respected(),
{
    if sale.id != presale_id {
        return Err(PresaleError::InvalidSaleId);
    }
    if sale.paused {
        return Err(PresaleError::SalePaused);
    }
    if !vec_contains(&sale.whitelist, buyer) {
        return Err(PresaleError::NotWhitelisted);
    }
    if !(sale.start_time <= now && now <= sale.end_time) {
        return Err(PresaleError::SaleNotActive);
    }
    let allocation = match table_get(&sale.allocations, buyer) {
        Some(a) => a,
        None => 0,
    };
    let prior = match table_get(&sale.buyer_purchases, buyer) {
        Some(p) => p,
        None => 0,
    };
    proof {
        lemma_table_map_contains(sale.buyer_purchases@, buyer);
    }
    let is_new = !table_map_contains_exec(sale, buyer);
    if amount > allocation.saturating_sub(prior) {
        return Err(PresaleError::AllocationExceeded);
    }
    let cost = match sale.price.checked_mul(amount) {
        Some(c) => c,
        None => {
            return Err(PresaleError::CalculationOverflow);
        },
    };
    if is_new && sale.buyer_purchases.len() as u64 >= sale.max_entries {
        return Err(PresaleError::InsufficientCapacity);
    }
    let new_sold = match sale.tokens_sold.checked_add(amount) {
        Some(s) => s,
        None => {
            return Err(PresaleError::CalculationOverflow);
        },
    };
    let new_raised = match sale.total_raised.checked_add(cost) {
        Some(t) => t,
        None => {
            return Err(PresaleError::CalculationOverflow);
        },
    };
    let new_investors = if is_new {
        sale.total_investors.saturating_add(1)
    } else {
        sale.total_investors
    };
    let info = PresaleInfo {
        id: sale.id,
        sale_token: sale.sale_token,
        total_raised: new_raised,
        total_investors: new_investors as u64,
    };
    proof {
        assert(info == buy_mirror(*old(sale), buyer, amount));
    }
    match upsert_stats(global_stats, info) {
        Ok(()) => {},
        Err(e) => {
            return Err(e);
        },
    }
    proof {
        assert(old(sale).purchased_by(buyer) + amount <= u64::MAX) by {
            if allocation >= prior {
                assert(prior + amount <= allocation);
            }
        }
    }
    table_accumulate(&mut sale.buyer_purchases, buyer, amount);
    sale.tokens_sold = new_sold;
    sale.total_raised = new_raised;
    sale.total_investors = new_investors;
    proof {
        let pre = *old(sale);
        let post = *sale;
        if pre.caps_respected() {
            assert forall|b: u64| #[trigger] post.purchases_map().contains_key(b)
                implies post.purchases_map()[b] <= post.allocation_of(b) by {
                assert(post.allocation_of(b) == pre.allocation_of(b));
                if b != buyer {
                    assert(post.purchases_map()[b] == pre.purchases_map()[b]);
                }
            }
        }
    }
    Ok(
        (
            TransferInstruction {
                currency: Currency::Native,
                source: buyer,
                destination: treasury,
                amount: cost,
                authority: Authority::Signer(buyer),
            },
            TransferInstruction {
                currency: Currency::Token(sale.sale_token),
                source: sale.token_vault,
                destination: buyer_token_account,
                amount: amount,
                authority: Authority::SaleAuthority { sale_id: sale.id, bump: sale.bump },
            },
        ),
    )
}

/// Whether the buyer already has a purchase entry.
fn table_map_contains_exec(sale: &Presale, buyer: u64) -> (r: bool)
    requires
        sale.wf(),
    ensures
        r == sale.purchases_map().contains_key(buyer),
{
    table_get(&sale.buyer_purchases, buyer).is_some()
}

} // verus!

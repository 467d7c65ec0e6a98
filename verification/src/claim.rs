//! The claim processor: the one-time, time-gated release of a buyer's
//! vested amount.

use vstd::prelude::*;
use crate::PresaleError;
use crate::presale::Presale;
use crate::pricing::{GlobalStats, PresaleInfo};
use crate::stats::{mirror_of, reconcile_err, reconciled, upsert_stats};
use crate::table::{lemma_table_map_contains, table_get, table_upsert};
use crate::transfer::{Authority, Currency, TransferInstruction};

verus! {

/// Why a claim would be rejected, in validation order; `None` when it
/// succeeds. A paused sale blocks claims just as it blocks purchases.
/// The already-claimed guard is enforced explicitly: a repeated claim
/// fails, it never pays twice.
pub open spec fn claim_err(sale: Presale, entries: Seq<PresaleInfo>, user: u64, now: i64) -> Option<
    PresaleError,
> {
    if sale.paused {
        Some(PresaleError::SalePaused)
    } else if !sale.vestings_map().contains_key(user) || sale.vestings_map()[user].amount == 0 {
        Some(PresaleError::NoTokensToClaim)
    } else if sale.has_claimed(user) {
        Some(PresaleError::AlreadyClaimed)
    } else if now < sale.vestings_map()[user].release_time {
        Some(PresaleError::VestingPeriodNotEnded)
    } else if !sale.claims_map().contains_key(user) && sale.claims@.len() >= sale.max_entries {
        Some(PresaleError::InsufficientCapacity)
    } else {
        reconcile_err(entries, mirror_of(sale))
    }
}

/// Release a buyer's vested amount once its release time has passed: mark
/// the buyer claimed, refresh the sale's mirror in the aggregate index,
/// and return the instruction moving the amount from the vault to the
/// buyer, authorized by the sale's derived authority. On any failure
/// neither record changes.
pub fn claim_tokens(
    sale: &mut Presale,
    global_stats: &mut GlobalStats,
    user: u64,
    user_token_account: u64,
    now: i64,
) -> (r: Result<TransferInstruction, PresaleError>)
    requires
        old(sale).wf(),
        old(global_stats).wf(),
    ensures
        final(sale).wf(),
        final(global_stats).wf(),
        (match r {
            Ok(instr) => {
                &&& claim_err(*old(sale), old(global_stats).presales@, user, now) is None
                &&& final(sale).claims_map() == old(sale).claims_map().insert(user, true)
                &&& final(sale).claims@.len() == old(sale).claims@.len() + (
                if old(sale).claims_map().contains_key(user) {
                    0int
                } else {
                    1int
                })
                &&& *final(sale) == (Presale { claims: final(sale).claims, ..*old(sale) })
                &&& reconciled(
                    old(global_stats).presales@,
                    mirror_of(*old(sale)),
                    *final(global_stats),
                )
                &&& instr == (TransferInstruction {
                    currency: Currency::Token(old(sale).sale_token),
                    source: old(sale).token_vault,
                    destination: user_token_account,
                    amount: old(sale).vestings_map()[user].amount,
                    authority: Authority::SaleAuthority {
                        sale_id: old(sale).id,
                        bump: old(sale).bump,
                    },
                })
            },
            Err(e) => {
                &&& claim_err(*old(sale), old(global_stats).presales@, user, now) == Some(e)
                &&& *final(sale) == *old(sale)
                &&& *final(global_stats) == *old(global_stats)
            },
        }),
        old(sale).caps_respected() ==> final(sale).caps_respected(),
{
    if sale.paused {
        return Err(PresaleError::SalePaused);
    }
    let amount = match table_get(&sale.vestings, user) {
        Some(v) => v.amount,
        None => 0,
    };
    if amount == 0 {
        return Err(PresaleError::NoTokensToClaim);
    }
    let release_time = match table_get(&sale.vestings, user) {
        Some(v) => v.release_time,
        None => 0,
    };
    proof {
        lemma_table_map_contains(sale.claims@, user);
    }
    let already = match table_get(&sale.claims, user) {
        Some(c) => c,
        None => false,
    };
    if already {
        return Err(PresaleError::AlreadyClaimed);
    }
    if now < release_time {
        return Err(PresaleError::VestingPeriodNotEnded);
    }
    let claims_has_user = table_get(&sale.claims, user).is_some();
    if !claims_has_user && sale.claims.len() as u64 >= sale.max_entries {
        return Err(PresaleError::InsufficientCapacity);
    }
    let info = PresaleInfo {
        id: sale.id,
        sale_token: sale.sale_token,
        total_raised: sale.total_raised,
        total_investors: sale.total_investors as u64,
    };
    match upsert_stats(global_stats, info) {
        Ok(()) => {},
        Err(e) => {
            return Err(e);
        },
    }
    table_upsert(&mut sale.claims, user, true);
    proof {
        let pre = *old(sale);
        let post = *sale;
        if pre.caps_respected() {
            assert forall|b: u64| #[trigger] post.purchases_map().contains_key(b)
                implies post.purchases_map()[b] <= post.allocation_of(b) by {
                assert(post.purchases_map() == pre.purchases_map());
                assert(post.allocation_of(b) == pre.allocation_of(b));
            }
        }
    }
    Ok(
        TransferInstruction {
            currency: Currency::Token(sale.sale_token),
            source: sale.token_vault,
            destination: user_token_account,
            amount,
            authority: Authority::SaleAuthority { sale_id: sale.id, bump: sale.bump },
        },
    )
}

/// A claim succeeds at most once per buyer per sale: after one successful
/// claim, any further claim by that buyer fails as already claimed,
/// whatever the aggregate index holds and whatever the clock then says.
pub proof fn lemma_claim_at_most_once(
    pre: Presale,
    post: Presale,
    entries1: Seq<PresaleInfo>,
    user: u64,
    now1: i64,
    entries2: Seq<PresaleInfo>,
    now2: i64,
)
    requires
        claim_err(pre, entries1, user, now1) is None,
        post.claims_map() == pre.claims_map().insert(user, true),
        post == (Presale { claims: post.claims, ..pre }),
    ensures
        claim_err(post, entries2, user, now2) == Some(PresaleError::AlreadyClaimed),
{
    assert(post.vestings_map() == pre.vestings_map());
    assert(post.has_claimed(user));
}

} // verus!

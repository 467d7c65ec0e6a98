//! One-shot vesting schedules: a fixed amount released to a buyer no
//! earlier than a release time.

use vstd::prelude::*;
use crate::PresaleError;
use crate::presale::Presale;
use crate::pricing::{GlobalStats, PresaleInfo};
use crate::stats::{mirror_of, reconcile_err, reconciled, upsert_stats};
use crate::table::{lemma_table_map_contains, table_index_of, table_upsert};

verus! {

/// A buyer's vesting entry. At most one ever exists per buyer per sale.
#[derive(Clone, Copy, Debug, PartialEq, Eq, Structural)]
pub struct VestingInfo {
    pub amount: u64,
    pub release_time: i64,
    pub claimed: bool,
}

/// Why scheduling a vesting would be rejected, in validation order;
/// `None` when it succeeds.
pub open spec fn vesting_err(sale: Presale, entries: Seq<PresaleInfo>, user: u64) -> Option<
    PresaleError,
> {
    if !sale.purchases_map().contains_key(user) {
        Some(PresaleError::NoPurchaseFound)
    } else if sale.vestings_map().contains_key(user) {
        Some(PresaleError::VestingAlreadyExists)
    } else if sale.vestings@.len() >= sale.max_entries {
        Some(PresaleError::InsufficientCapacity)
    } else {
        reconcile_err(entries, mirror_of(sale))
    }
}

/// Schedule a one-shot vesting for a buyer who has purchased: reject a
/// buyer without a purchase entry, a buyer who already has a schedule
/// (schedules are never amended), and a full table; then insert the entry
/// and refresh the sale's mirror in the aggregate index. On any failure
/// neither record changes.
pub fn create_vesting(
    sale: &mut Presale,
    global_stats: &mut GlobalStats,
    user: u64,
    amount: u64,
    release_time: i64,
) -> (r: Result<(), PresaleError>)
    requires
        old(sale).wf(),
        old(global_stats).wf(),
    ensures
        final(sale).wf(),
        final(global_stats).wf(),
        (match r {
            Ok(()) => {
                &&& vesting_err(*old(sale), old(global_stats).presales@, user) is None
                &&& final(sale).vestings_map() == old(sale).vestings_map().insert(
                    user,
                    (VestingInfo { amount, release_time, claimed: false }),
                )
                &&& final(sale).vestings@.len() == old(sale).vestings@.len() + 1
                &&& *final(sale) == (Presale { vestings: final(sale).vestings, ..*old(sale) })
                &&& reconciled(
                    old(global_stats).presales@,
                    mirror_of(*old(sale)),
                    *final(global_stats),
                )
            },
            Err(e) => {
                &&& vesting_err(*old(sale), old(global_stats).presales@, user) == Some(e)
                &&& *final(sale) == *old(sale)
                &&& *final(global_stats) == *old(global_stats)
            },
        }),
        old(sale).caps_respected() ==> final(sale).caps_respected(),
{
    proof {
        lemma_table_map_contains(sale.buyer_purchases@, user);
        lemma_table_map_contains(sale.vestings@, user);
    }
    if table_index_of(&sale.buyer_purchases, user).is_none() {
        return Err(PresaleError::NoPurchaseFound);
    }
    if table_index_of(&sale.vestings, user).is_some() {
        return Err(PresaleError::VestingAlreadyExists);
    }
    if sale.vestings.len() as u64 >= sale.max_entries {
        return Err(PresaleError::InsufficientCapacity);
    }
    let info = PresaleInfo {
        id: sale.id,
        sale_token: sale.sale_token,
        total_raised: sale.total_raised,
        total_investors: sale.total_investors as u64,
    };
    match upsert_stats(global_stats, info) {
        Ok(()) => {},
        Err(e) => {
            return Err(e);
        },
    }
    table_upsert(&mut sale.vestings, user, VestingInfo { amount, release_time, claimed: false });
    Ok(())
}

} // verus!

//! The allocation ledger: per-buyer purchase caps, admin-set and
//! overwritable.

use vstd::prelude::*;
use crate::PresaleError;
use crate::presale::Presale;
use crate::table::{lemma_table_map_contains, table_index_of, table_upsert};

verus! {

/// Set a buyer's purchase cap: overwrite an existing cap, or insert a new
/// entry subject to the table's capacity bound. Overwriting does not
/// re-validate purchases already recorded; future purchases are checked
/// against the new cap.
pub fn set_allocation(sale: &mut Presale, user: u64, allocation: u64) -> (r: Result<
    (),
    PresaleError,
>)
    requires
        old(sale).wf(),
    ensures
        final(sale).wf(),
        r is Err <==> (!old(sale).allocations_map().contains_key(user)
            && old(sale).allocations@.len() >= old(sale).max_entries),
        (match r {
            Ok(()) => {
                &&& final(sale).allocations_map() == old(sale).allocations_map().insert(
                    user,
                    allocation,
                )
                &&& final(sale).allocations@.len() == old(sale).allocations@.len() + (
                if old(sale).allocations_map().contains_key(user) {
                    0int
                } else {
                    1int
                })
                &&& *final(sale) == (Presale {
                    allocations: final(sale).allocations,
                    ..*old(sale)
                })
            },
            Err(e) => e == PresaleError::InsufficientCapacity && *final(sale) == *old(sale),
        }),
        (old(sale).caps_respected() && allocation >= old(sale).purchased_by(user))
            ==> final(sale).caps_respected(),
{
    proof {
        lemma_table_map_contains(sale.allocations@, user);
    }
    let present = table_index_of(&sale.allocations, user).is_some();
    if !present && sale.allocations.len() as u64 >= sale.max_entries {
        return Err(PresaleError::InsufficientCapacity);
    }
    table_upsert(&mut sale.allocations, user, allocation);
    proof {
        let post = *sale;
        let pre = *old(sale);
        if pre.caps_respected() && allocation >= pre.purchased_by(user) {
            assert forall|b: u64| #[trigger] post.purchases_map().contains_key(b)
                implies post.purchases_map()[b] <= post.allocation_of(b) by {
                assert(post.purchases_map() == pre.purchases_map());
                if b == user {
                    assert(post.allocation_of(b) == allocation);
                    assert(pre.purchases_map()[b] <= pre.purchased_by(b));
                } else {
                    assert(post.allocation_of(b) == pre.allocation_of(b));
                }
            }
        }
    }
    Ok(())
}

/// Setting a buyer's cap twice leaves only the latest value in effect:
/// the ledger ends exactly as if only the second call had happened, and
/// the buyer's cap reads back as the latest value. The second call can no
/// longer fail, since the first left the buyer with an entry.
pub proof fn lemma_latest_allocation_wins(
    s0: Presale,
    s1: Presale,
    s2: Presale,
    user: u64,
    cap1: u64,
    cap2: u64,
)
    requires
        s1.allocations_map() == s0.allocations_map().insert(user, cap1),
        s2.allocations_map() == s1.allocations_map().insert(user, cap2),
    ensures
        s1.allocations_map().contains_key(user),
        s2.allocations_map() == s0.allocations_map().insert(user, cap2),
        s2.allocation_of(user) == cap2,
{
    assert(s2.allocations_map() =~= s0.allocations_map().insert(user, cap2));
}

} // verus!

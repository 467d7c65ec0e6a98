//! The admission set: buyers must be whitelisted before they can purchase.

use vstd::prelude::*;
use crate::PresaleError;
use crate::presale::Presale;

verus! {

/// Admit a buyer. Idempotent: admitting an already-admitted buyer is a
/// no-op, not an error. Admitting a new buyer when the whitelist already
/// holds `max_entries` identities fails without mutating anything.
pub fn add_to_whitelist(sale: &mut Presale, user: u64) -> (r: Result<(), PresaleError>)
    requires
        old(sale).wf(),
    ensures
        final(sale).wf(),
        r is Err <==> (!old(sale).whitelisted(user)
            && old(sale).whitelist@.len() >= old(sale).max_entries),
        (match r {
            Ok(()) => {
                &&& final(sale).whitelisted(user)
                &&& (if old(sale).whitelisted(user) {
                    *final(sale) == *old(sale)
                } else {
                    final(sale).whitelist@ == old(sale).whitelist@.push(user)
                        && *final(sale) == (Presale {
                        whitelist: final(sale).whitelist,
                        ..*old(sale)
                    })
                })
            },
            Err(e) => e == PresaleError::InsufficientCapacity && *final(sale) == *old(sale),
        }),
{
    if crate::table::vec_contains(&sale.whitelist, user) {
        return Ok(());
    }
    if sale.whitelist.len() as u64 >= sale.max_entries {
        return Err(PresaleError::InsufficientCapacity);
    }
    let ghost w0 = sale.whitelist@;
    sale.whitelist.push(user);
    proof {
        assert(forall|i: int| 0 <= i < w0.len() ==> w0[i] != user);
        assert(sale.whitelist@.last() == user);
        assert(sale.whitelist@.contains(user));
    }
    Ok(())
}

} // verus!

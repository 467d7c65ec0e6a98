//! Pause control: an admin-authorized flag gating purchases and claims.

use vstd::prelude::*;
use crate::presale::Presale;

verus! {

/// Set the paused flag; purchases and claims are rejected while it holds.
pub fn pause_sale(sale: &mut Presale)
    ensures
        *final(sale) == (Presale { paused: true, ..*old(sale) }),
{
    sale.paused = true;
}

/// Clear the paused flag.
pub fn unpause_sale(sale: &mut Presale)
    ensures
        *final(sale) == (Presale { paused: false, ..*old(sale) }),
{
    sale.paused = false;
}

} // verus!

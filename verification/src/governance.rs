//! Parameter updates and a second pause switch, both admin-authorized.

use vstd::prelude::*;
use crate::presale::Presale;

verus! {

/// Patch the sale's mutable parameters. Each argument is independently
/// optional: `None` leaves the field unchanged, `Some` overwrites it
/// unconditionally. No bound against already-sold amounts is enforced.
pub fn update_parameters(sale: &mut Presale, new_price: Option<u64>, new_total_tokens: Option<u64>)
    ensures
        *final(sale) == (Presale {
            price: (if new_price is Some {
                new_price->Some_0
            } else {
                old(sale).price
            }),
            total_tokens: (if new_total_tokens is Some {
                new_total_tokens->Some_0
            } else {
                old(sale).total_tokens
            }),
            ..*old(sale)
        }),
{
    match new_price {
        Some(price) => {
            sale.price = price;
        },
        None => {},
    }
    match new_total_tokens {
        Some(total_tokens) => {
            sale.total_tokens = total_tokens;
        },
        None => {},
    }
}

/// Set the paused flag.
pub fn pause_contract(sale: &mut Presale)
    ensures
        *final(sale) == (Presale { paused: true, ..*old(sale) }),
{
    sale.paused = true;
}

/// Clear the paused flag.
pub fn unpause_contract(sale: &mut Presale)
    ensures
        *final(sale) == (Presale { paused: false, ..*old(sale) }),
{
    sale.paused = false;
}

} // verus!

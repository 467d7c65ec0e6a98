//! A minimal standalone sale record with fixed parameters and no buyer
//! tables, created once by its administrator.

use vstd::prelude::*;

verus! {

/// A plain sale record: supply, pricing, timing and counters only.
#[derive(Clone, Copy, Debug, PartialEq, Eq, Structural)]
pub struct Sale {
    pub admin: u64,
    pub token_mint: u64,
    pub total_tokens: u64,
    pub tokens_sold: u64,
    pub price: u64,
    pub paused: bool,
    pub start_time: i64,
    pub end_time: i64,
    pub vesting_end_time: i64,
    pub raise_goal: u64,
    pub total_investors: u32,
    pub bump: u8,
}

/// Create a sale record with zeroed counters and the paused flag clear.
pub fn initialize(
    admin: u64,
    token_mint: u64,
    total_tokens: u64,
    price: u64,
    start_time: i64,
    end_time: i64,
    vesting_end_time: i64,
    raise_goal: u64,
    bump: u8,
) -> (s: Sale)
    ensures
        s == (Sale {
            admin,
            token_mint,
            total_tokens,
            tokens_sold: 0u64,
            price,
            paused: false,
            start_time,
            end_time,
            vesting_end_time,
            raise_goal,
            total_investors: 0u32,
            bump,
        }),
{
    Sale {
        admin,
        token_mint,
        total_tokens,
        tokens_sold: 0,
        price,
        paused: false,
        start_time,
        end_time,
        vesting_end_time,
        raise_goal,
        total_investors: 0,
        bump,
    }
}

} // verus!

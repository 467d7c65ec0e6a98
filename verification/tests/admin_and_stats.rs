use launchpadinsoon::PresaleError;
use launchpadinsoon::allocation::set_allocation;
use launchpadinsoon::governance::{pause_contract, unpause_contract, update_parameters};
use launchpadinsoon::presale::{Presale, initialize_presale};
use launchpadinsoon::pricing::{GlobalStats, buy_tokens};
use launchpadinsoon::sale;
use launchpadinsoon::stats::{
    get_global_stats, get_presale_stats, get_user_stats, initialize_global_stats,
    update_global_stats,
};
use launchpadinsoon::whitelist::add_to_whitelist;

const BUYER_A: u64 = 1;
const NOW: i64 = 100;

fn new_sale(g: &mut GlobalStats, id: u64, total_tokens: u64, price: u64, max_entries: u64) -> Presale {
    initialize_presale(
        g, id, 10, 20, 30, 40, 50, 60, 30, total_tokens, price, 0, 1_000_000, 2_000_000, 10_000,
        255, max_entries,
    )
    .unwrap()
    .0
}

fn stats_equal(a: &GlobalStats, b: &GlobalStats) -> bool {
    a.total_raised == b.total_raised && a.total_investors == b.total_investors
        && a.total_presales == b.total_presales && a.presales == b.presales
}

#[test]
fn reconcile_is_idempotent() {
    let mut g = initialize_global_stats();
    let mut sale = new_sale(&mut g, 1, 1000, 10, 2);
    add_to_whitelist(&mut sale, BUYER_A).unwrap();
    set_allocation(&mut sale, BUYER_A, 50).unwrap();
    buy_tokens(&mut sale, &mut g, 1, BUYER_A, 70, 80, 50, NOW).unwrap();

    update_global_stats(&mut g, &sale).unwrap();
    let first = get_global_stats(&g);
    update_global_stats(&mut g, &sale).unwrap();
    let second = get_global_stats(&g);
    assert!(stats_equal(&first, &second));
    assert_eq!(first.total_raised, 500);
    assert_eq!(first.total_investors, 1);
    assert_eq!(first.total_presales, 1);
}

#[test]
fn latest_allocation_wins() {
    let mut g = initialize_global_stats();
    let mut sale = new_sale(&mut g, 1, 1000, 10, 2);
    set_allocation(&mut sale, BUYER_A, 50).unwrap();
    set_allocation(&mut sale, BUYER_A, 30).unwrap();
    assert_eq!(get_user_stats(&sale, BUYER_A).allocation, 30);
    assert_eq!(sale.allocations.len(), 1);
}

#[test]
fn whitelist_admission_is_idempotent() {
    let mut g = initialize_global_stats();
    let mut sale = new_sale(&mut g, 1, 1000, 10, 2);
    add_to_whitelist(&mut sale, BUYER_A).unwrap();
    add_to_whitelist(&mut sale, BUYER_A).unwrap();
    assert_eq!(sale.whitelist.len(), 1);
}

#[test]
fn update_parameters_patches_only_given_fields() {
    let mut g = initialize_global_stats();
    let mut sale = new_sale(&mut g, 1, 1000, 10, 2);
    update_parameters(&mut sale, Some(25), None);
    assert_eq!(sale.price, 25);
    assert_eq!(sale.total_tokens, 1000);
    update_parameters(&mut sale, None, Some(2000));
    assert_eq!(sale.price, 25);
    assert_eq!(sale.total_tokens, 2000);
    update_parameters(&mut sale, None, None);
    assert_eq!(sale.price, 25);
    assert_eq!(sale.total_tokens, 2000);
}

#[test]
fn contract_pause_toggle() {
    let mut g = initialize_global_stats();
    let mut sale = new_sale(&mut g, 1, 1000, 10, 2);
    assert!(!sale.paused);
    pause_contract(&mut sale);
    assert!(sale.paused);
    unpause_contract(&mut sale);
    assert!(!sale.paused);
}

#[test]
fn presale_stats_projection() {
    let mut g = initialize_global_stats();
    let mut sale = new_sale(&mut g, 1, 1000, 10, 2);
    add_to_whitelist(&mut sale, BUYER_A).unwrap();
    set_allocation(&mut sale, BUYER_A, 500).unwrap();
    buy_tokens(&mut sale, &mut g, 1, BUYER_A, 70, 80, 500, NOW).unwrap();

    let s = get_presale_stats(&sale, NOW);
    assert!(s.is_active);
    assert_eq!(s.tokens_sold, 500);
    assert_eq!(s.percentage_sold, 50);
    assert_eq!(s.total_raised, 5000);
    assert_eq!(s.percentage_raised, 50);
    assert_eq!(s.time_remaining, 1_000_000 - NOW);
    assert_eq!(s.total_investors, 1);

    let after = get_presale_stats(&sale, 2_000_000);
    assert!(!after.is_active);
    assert_eq!(after.time_remaining, 0);

    let zeroed = new_sale(&mut g, 2, 0, 10, 2);
    let zs = get_presale_stats(&zeroed, NOW);
    assert_eq!(zs.percentage_sold, 0);
}

#[test]
fn user_stats_defaults_for_unknown_buyer() {
    let mut g = initialize_global_stats();
    let sale = new_sale(&mut g, 1, 1000, 10, 2);
    let s = get_user_stats(&sale, 42);
    assert_eq!(s.allocation, 0);
    assert_eq!(s.tokens_purchased, 0);
    assert_eq!(s.vesting_amount, 0);
    assert_eq!(s.vesting_release_time, 0);
    assert!(!s.claimed);
}

#[test]
fn plain_sale_record_initialization() {
    let s = sale::initialize(9, 8, 1000, 10, 0, 100, 200, 5000, 7);
    assert_eq!(s.admin, 9);
    assert_eq!(s.token_mint, 8);
    assert_eq!(s.total_tokens, 1000);
    assert_eq!(s.tokens_sold, 0);
    assert_eq!(s.price, 10);
    assert!(!s.paused);
    assert_eq!(s.start_time, 0);
    assert_eq!(s.end_time, 100);
    assert_eq!(s.vesting_end_time, 200);
    assert_eq!(s.raise_goal, 5000);
    assert_eq!(s.total_investors, 0);
    assert_eq!(s.bump, 7);
}

#[test]
fn commission_charged_per_started_week() {
    let week: i64 = 604_800;
    let cases: [(i64, i64, u64); 4] = [
        (0, 0, 0),
        (0, 1, 100_000_000),
        (0, week, 100_000_000),
        (0, week + 1, 200_000_000),
    ];
    for (start, end, expected) in cases {
        let mut g = initialize_global_stats();
        let (p, commission_instr, stock_instr) = initialize_presale(
            &mut g, 1, 10, 20, 30, 40, 50, 60, 30, 1000, 10, start, end, end, 10_000, 255, 2,
        )
        .unwrap();
        assert_eq!(commission_instr.amount, expected);
        assert_eq!(p.commission_paid, expected);
        assert_eq!(stock_instr.amount, 1000);
    }
}

#[test]
fn duplicate_sale_id_rejected() {
    let mut g = initialize_global_stats();
    let _ = new_sale(&mut g, 1, 1000, 10, 2);
    let r = initialize_presale(
        &mut g, 1, 10, 20, 30, 40, 50, 60, 30, 1000, 10, 0, 1_000_000, 2_000_000, 10_000, 255, 2,
    );
    assert!(matches!(r, Err(PresaleError::DuplicateSaleId)));
    assert_eq!(g.total_presales, 1);
}

#[test]
fn invalid_vault_reference_rejected() {
    let mut g = initialize_global_stats();
    let r = initialize_presale(
        &mut g, 1, 10, 20, 30, 40, 50, 60, 31, 1000, 10, 0, 1_000_000, 2_000_000, 10_000, 255, 2,
    );
    assert!(matches!(r, Err(PresaleError::InvalidVaultReference)));
    assert_eq!(g.total_presales, 0);
}

#[test]
fn aggregate_index_capacity_bound() {
    let mut g = initialize_global_stats();
    for id in 0..100u64 {
        let _ = new_sale(&mut g, id, 1000, 10, 2);
    }
    assert_eq!(g.total_presales, 100);
    let r = initialize_presale(
        &mut g, 100, 10, 20, 30, 40, 50, 60, 30, 1000, 10, 0, 1_000_000, 2_000_000, 10_000, 255, 2,
    );
    assert!(matches!(r, Err(PresaleError::TooManyAggregateEntries)));
    assert_eq!(g.total_presales, 100);
}

#[test]
fn tokens_sold_equals_sum_of_purchases() {
    let mut g = initialize_global_stats();
    let mut sale = new_sale(&mut g, 1, 1000, 10, 4);
    for b in [1u64, 2, 3] {
        add_to_whitelist(&mut sale, b).unwrap();
        set_allocation(&mut sale, b, 100).unwrap();
    }
    buy_tokens(&mut sale, &mut g, 1, 1, 70, 80, 10, NOW).unwrap();
    buy_tokens(&mut sale, &mut g, 1, 2, 71, 80, 20, NOW).unwrap();
    buy_tokens(&mut sale, &mut g, 1, 1, 70, 80, 5, NOW).unwrap();
    buy_tokens(&mut sale, &mut g, 1, 3, 72, 80, 40, NOW).unwrap();
    let recorded: u64 = sale.buyer_purchases.iter().map(|(_, v)| *v).sum();
    assert_eq!(sale.tokens_sold, 75);
    assert_eq!(recorded, sale.tokens_sold);
    assert_eq!(get_user_stats(&sale, 1).tokens_purchased, 15);
}

#[test]
fn aggregate_sum_overflow_aborts_purchase() {
    let mut g = initialize_global_stats();
    let mut rich = new_sale(&mut g, 1, 1000, u64::MAX, 2);
    add_to_whitelist(&mut rich, BUYER_A).unwrap();
    set_allocation(&mut rich, BUYER_A, 1).unwrap();
    buy_tokens(&mut rich, &mut g, 1, BUYER_A, 70, 80, 1, NOW).unwrap();
    assert_eq!(g.total_raised, u64::MAX);

    // a second sale's purchase would push the aggregate sum past the
    // integer width: the whole purchase aborts with nothing changed
    let mut other = new_sale(&mut g, 2, 1000, 10, 2);
    add_to_whitelist(&mut other, BUYER_A).unwrap();
    set_allocation(&mut other, BUYER_A, 5).unwrap();
    let r = buy_tokens(&mut other, &mut g, 2, BUYER_A, 70, 80, 1, NOW);
    assert_eq!(r, Err(PresaleError::CalculationOverflow));
    assert_eq!(other.tokens_sold, 0);
    assert_eq!(other.total_raised, 0);
    assert_eq!(g.total_raised, u64::MAX);
    assert_eq!(g.total_investors, 1);
}

#[test]
fn mirror_entry_tracks_sale_totals() {
    let mut g = initialize_global_stats();
    let mut sale = new_sale(&mut g, 7, 1000, 10, 2);
    add_to_whitelist(&mut sale, BUYER_A).unwrap();
    set_allocation(&mut sale, BUYER_A, 50).unwrap();
    buy_tokens(&mut sale, &mut g, 7, BUYER_A, 70, 80, 20, NOW).unwrap();
    let entry = g.presales.iter().find(|p| p.id == 7).unwrap();
    assert_eq!(entry.sale_token, 20);
    assert_eq!(entry.total_raised, sale.total_raised);
    assert_eq!(entry.total_investors, sale.total_investors as u64);
}

#[test]
fn totals_derive_from_mirror_entries_across_sales() {
    let mut g = initialize_global_stats();
    let mut s1 = new_sale(&mut g, 1, 1000, 10, 2);
    let mut s2 = new_sale(&mut g, 2, 1000, 7, 2);
    for s in [&mut s1, &mut s2] {
        add_to_whitelist(s, BUYER_A).unwrap();
        set_allocation(s, BUYER_A, 50).unwrap();
    }
    buy_tokens(&mut s1, &mut g, 1, BUYER_A, 70, 80, 50, NOW).unwrap();
    buy_tokens(&mut s2, &mut g, 2, BUYER_A, 70, 80, 10, NOW).unwrap();
    assert_eq!(g.total_raised, 500 + 70);
    assert_eq!(g.total_investors, 2);
    assert_eq!(g.total_presales, 2);
    let copy = get_global_stats(&g);
    assert!(stats_equal(&copy, &g));
}

//! The aggregate index: reconciliation of per-sale mirror entries and the
//! read-only statistics projections.
//!
//! Process-wide totals are always recomputed as sums over the mirror
//! entries, never accumulated independently, so the totals can never
//! drift from the entries.

use vstd::prelude::*;
use crate::PresaleError;
use crate::presale::Presale;
use crate::pricing::{
    GlobalStats, MAX_PRESALES, PresaleInfo, ids_distinct, lemma_sum_prefix, lemma_sum_raised_push,
    lemma_sum_raised_update, lemma_sum_take_step, sum_investors, sum_raised,
};

verus! {

/// The position of a sale's entry in the index; -1 when absent.
pub open spec fn entry_pos(s: Seq<PresaleInfo>, id: u64) -> int
    decreases s.len(),
{
    if s.len() == 0 {
        -1
    } else if s[0].id == id {
        0
    } else {
        let r = entry_pos(s.subrange(1, s.len() as int), id);
        if r < 0 {
            -1
        } else {
            r + 1
        }
    }
}

/// Whether the index holds an entry for this sale.
pub open spec fn has_entry(s: Seq<PresaleInfo>, id: u64) -> bool {
    entry_pos(s, id) >= 0
}

/// The index after upserting a mirror entry: overwrite the sale's entry,
/// or append one if the sale is not indexed yet.
pub open spec fn upserted(s: Seq<PresaleInfo>, info: PresaleInfo) -> Seq<PresaleInfo> {
    if has_entry(s, info.id) {
        s.update(entry_pos(s, info.id), info)
    } else {
        s.push(info)
    }
}

/// Why reconciling a mirror entry into the index would fail; `None` when
/// it succeeds.
pub open spec fn reconcile_err(s: Seq<PresaleInfo>, info: PresaleInfo) -> Option<PresaleError> {
    if !has_entry(s, info.id) && s.len() >= MAX_PRESALES {
        Some(PresaleError::TooManyAggregateEntries)
    } else if sum_raised(upserted(s, info)) > u64::MAX {
        Some(PresaleError::CalculationOverflow)
    } else if sum_investors(upserted(s, info)) > u64::MAX {
        Some(PresaleError::CalculationOverflow)
    } else {
        None
    }
}

/// The state of the index after a successful reconciliation: the entry
/// upserted and every total recomputed from the entries.
pub open spec fn reconciled(s0: Seq<PresaleInfo>, info: PresaleInfo, g: GlobalStats) -> bool {
    &&& g.presales@ == upserted(s0, info)
    &&& g.total_raised == sum_raised(g.presales@)
    &&& g.total_investors == sum_investors(g.presales@)
    &&& g.total_presales == g.presales@.len()
}

/// The mirror entry a sale's authoritative totals derive.
pub open spec fn mirror_of(sale: Presale) -> PresaleInfo {
    PresaleInfo {
        id: sale.id,
        sale_token: sale.sale_token,
        total_raised: sale.total_raised,
        total_investors: sale.total_investors as u64,
    }
}

/// `entry_pos` finds the first entry with the given identifier, and -1
/// exactly when there is none.
pub proof fn lemma_entry_pos(s: Seq<PresaleInfo>, id: u64)
    ensures
        entry_pos(s, id) == -1 || (0 <= entry_pos(s, id) < s.len()),
        entry_pos(s, id) == -1 ==> (forall|j: int| 0 <= j < s.len() ==> s[j].id != id),
        entry_pos(s, id) >= 0 ==> s[entry_pos(s, id)].id == id && (forall|j: int|
            0 <= j < entry_pos(s, id) ==> s[j].id != id),
    decreases s.len(),
{
    if s.len() == 0 {
    } else if s[0].id == id {
    } else {
        let rest = s.subrange(1, s.len() as int);
        lemma_entry_pos(rest, id);
        let p = entry_pos(s, id);
        if p == -1 {
            assert forall|j: int| 0 <= j < s.len() implies s[j].id != id by {
                if j >= 1 {
                    assert(rest[j - 1] == s[j]);
                }
            }
        } else {
            assert(rest[p - 1] == s[p]);
            assert forall|j: int| 0 <= j < p implies s[j].id != id by {
                if j >= 1 {
                    assert(rest[j - 1] == s[j]);
                }
            }
        }
    }
}

/// Find a sale's entry in the index.
pub fn entry_index(v: &Vec<PresaleInfo>, id: u64) -> (r: Option<usize>)
    ensures
        r is Some ==> r->Some_0 == entry_pos(v@, id) && r->Some_0 < v@.len(),
        r is None ==> entry_pos(v@, id) == -1,
{
    proof {
        lemma_entry_pos(v@, id);
    }
    let mut i: usize = 0;
    while i < v.len()
        invariant
            i <= v@.len(),
            forall|j: int| 0 <= j < i ==> v@[j].id != id,
            entry_pos(v@, id) == -1 ==> (forall|j: int| 0 <= j < v@.len() ==> v@[j].id != id),
            entry_pos(v@, id) >= 0 ==> entry_pos(v@, id) < v@.len()
                && v@[entry_pos(v@, id)].id == id && (forall|j: int|
                0 <= j < entry_pos(v@, id) ==> v@[j].id != id),
        decreases v@.len() - i,
    {
        if v[i].id == id {
            proof {
                let p = entry_pos(v@, id);
                assert(p != -1);
                assert(!(p < i));
                assert(!(i < p));
            }
            return Some(i);
        }
        i = i + 1;
    }
    None
}

/// Reconcile one mirror entry into the index and re-derive the totals.
/// All-or-nothing: on any failure the index is untouched.
pub(crate) fn upsert_stats(g: &mut GlobalStats, info: PresaleInfo) -> (r: Result<
    (),
    PresaleError,
>)
    requires
        old(g).wf(),
    ensures
        final(g).wf(),
        (match r {
            Ok(()) => reconcile_err(old(g).presales@, info) is None && reconciled(
                old(g).presales@,
                info,
                *final(g),
            ),
            Err(e) => reconcile_err(old(g).presales@, info) == Some(e) && *final(g) == *old(g),
        }),
{
    let ghost s0 = g.presales@;
    proof {
        lemma_entry_pos(s0, info.id);
    }
    let (found, fi): (bool, usize) = match entry_index(&g.presales, info.id) {
        Some(i) => (true, i),
        None => (false, 0),
    };
    if !found && g.presales.len() >= MAX_PRESALES {
        return Err(PresaleError::TooManyAggregateEntries);
    }
    let ghost target = upserted(s0, info);
    proof {
        if found {
            assert(target == s0.update(fi as int, info));
            assert(forall|m: int| 0 <= m < s0.len() ==> target[m].id == s0[m].id);
        } else {
            assert(target == s0.push(info));
            assert(forall|m: int| 0 <= m < s0.len() ==> target[m] == s0[m]);
        }
        assert(ids_distinct(target));
        assert(target.len() <= MAX_PRESALES);
    }

    // build the upserted entry list
    let n = g.presales.len();
    let mut new_entries: Vec<PresaleInfo> = Vec::new();
    let mut j: usize = 0;
    while j < n
        invariant
            j <= n,
            n == g.presales@.len(),
            g.presales@ == s0,
            target == upserted(s0, info),
            found ==> fi < n && target == s0.update(fi as int, info),
            !found ==> target == s0.push(info),
            new_entries@ == target.take(j as int),
        decreases n - j,
    {
        proof {
            assert(target.take(j as int + 1) =~= target.take(j as int).push(target[j as int]));
        }
        if found && j == fi {
            new_entries.push(info);
        } else {
            new_entries.push(g.presales[j]);
        }
        j = j + 1;
    }
    if !found {
        proof {
            assert(target.take(n as int) =~= s0);
        }
        new_entries.push(info);
    }
    proof {
        assert(new_entries@ =~= target);
    }

    // re-derive the totals from the upserted entries
    let mut raised: u64 = 0;
    let mut investors: u64 = 0;
    let mut k: usize = 0;
    let m = new_entries.len();
    while k < m
        invariant
            k <= m,
            m == new_entries@.len(),
            new_entries@ == target,
            raised == sum_raised(target.take(k as int)),
            investors == sum_investors(target.take(k as int)),
            *g == *old(g),
            g.wf(),
            g.presales@ == s0,
            target == upserted(s0, info),
            has_entry(s0, info.id) == found,
            !found ==> s0.len() < MAX_PRESALES,
        decreases m - k,
    {
        proof {
            lemma_sum_take_step(target, k as int);
            lemma_sum_prefix(target, k as int + 1);
        }
        raised = match raised.checked_add(new_entries[k].total_raised) {
            Some(x) => x,
            None => {
                return Err(PresaleError::CalculationOverflow);
            },
        };
        investors = match investors.checked_add(new_entries[k].total_investors) {
            Some(x) => x,
            None => {
                return Err(PresaleError::CalculationOverflow);
            },
        };
        k = k + 1;
    }
    proof {
        assert(target.take(m as int) =~= target);
    }

    g.presales = new_entries;
    g.total_raised = raised;
    g.total_investors = investors;
    g.total_presales = m as u32;
    Ok(())
}

/// Create the process-wide aggregate record, empty and zeroed.
pub fn initialize_global_stats() -> (g: GlobalStats)
    ensures
        g.wf(),
        g.presales@ == Seq::<PresaleInfo>::empty(),
        g.total_raised == 0,
        g.total_investors == 0,
        g.total_presales == 0,
{
    GlobalStats { total_raised: 0, total_investors: 0, total_presales: 0, presales: Vec::new() }
}

/// Upsert the sale's mirror entry and recompute the process-wide totals
/// as sums over all mirror entries.
pub fn update_global_stats(global_stats: &mut GlobalStats, presale: &Presale) -> (r: Result<
    (),
    PresaleError,
>)
    requires
        old(global_stats).wf(),
    ensures
        final(global_stats).wf(),
        (match r {
            Ok(()) => reconcile_err(old(global_stats).presales@, mirror_of(*presale)) is None
                && reconciled(
                old(global_stats).presales@,
                mirror_of(*presale),
                *final(global_stats),
            ),
            Err(e) => reconcile_err(old(global_stats).presales@, mirror_of(*presale)) == Some(e)
                && *final(global_stats) == *old(global_stats),
        }),
{
    let info = PresaleInfo {
        id: presale.id,
        sale_token: presale.sale_token,
        total_raised: presale.total_raised,
        total_investors: presale.total_investors as u64,
    };
    upsert_stats(global_stats, info)
}

/// A copy of the aggregate record.
pub fn get_global_stats(global_stats: &GlobalStats) -> (r: GlobalStats)
    ensures
        r.total_raised == global_stats.total_raised,
        r.total_investors == global_stats.total_investors,
        r.total_presales == global_stats.total_presales,
        r.presales@ == global_stats.presales@,
{
    let mut entries: Vec<PresaleInfo> = Vec::new();
    let mut i: usize = 0;
    while i < global_stats.presales.len()
        invariant
            i <= global_stats.presales@.len(),
            entries@ == global_stats.presales@.take(i as int),
        decreases global_stats.presales@.len() - i,
    {
        proof {
            let s = global_stats.presales@;
            assert(s.take(i as int + 1) =~= s.take(i as int).push(s[i as int]));
        }
        entries.push(global_stats.presales[i]);
        i = i + 1;
    }
    proof {
        assert(global_stats.presales@.take(global_stats.presales@.len() as int)
            =~= global_stats.presales@);
    }
    GlobalStats {
        total_raised: global_stats.total_raised,
        total_investors: global_stats.total_investors,
        total_presales: global_stats.total_presales,
        presales: entries,
    }
}

/// The read-only projection of a sale's standing at a given time.
/// Percentages are integer percent, truncated.
#[derive(Clone, Copy, Debug, PartialEq, Eq, Structural)]
pub struct PresaleStats {
    pub id: u64,
    pub raise_token: u64,
    pub sale_token: u64,
    pub total_tokens: u64,
    pub tokens_sold: u64,
    pub price: u64,
    pub total_raised: u64,
    pub total_investors: u64,
    pub start_time: i64,
    pub end_time: i64,
    pub raise_goal: u64,
    pub is_active: bool,
    pub time_remaining: i64,
    pub percentage_sold: u64,
    pub percentage_raised: u64,
}

/// The read-only projection of one buyer's standing in a sale.
#[derive(Clone, Copy, Debug, PartialEq, Eq, Structural)]
pub struct UserStats {
    pub allocation: u64,
    pub tokens_purchased: u64,
    pub vesting_amount: u64,
    pub vesting_release_time: i64,
    pub claimed: bool,
}

/// `part` as a truncated integer percentage of `whole`: zero when `whole`
/// is zero, saturated when it would not fit.
pub open spec fn spec_percentage(part: u64, whole: u64) -> u64 {
    if whole == 0 {
        0
    } else if part * 100 / (whole as int) > u64::MAX {
        u64::MAX
    } else {
        (part * 100 / (whole as int)) as u64
    }
}

/// The time left until `end`, floored at zero and saturated at the
/// integer width.
pub open spec fn spec_time_remaining(end: i64, now: i64) -> i64 {
    if now > end {
        0
    } else if end - now > i64::MAX {
        i64::MAX
    } else {
        (end - now) as i64
    }
}

/// Truncated integer percentage.
pub fn percentage(part: u64, whole: u64) -> (r: u64)
    ensures
        r == spec_percentage(part, whole),
{
    if whole == 0 {
        return 0;
    }
    let p: u128 = (part as u128) * 100;
    let q: u128 = p / (whole as u128);
    if q > u64::MAX as u128 {
        u64::MAX
    } else {
        q as u64
    }
}

/// Derive a sale's statistics at the given time. No mutation.
pub fn get_presale_stats(presale: &Presale, now: i64) -> (r: PresaleStats)
    ensures
        r == (PresaleStats {
            id: presale.id,
            raise_token: presale.raise_token,
            sale_token: presale.sale_token,
            total_tokens: presale.total_tokens,
            tokens_sold: presale.tokens_sold,
            price: presale.price,
            total_raised: presale.total_raised,
            total_investors: presale.total_investors as u64,
            start_time: presale.start_time,
            end_time: presale.end_time,
            raise_goal: presale.raise_goal,
            is_active: (presale.start_time <= now && now <= presale.end_time),
            time_remaining: spec_time_remaining(presale.end_time, now),
            percentage_sold: spec_percentage(presale.tokens_sold, presale.total_tokens),
            percentage_raised: spec_percentage(presale.total_raised, presale.raise_goal),
        }),
{
    let is_active = presale.start_time <= now && now <= presale.end_time;
    let time_remaining: i64 = if now > presale.end_time {
        0
    } else {
        match presale.end_time.checked_sub(now) {
            Some(d) => d,
            None => i64::MAX,
        }
    };
    PresaleStats {
        id: presale.id,
        raise_token: presale.raise_token,
        sale_token: presale.sale_token,
        total_tokens: presale.total_tokens,
        tokens_sold: presale.tokens_sold,
        price: presale.price,
        total_raised: presale.total_raised,
        total_investors: presale.total_investors as u64,
        start_time: presale.start_time,
        end_time: presale.end_time,
        raise_goal: presale.raise_goal,
        is_active,
        time_remaining,
        percentage_sold: percentage(presale.tokens_sold, presale.total_tokens),
        percentage_raised: percentage(presale.total_raised, presale.raise_goal),
    }
}

/// Derive one buyer's statistics: their cap, cumulative purchase, vesting
/// amount and release time (zeroes without a vesting entry), and claimed
/// flag (false without a claim entry). No mutation.
pub fn get_user_stats(presale: &Presale, user: u64) -> (r: UserStats)
    requires
        presale.wf(),
    ensures
        r == (UserStats {
            allocation: presale.allocation_of(user),
            tokens_purchased: presale.purchased_by(user),
            vesting_amount: (if presale.vestings_map().contains_key(user) {
                presale.vestings_map()[user].amount
            } else {
                0u64
            }),
            vesting_release_time: (if presale.vestings_map().contains_key(user) {
                presale.vestings_map()[user].release_time
            } else {
                0i64
            }),
            claimed: presale.has_claimed(user),
        }),
{
    let allocation = match crate::table::table_get(&presale.allocations, user) {
        Some(a) => a,
        None => 0,
    };
    let tokens_purchased = match crate::table::table_get(&presale.buyer_purchases, user) {
        Some(p) => p,
        None => 0,
    };
    let (vesting_amount, vesting_release_time): (u64, i64) = match crate::table::table_get(
        &presale.vestings,
        user,
    ) {
        Some(v) => (v.amount, v.release_time),
        None => (0, 0),
    };
    let claimed = match crate::table::table_get(&presale.claims, user) {
        Some(c) => c,
        None => false,
    };
    UserStats { allocation, tokens_purchased, vesting_amount, vesting_release_time, claimed }
}

/// Reconciliation is idempotent: reconciling the same sale twice with no
/// intervening sale mutation succeeds the second time and leaves the
/// aggregate record exactly as the first reconciliation left it.
pub proof fn lemma_reconcile_idempotent(
    s0: Seq<PresaleInfo>,
    info: PresaleInfo,
    g1: GlobalStats,
    g2: GlobalStats,
)
    requires
        ids_distinct(s0),
        reconcile_err(s0, info) is None,
        reconciled(s0, info, g1),
        reconciled(g1.presales@, info, g2),
    ensures
        reconcile_err(g1.presales@, info) is None,
        g2.presales@ == g1.presales@,
        g2.total_raised == g1.total_raised,
        g2.total_investors == g1.total_investors,
        g2.total_presales == g1.total_presales,
{
    let t = g1.presales@;
    lemma_entry_pos(s0, info.id);
    let p: int = if has_entry(s0, info.id) {
        entry_pos(s0, info.id)
    } else {
        s0.len() as int
    };
    assert(t == upserted(s0, info));
    assert(t[p] == info);
    assert(0 <= p < t.len());
    assert(ids_distinct(t)) by {
        if has_entry(s0, info.id) {
            assert(s0[entry_pos(s0, info.id)].id == info.id);
            assert(forall|m: int| 0 <= m < s0.len() ==> t[m].id == s0[m].id);
        } else {
            assert(forall|m: int| 0 <= m < s0.len() ==> t[m] == s0[m]);
        }
    }
    lemma_entry_pos(t, info.id);
    let q = entry_pos(t, info.id);
    assert(q >= 0);
    assert(t[q].id == info.id);
    assert(q == p);
    assert(upserted(t, info) =~= t) by {
        assert(upserted(t, info) == t.update(p, info));
        assert(t.update(p, info) =~= t);
    }
    assert(sum_raised(upserted(t, info)) == sum_raised(t));
    assert(sum_investors(upserted(t, info)) == sum_investors(t));
}

} // verus!

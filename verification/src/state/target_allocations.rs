//! Target allocations: how much of the vault's value each reserve should hold.
//!
//! Targets are proportional to the reserves' weights, except that no reserve
//! is given more than its cap. What a capped reserve cannot take is shared out
//! among the others in a further pass, until a pass caps no reserve or no
//! weight is left.
use crate::error::KaminoVaultError;
use crate::fraction::{scale, Fraction};
use crate::operations::vault_operations::common::Invested;
use crate::state::{VaultAllocation, VaultState};
use vstd::arithmetic::div_mod::{
    lemma_div_is_ordered, lemma_div_multiples_vanish, lemma_fundamental_div_mod,
};
use vstd::prelude::*;

verus! {

/// Progress of the allocation: what each slot has been given so far, and the
/// tokens and the weight still to be shared out.
pub struct FillState {
    /// Bit pattern of each slot's target.
    pub targets: Seq<int>,
    pub remaining_tokens: int,
    pub remaining_weight: int,
    /// Whether a reserve met its cap in the current pass.
    pub cap_reached: bool,
}

/// A slot that takes part in the allocation and has not met its cap.
pub open spec fn is_open(slot: VaultAllocation, target: int) -> bool {
    slot.is_live() && target < slot.token_allocation_cap * scale()
}

/// Sum of the weights of the slots in `lo..hi` that are open under `targets`.
pub open spec fn open_weight(allocs: Seq<VaultAllocation>, targets: Seq<int>, lo: int, hi: int)
    -> int
    decreases hi - lo,
{
    if hi <= lo {
        0
    } else {
        open_weight(allocs, targets, lo, hi - 1) + (if is_open(allocs[hi - 1], targets[hi - 1]) {
            allocs[hi - 1].target_allocation_weight as int
        } else {
            0
        })
    }
}

/// Sum of the targets of the first `n` slots.
pub open spec fn sum_targets(targets: Seq<int>, n: int) -> int
    decreases n,
{
    if n <= 0 {
        0
    } else {
        sum_targets(targets, n - 1) + targets[n - 1]
    }
}

/// Sum of the targets of the occupied slots among the first `n`.
pub open spec fn sum_live_targets(allocs: Seq<VaultAllocation>, n: int) -> int
    decreases n,
{
    if n <= 0 {
        0
    } else {
        sum_live_targets(allocs, n - 1) + (if allocs[n - 1].is_live() {
            allocs[n - 1].token_target_allocation_sf as int
        } else {
            0
        })
    }
}

/// Part of `total_bits` that is to stay uninvested: its share by weight, at
/// most the vault's cap on idle tokens.
pub open spec fn unallocated_target_spec(vault: VaultState, total_bits: int, total_weight: int)
    -> int {
    if vault.unallocated_weight > 0 {
        let share = (total_bits * vault.unallocated_weight) / (total_weight
            + vault.unallocated_weight);
        let cap = (if vault.unallocated_tokens_cap == 0 {
            u64::MAX as int
        } else {
            vault.unallocated_tokens_cap as int
        }) * scale();
        if share <= cap {
            share
        } else {
            cap
        }
    } else {
        0
    }
}

/// One slot's turn in a pass that shares out `loop_total` by `loop_weight`: an
/// open slot takes its share by weight, or what its cap still allows if that
/// is less.
pub open spec fn fill_slot(
    st: FillState,
    slot: VaultAllocation,
    i: int,
    loop_total: int,
    loop_weight: int,
) -> FillState {
    if is_open(slot, st.targets[i]) {
        let ideal = (loop_total * slot.target_allocation_weight) / loop_weight;
        let cap = slot.token_allocation_cap * scale();
        if ideal + st.targets[i] >= cap {
            FillState {
                targets: st.targets.update(i, cap),
                remaining_tokens: st.remaining_tokens - (cap - st.targets[i]),
                remaining_weight: st.remaining_weight - slot.target_allocation_weight,
                cap_reached: true,
            }
        } else {
            FillState {
                targets: st.targets.update(i, st.targets[i] + ideal),
                remaining_tokens: st.remaining_tokens - ideal,
                ..st
            }
        }
    } else {
        st
    }
}

/// The first `n` slots' turns in one pass.
pub open spec fn fill_pass(
    st: FillState,
    allocs: Seq<VaultAllocation>,
    loop_total: int,
    loop_weight: int,
    n: int,
) -> FillState
    decreases n,
{
    if n <= 0 {
        st
    } else {
        fill_slot(
            fill_pass(st, allocs, loop_total, loop_weight, n - 1),
            allocs[n - 1],
            n - 1,
            loop_total,
            loop_weight,
        )
    }
}

/// Passes over the table until one caps no reserve, or no tokens or no weight
/// are left.
pub open spec fn fill(st: FillState, allocs: Seq<VaultAllocation>) -> FillState
    decreases st.remaining_weight,
{
    if st.remaining_tokens > 0 && st.remaining_weight > 0 {
        let next = fill_pass(
            FillState { cap_reached: false, ..st },
            allocs,
            st.remaining_tokens,
            st.remaining_weight,
            25,
        );
        if next.cap_reached && 0 <= next.remaining_weight < st.remaining_weight {
            fill(next, allocs)
        } else {
            next
        }
    } else {
        st
    }
}

/// Total weight of the reserves among the first `n` slots that can be given tokens.
pub open spec fn weight_sum(allocs: Seq<VaultAllocation>, n: int) -> int
    decreases n,
{
    if n <= 0 {
        0
    } else {
        weight_sum(allocs, n - 1) + (if allocs[n - 1].is_live() && allocs[n
            - 1].token_allocation_cap > 0 {
            allocs[n - 1].target_allocation_weight as int
        } else {
            0
        })
    }
}

/// The first slot among the first `n` that can be given tokens but whose entry
/// in `invested` is for another reserve.
pub open spec fn first_mismatch(allocs: Seq<VaultAllocation>, invested: Invested, n: int) -> Option<
    int,
>
    decreases n,
{
    if n <= 0 {
        None
    } else {
        match first_mismatch(allocs, invested, n - 1) {
            Some(i) => Some(i),
            None => if allocs[n - 1].is_live() && allocs[n - 1].token_allocation_cap > 0
                && allocs[n - 1].reserve != invested.allocations[n - 1].reserve {
                Some(n - 1)
            } else {
                None
            },
        }
    }
}

/// The targets that the slots are given when the vault holds `invested_total`
/// in reserves, or the reason why none are given. `mismatch` says whether the
/// holdings were found to be those of other reserves.
pub open spec fn refresh_targets_with(vault: VaultState, invested_total: Fraction, mismatch: bool)
    -> Result<Seq<int>, KaminoVaultError> {
    let total_weight = weight_sum(vault.allocations(), 25);
    match vault.compute_aum_spec(invested_total) {
        Err(e) => Err(e),
        Ok(total) => if total_weight > u64::MAX || (vault.unallocated_weight > 0 && total_weight
            + vault.unallocated_weight > u64::MAX) {
            Err(KaminoVaultError::MathOverflow)
        } else {
            let start = FillState {
                targets: Seq::new(25, |i: int| 0int),
                remaining_tokens: total.bits - unallocated_target_spec(
                    vault,
                    total.bits as int,
                    total_weight,
                ),
                remaining_weight: total_weight,
                cap_reached: false,
            };
            if start.remaining_tokens > 0 && total_weight > 0 && mismatch {
                Err(KaminoVaultError::ReserveNotPartOfAllocations)
            } else {
                Ok(fill(start, vault.allocations()).targets)
            }
        },
    }
}

/// The targets that `refresh_target_allocations` gives the slots, or the
/// reason why it refuses.
pub open spec fn refresh_targets_spec(vault: VaultState, invested: Invested) -> Result<
    Seq<int>,
    KaminoVaultError,
> {
    refresh_targets_with(
        vault,
        invested.total,
        first_mismatch(vault.allocations(), invested, 25) is Some,
    )
}

/// Sums over a range can be taken from the front.
proof fn lemma_open_weight_split_first(
    allocs: Seq<VaultAllocation>,
    targets: Seq<int>,
    lo: int,
    hi: int,
)
    requires
        lo < hi,
    ensures
        open_weight(allocs, targets, lo, hi) == (if is_open(allocs[lo], targets[lo]) {
            allocs[lo].target_allocation_weight as int
        } else {
            0
        }) + open_weight(allocs, targets, lo + 1, hi),
    decreases hi - lo,
{
    if lo + 1 < hi {
        lemma_open_weight_split_first(allocs, targets, lo, hi - 1);
    } else {
        assert(open_weight(allocs, targets, lo, hi - 1) == 0);
        assert(open_weight(allocs, targets, lo + 1, hi) == 0);
    }
}

/// The open weight of a range depends on the targets in the range only.
proof fn lemma_open_weight_frame(
    allocs: Seq<VaultAllocation>,
    a: Seq<int>,
    b: Seq<int>,
    lo: int,
    hi: int,
)
    requires
        forall|j: int| lo <= j < hi ==> a[j] == b[j],
    ensures
        open_weight(allocs, a, lo, hi) == open_weight(allocs, b, lo, hi),
    decreases hi - lo,
{
    if lo < hi {
        lemma_open_weight_frame(allocs, a, b, lo, hi - 1);
    }
}

/// The open weight of a range is not negative.
proof fn lemma_open_weight_nonnegative(
    allocs: Seq<VaultAllocation>,
    targets: Seq<int>,
    lo: int,
    hi: int,
)
    ensures
        open_weight(allocs, targets, lo, hi) >= 0,
    decreases hi - lo,
{
    if lo < hi {
        lemma_open_weight_nonnegative(allocs, targets, lo, hi - 1);
    }
}

/// Before anything is given out, the open slots are those that count for the
/// total weight.
proof fn lemma_open_weight_initial(allocs: Seq<VaultAllocation>, targets: Seq<int>, n: int)
    requires
        forall|j: int| 0 <= j < n ==> targets[j] == 0,
    ensures
        open_weight(allocs, targets, 0, n) == weight_sum(allocs, n),
    decreases n,
{
    if n > 0 {
        lemma_open_weight_initial(allocs, targets, n - 1);
        assert(allocs[n - 1].token_allocation_cap > 0 <==> 0 < allocs[n
            - 1].token_allocation_cap * scale());
    }
}

/// The sum of a prefix depends on the targets in the prefix only.
proof fn lemma_sum_targets_frame(a: Seq<int>, b: Seq<int>, n: int)
    requires
        forall|j: int| 0 <= j < n ==> a[j] == b[j],
    ensures
        sum_targets(a, n) == sum_targets(b, n),
    decreases n,
{
    if n > 0 {
        lemma_sum_targets_frame(a, b, n - 1);
    }
}

/// Changing one target changes the sum by as much.
proof fn lemma_sum_targets_update(targets: Seq<int>, i: int, value: int, n: int)
    requires
        0 <= i < n <= targets.len(),
    ensures
        sum_targets(targets.update(i, value), n) == sum_targets(targets, n) - targets[i] + value,
    decreases n,
{
    if i == n - 1 {
        lemma_sum_targets_frame(targets, targets.update(i, value), n - 1);
    } else {
        lemma_sum_targets_update(targets, i, value, n - 1);
    }
}

/// The total weight grows with the number of slots counted.
proof fn lemma_weight_sum_monotone(allocs: Seq<VaultAllocation>, n: int, m: int)
    requires
        0 <= n <= m,
    ensures
        0 <= weight_sum(allocs, n) <= weight_sum(allocs, m),
    decreases m,
{
    if n < m {
        lemma_weight_sum_monotone(allocs, n, m - 1);
    } else if n > 0 {
        lemma_weight_sum_monotone(allocs, n - 1, m - 1);
    }
}

/// The allocation state that the executable variables stand for.
pub open spec fn model_of(targets: Seq<u128>, remaining: u128, weight: u64, cap_reached: bool)
    -> FillState {
    FillState {
        targets: targets.map_values(|t: u128| t as int),
        remaining_tokens: remaining as int,
        remaining_weight: weight as int,
        cap_reached,
    }
}

/// What holds of the allocation state between passes: every target is within
/// its slot's cap, what is given out and what remains add up to `budget`, and
/// the weight that remains is that of the slots still open.
pub open spec fn fill_inv(allocs: Seq<VaultAllocation>, st: FillState, budget: int) -> bool {
    &&& allocs.len() == 25
    &&& st.targets.len() == 25
    &&& forall|j: int|
        0 <= j < 25 ==> 0 <= #[trigger] st.targets[j] && (allocs[j].is_live() ==> st.targets[j]
            <= allocs[j].token_allocation_cap * scale()) && (!allocs[j].is_live()
            ==> st.targets[j] == 0)
    &&& st.remaining_tokens >= 0
    &&& st.remaining_tokens + sum_targets(st.targets, 25) == budget
    &&& st.remaining_weight == open_weight(allocs, st.targets, 0, 25)
}

/// A share by weight is at most the whole, and its multiple by the total
/// weight at most the whole's multiple by the part.
proof fn lemma_share_bounds(total: int, weight: int, total_weight: int)
    requires
        0 <= total,
        0 <= weight <= total_weight,
        0 < total_weight,
    ensures
        0 <= (total * weight) / total_weight <= total,
        ((total * weight) / total_weight) * total_weight <= total * weight,
        weight == 0 ==> (total * weight) / total_weight == 0,
{
    let product = total * weight;
    assert(0 <= product <= total * total_weight) by (nonlinear_arith)
        requires
            0 <= total,
            0 <= weight <= total_weight,
            product == total * weight,
    ;
    lemma_div_is_ordered(product, total * total_weight, total_weight);
    lemma_div_is_ordered(0, product, total_weight);
    assert((total * total_weight) / total_weight == total) by {
        lemma_div_multiples_vanish(total, total_weight);
        assert(total * total_weight == total_weight * total) by (nonlinear_arith);
    }
    lemma_fundamental_div_mod(product, total_weight);
    assert((product / total_weight) * total_weight == total_weight * (product / total_weight))
        by (nonlinear_arith);
    if weight == 0 {
        assert(product == 0) by (nonlinear_arith)
            requires
                weight == 0,
                product == total * weight,
        ;
    }
}

/// What has been spent in a pass stays within the pass's budget when one more
/// slot takes at most its share.
proof fn lemma_spend_within_budget(
    loop_total: int,
    loop_weight: int,
    spent: int,
    visited: int,
    give: int,
    ideal: int,
    weight: int,
)
    requires
        0 < loop_weight,
        0 <= loop_total,
        0 <= spent,
        0 <= give <= ideal,
        0 <= visited,
        0 <= weight,
        visited + weight <= loop_weight,
        spent * loop_weight <= loop_total * visited,
        ideal * loop_weight <= loop_total * weight,
    ensures
        (spent + give) * loop_weight <= loop_total * (visited + weight),
        spent + give <= loop_total,
{
    assert((spent + give) * loop_weight <= loop_total * (visited + weight)) by (nonlinear_arith)
        requires
            0 < loop_weight,
            0 <= give <= ideal,
            spent * loop_weight <= loop_total * visited,
            ideal * loop_weight <= loop_total * weight,
    ;
    assert(spent + give <= loop_total) by (nonlinear_arith)
        requires
            0 < loop_weight,
            0 <= loop_total,
            visited + weight <= loop_weight,
            (spent + give) * loop_weight <= loop_total * (visited + weight),
    ;
}

/// One pass over the table: every open slot takes its share of what remained
/// when the pass began, or what its cap still allows.
fn fill_pass_exec(
    allocs: &[VaultAllocation; 25],
    targets: &mut [u128; 25],
    remaining: &mut u128,
    remaining_weight: &mut u64,
    budget: Ghost<int>,
) -> (cap_reached: bool)
    requires
        fill_inv(allocs@, model_of(old(targets)@, *old(remaining), *old(remaining_weight), false), budget@),
        *old(remaining) > 0,
        *old(remaining_weight) > 0,
    ensures
        model_of(final(targets)@, *final(remaining), *final(remaining_weight), cap_reached)
            == fill_pass(
            model_of(old(targets)@, *old(remaining), *old(remaining_weight), false),
            allocs@,
            *old(remaining) as int,
            *old(remaining_weight) as int,
            25,
        ),
        fill_inv(
            allocs@,
            model_of(final(targets)@, *final(remaining), *final(remaining_weight), cap_reached),
            budget@,
        ),
        cap_reached ==> *final(remaining_weight) < *old(remaining_weight),
{
    let loop_total: u128 = *remaining;
    let loop_weight: u64 = *remaining_weight;
    let mut cap_reached: bool = false;
    let ghost start = model_of(targets@, *remaining, *remaining_weight, false);
    let ghost mut m = start;
    let ghost mut visited: int = 0;
    let mut i: usize = 0;
    proof {
        assert(m.targets =~= targets@.map_values(|t: u128| t as int));
        lemma_open_weight_nonnegative(allocs@, m.targets, 0, 0);
    }
    while i < 25
        invariant
            i <= 25,
            allocs@.len() == 25,
            loop_weight > 0,
            start.targets.len() == 25,
            start.remaining_tokens == loop_total,
            start.remaining_weight == loop_weight,
            m == fill_pass(start, allocs@, loop_total as int, loop_weight as int, i as int),
            m.targets.len() == 25,
            forall|j: int| 0 <= j < 25 ==> m.targets[j] == #[trigger] targets[j],
            m.remaining_tokens == *remaining,
            m.remaining_weight == *remaining_weight,
            m.cap_reached == cap_reached,
            forall|j: int|
                0 <= j < 25 ==> 0 <= #[trigger] m.targets[j] && (allocs@[j].is_live()
                    ==> m.targets[j] <= allocs@[j].token_allocation_cap * scale())
                    && (!allocs@[j].is_live() ==> m.targets[j] == 0),
            m.remaining_tokens + sum_targets(m.targets, 25) == budget@,
            forall|j: int| i <= j < 25 ==> m.targets[j] == start.targets[j],
            0 <= visited,
            visited + open_weight(allocs@, start.targets, i as int, 25) == loop_weight,
            open_weight(allocs@, m.targets, 0, i as int) + (loop_weight - *remaining_weight)
                == visited,
            *remaining <= loop_total,
            *remaining_weight <= loop_weight,
            (loop_total - *remaining) * loop_weight <= loop_total * visited,
            cap_reached ==> *remaining_weight < loop_weight,
        decreases 25 - i,
    {
        let slot = &allocs[i];
        let target: u128 = targets[i];
        let cap: u128 = (slot.token_allocation_cap as u128) * crate::fraction::FRACTION_ONE_BITS;
        proof {
            lemma_open_weight_split_first(allocs@, start.targets, i as int, 25);
            lemma_open_weight_nonnegative(allocs@, start.targets, i as int + 1, 25);
            lemma_open_weight_nonnegative(allocs@, m.targets, 0, i as int);
        }
        if !slot.reserve.is_default() && target < cap {
            let weight: u64 = slot.target_allocation_weight;
            proof {
                lemma_share_bounds(loop_total as int, weight as int, loop_weight as int);
            }
            let ideal: u128 = match Fraction::from_bits(loop_total).mul_int_ratio(
                weight,
                loop_weight,
            ) {
                Some(ideal) => ideal.to_bits(),
                None => {
                    assert(false);
                    0
                },
            };
            let reaches_cap: bool = match ideal.checked_add(target) {
                Some(sum) => sum >= cap,
                None => true,
            };
            let give: u128 = if reaches_cap {
                cap - target
            } else {
                ideal
            };
            proof {
                lemma_spend_within_budget(
                    loop_total as int,
                    loop_weight as int,
                    loop_total - *remaining,
                    visited,
                    give as int,
                    ideal as int,
                    weight as int,
                );
                lemma_sum_targets_update(m.targets, i as int, target + give, 25);
                lemma_open_weight_frame(
                    allocs@,
                    m.targets,
                    m.targets.update(i as int, target + give),
                    0,
                    i as int,
                );
            }
            if reaches_cap {
                cap_reached = true;
                *remaining_weight = *remaining_weight - weight;
            }
            *remaining = *remaining - give;
            targets[i] = target + give;
            proof {
                m = fill_slot(m, allocs@[i as int], i as int, loop_total as int, loop_weight as int);
                visited = visited + weight;
            }
        }
        i = i + 1;
    }
    proof {
        assert(m.targets =~= targets@.map_values(|t: u128| t as int));
    }
    cap_reached
}

/// Total weight of the reserves that can be given tokens, or `None` when it
/// is not a 64-bit amount.
fn total_allocation_weight(allocs: &[VaultAllocation; 25]) -> (r: Option<u64>)
    ensures
        match r {
            Some(total) => total == weight_sum(allocs@, 25),
            None => weight_sum(allocs@, 25) > u64::MAX,
        },
{
    let mut total: u64 = 0;
    let mut i: usize = 0;
    while i < 25
        invariant
            i <= 25,
            total == weight_sum(allocs@, i as int),
        decreases 25 - i,
    {
        let slot = &allocs[i];
        if !slot.reserve.is_default() && slot.token_allocation_cap > 0 {
            total = match total.checked_add(slot.target_allocation_weight) {
                Some(total) => total,
                None => {
                    proof {
                        lemma_weight_sum_monotone(allocs@, i as int + 1, 25);
                    }
                    return None;
                },
            };
        }
        i = i + 1;
    }
    Some(total)
}

/// Whether the entries of `invested` are for the reserves of the slots that
/// can be given tokens.
fn invested_matches(allocs: &[VaultAllocation; 25], invested: &Invested) -> (r: bool)
    ensures
        r == first_mismatch(allocs@, *invested, 25).is_none(),
{
    let mut i: usize = 0;
    while i < 25
        invariant
            i <= 25,
            first_mismatch(allocs@, *invested, i as int) is None,
        decreases 25 - i,
    {
        let slot = &allocs[i];
        if !slot.reserve.is_default() && slot.token_allocation_cap > 0 && slot.reserve
            != invested.allocations[i].reserve {
            proof {
                lemma_first_mismatch_persists(allocs@, *invested, i as int + 1, 25);
            }
            return false;
        }
        i = i + 1;
    }
    true
}

/// A mismatch among the first slots is one among more of them.
proof fn lemma_first_mismatch_persists(
    allocs: Seq<VaultAllocation>,
    invested: Invested,
    n: int,
    m: int,
)
    requires
        0 <= n <= m,
        first_mismatch(allocs, invested, n) is Some,
    ensures
        first_mismatch(allocs, invested, m) == first_mismatch(allocs, invested, n),
    decreases m,
{
    if n < m {
        lemma_first_mismatch_persists(allocs, invested, n, m - 1);
    }
}

/// The table after the first `n` slots' targets are set to those in
/// `targets`. Vacant slots are left as they are.
pub open spec fn install_upto(table: [VaultAllocation; 25], targets: Seq<int>, n: int) -> [VaultAllocation; 25]
    decreases n,
{
    if n <= 0 {
        table
    } else {
        let prev = install_upto(table, targets, n - 1);
        if prev[n - 1].is_live() {
            vstd::array::spec_array_update(
                prev,
                n - 1,
                VaultAllocation { token_target_allocation_sf: targets[n - 1] as u128, ..prev[n - 1] },
            )
        } else {
            prev
        }
    }
}

/// The ledger with the targets of its occupied slots set to those in `targets`.
pub open spec fn with_targets(vault: VaultState, targets: Seq<int>) -> VaultState {
    VaultState {
        vault_allocation_strategy: install_upto(vault.vault_allocation_strategy, targets, 25),
        ..vault
    }
}

/// Outcome of `refresh_target_allocations`.
pub open spec fn refresh_target_allocations_spec(vault: VaultState, invested: Invested) -> Result<
    VaultState,
    KaminoVaultError,
> {
    match refresh_targets_spec(vault, invested) {
        Ok(targets) => Ok(with_targets(vault, targets)),
        Err(e) => Err(e),
    }
}

/// Installing targets changes the targets of occupied slots among the first
/// `n`, and nothing else.
pub proof fn lemma_install_upto(table: [VaultAllocation; 25], targets: Seq<int>, n: int)
    requires
        0 <= n <= 25,
    ensures
        forall|j: int|
            0 <= j < 25 ==> #[trigger] install_upto(table, targets, n)[j] == (if j < n
                && table[j].is_live() {
                VaultAllocation { token_target_allocation_sf: targets[j] as u128, ..table[j] }
            } else {
                table[j]
            }),
    decreases n,
{
    broadcast use vstd::array::axiom_spec_array_update;

    if n > 0 {
        lemma_install_upto(table, targets, n - 1);
        let prev = install_upto(table, targets, n - 1);
        assert(prev[n - 1] == table[n - 1]);
        assert forall|j: int| 0 <= j < 25 implies #[trigger] install_upto(table, targets, n)[j]
            == (if j < n && table[j].is_live() {
            VaultAllocation { token_target_allocation_sf: targets[j] as u128, ..table[j] }
        } else {
            table[j]
        }) by {
            assert(prev[j] == (if j < n - 1 && table[j].is_live() {
                VaultAllocation { token_target_allocation_sf: targets[j] as u128, ..table[j] }
            } else {
                table[j]
            }));
        }
    }
}

impl VaultState {
    /// Recomputes every reserve's target from the vault's value.
    ///
    /// The part of the value that is to stay uninvested is set aside first:
    /// its share by `unallocated_weight`, at most `unallocated_tokens_cap`.
    /// The rest is shared out among the reserves by weight, pass after pass,
    /// no reserve taking more than its cap; see `fill`.
    ///
    /// No target exceeds its reserve's cap, and the targets and what is set
    /// aside together do not exceed the vault's value.
    ///
    /// Fails, changing nothing, as `compute_aum` fails, with `MathOverflow`
    /// when the weights do not add up to a 64-bit amount, and with
    /// `ReserveNotPartOfAllocations` when there is something to share out and
    /// `invested` is not for this vault's reserves.
    pub fn refresh_target_allocations(&mut self, invested: &Invested) -> (r: Result<
        (),
        KaminoVaultError,
    >)
        ensures
            match r {
                Ok(()) => refresh_target_allocations_spec(*old(self), *invested) == Ok::<
                    VaultState,
                    KaminoVaultError,
                >(*final(self)),
                Err(e) => refresh_target_allocations_spec(*old(self), *invested) == Err::<
                    VaultState,
                    KaminoVaultError,
                >(e) && *final(self) == *old(self),
            },
            r is Ok ==> forall|i: int|
                0 <= i < 25 && final(self).allocations()[i].is_live() ==> #[trigger] final(self).allocations()[i].token_target_allocation_sf <= final(self).allocations()[i].token_allocation_cap * scale(),
            r is Ok ==> sum_live_targets(final(self).allocations(), 25)
                + unallocated_target_spec(
                *old(self),
                old(self).compute_aum_spec(invested.total)->Ok_0.bits as int,
                weight_sum(old(self).allocations(), 25),
            ) <= old(self).compute_aum_spec(invested.total)->Ok_0.bits,
            old(self).wf() ==> final(self).wf(),
    {
        let total_tokens = match self.compute_aum(&invested.total) {
            Ok(total_tokens) => total_tokens,
            Err(e) => {
                return Err(e);
            },
        };
        // The unallocated weight is not part of this total: what stays
        // unallocated is set aside before the reserves are given anything.
        let total_weight: u64 = match total_allocation_weight(&self.vault_allocation_strategy) {
            Some(total_weight) => total_weight,
            None => {
                return Err(KaminoVaultError::MathOverflow);
            },
        };
        proof {
            lemma_weight_sum_monotone(self.allocations(), 0, 25);
        }
        let mut remaining: u128 = total_tokens.to_bits();
        if self.unallocated_weight > 0 {
            let unallocated_cap: u64 = if self.unallocated_tokens_cap == 0 {
                u64::MAX
            } else {
                self.unallocated_tokens_cap
            };
            let all_weight: u64 = match total_weight.checked_add(self.unallocated_weight) {
                Some(all_weight) => all_weight,
                None => {
                    return Err(KaminoVaultError::MathOverflow);
                },
            };
            proof {
                lemma_share_bounds(
                    total_tokens.bits as int,
                    self.unallocated_weight as int,
                    all_weight as int,
                );
            }
            let unallocated_target = match total_tokens.mul_int_ratio(
                self.unallocated_weight,
                all_weight,
            ) {
                Some(unallocated_target) => unallocated_target,
                None => {
                    assert(false);
                    Fraction::zero()
                },
            };
            let unallocated_tokens_target = unallocated_target.min(
                Fraction::from_u64(unallocated_cap),
            );
            remaining = remaining - unallocated_tokens_target.to_bits();
        }
        if remaining > 0 && total_weight > 0 && !invested_matches(
            &self.vault_allocation_strategy,
            invested,
        ) {
            return Err(KaminoVaultError::ReserveNotPartOfAllocations);
        }
        let ghost budget: int = remaining as int;
        let mut targets: [u128; 25] = [0u128;25];
        let mut remaining_weight: u64 = total_weight;
        let ghost start = model_of(targets@, remaining, remaining_weight, false);
        proof {
            assert(start.targets =~= Seq::new(25, |i: int| 0int));
            lemma_open_weight_initial(self.allocations(), start.targets, 25);
            lemma_sum_targets_zero(start.targets, 25);
        }
        // Pass over the table until all tokens are given out, no weight is
        // left to give them by, or a pass meets no cap.
        let mut go: bool = remaining > 0 && remaining_weight > 0;
        while go
            invariant
                fill_inv(
                    self.allocations(),
                    model_of(targets@, remaining, remaining_weight, false),
                    budget,
                ),
                go ==> remaining > 0 && remaining_weight > 0,
                go ==> fill(
                    model_of(targets@, remaining, remaining_weight, false),
                    self.allocations(),
                ) == fill(start, self.allocations()),
                !go ==> model_of(targets@, remaining, remaining_weight, false).targets == fill(
                    start,
                    self.allocations(),
                ).targets,
            decreases
                    (if go {
                        remaining_weight + 1
                    } else {
                        0
                    }),
        {
            let ghost before = model_of(targets@, remaining, remaining_weight, false);
            let cap_reached = fill_pass_exec(
                &self.vault_allocation_strategy,
                &mut targets,
                &mut remaining,
                &mut remaining_weight,
                Ghost(budget),
            );
            proof {
                let after = model_of(targets@, remaining, remaining_weight, cap_reached);
                let plain = model_of(targets@, remaining, remaining_weight, false);
                assert(before == FillState { cap_reached: false, ..before });
                assert(fill_inv(self.allocations(), plain, budget));
                if cap_reached {
                    assert(fill(before, self.allocations()) == fill(after, self.allocations()));
                    assert(FillState { cap_reached: false, ..after } == plain);
                    assert(fill(after, self.allocations()) == fill(plain, self.allocations())
                        || !(after.remaining_tokens > 0 && after.remaining_weight > 0));
                }
            }
            go = cap_reached && remaining > 0 && remaining_weight > 0;
        }
        let ghost model = model_of(targets@, remaining, remaining_weight, false);
        // Install the targets.
        let mut i: usize = 0;
        while i < 25
            invariant
                i <= 25,
                self.same_but_allocations(*old(self)),
                model == model_of(targets@, remaining, remaining_weight, false),
                self.vault_allocation_strategy == install_upto(
                    old(self).vault_allocation_strategy,
                    model.targets,
                    i as int,
                ),
            decreases 25 - i,
        {
            broadcast use vstd::array::axiom_spec_array_update;

            let ghost prev = self.vault_allocation_strategy;
            if !self.vault_allocation_strategy[i].reserve.is_default() {
                self.vault_allocation_strategy[i].token_target_allocation_sf = targets[i];
                assert(model.targets[i as int] == targets[i as int]);
                assert(self.vault_allocation_strategy@ =~= vstd::array::spec_array_update(
                    prev,
                    i as int,
                    VaultAllocation {
                        token_target_allocation_sf: targets[i as int],
                        ..prev[i as int]
                    },
                )@);
            }
            i = i + 1;
        }
        proof {
            lemma_install_upto(old(self).vault_allocation_strategy, model.targets, 25);
            assert forall|j: int| 0 <= j < 25 && self.allocations()[j].is_live() implies (
            #[trigger] self.allocations()[j]).token_target_allocation_sf
                <= self.allocations()[j].token_allocation_cap * scale() by {
                assert(model.targets[j] == targets[j]);
                assert(self.allocations()[j] == install_upto(
                    old(self).vault_allocation_strategy,
                    model.targets,
                    25,
                )[j]);
            }
            assert forall|j: int| 0 <= j < 25 implies (if (#[trigger] self.allocations()[j]).is_live() {
                self.allocations()[j].token_target_allocation_sf == model.targets[j]
            } else {
                model.targets[j] == 0
            }) by {
                assert(model.targets[j] == targets[j]);
                assert(self.allocations()[j] == install_upto(
                    old(self).vault_allocation_strategy,
                    model.targets,
                    25,
                )[j]);
            }
            lemma_sum_live_targets(self.allocations(), model.targets, 25);
        }
        Ok(())
    }
}

/// The targets installed in occupied slots sum to what was given out, when
/// vacant slots were given nothing.
proof fn lemma_sum_live_targets(allocs: Seq<VaultAllocation>, targets: Seq<int>, n: int)
    requires
        0 <= n,
        forall|j: int|
            0 <= j < n ==> (if (#[trigger] allocs[j]).is_live() {
                allocs[j].token_target_allocation_sf == targets[j]
            } else {
                targets[j] == 0
            }),
    ensures
        sum_live_targets(allocs, n) == sum_targets(targets, n),
    decreases n,
{
    if n > 0 {
        lemma_sum_live_targets(allocs, targets, n - 1);
    }
}

/// Nothing given out sums to nothing.
proof fn lemma_sum_targets_zero(targets: Seq<int>, n: int)
    requires
        forall|j: int| 0 <= j < n ==> targets[j] == 0,
    ensures
        sum_targets(targets, n) == 0,
    decreases n,
{
    if n > 0 {
        lemma_sum_targets_zero(targets, n - 1);
    }
}

} // verus!

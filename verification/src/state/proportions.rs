//! Targets are proportional to weights.
//!
//! A reserve that ends below its cap was given its share by weight in every
//! pass. Each share is rounded down, so the targets of two such reserves are
//! in the ratio of their weights up to one unit of rounding per pass; and
//! there are at most twenty-six passes, since each pass but the last caps a
//! reserve for good.
use crate::fraction::{scale, Fraction};
use crate::state::target_allocations::{
    fill, fill_pass, fill_slot, is_open, refresh_targets_with, FillState,
};
use crate::state::{VaultAllocation, VaultState};
use vstd::arithmetic::div_mod::{lemma_fundamental_div_mod, lemma_mod_pos_bound};
use vstd::prelude::*;

verus! {

/// What an open slot is offered in a pass: its share by weight, rounded down.
pub open spec fn share(loop_total: int, weight: int, loop_weight: int) -> int {
    (loop_total * weight) / loop_weight
}

/// A slot's target after its turn in a pass.
pub open spec fn target_after_turn(
    slot: VaultAllocation,
    target: int,
    loop_total: int,
    loop_weight: int,
) -> int {
    if is_open(slot, target) {
        let ideal = share(loop_total, slot.target_allocation_weight as int, loop_weight);
        if ideal + target >= slot.token_allocation_cap * scale() {
            slot.token_allocation_cap * scale()
        } else {
            target + ideal
        }
    } else {
        target
    }
}

/// Number of open slots among the first `n`.
pub open spec fn open_count(allocs: Seq<VaultAllocation>, targets: Seq<int>, n: int) -> int
    decreases n,
{
    if n <= 0 {
        0
    } else {
        open_count(allocs, targets, n - 1) + (if is_open(allocs[n - 1], targets[n - 1]) {
            1int
        } else {
            0int
        })
    }
}

/// Number of passes that `fill` makes from `st`.
pub open spec fn fill_passes(st: FillState, allocs: Seq<VaultAllocation>) -> int
    decreases st.remaining_weight,
{
    if st.remaining_tokens > 0 && st.remaining_weight > 0 {
        let next = fill_pass(
            FillState { cap_reached: false, ..st },
            allocs,
            st.remaining_tokens,
            st.remaining_weight,
            25,
        );
        if next.cap_reached && 0 <= next.remaining_weight < st.remaining_weight {
            1 + fill_passes(next, allocs)
        } else {
            1
        }
    } else {
        0
    }
}

/// How far the targets of slots `i` and `j` are from the ratio of their weights.
pub open spec fn skew(allocs: Seq<VaultAllocation>, targets: Seq<int>, i: int, j: int) -> int {
    targets[i] * allocs[j].target_allocation_weight - targets[j]
        * allocs[i].target_allocation_weight
}

/// After the first `n` turns of a pass, each of those slots has had its turn
/// and the others are as they were. If the pass met a cap, a slot that was
/// open no longer is.
pub proof fn lemma_fill_pass_turns(
    st: FillState,
    allocs: Seq<VaultAllocation>,
    loop_total: int,
    loop_weight: int,
    n: int,
)
    requires
        0 <= n <= 25,
        st.targets.len() == 25,
    ensures
        ({
            let after = fill_pass(st, allocs, loop_total, loop_weight, n);
            &&& after.targets.len() == 25
            &&& forall|k: int|
                0 <= k < 25 ==> #[trigger] after.targets[k] == (if k < n {
                    target_after_turn(allocs[k], st.targets[k], loop_total, loop_weight)
                } else {
                    st.targets[k]
                })
            &&& after.cap_reached && !st.cap_reached ==> exists|k: int|
                0 <= k < n && is_open(allocs[k], st.targets[k]) && !is_open(
                    allocs[k],
                    #[trigger] after.targets[k],
                )
        }),
    decreases n,
{
    if n > 0 {
        lemma_fill_pass_turns(st, allocs, loop_total, loop_weight, n - 1);
        let before = fill_pass(st, allocs, loop_total, loop_weight, n - 1);
        let after = fill_pass(st, allocs, loop_total, loop_weight, n);
        assert(after == fill_slot(before, allocs[n - 1], n - 1, loop_total, loop_weight));
        assert(before.targets[n - 1] == st.targets[n - 1]);
        assert forall|k: int| 0 <= k < 25 implies #[trigger] after.targets[k] == (if k < n {
            target_after_turn(allocs[k], st.targets[k], loop_total, loop_weight)
        } else {
            st.targets[k]
        }) by {
            if k != n - 1 {
                assert(after.targets[k] == before.targets[k]);
            }
        }
        if after.cap_reached && !st.cap_reached {
            if before.cap_reached {
                let k = choose|k: int|
                    0 <= k < n - 1 && is_open(allocs[k], st.targets[k]) && !is_open(
                        allocs[k],
                        #[trigger] before.targets[k],
                    );
                assert(after.targets[k] == before.targets[k]);
                assert(0 <= k < n && is_open(allocs[k], st.targets[k]) && !is_open(
                    allocs[k],
                    after.targets[k],
                ));
            } else {
                assert(is_open(allocs[n - 1], st.targets[n - 1]) && !is_open(
                    allocs[n - 1],
                    after.targets[n - 1],
                ));
            }
        }
    }
}

/// A share by weight, rounded down, is within one weight of the exact share.
pub proof fn lemma_share_is_near_exact(loop_total: int, weight: int, loop_weight: int)
    requires
        0 <= loop_total,
        0 <= weight,
        0 < loop_weight,
    ensures
        0 <= share(loop_total, weight, loop_weight),
        share(loop_total, weight, loop_weight) * loop_weight <= loop_total * weight,
        loop_total * weight < share(loop_total, weight, loop_weight) * loop_weight + loop_weight,
{
    let product = loop_total * weight;
    assert(0 <= product) by (nonlinear_arith)
        requires
            0 <= loop_total,
            0 <= weight,
            product == loop_total * weight,
    ;
    lemma_fundamental_div_mod(product, loop_weight);
    lemma_mod_pos_bound(product, loop_weight);
    vstd::arithmetic::div_mod::lemma_div_pos_is_pos(product, loop_weight);
    assert((product / loop_weight) * loop_weight == loop_weight * (product / loop_weight))
        by (nonlinear_arith);
}

/// The shares that two slots are offered in one pass are in the ratio of the
/// slots' weights, up to one weight.
pub proof fn lemma_shares_are_proportional(loop_total: int, loop_weight: int, wi: int, wj: int)
    requires
        0 <= loop_total,
        0 < loop_weight,
        0 <= wi,
        0 <= wj,
    ensures
        -wj <= share(loop_total, wi, loop_weight) * wj - share(loop_total, wj, loop_weight) * wi
            <= wi,
{
    lemma_share_is_near_exact(loop_total, wi, loop_weight);
    lemma_share_is_near_exact(loop_total, wj, loop_weight);
    let si = share(loop_total, wi, loop_weight);
    let sj = share(loop_total, wj, loop_weight);
    assert((si * wj - sj * wi) * loop_weight <= wi * loop_weight) by (nonlinear_arith)
        requires
            0 <= wi,
            0 <= wj,
            si * loop_weight <= loop_total * wi,
            loop_total * wj < sj * loop_weight + loop_weight,
    ;
    assert((si * wj - sj * wi) * loop_weight >= -wj * loop_weight) by (nonlinear_arith)
        requires
            0 <= wi,
            0 <= wj,
            sj * loop_weight <= loop_total * wj,
            loop_total * wi < si * loop_weight + loop_weight,
    ;
    assert(si * wj - sj * wi <= wi) by (nonlinear_arith)
        requires
            0 < loop_weight,
            (si * wj - sj * wi) * loop_weight <= wi * loop_weight,
    ;
    assert(si * wj - sj * wi >= -wj) by (nonlinear_arith)
        requires
            0 < loop_weight,
            (si * wj - sj * wi) * loop_weight >= -wj * loop_weight,
    ;
}

/// A slot that is open after its turn was open before it, and was given
/// exactly its share.
pub proof fn lemma_open_after_turn(
    slot: VaultAllocation,
    target: int,
    loop_total: int,
    loop_weight: int,
)
    requires
        0 <= loop_total,
        0 < loop_weight,
        is_open(slot, target_after_turn(slot, target, loop_total, loop_weight)),
    ensures
        is_open(slot, target),
        target_after_turn(slot, target, loop_total, loop_weight) == target + share(
            loop_total,
            slot.target_allocation_weight as int,
            loop_weight,
        ),
{
}

/// One pass moves the targets of two slots that stay open away from the ratio
/// of their weights by at most one weight.
pub proof fn lemma_pass_keeps_proportion(
    st: FillState,
    allocs: Seq<VaultAllocation>,
    i: int,
    j: int,
)
    requires
        st.targets.len() == 25,
        0 <= i < 25,
        0 <= j < 25,
        st.remaining_tokens > 0,
        st.remaining_weight > 0,
        ({
            let next = fill_pass(
                FillState { cap_reached: false, ..st },
                allocs,
                st.remaining_tokens,
                st.remaining_weight,
                25,
            );
            is_open(allocs[i], next.targets[i]) && is_open(allocs[j], next.targets[j])
        }),
    ensures
        ({
            let next = fill_pass(
                FillState { cap_reached: false, ..st },
                allocs,
                st.remaining_tokens,
                st.remaining_weight,
                25,
            );
            &&& is_open(allocs[i], st.targets[i])
            &&& is_open(allocs[j], st.targets[j])
            &&& -allocs[j].target_allocation_weight <= skew(allocs, next.targets, i, j) - skew(
                allocs,
                st.targets,
                i,
                j,
            ) <= allocs[i].target_allocation_weight
        }),
{
    let start = FillState { cap_reached: false, ..st };
    let total = st.remaining_tokens;
    let weight = st.remaining_weight;
    let next = fill_pass(start, allocs, total, weight, 25);
    lemma_fill_pass_turns(start, allocs, total, weight, 25);
    assert(next.targets[i] == target_after_turn(allocs[i], st.targets[i], total, weight));
    assert(next.targets[j] == target_after_turn(allocs[j], st.targets[j], total, weight));
    lemma_open_after_turn(allocs[i], st.targets[i], total, weight);
    lemma_open_after_turn(allocs[j], st.targets[j], total, weight);
    let wi = allocs[i].target_allocation_weight as int;
    let wj = allocs[j].target_allocation_weight as int;
    lemma_shares_are_proportional(total, weight, wi, wj);
    let si = share(total, wi, weight);
    let sj = share(total, wj, weight);
    assert((st.targets[i] + si) * wj - (st.targets[j] + sj) * wi == (st.targets[i] * wj
        - st.targets[j] * wi) + (si * wj - sj * wi)) by (nonlinear_arith);
}

/// The targets of two slots that are open when the allocation ends are as
/// far from the ratio of their weights as when it began, up to one weight per
/// pass; and the slots were open all along.
pub proof fn lemma_fill_keeps_proportion(
    st: FillState,
    allocs: Seq<VaultAllocation>,
    i: int,
    j: int,
)
    requires
        st.targets.len() == 25,
        allocs.len() == 25,
        0 <= i < 25,
        0 <= j < 25,
        is_open(allocs[i], fill(st, allocs).targets[i]),
        is_open(allocs[j], fill(st, allocs).targets[j]),
    ensures
        fill(st, allocs).targets.len() == 25,
        is_open(allocs[i], st.targets[i]),
        is_open(allocs[j], st.targets[j]),
        0 <= fill_passes(st, allocs),
        skew(allocs, st.targets, i, j) - fill_passes(st, allocs)
            * allocs[j].target_allocation_weight <= skew(allocs, fill(st, allocs).targets, i, j)
            <= skew(allocs, st.targets, i, j) + fill_passes(st, allocs)
            * allocs[i].target_allocation_weight,
    decreases st.remaining_weight,
{
    let wi = allocs[i].target_allocation_weight as int;
    let wj = allocs[j].target_allocation_weight as int;
    let passes = fill_passes(st, allocs);
    if st.remaining_tokens > 0 && st.remaining_weight > 0 {
        let start = FillState { cap_reached: false, ..st };
        let next = fill_pass(start, allocs, st.remaining_tokens, st.remaining_weight, 25);
        lemma_fill_pass_turns(start, allocs, st.remaining_tokens, st.remaining_weight, 25);
        if next.cap_reached && 0 <= next.remaining_weight < st.remaining_weight {
            lemma_fill_keeps_proportion(next, allocs, i, j);
            lemma_pass_keeps_proportion(st, allocs, i, j);
            let rest = fill_passes(next, allocs);
            assert(passes * wi == wi + rest * wi && passes * wj == wj + rest * wj)
                by (nonlinear_arith)
                requires
                    passes == 1 + rest,
            ;
        } else {
            lemma_pass_keeps_proportion(st, allocs, i, j);
            assert(passes * wi == wi && passes * wj == wj) by (nonlinear_arith)
                requires
                    passes == 1,
            ;
        }
    } else {
        assert(passes * wi == 0 && passes * wj == 0) by (nonlinear_arith)
            requires
                passes == 0,
        ;
    }
}

/// A table in which every slot that is open in `after` is open in `before`,
/// and one that is open in `before` is not in `after`, has fewer open slots
/// in `after`.
proof fn lemma_fewer_open(
    allocs: Seq<VaultAllocation>,
    before: Seq<int>,
    after: Seq<int>,
    n: int,
    k: int,
)
    requires
        0 <= n,
        forall|m: int| 0 <= m < n && is_open(allocs[m], #[trigger] after[m]) ==> is_open(
            allocs[m],
            before[m],
        ),
    ensures
        open_count(allocs, after, n) <= open_count(allocs, before, n),
        0 <= open_count(allocs, after, n) <= n,
        0 <= k < n && is_open(allocs[k], before[k]) && !is_open(allocs[k], after[k])
            ==> open_count(allocs, after, n) < open_count(allocs, before, n),
    decreases n,
{
    if n > 0 {
        lemma_fewer_open(allocs, before, after, n - 1, k);
        assert(is_open(allocs[n - 1], after[n - 1]) ==> is_open(allocs[n - 1], before[n - 1]));
    }
}

/// The allocation takes at most one pass more than there are open slots:
/// every pass but the last closes one for good.
pub proof fn lemma_fill_passes_bound(st: FillState, allocs: Seq<VaultAllocation>)
    requires
        st.targets.len() == 25,
        allocs.len() == 25,
    ensures
        0 <= fill_passes(st, allocs) <= open_count(allocs, st.targets, 25) + 1 <= 26,
    decreases st.remaining_weight,
{
    lemma_fewer_open(allocs, st.targets, st.targets, 25, 0);
    if st.remaining_tokens > 0 && st.remaining_weight > 0 {
        let start = FillState { cap_reached: false, ..st };
        let next = fill_pass(start, allocs, st.remaining_tokens, st.remaining_weight, 25);
        lemma_fill_pass_turns(start, allocs, st.remaining_tokens, st.remaining_weight, 25);
        if next.cap_reached && 0 <= next.remaining_weight < st.remaining_weight {
            lemma_fill_passes_bound(next, allocs);
            let k = choose|k: int|
                0 <= k < 25 && is_open(allocs[k], st.targets[k]) && !is_open(
                    allocs[k],
                    #[trigger] next.targets[k],
                );
            assert forall|m: int|
                0 <= m < 25 && is_open(allocs[m], #[trigger] next.targets[m]) implies is_open(
                allocs[m],
                st.targets[m],
            ) by {
                assert(next.targets[m] == target_after_turn(
                    allocs[m],
                    st.targets[m],
                    st.remaining_tokens,
                    st.remaining_weight,
                ));
            }
            lemma_fewer_open(allocs, st.targets, next.targets, 25, k);
        }
    }
}

/// Distribution among uncapped reserves is proportional to weight.
///
/// Of the targets that a refresh gives, any two that are for occupied slots
/// and below their caps are in the ratio of the slots' weights, up to
/// twenty-six weights: one unit of rounding for each pass that the
/// allocation can take.
pub proof fn lemma_targets_are_proportional(
    vault: VaultState,
    invested_total: Fraction,
    i: int,
    j: int,
)
    requires
        0 <= i < 25,
        0 <= j < 25,
        refresh_targets_with(vault, invested_total, false) is Ok,
        is_open(
            vault.allocations()[i],
            refresh_targets_with(vault, invested_total, false)->Ok_0[i],
        ),
        is_open(
            vault.allocations()[j],
            refresh_targets_with(vault, invested_total, false)->Ok_0[j],
        ),
    ensures
        ({
            let targets = refresh_targets_with(vault, invested_total, false)->Ok_0;
            let wi = vault.allocations()[i].target_allocation_weight;
            let wj = vault.allocations()[j].target_allocation_weight;
            -26 * wj <= targets[i] * wj - targets[j] * wi <= 26 * wi
        }),
{
    let allocs = vault.allocations();
    let total = vault.compute_aum_spec(invested_total)->Ok_0;
    let total_weight = crate::state::target_allocations::weight_sum(allocs, 25);
    let start = FillState {
        targets: Seq::new(25, |k: int| 0int),
        remaining_tokens: total.bits - crate::state::target_allocations::unallocated_target_spec(
            vault,
            total.bits as int,
            total_weight,
        ),
        remaining_weight: total_weight,
        cap_reached: false,
    };
    lemma_fill_keeps_proportion(start, allocs, i, j);
    lemma_fill_passes_bound(start, allocs);
    let passes = fill_passes(start, allocs);
    let wi = allocs[i].target_allocation_weight as int;
    let wj = allocs[j].target_allocation_weight as int;
    assert(skew(allocs, start.targets, i, j) == 0) by (nonlinear_arith)
        requires
            start.targets[i] == 0,
            start.targets[j] == 0,
            skew(allocs, start.targets, i, j) == start.targets[i] * wj - start.targets[j] * wi,
    ;
    assert(passes * wi <= 26 * wi && passes * wj <= 26 * wj) by (nonlinear_arith)
        requires
            0 <= passes <= 26,
            0 <= wi,
            0 <= wj,
    ;
}

} // verus!

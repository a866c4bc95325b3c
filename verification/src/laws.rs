//! The laws of the subscription state machine, stated over the
//! mathematical transitions and proved once and for all:
//! accrual monotonicity over arbitrary payment sequences, preservation
//! of well-formedness (and with it the proportional withdrawal cap) over
//! every reachable record, rejection of non-owners, and the aggregate
//! bound that co-owners can never collectively withdraw more than was
//! ever paid in.

use vstd::prelude::*;

use crate::processor::pay_subscription::pay_transition;
use crate::processor::withdraw_funds::withdraw_transition;
use crate::processor::{
    entitlement, is_owner, lemma_entitlements_grow, lemma_owner_index, owner_index, OwnerView,
    RecordView,
};

verus! {

/// The record after a sequence of successful payments, made at the given
/// times in order; `None` when any of them would overflow.
pub open spec fn apply_payments(r: RecordView, times: Seq<i64>) -> Option<RecordView>
    decreases times.len(),
{
    if times.len() == 0 {
        Some(r)
    } else {
        match pay_transition(r, times[0]) {
            Some(next) => apply_payments(next, times.drop_first()),
            None => None,
        }
    }
}

/// Accrual monotonicity: over any sequence of successful payments, the
/// cumulative-paid counter ends at its start plus the price times the
/// number of payments, and the paid-through timestamp never decreases.
pub proof fn lemma_accrual_monotonicity(r: RecordView, times: Seq<i64>)
    requires
        apply_payments(r, times) is Some,
    ensures
        ({
            let end = apply_payments(r, times).unwrap();
            &&& end.total_paid == r.total_paid + times.len() * r.price
            &&& end.paid_until >= r.paid_until
            &&& end.price == r.price
        }),
    decreases times.len(),
{
    if times.len() == 0 {
        assert(times.len() * r.price == 0);
    } else {
        let next = pay_transition(r, times[0]).unwrap();
        lemma_accrual_monotonicity(next, times.drop_first());
        assert((times.len() - 1) * r.price + r.price == times.len() * r.price)
            by (nonlinear_arith);
    }
}

/// One payment preserves well-formedness: accrual only raises every
/// owner's entitlement.
pub proof fn lemma_pay_preserves_wf(r: RecordView, now: i64)
    requires
        r.wf(),
        pay_transition(r, now) is Some,
    ensures
        pay_transition(r, now).unwrap().wf(),
{
    lemma_entitlements_grow(r, pay_transition(r, now).unwrap());
}

/// One withdrawal preserves well-formedness: the withdrawer ends at or
/// below their entitlement, and nobody else's bookkeeping moves.
pub proof fn lemma_withdraw_preserves_wf(r: RecordView, withdrawer: Seq<u8>, amount: u64)
    requires
        r.wf(),
        withdraw_transition(r, withdrawer, amount) is Some,
    ensures
        withdraw_transition(r, withdrawer, amount).unwrap().wf(),
{
    lemma_owner_index(r.owners, withdrawer);
    let index = owner_index(r.owners, withdrawer);
    let next = withdraw_transition(r, withdrawer, amount).unwrap();
    assert forall|i: int|
        0 <= i < next.owners.len() implies (#[trigger] next.owners[i]).withdrawn <= entitlement(
        next.total_paid,
        next.owners[i].share,
    ) by {
        if i != index {
            assert(next.owners[i] == r.owners[i]);
        }
    }
}

/// Non-owner rejection: a withdrawal by an identity absent from the
/// owner list never produces a record.
pub proof fn lemma_non_owner_cannot_withdraw(r: RecordView, withdrawer: Seq<u8>, amount: u64)
    requires
        !is_owner(r.owners, withdrawer),
    ensures
        withdraw_transition(r, withdrawer, amount) is None,
{
}

/// One step of the record state machine: a payment at some time, or a
/// withdrawal by some identity.
pub enum RecordStep {
    Pay { now: i64 },
    Withdraw { withdrawer: Seq<u8>, amount: u64 },
}

/// Apply one step to a record; `None` when the step is rejected.
pub open spec fn apply_step(r: RecordView, step: RecordStep) -> Option<RecordView> {
    match step {
        RecordStep::Pay { now } => pay_transition(r, now),
        RecordStep::Withdraw { withdrawer, amount } => withdraw_transition(
            r,
            withdrawer,
            amount,
        ),
    }
}

/// Apply a sequence of successful steps to a record.
pub open spec fn apply_steps(r: RecordView, steps: Seq<RecordStep>) -> Option<RecordView>
    decreases steps.len(),
{
    if steps.len() == 0 {
        Some(r)
    } else {
        match apply_step(r, steps[0]) {
            Some(next) => apply_steps(next, steps.drop_first()),
            None => None,
        }
    }
}

/// Proportional cap invariant: starting from any well-formed record,
/// every record reachable by payments and withdrawals is well formed; in
/// particular no owner's cumulative withdrawal ever exceeds
/// `floor(total_paid * share / 100)`.
pub proof fn lemma_reachable_records_wf(r: RecordView, steps: Seq<RecordStep>)
    requires
        r.wf(),
        apply_steps(r, steps) is Some,
    ensures
        apply_steps(r, steps).unwrap().wf(),
        forall|i: int|
            0 <= i < apply_steps(r, steps).unwrap().owners.len() ==> (#[trigger] apply_steps(
                r,
                steps,
            ).unwrap().owners[i]).withdrawn <= entitlement(
                apply_steps(r, steps).unwrap().total_paid,
                apply_steps(r, steps).unwrap().owners[i].share,
            ),
    decreases steps.len(),
{
    if steps.len() > 0 {
        let next = apply_step(r, steps[0]).unwrap();
        match steps[0] {
            RecordStep::Pay { now } => lemma_pay_preserves_wf(r, now),
            RecordStep::Withdraw { withdrawer, amount } => lemma_withdraw_preserves_wf(
                r,
                withdrawer,
                amount,
            ),
        }
        lemma_reachable_records_wf(next, steps.drop_first());
    }
}

/// The sum of the owners' shares, in integer percent.
pub open spec fn sum_shares(owners: Seq<OwnerView>) -> int
    decreases owners.len(),
{
    if owners.len() == 0 {
        0
    } else {
        owners[0].share + sum_shares(owners.drop_first())
    }
}

/// The sum of the owners' cumulative withdrawals.
pub open spec fn sum_withdrawn(owners: Seq<OwnerView>) -> int
    decreases owners.len(),
{
    if owners.len() == 0 {
        0
    } else {
        owners[0].withdrawn + sum_withdrawn(owners.drop_first())
    }
}

/// Rounding down loses: the sum of two quotients by 100 never exceeds
/// the quotient of the sum.
proof fn lemma_floor_div_add(a: int, b: int)
    requires
        a >= 0,
        b >= 0,
    ensures
        a / 100 + b / 100 <= (a + b) / 100,
{
    vstd::arithmetic::div_mod::lemma_fundamental_div_mod(a, 100);
    vstd::arithmetic::div_mod::lemma_fundamental_div_mod(b, 100);
    let q = a / 100 + b / 100;
    let rest = a % 100 + b % 100;
    assert(a + b == q * 100 + rest) by (nonlinear_arith)
        requires
            a == 100 * (a / 100) + a % 100,
            b == 100 * (b / 100) + b % 100,
            q == a / 100 + b / 100,
            rest == a % 100 + b % 100,
    ;
    if rest < 100 {
        vstd::arithmetic::div_mod::lemma_fundamental_div_mod_converse(a + b, 100, q, rest);
    } else {
        assert(a + b == (q + 1) * 100 + (rest - 100)) by (nonlinear_arith)
            requires
                a + b == q * 100 + rest,
        ;
        vstd::arithmetic::div_mod::lemma_fundamental_div_mod_converse(
            a + b,
            100,
            q + 1,
            rest - 100,
        );
    }
}

/// Summing the per-owner entitlements stays below the entitlement of the
/// summed shares: rounding down only loses value.
proof fn lemma_sum_withdrawn_bound(owners: Seq<OwnerView>, total_paid: u64)
    requires
        forall|i: int|
            0 <= i < owners.len() ==> (#[trigger] owners[i]).withdrawn <= entitlement(
                total_paid,
                owners[i].share,
            ),
    ensures
        sum_shares(owners) >= 0,
        sum_withdrawn(owners) <= (total_paid * sum_shares(owners)) / 100,
    decreases owners.len(),
{
    if owners.len() == 0 {
    } else {
        let rest = owners.drop_first();
        assert forall|i: int|
            0 <= i < rest.len() implies (#[trigger] rest[i]).withdrawn <= entitlement(
            total_paid,
            rest[i].share,
        ) by {
            assert(rest[i] == owners[i + 1]);
        }
        lemma_sum_withdrawn_bound(rest, total_paid);
        let first_share = owners[0].share as int;
        let tp = total_paid as int;
        lemma_floor_div_add(tp * first_share, tp * sum_shares(rest));
        assert(tp * first_share + tp * sum_shares(rest) == tp * (first_share + sum_shares(rest)))
            by (nonlinear_arith);
        assert(tp * sum_shares(rest) >= 0) by (nonlinear_arith)
            requires
                tp >= 0,
                sum_shares(rest) >= 0,
        ;
    }
}

/// Aggregate withdrawal cap: in a well-formed record whose shares sum to
/// at most 100 percent, the owners' cumulative withdrawals sum to at
/// most the cumulative paid-in value.  Shares summing beyond 100 are not
/// rejected at creation, so the bound is stated under that hypothesis.
pub proof fn lemma_aggregate_withdrawal_cap(r: RecordView)
    requires
        r.wf(),
        sum_shares(r.owners) <= 100,
    ensures
        sum_withdrawn(r.owners) <= r.total_paid,
{
    lemma_sum_withdrawn_bound(r.owners, r.total_paid);
    let tp = r.total_paid as int;
    let s = sum_shares(r.owners);
    vstd::arithmetic::mul::lemma_mul_inequality(s, 100, tp);
    vstd::arithmetic::mul::lemma_mul_is_commutative(tp, s);
    vstd::arithmetic::div_mod::lemma_div_is_ordered(tp * s, tp * 100, 100);
    vstd::arithmetic::mul::lemma_mul_is_commutative(tp, 100);
    vstd::arithmetic::div_mod::lemma_div_multiples_vanish(tp, 100);
}

} // verus!

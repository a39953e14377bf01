use vstd::prelude::*;

use crate::records::EmployeeGrant;
use crate::records::grant_wf;
use vstd::arithmetic::div_mod::lemma_div_is_ordered;
use vstd::arithmetic::div_mod::lemma_div_multiples_vanish;
use vstd::arithmetic::div_mod::lemma_div_pos_is_pos;
use vstd::arithmetic::mul::lemma_mul_inequality;
use vstd::arithmetic::mul::lemma_mul_upper_bound;

verus! {

/// The phase a grant is in at time `now`. Transitions are driven purely by
/// wall-clock time, never by explicit calls, and there is no terminal
/// deletion state: a fully-withdrawn, fully-vested grant stays queryable.
#[derive(Clone, Copy, Debug, PartialEq, Eq, Structural)]
pub enum VestingState {
    /// Strictly before the cliff: nothing is unlocked.
    Unvested,
    /// From the cliff to just before the end: unlocking linearly.
    Vesting,
    /// From the end on: the whole total is unlocked.
    FullyVested,
}

/// The phase a grant is in at time `now`.
pub open spec fn spec_state(g: EmployeeGrant, now: int) -> VestingState {
    if now < g.cliff_time as int {
        VestingState::Unvested
    } else if now < g.end_time as int {
        VestingState::Vesting
    } else {
        VestingState::FullyVested
    }
}

/// The cumulative amount unlocked at time `now`: nothing strictly before the
/// cliff, everything from the end on, and in between the total scaled by the
/// fraction of the schedule that has elapsed, rounded down.
pub open spec fn spec_unlocked(g: EmployeeGrant, now: int) -> int
    recommends
        grant_wf(g),
{
    if now < g.cliff_time as int {
        0
    } else if now >= g.end_time as int {
        g.total_amount as int
    } else {
        g.total_amount as int * (now - g.start_time as int) / (g.end_time as int
            - g.start_time as int)
    }
}

/// The amount available to withdraw at time `now`: the unlocked amount minus
/// what was already withdrawn, floored at zero.
pub open spec fn spec_withdrawable(g: EmployeeGrant, now: int) -> int
    recommends
        grant_wf(g),
{
    if spec_unlocked(g, now) >= g.withdrawn_amount as int {
        spec_unlocked(g, now) - g.withdrawn_amount as int
    } else {
        0
    }
}

/// The unlocked amount always lies between zero and the grant's total.
pub proof fn lemma_unlocked_bounds(g: EmployeeGrant, now: int)
    requires
        grant_wf(g),
    ensures
        0 <= spec_unlocked(g, now) <= g.total_amount as int,
{
    let t = g.total_amount as int;
    let s = g.start_time as int;
    if now < g.cliff_time as int {
    } else if now >= g.end_time as int {
    } else {
        let e = now - s;
        let d = g.end_time as int - s;
        lemma_div_pos_is_pos(t * e, d);
        lemma_mul_inequality(e, d, t);
        lemma_div_is_ordered(t * e, d * t, d);
        lemma_div_multiples_vanish(t, d);
    }
}

/// Nothing is unlocked strictly before the cliff.
pub proof fn lemma_unlocked_before_cliff(g: EmployeeGrant, now: int)
    requires
        now < g.cliff_time as int,
    ensures
        spec_unlocked(g, now) == 0,
{
}

/// From the end of the schedule on, the whole total is unlocked.
pub proof fn lemma_unlocked_after_end(g: EmployeeGrant, now: int)
    requires
        grant_wf(g),
        now >= g.end_time as int,
    ensures
        spec_unlocked(g, now) == g.total_amount as int,
{
}

/// The unlocked amount is monotonically non-decreasing in `now`.
pub proof fn lemma_unlocked_monotonic(g: EmployeeGrant, n1: int, n2: int)
    requires
        grant_wf(g),
        n1 <= n2,
    ensures
        spec_unlocked(g, n1) <= spec_unlocked(g, n2),
{
    lemma_unlocked_bounds(g, n1);
    lemma_unlocked_bounds(g, n2);
    let t = g.total_amount as int;
    let s = g.start_time as int;
    if n1 < g.cliff_time as int {
    } else if n2 >= g.end_time as int {
    } else {
        let d = g.end_time as int - s;
        lemma_mul_inequality(n1 - s, n2 - s, t);
        lemma_div_is_ordered(t * (n1 - s), t * (n2 - s), d);
    }
}

/// Nothing is withdrawable before the cliff: withdrawals are possible only
/// while a grant is vesting or fully vested.
pub proof fn lemma_nothing_withdrawable_while_unvested(g: EmployeeGrant, now: int)
    requires
        grant_wf(g),
        spec_state(g, now) == VestingState::Unvested,
    ensures
        spec_withdrawable(g, now) == 0,
{
}

/// Two reads of the withdrawable amount with the same grant state and the
/// same time return the same value.
pub proof fn lemma_withdrawable_idempotent(g1: EmployeeGrant, g2: EmployeeGrant, n1: int, n2: int)
    requires
        g1 == g2,
        n1 == n2,
    ensures
        spec_withdrawable(g1, n1) == spec_withdrawable(g2, n2),
{
}

/// Once the full withdrawable amount has been paid out, nothing further is
/// withdrawable at the same time: among several attempts at one time, each
/// asking for the full withdrawable amount, only the first can succeed.
pub proof fn lemma_full_withdrawal_excludes_rivals(
    before: EmployeeGrant,
    after: EmployeeGrant,
    now: int,
)
    requires
        grant_wf(before),
        spec_withdrawable(before, now) > 0,
        after.withdrawn_amount as int == before.withdrawn_amount as int + spec_withdrawable(
            before,
            now,
        ),
        after.start_time == before.start_time,
        after.cliff_time == before.cliff_time,
        after.end_time == before.end_time,
        after.total_amount == before.total_amount,
    ensures
        spec_withdrawable(after, now) == 0,
{
    assert(spec_unlocked(after, now) == spec_unlocked(before, now));
}

/// The phase the grant is in at time `now`.
pub fn vesting_state(g: &EmployeeGrant, now: i64) -> (r: VestingState)
    ensures
        r == spec_state(*g, now as int),
{
    if now < g.cliff_time {
        VestingState::Unvested
    } else if now < g.end_time {
        VestingState::Vesting
    } else {
        VestingState::FullyVested
    }
}

/// The cumulative amount unlocked at time `now`.
pub fn unlocked_amount(g: &EmployeeGrant, now: i64) -> (r: i64)
    requires
        grant_wf(*g),
    ensures
        r as int == spec_unlocked(*g, now as int),
        0 <= r <= g.total_amount,
{
    if now < g.cliff_time {
        0
    } else if now >= g.end_time {
        g.total_amount
    } else {
        proof {
            lemma_unlocked_bounds(*g, now as int);
            lemma_mul_upper_bound(
                g.total_amount as int,
                0x7fff_ffff_ffff_ffff,
                now as int - g.start_time as int,
                0xffff_ffff_ffff_ffff,
            );
        }
        let total: u128 = g.total_amount as u128;
        let elapsed: u128 = (now as i128 - g.start_time as i128) as u128;
        let duration: u128 = (g.end_time as i128 - g.start_time as i128) as u128;
        let unlocked: u128 = (total * elapsed) / duration;
        unlocked as i64
    }
}

/// The amount available to withdraw at time `now`.
pub fn withdrawable_amount(g: &EmployeeGrant, now: i64) -> (r: i64)
    requires
        grant_wf(*g),
    ensures
        r as int == spec_withdrawable(*g, now as int),
        0 <= r <= g.total_amount,
{
    let unlocked = unlocked_amount(g, now);
    if unlocked >= g.withdrawn_amount {
        unlocked - g.withdrawn_amount
    } else {
        0
    }
}

} // verus!

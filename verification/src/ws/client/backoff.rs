//! How long to wait before the next connection attempt.
use std::time::Duration;
use vstd::arithmetic::power::pow;
use vstd::prelude::*;

use crate::runtime;
use crate::runtime::{duration_of, nanos_of, seconds, MAX_NANOS};

verus! {

/// Decides how long to wait before a connection attempt.
pub trait BackoffStrategy {
    /// The delay before the attempt that follows `attempt` failed ones.
    fn next_delay(&self, attempt: u32) -> (r: Duration);
}

/// The smaller of two numbers.
pub open spec fn least(a: nat, b: nat) -> nat {
    if a <= b {
        a
    } else {
        b
    }
}

/// The same delay before every attempt, the first one too.
#[derive(Debug)]
pub struct ConstantBackoff {
    pub delay: Duration,
}

impl ConstantBackoff {
    /// The strategy with this delay.
    pub fn new(delay: Duration) -> (r: Self)
        ensures
            r.delay == delay,
    {
        ConstantBackoff { delay }
    }
}

impl ConstantBackoff {
    /// The delay before the attempt that follows `attempt` failed ones, in nanoseconds.
    pub open spec fn delay(&self, attempt: nat) -> nat {
        runtime::nanos(self.delay)
    }
}

impl BackoffStrategy for ConstantBackoff {
    fn next_delay(&self, attempt: u32) -> (r: Duration)
        ensures
            runtime::nanos(r) == self.delay(attempt as nat),
    {
        self.delay.clone()
    }
}

/// No delay before the first attempt, then one that grows by a step with each attempt, up to a
/// limit.
#[derive(Debug)]
pub struct LinearBackoff {
    pub initial: Duration,
    pub step: Duration,
    pub max: Duration,
}

impl LinearBackoff {
    /// The strategy with this first delay, this step and this limit.
    pub fn new(initial: Duration, step: Duration, max: Duration) -> (r: Self)
        ensures
            r.initial == initial,
            r.step == step,
            r.max == max,
    {
        LinearBackoff { initial, step, max }
    }
}

impl LinearBackoff {
    /// The delay before the attempt that follows `attempt` failed ones, in nanoseconds.
    pub open spec fn delay(&self, attempt: nat) -> nat {
        if attempt == 0 {
            0
        } else {
            least(
                (runtime::nanos(self.initial) + (attempt - 1) * runtime::nanos(self.step)) as nat,
                runtime::nanos(self.max),
            )
        }
    }
}

impl BackoffStrategy for LinearBackoff {
    fn next_delay(&self, attempt: u32) -> (r: Duration)
        ensures
            runtime::nanos(r) == self.delay(attempt as nat),
    {
        if attempt == 0 {
            return seconds(0);
        }
        let initial: u128 = nanos_of(&self.initial);
        let step: u128 = nanos_of(&self.step);
        let max: u128 = nanos_of(&self.max);
        let times: u128 = (attempt - 1) as u128;
        assert(0 <= times * step <= 4294967295 * MAX_NANOS) by (nonlinear_arith)
            requires
                0 <= times <= 4294967295,
                0 <= step <= MAX_NANOS,
        ;
        let grown: u128 = initial + times * step;
        duration_of(
            if grown <= max {
                grown
            } else {
                max
            },
        )
    }
}

/// No delay before the first attempt, then one that grows by a factor with each attempt, up to a
/// limit.
#[derive(Debug)]
pub struct ExponentialBackoff {
    pub initial: Duration,
    pub multiplier: u32,
    pub max: Duration,
}

impl ExponentialBackoff {
    /// The strategy with this first delay, this factor and this limit.
    pub fn new(initial: Duration, multiplier: u32, max: Duration) -> (r: Self)
        ensures
            r.initial == initial,
            r.multiplier == multiplier,
            r.max == max,
    {
        ExponentialBackoff { initial, multiplier, max }
    }
}

/// A delay after some steps of exponential growth.
pub open spec fn grown(initial: nat, multiplier: nat, steps: nat, max: nat) -> nat {
    least((initial * pow(multiplier as int, steps)) as nat, max)
}

/// One more step of exponential growth can start from the limited delay.
proof fn lemma_grown_step(initial: nat, multiplier: nat, steps: nat, max: nat)
    ensures
        grown(initial, multiplier, steps + 1, max) == least(
            (grown(initial, multiplier, steps, max) * multiplier) as nat,
            max,
        ),
        0 <= initial * pow(multiplier as int, steps),
{
    reveal(pow);
    let p = pow(multiplier as int, steps);
    let q = pow(multiplier as int, steps + 1);
    assert(q == multiplier * p);
    lemma_pow_not_negative(multiplier, steps);
    assert(initial * q == (initial * p) * multiplier) by (nonlinear_arith)
        requires
            q == multiplier * p,
    ;
    assert(0 <= initial * p) by (nonlinear_arith)
        requires
            0 <= p,
            0 <= initial,
    ;
    let x = initial * p;
    assert(x > max && multiplier >= 1 ==> x * multiplier >= max && max * multiplier >= max)
        by (nonlinear_arith)
        requires
            0 <= x,
    ;
    assert(multiplier == 0 ==> x * multiplier == 0 && max * multiplier == 0) by (nonlinear_arith);
    assert(0 <= x * multiplier) by (nonlinear_arith)
        requires
            0 <= x,
            0 <= multiplier,
    ;
}

proof fn lemma_pow_not_negative(b: nat, e: nat)
    ensures
        pow(b as int, e) >= 0,
    decreases e,
{
    reveal(pow);
    if e > 0 {
        lemma_pow_not_negative(b, (e - 1) as nat);
        assert(b * pow(b as int, (e - 1) as nat) >= 0) by (nonlinear_arith)
            requires
                b >= 0,
                pow(b as int, (e - 1) as nat) >= 0,
        ;
    }
}

impl ExponentialBackoff {
    /// The delay before the attempt that follows `attempt` failed ones, in nanoseconds.
    pub open spec fn delay(&self, attempt: nat) -> nat {
        if attempt == 0 {
            0
        } else {
            grown(
                runtime::nanos(self.initial),
                self.multiplier as nat,
                (attempt - 1) as nat,
                runtime::nanos(self.max),
            )
        }
    }
}

impl BackoffStrategy for ExponentialBackoff {
    fn next_delay(&self, attempt: u32) -> (r: Duration)
        ensures
            runtime::nanos(r) == self.delay(attempt as nat),
    {
        if attempt == 0 {
            return seconds(0);
        }
        let initial: u128 = nanos_of(&self.initial);
        let max: u128 = nanos_of(&self.max);
        let mut value: u128 = if initial <= max {
            initial
        } else {
            max
        };
        let mut steps: u32 = 0;
        proof {
            reveal(pow);
            assert(pow(self.multiplier as int, 0) == 1);
        }
        while steps < attempt - 1 && self.next(value, max) != value
            invariant
                attempt > 0,
                steps <= attempt - 1,
                max <= MAX_NANOS,
                value <= max,
                value == grown(initial as nat, self.multiplier as nat, steps as nat, max as nat),
            decreases attempt - steps,
        {
            proof {
                lemma_grown_step(
                    initial as nat,
                    self.multiplier as nat,
                    steps as nat,
                    max as nat,
                );
            }
            value = self.next(value, max);
            steps = steps + 1;
        }
        proof {
            lemma_grown_settles(
                initial as nat,
                self.multiplier as nat,
                steps as nat,
                (attempt - 1) as nat,
                max as nat,
            );
        }
        duration_of(value)
    }
}

/// A delay that one step does not change is not changed by more steps.
proof fn lemma_grown_settles(initial: nat, multiplier: nat, steps: nat, more: nat, max: nat)
    requires
        steps <= more,
        steps == more || least((grown(initial, multiplier, steps, max) * multiplier) as nat, max)
            == grown(initial, multiplier, steps, max),
    ensures
        grown(initial, multiplier, more, max) == grown(initial, multiplier, steps, max),
    decreases more - steps,
{
    if steps < more {
        lemma_grown_settles(initial, multiplier, steps, (more - 1) as nat, max);
        lemma_grown_step(initial, multiplier, (more - 1) as nat, max);
    }
}

impl ExponentialBackoff {
    fn next(&self, value: u128, max: u128) -> (r: u128)
        requires
            value <= max <= MAX_NANOS,
        ensures
            r == least((value * self.multiplier) as nat, max as nat),
    {
        assert(0 <= value * self.multiplier <= MAX_NANOS * 4294967295)
            by (nonlinear_arith)
            requires
                0 <= value <= MAX_NANOS,
                0 <= self.multiplier <= 4294967295,
        ;
        let product: u128 = value * self.multiplier as u128;
        if product <= max {
            product
        } else {
            max
        }
    }
}

/// Linear delays do not shrink from attempt to attempt, and keep to the limit.
pub proof fn law_linear_delays_grow_to_a_limit(b: LinearBackoff, attempt: nat)
    ensures
        b.delay(0) == 0,
        attempt > 0 ==> b.delay(attempt) <= b.delay(attempt + 1),
        b.delay(attempt) <= runtime::nanos(b.max),
{
    let step = runtime::nanos(b.step);
    assert(attempt > 0 ==> 0 <= (attempt - 1) * step <= attempt * step) by (nonlinear_arith)
        requires
            0 <= step,
    ;
}

/// Exponential delays do not shrink from attempt to attempt, and keep to the limit, unless the
/// factor is 0.
pub proof fn law_exponential_delays_grow_to_a_limit(b: ExponentialBackoff, attempt: nat)
    requires
        b.multiplier > 0,
    ensures
        b.delay(0) == 0,
        attempt > 0 ==> b.delay(attempt) <= b.delay(attempt + 1),
        b.delay(attempt) <= runtime::nanos(b.max),
{
    if attempt > 0 {
        let initial = runtime::nanos(b.initial);
        let max = runtime::nanos(b.max);
        let m = b.multiplier as nat;
        lemma_grown_step(initial, m, (attempt - 1) as nat, max);
        let x = grown(initial, m, (attempt - 1) as nat, max);
        assert(x * m >= x) by (nonlinear_arith)
            requires
                m >= 1,
                x >= 0,
        ;
    }
}

/// A constant delay is the same before every attempt, the first one too.
pub proof fn law_constant_delays_do_not_change(b: ConstantBackoff, attempt: nat, other: nat)
    ensures
        b.delay(attempt) == b.delay(other),
        b.delay(0) == runtime::nanos(b.delay),
{
}

/// Linear delays: none before the first attempt, the first delay after one failure, and with each
/// further failure one step more, up to the limit.
pub proof fn law_linear_delays_grow_by_the_step(b: LinearBackoff, attempt: nat)
    requires
        attempt > 0,
    ensures
        b.delay(0) == 0,
        b.delay(1) == least(runtime::nanos(b.initial), runtime::nanos(b.max)),
        b.delay(attempt + 1) == least(
            b.delay(attempt) + runtime::nanos(b.step),
            runtime::nanos(b.max),
        ),
{
    let step = runtime::nanos(b.step);
    assert((attempt + 1 - 1) * step == (attempt - 1) * step + step && 0 <= (attempt - 1) * step
        && 0 * step == 0) by (nonlinear_arith)
        requires
            attempt > 0,
            step >= 0,
    ;
}

/// Exponential delays: none before the first attempt, the first delay after one failure, and with
/// each further failure the delay before times the factor, up to the limit.
pub proof fn law_exponential_delays_grow_by_the_factor(b: ExponentialBackoff, attempt: nat)
    requires
        attempt > 0,
    ensures
        b.delay(0) == 0,
        b.delay(1) == least(runtime::nanos(b.initial), runtime::nanos(b.max)),
        b.delay(attempt + 1) == least(
            (b.delay(attempt) * b.multiplier) as nat,
            runtime::nanos(b.max),
        ),
{
    reveal(pow);
    let initial = runtime::nanos(b.initial);
    assert(pow(b.multiplier as int, 0) == 1);
    assert(initial * 1 == initial);
    lemma_grown_step(
        initial,
        b.multiplier as nat,
        (attempt - 1) as nat,
        runtime::nanos(b.max),
    );
}

/// The smaller of two numbers is one of them and exceeds neither.
pub proof fn law_least_is_the_smaller(a: nat, b: nat)
    ensures
        least(a, b) <= a,
        least(a, b) <= b,
        least(a, b) == a || least(a, b) == b,
{
}

} // verus!

//! Bounded retrying with a delay between attempts.
//!
//! The remote operation itself is not run here. A caller makes an attempt,
//! reports a failure to its [`RetryState`], and is told whether to wait and
//! try again or to give up. The mathematical side of the module says what a
//! whole run of such attempts amounts to: how often the operation is invoked
//! and how long the caller waits in total.

use vstd::arithmetic::power2::{
    lemma2_to64, lemma2_to64_rest, lemma_pow2_strictly_increases, lemma_pow2_unfold, pow2,
};
use vstd::prelude::*;

verus! {

/// Attempts granted to one submission of a signed operation.
pub const SUBMISSION_ATTEMPTS: u32 = 5;

/// Attempts granted to one fetch of a freshness token.
pub const TOKEN_ATTEMPTS: u32 = 10;

/// Milliseconds between two attempts to fetch a freshness token.
pub const TOKEN_DELAY_MS: u64 = 2000;

/// The most attempts a policy with doubling delays may grant: with more, the
/// delay in milliseconds could outgrow 128 bits.
pub const MAX_DOUBLING_ATTEMPTS: u32 = 64;

/// How the delay develops from one wait to the next.
#[derive(Clone, Copy, Debug, PartialEq, Eq, Structural)]
pub enum Backoff {
    /// Every wait lasts as long as the first.
    Fixed,
    /// Every wait lasts twice as long as the one before it.
    Exponential,
}

/// What a retry policy is, as plain mathematics.
pub struct PolicyView {
    /// Attempts granted in all; `None` when there is no limit.
    pub max_attempts: Option<nat>,
    /// Milliseconds to wait after the first failure.
    pub initial_delay: nat,
    pub backoff: Backoff,
}

/// What is left of a retry budget while at least one attempt may still be
/// made.
pub struct Budget {
    /// Attempts still granted, the next one included; `None` when there is
    /// no limit.
    pub remaining: Option<nat>,
    /// Milliseconds to wait if the next attempt fails and another follows.
    pub delay: nat,
    pub backoff: Backoff,
}

impl PolicyView {
    /// The wait, in milliseconds, that follows failure number `failures + 1`.
    pub open spec fn delay_at(self, failures: nat) -> nat {
        match self.backoff {
            Backoff::Fixed => self.initial_delay,
            Backoff::Exponential => self.initial_delay * pow2(failures),
        }
    }

    /// The sum of the first `waits` delays.
    pub open spec fn total_wait(self, waits: nat) -> nat
        decreases waits,
    {
        if waits == 0 {
            0
        } else {
            self.total_wait((waits - 1) as nat) + self.delay_at((waits - 1) as nat)
        }
    }

    /// Whether attempt number `failures + 1` is granted.
    pub open spec fn grants(self, failures: nat) -> bool {
        match self.max_attempts {
            Some(max) => failures < max,
            None => true,
        }
    }

    /// The budget once `failures` attempts have failed, or `None` when no
    /// attempt is left by that point.
    pub open spec fn budget_after(self, failures: nat) -> Option<Budget> {
        if self.grants(failures) {
            Some(
                Budget {
                    remaining: match self.max_attempts {
                        Some(max) => Some((max - failures) as nat),
                        None => None,
                    },
                    delay: self.delay_at(failures),
                    backoff: self.backoff,
                },
            )
        } else {
            None
        }
    }

    /// The budget before the first attempt, or `None` when no attempt is
    /// granted at all.
    pub open spec fn start(self) -> Option<Budget> {
        if self.max_attempts == Some(0nat) {
            None
        } else {
            Some(
                Budget {
                    remaining: self.max_attempts,
                    delay: self.initial_delay,
                    backoff: self.backoff,
                },
            )
        }
    }
}

impl Budget {
    /// The budget after one more failed attempt, or `None` when that attempt
    /// was the last one granted.
    pub open spec fn after_failure(self) -> Option<Budget> {
        let delay = match self.backoff {
            Backoff::Fixed => self.delay,
            Backoff::Exponential => 2 * self.delay,
        };
        match self.remaining {
            Some(left) => if left <= 1 {
                None
            } else {
                Some(Budget { remaining: Some((left - 1) as nat), delay, backoff: self.backoff })
            },
            None => Some(Budget { remaining: None, delay, backoff: self.backoff }),
        }
    }
}

/// How a run of attempts ended.
#[derive(Clone, Copy, Debug, PartialEq, Eq, Structural)]
pub enum Verdict {
    /// An attempt succeeded.
    Succeeded,
    /// Every granted attempt failed.
    Exhausted,
    /// Attempts are still granted, but no further result is known.
    Unfinished,
}

/// The account of one run: how it ended, how often the remote operation was
/// invoked, and the milliseconds spent waiting between invocations.
pub struct Run {
    pub verdict: Verdict,
    pub invocations: nat,
    pub waited: nat,
}

/// The run that a budget yields against a remote operation whose `i`-th
/// invocation succeeds exactly when `results[i]` holds. Results past the end
/// of the run are never looked at.
pub open spec fn run(budget: Option<Budget>, results: Seq<bool>) -> Run
    decreases results.len(),
{
    match budget {
        None => Run { verdict: Verdict::Exhausted, invocations: 0, waited: 0 },
        Some(b) => if results.len() == 0 {
            Run { verdict: Verdict::Unfinished, invocations: 0, waited: 0 }
        } else if results[0] {
            Run { verdict: Verdict::Succeeded, invocations: 1, waited: 0 }
        } else {
            let next = b.after_failure();
            let rest = run(next, results.drop_first());
            Run {
                verdict: rest.verdict,
                invocations: rest.invocations + 1,
                waited: rest.waited + if next is Some {
                    b.delay
                } else {
                    0
                },
            }
        },
    }
}

/// `failures` failed invocations followed by one that succeeds.
pub open spec fn failures_then_success(failures: nat) -> Seq<bool> {
    Seq::new(failures + 1, |i: int| i == failures)
}

/// Before the first attempt the budget is the one left after no failure.
pub proof fn lemma_budget_start(policy: PolicyView)
    ensures
        policy.start() == policy.budget_after(0),
{
    assert(pow2(0) == 1) by {
        lemma2_to64();
    }
    assert(policy.initial_delay * 1 == policy.initial_delay) by (nonlinear_arith);
}

/// One failed attempt moves a policy's budget from `failures` to
/// `failures + 1`.
pub proof fn lemma_budget_step(policy: PolicyView, failures: nat)
    requires
        policy.grants(failures),
    ensures
        policy.budget_after(failures).unwrap().after_failure() == policy.budget_after(
            failures + 1,
        ),
{
    lemma_pow2_unfold(failures + 1);
    if policy.backoff == Backoff::Exponential {
        assert(2 * (policy.initial_delay * pow2(failures)) == policy.initial_delay * (2 * pow2(
            failures,
        ))) by (nonlinear_arith);
    }
}

/// With doubling delays every wait is twice the one before it, and the
/// first `waits` of them add up to `initial_delay * (2^waits - 1)`. With
/// fixed delays they add up to `waits * initial_delay`.
pub proof fn lemma_total_wait(policy: PolicyView, waits: nat)
    ensures
        policy.delay_at(0) == policy.initial_delay,
        policy.backoff == Backoff::Exponential ==> policy.delay_at(waits + 1) == 2
            * policy.delay_at(waits),
        policy.backoff == Backoff::Exponential ==> policy.total_wait(waits) == policy.initial_delay
            * (pow2(waits) - 1),
        policy.backoff == Backoff::Fixed ==> policy.total_wait(waits) == waits
            * policy.initial_delay,
    decreases waits,
{
    let d = policy.initial_delay;
    assert(pow2(0) == 1) by {
        lemma2_to64();
    }
    assert(d * 1 == d) by (nonlinear_arith);
    lemma_pow2_unfold(waits + 1);
    assert(d * (2 * pow2(waits)) == 2 * (d * pow2(waits))) by (nonlinear_arith);
    if waits == 0 {
        assert(d * (1 - 1) == 0) by (nonlinear_arith);
        assert(0 * d == 0) by (nonlinear_arith);
    } else {
        let before = (waits - 1) as nat;
        lemma_total_wait(policy, before);
        lemma_pow2_unfold(waits);
        let p = pow2(before);
        assert(d * (p - 1) + d * p == d * (2 * p - 1)) by (nonlinear_arith);
        assert(before * d + d == (before + 1) * d) by (nonlinear_arith);
    }
}

/// A run that has `failures` failures behind it and meets `more` further
/// failures followed by a success ends in success after `more + 1` further
/// invocations, having waited once after each of those failures.
proof fn lemma_succeeds_from(policy: PolicyView, failures: nat, more: nat)
    requires
        policy.grants(failures + more),
    ensures
        run(policy.budget_after(failures), failures_then_success(more)) == (Run {
            verdict: Verdict::Succeeded,
            invocations: more + 1,
            waited: (policy.total_wait(failures + more) - policy.total_wait(failures)) as nat,
        }),
    decreases more,
{
    let results = failures_then_success(more);
    if more > 0 {
        lemma_budget_step(policy, failures);
        lemma_succeeds_from(policy, failures + 1, (more - 1) as nat);
        assert(results.drop_first() =~= failures_then_success((more - 1) as nat));
        assert(policy.total_wait(failures + 1) == policy.total_wait(failures) + policy.delay_at(
            failures,
        ));
        lemma_total_wait_grows(policy, failures + 1, failures + more);
    }
}

/// The total wait never shrinks as waits are added.
proof fn lemma_total_wait_grows(policy: PolicyView, fewer: nat, more: nat)
    requires
        fewer <= more,
    ensures
        policy.total_wait(fewer) <= policy.total_wait(more),
    decreases more,
{
    if fewer < more {
        lemma_total_wait_grows(policy, fewer, (more - 1) as nat);
    }
}

/// A run that has `failures` failures behind it and meets nothing but
/// failures until its budget is spent ends exhausted, with one invocation for
/// each attempt that was left and one wait between any two of them.
proof fn lemma_exhausts_from(policy: PolicyView, failures: nat, results: Seq<bool>)
    requires
        policy.max_attempts is Some,
        failures <= policy.max_attempts.unwrap(),
        results.len() >= policy.max_attempts.unwrap() - failures,
        forall|i: int| 0 <= i < policy.max_attempts.unwrap() - failures ==> !results[i],
    ensures
        run(policy.budget_after(failures), results) == (Run {
            verdict: Verdict::Exhausted,
            invocations: (policy.max_attempts.unwrap() - failures) as nat,
            waited: if failures < policy.max_attempts.unwrap() {
                (policy.total_wait((policy.max_attempts.unwrap() - 1) as nat) - policy.total_wait(
                    failures,
                )) as nat
            } else {
                0
            },
        }),
    decreases policy.max_attempts.unwrap() - failures,
{
    let max = policy.max_attempts.unwrap();
    if failures < max {
        lemma_budget_step(policy, failures);
        let rest = results.drop_first();
        assert forall|i: int| 0 <= i < max - (failures + 1) implies !rest[i] by {
            assert(rest[i] == results[i + 1]);
        }
        lemma_exhausts_from(policy, failures + 1, rest);
        if failures + 1 < max {
            assert(policy.total_wait(failures + 1) == policy.total_wait(failures)
                + policy.delay_at(failures));
            lemma_total_wait_grows(policy, failures + 1, (max - 1) as nat);
        }
    }
}

/// A remote operation that fails exactly `failures` times and succeeds on the
/// next invocation, with `failures` below the number of attempts granted, is
/// invoked `failures + 1` times in all and the run ends in success. The time
/// spent waiting is the sum of the first `failures` delays of the policy.
pub proof fn lemma_success_after_failures(policy: PolicyView, failures: nat)
    requires
        policy.grants(failures),
    ensures
        run(policy.start(), failures_then_success(failures)) == (Run {
            verdict: Verdict::Succeeded,
            invocations: failures + 1,
            waited: policy.total_wait(failures),
        }),
{
    lemma_budget_start(policy);
    lemma_succeeds_from(policy, 0, failures);
}

/// A remote operation that fails on each of the first `max_attempts`
/// invocations is invoked exactly `max_attempts` times, whatever `results`
/// holds beyond them, and the run ends exhausted. A wait lies between any two
/// of these invocations and none follows the last.
pub proof fn lemma_exhausted_after_max_failures(policy: PolicyView, results: Seq<bool>)
    requires
        policy.max_attempts is Some,
        results.len() >= policy.max_attempts.unwrap(),
        forall|i: int| 0 <= i < policy.max_attempts.unwrap() ==> !results[i],
    ensures
        run(policy.start(), results) == (Run {
            verdict: Verdict::Exhausted,
            invocations: policy.max_attempts.unwrap(),
            waited: if policy.max_attempts.unwrap() == 0 {
                0
            } else {
                policy.total_wait((policy.max_attempts.unwrap() - 1) as nat)
            },
        }),
{
    lemma_budget_start(policy);
    lemma_exhausts_from(policy, 0, results);
}

/// A retry policy: how many attempts are granted and how long to wait
/// between them.
///
/// Every policy that exists can be run to its end without its delay leaving
/// the range of `u128`: one with doubling delays grants at most
/// [`MAX_DOUBLING_ATTEMPTS`] attempts.
#[derive(Clone, Copy, Debug)]
pub struct RetryPolicy {
    max_attempts: Option<u32>,
    initial_delay_ms: u64,
    backoff: Backoff,
}

impl View for RetryPolicy {
    type V = PolicyView;

    closed spec fn view(&self) -> PolicyView {
        PolicyView {
            max_attempts: match self.max_attempts {
                Some(max) => Some(max as nat),
                None => None,
            },
            initial_delay: self.initial_delay_ms as nat,
            backoff: self.backoff,
        }
    }
}

impl RetryPolicy {
    #[verifier::type_invariant]
    spec fn inv(self) -> bool {
        self@.bounded()
    }

    /// A policy whose every wait lasts `delay_ms`, with `max_attempts`
    /// attempts or, for `None`, with no limit on them.
    pub fn fixed(max_attempts: Option<u32>, delay_ms: u64) -> (policy: RetryPolicy)
        ensures
            policy@ == (PolicyView {
                max_attempts: match max_attempts {
                    Some(max) => Some(max as nat),
                    None => None,
                },
                initial_delay: delay_ms as nat,
                backoff: Backoff::Fixed,
            }),
    {
        RetryPolicy { max_attempts, initial_delay_ms: delay_ms, backoff: Backoff::Fixed }
    }

    /// A policy of `max_attempts` attempts whose first wait lasts
    /// `initial_delay_ms` and whose every further wait is twice the one
    /// before. There is none for more than [`MAX_DOUBLING_ATTEMPTS`]
    /// attempts.
    pub fn exponential(max_attempts: u32, initial_delay_ms: u64) -> (policy: Option<RetryPolicy>)
        ensures
            policy is Some <==> max_attempts <= MAX_DOUBLING_ATTEMPTS,
            policy is Some ==> policy.unwrap()@ == (PolicyView {
                max_attempts: Some(max_attempts as nat),
                initial_delay: initial_delay_ms as nat,
                backoff: Backoff::Exponential,
            }),
    {
        if max_attempts <= MAX_DOUBLING_ATTEMPTS {
            Some(
                RetryPolicy {
                    max_attempts: Some(max_attempts),
                    initial_delay_ms,
                    backoff: Backoff::Exponential,
                },
            )
        } else {
            None
        }
    }

    /// The policy for submitting a signed operation: five attempts, the
    /// first wait lasting `sleep_ms`, each further one twice as long.
    pub fn submission(sleep_ms: u64) -> (policy: RetryPolicy)
        ensures
            policy@ == (PolicyView {
                max_attempts: Some(5nat),
                initial_delay: sleep_ms as nat,
                backoff: Backoff::Exponential,
            }),
    {
        RetryPolicy {
            max_attempts: Some(SUBMISSION_ATTEMPTS),
            initial_delay_ms: sleep_ms,
            backoff: Backoff::Exponential,
        }
    }

    /// The policy for fetching a freshness token: ten attempts, two seconds
    /// apart.
    pub fn freshness_token() -> (policy: RetryPolicy)
        ensures
            policy@ == (PolicyView {
                max_attempts: Some(10nat),
                initial_delay: 2000nat,
                backoff: Backoff::Fixed,
            }),
    {
        RetryPolicy {
            max_attempts: Some(TOKEN_ATTEMPTS),
            initial_delay_ms: TOKEN_DELAY_MS,
            backoff: Backoff::Fixed,
        }
    }

    /// The policy for polling until an answer is there: no limit on the
    /// attempts, `interval_ms` between any two.
    pub fn polling(interval_ms: u64) -> (policy: RetryPolicy)
        ensures
            policy@ == (PolicyView {
                max_attempts: None,
                initial_delay: interval_ms as nat,
                backoff: Backoff::Fixed,
            }),
    {
        RetryPolicy { max_attempts: None, initial_delay_ms: interval_ms, backoff: Backoff::Fixed }
    }

    /// Attempts granted in all; `None` when there is no limit.
    pub fn max_attempts(&self) -> (max: Option<u32>)
        ensures
            match max {
                Some(m) => self@.max_attempts == Some(m as nat),
                None => self@.max_attempts is None,
            },
    {
        self.max_attempts
    }

    /// Milliseconds to wait after the first failure.
    pub fn initial_delay_ms(&self) -> (delay: u64)
        ensures
            delay == self@.initial_delay,
    {
        self.initial_delay_ms
    }

    /// How the delay develops.
    pub fn backoff(&self) -> (backoff: Backoff)
        ensures
            backoff == self@.backoff,
    {
        self.backoff
    }
}

impl PolicyView {
    /// Whether the policy can be held by a [`RetryPolicy`]: its numbers fit
    /// their machine types, and with doubling delays it grants at most
    /// [`MAX_DOUBLING_ATTEMPTS`] attempts.
    pub open spec fn bounded(self) -> bool {
        &&& self.initial_delay <= u64::MAX
        &&& self.max_attempts matches Some(max) ==> max <= u32::MAX
        &&& self.backoff == Backoff::Exponential ==> (self.max_attempts matches Some(max) && max
            <= MAX_DOUBLING_ATTEMPTS)
    }
}

/// Every delay of a bounded policy fits in 128 bits for as long as an
/// attempt is granted.
pub proof fn lemma_delays_fit(policy: PolicyView, failures: nat)
    requires
        policy.bounded(),
        policy.grants(failures),
    ensures
        policy.delay_at(failures) <= u128::MAX,
{
    if policy.backoff == Backoff::Exponential {
        lemma2_to64_rest();
        if failures < 63 {
            lemma_pow2_strictly_increases(failures, 63);
        }
        let d = policy.initial_delay;
        let p = pow2(failures);
        assert(d * p <= 0xffff_ffff_ffff_ffff * 0x8000_0000_0000_0000) by (nonlinear_arith)
            requires
                d <= 0xffff_ffff_ffff_ffff,
                p <= 0x8000_0000_0000_0000,
        ;
    }
}

/// The budget of one run while an attempt may still be made. A budget that
/// is spent does not exist: [`RetryState::begin`] and [`RetryState::fail`]
/// hand out none.
pub struct RetryState {
    policy: RetryPolicy,
    failures: Ghost<nat>,
    remaining: Option<u32>,
    delay_ms: u128,
}

/// What to do after a failed attempt.
pub enum RetryStep {
    /// Wait for `delay_ms` milliseconds and make the next attempt on `state`.
    Retry { state: RetryState, delay_ms: u128 },
    /// No attempt is left: the operation has failed for good.
    Exhausted,
}

impl View for RetryState {
    type V = Budget;

    closed spec fn view(&self) -> Budget {
        Budget {
            remaining: match self.remaining {
                Some(left) => Some(left as nat),
                None => None,
            },
            delay: self.delay_ms as nat,
            backoff: self.policy@.backoff,
        }
    }
}

impl RetryState {
    /// The policy that this budget was drawn from.
    pub closed spec fn policy(&self) -> PolicyView {
        self.policy@
    }

    /// The number of attempts that have failed so far.
    pub closed spec fn failures(&self) -> nat {
        self.failures@
    }

    /// Holds of every state: it is the budget that its policy leaves after
    /// the failures so far.
    #[verifier::type_invariant]
    pub open spec fn on_policy(self) -> bool {
        &&& self.policy().bounded()
        &&& self.policy().budget_after(self.failures()) == Some(self@)
    }

    /// The budget before the first attempt, or `None` for a policy that
    /// grants no attempt at all.
    pub fn begin(policy: RetryPolicy) -> (state: Option<RetryState>)
        ensures
            match state {
                Some(s) => policy@.start() == Some(s@) && s.policy() == policy@ && s.failures()
                    == 0,
                None => policy@.start() is None,
            },
    {
        proof {
            use_type_invariant(&policy);
            lemma_budget_start(policy@);
        }
        match policy.max_attempts {
            Some(max) => if max == 0 {
                None
            } else {
                Some(
                    RetryState {
                        policy,
                        failures: Ghost(0),
                        remaining: Some(max),
                        delay_ms: policy.initial_delay_ms as u128,
                    },
                )
            },
            None => Some(
                RetryState {
                    policy,
                    failures: Ghost(0),
                    remaining: None,
                    delay_ms: policy.initial_delay_ms as u128,
                },
            ),
        }
    }

    /// Attempts still granted, the next one included; `None` when there is
    /// no limit.
    pub fn attempts_left(&self) -> (left: Option<u32>)
        ensures
            match left {
                Some(n) => self@.remaining == Some(n as nat) && n >= 1,
                None => self@.remaining is None,
            },
    {
        proof {
            use_type_invariant(self);
        }
        self.remaining
    }

    /// Milliseconds to wait if the next attempt fails and another follows.
    pub fn delay_ms(&self) -> (delay: u128)
        ensures
            delay == self@.delay,
    {
        self.delay_ms
    }

    /// Records that the attempt just made has failed. The answer is to wait
    /// for the current delay and go on with the budget that is left, or,
    /// when the failed attempt was the last one granted, to stop.
    pub fn fail(self) -> (step: RetryStep)
        ensures
            match step {
                RetryStep::Retry { state, delay_ms } => {
                    &&& self@.after_failure() == Some(state@)
                    &&& delay_ms == self@.delay
                    &&& state.policy() == self.policy()
                    &&& state.failures() == self.failures() + 1
                },
                RetryStep::Exhausted => self@.after_failure() is None,
            },
    {
        proof {
            use_type_invariant(&self);
            use_type_invariant(&self.policy);
            lemma_budget_step(self.policy@, self.failures@);
            if self.policy@.grants(self.failures@ + 1) {
                lemma_delays_fit(self.policy@, self.failures@ + 1);
            }
        }
        let delay_ms = self.delay_ms;
        let remaining = match self.remaining {
            Some(left) => if left <= 1 {
                return RetryStep::Exhausted;
            } else {
                Some(left - 1)
            },
            None => None,
        };
        let next_delay = match self.policy.backoff {
            Backoff::Fixed => delay_ms,
            Backoff::Exponential => delay_ms + delay_ms,
        };
        RetryStep::Retry {
            state: RetryState {
                policy: self.policy,
                failures: Ghost(self.failures@ + 1),
                remaining,
                delay_ms: next_delay,
            },
            delay_ms,
        }
    }
}

} // verus!

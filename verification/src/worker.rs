//! Worker tasks: one unit of work for one wallet or one asset.
//!
//! A worker decides; it does not act. Whoever drives it makes the remote
//! calls and does the waiting, and reports back what came of each call. A
//! worker is used up by the report that ends it, so it hands out exactly one
//! outcome.

use crate::address::account_key;
use crate::mint_status::{MintReceipt, MintTxInfo};
use crate::query::{holder_query, holder_query_view, AccountQuery};
use crate::retry::{Backoff, PolicyView, RetryPolicy, RetryState, RetryStep};
use vstd::prelude::*;

verus! {

/// One wallet's share of an airdrop.
#[derive(Clone, Debug, PartialEq, Eq)]
pub struct MintTask {
    /// The wallet's address as the holder registry has it.
    pub wallet: String,
    /// The key that the address stands for.
    pub key: [u8; 32],
    /// How many tokens to mint to the wallet.
    pub amount: u64,
}

/// A [`MintTask`] as plain mathematics.
pub struct TaskView {
    pub wallet: Seq<char>,
    pub key: Seq<u8>,
    pub amount: nat,
}

impl View for MintTask {
    type V = TaskView;

    open spec fn view(&self) -> TaskView {
        TaskView { wallet: self.wallet@, key: self.key@, amount: self.amount as nat }
    }
}

/// What became of one mint task: the entry that it adds to the result
/// registry.
#[derive(Clone, Debug, PartialEq, Eq)]
pub struct MintOutcome {
    pub wallet: String,
    pub info: MintTxInfo,
}

/// A [`MintOutcome`] as plain mathematics.
pub struct OutcomeView {
    pub wallet: Seq<char>,
    pub receipt: MintReceipt,
}

impl View for MintOutcome {
    type V = OutcomeView;

    open spec fn view(&self) -> OutcomeView {
        OutcomeView { wallet: self.wallet@, receipt: self.info@ }
    }
}

/// The policy under which a mint is submitted when the first wait lasts
/// `sleep` milliseconds.
pub open spec fn submission_policy(sleep: nat) -> PolicyView {
    PolicyView { max_attempts: Some(5nat), initial_delay: sleep, backoff: Backoff::Exponential }
}

/// The policy under which the freshness token of one attempt is fetched.
pub open spec fn token_policy() -> PolicyView {
    PolicyView { max_attempts: Some(10nat), initial_delay: 2000, backoff: Backoff::Fixed }
}

/// The policy under which the holder of an asset is polled for every
/// `interval` milliseconds.
pub open spec fn polling_policy(interval: nat) -> PolicyView {
    PolicyView { max_attempts: None, initial_delay: interval, backoff: Backoff::Fixed }
}

/// The worker that mints to one wallet, at the point where it needs a
/// freshness token for its next attempt. It lives while an attempt may still
/// be made.
///
/// An attempt is a fetch of a freshness token followed by the submission of
/// the operation signed with it. The fetch is tried up to ten times, two
/// seconds apart; an attempt whose token cannot be had has failed, as has
/// one whose submission is not confirmed. Five attempts are granted, with a
/// wait after each failed one that doubles from attempt to attempt.
pub struct MintWorker {
    task: MintTask,
    sleep_ms: u64,
    retry: RetryState,
    tokens: RetryState,
}

/// A mint worker that holds the freshness token of its current attempt and
/// has to submit.
pub struct MintSubmission {
    task: MintTask,
    sleep_ms: u64,
    retry: RetryState,
}

/// What a mint worker answers to a failure.
pub enum MintProgress {
    /// Wait for `delay_ms` milliseconds and fetch a freshness token.
    Retry { worker: MintWorker, delay_ms: u128 },
    /// The task is over: this is its outcome.
    Finished(MintOutcome),
}

/// The outcome of the task `task` when its mint never went through.
pub open spec fn failed_outcome(task: TaskView) -> OutcomeView {
    OutcomeView { wallet: task.wallet, receipt: MintReceipt::failed() }
}

/// Takes note that an attempt has failed, whatever it failed of: the answer
/// is to wait and make the next attempt with a new budget of token fetches,
/// or, after the last attempt, the outcome of a failed mint.
fn attempt_failed(task: MintTask, sleep_ms: u64, retry: RetryState) -> (progress: MintProgress)
    requires
        retry.policy() == submission_policy(sleep_ms as nat),
    ensures
        match progress {
            MintProgress::Retry { worker, delay_ms } => {
                &&& retry.failures() + 1 < 5
                &&& worker.task() == task@
                &&& worker.sleep() == sleep_ms
                &&& worker.failures() == retry.failures() + 1
                &&& worker.token_failures() == 0
                &&& delay_ms == retry@.delay
                &&& worker.delay() == 2 * retry@.delay
                &&& delay_ms == submission_policy(sleep_ms as nat).delay_at(retry.failures())
            },
            MintProgress::Finished(outcome) => {
                &&& retry.failures() + 1 >= 5
                &&& outcome@ == failed_outcome(task@)
            },
        },
{
    proof {
        use_type_invariant(&retry);
    }
    match retry.fail() {
        RetryStep::Retry { state, delay_ms } => {
            let tokens = RetryState::begin(RetryPolicy::freshness_token()).unwrap();
            proof {
                use_type_invariant(&state);
                use_type_invariant(&tokens);
            }
            MintProgress::Retry {
                worker: MintWorker { task, sleep_ms, retry: state, tokens },
                delay_ms,
            }
        },
        RetryStep::Exhausted => MintProgress::Finished(
            MintOutcome { wallet: task.wallet, info: MintTxInfo::failed() },
        ),
    }
}

impl MintWorker {
    /// The task that the worker carries out.
    pub closed spec fn task(&self) -> TaskView {
        self.task@
    }

    /// The milliseconds that the wait after the first failed attempt lasts.
    pub closed spec fn sleep(&self) -> nat {
        self.sleep_ms as nat
    }

    /// The number of attempts that have failed so far.
    pub closed spec fn failures(&self) -> nat {
        self.retry.failures()
    }

    /// The number of token fetches that have failed in the current attempt.
    pub closed spec fn token_failures(&self) -> nat {
        self.tokens.failures()
    }

    /// The milliseconds to wait if the current attempt fails and another
    /// follows.
    pub closed spec fn delay(&self) -> nat {
        self.retry@.delay
    }

    /// Holds of every mint worker: an attempt is left to it, and in that
    /// attempt a fetch of the token.
    #[verifier::type_invariant]
    pub open spec fn wf(self) -> bool {
        &&& self.failures() < 5
        &&& self.token_failures() < 10
        &&& self.on_policy()
    }

    /// Whether the two budgets are those of the submission policy and of
    /// the token policy.
    pub closed spec fn on_policy(self) -> bool {
        &&& self.retry.policy() == submission_policy(self.sleep_ms as nat)
        &&& self.retry.on_policy()
        &&& self.tokens.policy() == token_policy()
        &&& self.tokens.on_policy()
    }

    /// The worker for `task`, before its first attempt. The wait after its
    /// first failed attempt lasts `sleep_ms` milliseconds.
    pub fn new(task: MintTask, sleep_ms: u64) -> (worker: MintWorker)
        ensures
            worker.task() == task@,
            worker.sleep() == sleep_ms,
            worker.failures() == 0,
            worker.token_failures() == 0,
            worker.delay() == sleep_ms,
    {
        let retry = RetryState::begin(RetryPolicy::submission(sleep_ms)).unwrap();
        let tokens = RetryState::begin(RetryPolicy::freshness_token()).unwrap();
        proof {
            use_type_invariant(&retry);
            use_type_invariant(&tokens);
        }
        MintWorker { task, sleep_ms, retry, tokens }
    }

    /// The wallet's address.
    pub fn wallet(&self) -> (wallet: &String)
        ensures
            wallet@ == self.task().wallet,
    {
        &self.task.wallet
    }

    /// The key that the wallet's address stands for.
    pub fn key(&self) -> (key: &[u8; 32])
        ensures
            key@ == self.task().key,
    {
        &self.task.key
    }

    /// How many tokens to mint.
    pub fn amount(&self) -> (amount: u64)
        ensures
            amount == self.task().amount,
    {
        self.task.amount
    }

    /// How many attempts are left, the current one included.
    pub fn attempts_left(&self) -> (left: u32)
        ensures
            left == 5 - self.failures(),
    {
        proof {
            use_type_invariant(self);
            use_type_invariant(&self.retry);
        }
        self.retry.attempts_left().unwrap()
    }

    /// How many fetches of the token are left in the current attempt, the
    /// next one included.
    pub fn token_fetches_left(&self) -> (left: u32)
        ensures
            left == 10 - self.token_failures(),
    {
        proof {
            use_type_invariant(self);
            use_type_invariant(&self.tokens);
        }
        self.tokens.attempts_left().unwrap()
    }

    /// Records that a freshness token was obtained. What is left of the
    /// attempt is the submission.
    pub fn token_obtained(self) -> (submission: MintSubmission)
        ensures
            submission.task() == self.task(),
            submission.sleep() == self.sleep(),
            submission.failures() == self.failures(),
            submission.delay() == self.delay(),
    {
        proof {
            use_type_invariant(&self);
        }
        MintSubmission { task: self.task, sleep_ms: self.sleep_ms, retry: self.retry }
    }

    /// Records that a fetch of the freshness token has failed. After each of
    /// the first nine failures within an attempt the answer is to wait two
    /// seconds and fetch again. The tenth fails the attempt: the answer is
    /// the one that [`MintSubmission::rejected`] gives.
    pub fn token_failed(self) -> (progress: MintProgress)
        ensures
            match progress {
                MintProgress::Retry { worker, delay_ms } => {
                    &&& worker.task() == self.task()
                    &&& worker.sleep() == self.sleep()
                    &&& if self.token_failures() + 1 < 10 {
                        &&& worker.failures() == self.failures()
                        &&& worker.token_failures() == self.token_failures() + 1
                        &&& worker.delay() == self.delay()
                        &&& delay_ms == 2000
                    } else {
                        &&& self.failures() + 1 < 5
                        &&& worker.failures() == self.failures() + 1
                        &&& worker.token_failures() == 0
                        &&& worker.delay() == 2 * self.delay()
                        &&& delay_ms == self.delay()
                        &&& delay_ms == submission_policy(self.sleep()).delay_at(self.failures())
                    }
                },
                MintProgress::Finished(outcome) => {
                    &&& self.token_failures() + 1 == 10
                    &&& self.failures() + 1 == 5
                    &&& outcome@ == failed_outcome(self.task())
                },
            },
    {
        proof {
            use_type_invariant(&self);
        }
        let MintWorker { task, sleep_ms, retry, tokens } = self;
        proof {
            use_type_invariant(&tokens);
        }
        match tokens.fail() {
            RetryStep::Retry { state, delay_ms } => {
                proof {
                    use_type_invariant(&state);
                }
                MintProgress::Retry {
                    worker: MintWorker { task, sleep_ms, retry, tokens: state },
                    delay_ms,
                }
            },
            RetryStep::Exhausted => attempt_failed(task, sleep_ms, retry),
        }
    }
}

impl MintSubmission {
    /// The task that the worker carries out.
    pub closed spec fn task(&self) -> TaskView {
        self.task@
    }

    /// The milliseconds that the wait after the first failed attempt lasts.
    pub closed spec fn sleep(&self) -> nat {
        self.sleep_ms as nat
    }

    /// The number of attempts that have failed so far.
    pub closed spec fn failures(&self) -> nat {
        self.retry.failures()
    }

    /// The milliseconds to wait if the submission is not confirmed and
    /// another attempt follows.
    pub closed spec fn delay(&self) -> nat {
        self.retry@.delay
    }

    /// Holds of every submission: it is part of one of the five attempts.
    #[verifier::type_invariant]
    pub open spec fn wf(self) -> bool {
        &&& self.failures() < 5
        &&& self.on_policy()
    }

    /// Whether the retry budget is the one of the submission policy.
    pub closed spec fn on_policy(self) -> bool {
        &&& self.retry.policy() == submission_policy(self.sleep_ms as nat)
        &&& self.retry.on_policy()
    }

    /// The wallet's address.
    pub fn wallet(&self) -> (wallet: &String)
        ensures
            wallet@ == self.task().wallet,
    {
        &self.task.wallet
    }

    /// The key that the wallet's address stands for.
    pub fn key(&self) -> (key: &[u8; 32])
        ensures
            key@ == self.task().key,
    {
        &self.task.key
    }

    /// How many tokens to mint.
    pub fn amount(&self) -> (amount: u64)
        ensures
            amount == self.task().amount,
    {
        self.task.amount
    }

    /// Ends the task with success: the mint was confirmed under
    /// `signature`.
    pub fn confirmed(self, signature: String) -> (outcome: MintOutcome)
        ensures
            outcome@ == (OutcomeView {
                wallet: self.task().wallet,
                receipt: MintReceipt::confirmed(signature@),
            }),
    {
        MintOutcome { wallet: self.task.wallet, info: MintTxInfo::confirmed(signature) }
    }

    /// Records that the submission was not confirmed, which fails the
    /// attempt. After each of the first four failed attempts the answer is
    /// to wait, twice as long each time, and begin the next attempt with a
    /// fetch of the token; the fifth ends the task with the outcome of a
    /// failed mint.
    pub fn rejected(self) -> (progress: MintProgress)
        ensures
            match progress {
                MintProgress::Retry { worker, delay_ms } => {
                    &&& self.failures() + 1 < 5
                    &&& worker.task() == self.task()
                    &&& worker.sleep() == self.sleep()
                    &&& worker.failures() == self.failures() + 1
                    &&& worker.token_failures() == 0
                    &&& worker.delay() == 2 * self.delay()
                    &&& delay_ms == self.delay()
                    &&& delay_ms == submission_policy(self.sleep()).delay_at(self.failures())
                },
                MintProgress::Finished(outcome) => {
                    &&& self.failures() + 1 == 5
                    &&& outcome@ == failed_outcome(self.task())
                },
            },
    {
        proof {
            use_type_invariant(&self);
        }
        attempt_failed(self.task, self.sleep_ms, self.retry)
    }
}

/// The outcome of one holder-resolution task: the key of the wallet that
/// owns the asset.
#[derive(Clone, Copy, Debug, PartialEq, Eq)]
pub struct HolderOutcome {
    pub owner: [u8; 32],
}

/// What a reply to the holder query says about the owner of the asset.
pub enum Resolution {
    /// The asset is owned by the wallet with this key.
    Owner(Seq<u8>),
    /// No owner is known yet.
    NotYet,
    /// The first account of the reply does not hold one key.
    Malformed,
}

/// Reads a reply to the holder query. No reply at all and a reply without
/// accounts both leave the owner open; otherwise the first account's data is
/// the owner's key.
pub open spec fn resolve(reply: Option<Vec<Vec<u8>>>) -> Resolution {
    match reply {
        None => Resolution::NotYet,
        Some(accounts) => if accounts@.len() == 0 {
            Resolution::NotYet
        } else if accounts@[0]@.len() == 32 {
            Resolution::Owner(accounts@[0]@)
        } else {
            Resolution::Malformed
        },
    }
}

/// The worker that resolves the holder of one asset. It polls for as long
/// as it takes.
pub struct HolderWorker {
    asset: [u8; 32],
    interval_ms: u64,
    retry: RetryState,
}

/// What a holder worker answers to a reply.
pub enum HolderProgress {
    /// The task is over: this is its outcome.
    Found(HolderOutcome),
    /// Wait for `delay_ms` milliseconds and ask again.
    PollAgain { worker: HolderWorker, delay_ms: u128 },
    /// The reply cannot be read. This is no failure of the remote call but
    /// an error in what was asked or answered, and the run cannot go on.
    Malformed,
}

impl HolderWorker {
    /// The mint key of the asset whose holder is looked for.
    pub closed spec fn asset(&self) -> Seq<u8> {
        self.asset@
    }

    /// The milliseconds between two polls.
    pub closed spec fn interval(&self) -> nat {
        self.interval_ms as nat
    }

    /// Holds of every holder worker: it runs under the polling policy.
    #[verifier::type_invariant]
    pub closed spec fn wf(self) -> bool {
        &&& self.retry.policy() == polling_policy(self.interval_ms as nat)
        &&& self.retry.on_policy()
    }

    /// The worker for the asset with the mint key `asset`, which polls every
    /// `interval_ms` milliseconds.
    pub fn new(asset: [u8; 32], interval_ms: u64) -> (worker: HolderWorker)
        ensures
            worker.asset() == asset@,
            worker.interval() == interval_ms,
    {
        let policy = RetryPolicy::polling(interval_ms);
        let retry = RetryState::begin(policy).unwrap();
        proof {
            use_type_invariant(&retry);
        }
        HolderWorker { asset, interval_ms, retry }
    }

    /// The milliseconds to wait before the first poll, which spread the
    /// first requests of the workers.
    pub fn initial_delay_ms(&self) -> (delay_ms: u128)
        ensures
            delay_ms == self.interval(),
    {
        self.interval_ms as u128
    }

    /// The query to poll with.
    pub fn query(&self) -> (query: AccountQuery)
        ensures
            query@ == holder_query_view(self.asset()),
    {
        holder_query(&self.asset)
    }

    /// Takes the reply to one poll: the data of the accounts that the query
    /// gave, or `None` where the remote call failed. A reply that names the
    /// owner ends the task; one that leaves the owner open is answered by
    /// waiting one interval and asking again, however often that has
    /// happened before.
    pub fn report(self, reply: Option<Vec<Vec<u8>>>) -> (progress: HolderProgress)
        ensures
            match resolve(reply) {
                Resolution::Owner(key) => progress matches HolderProgress::Found(outcome)
                    && outcome.owner@ == key,
                Resolution::NotYet => progress matches HolderProgress::PollAgain {
                    worker,
                    delay_ms,
                } && worker.asset() == self.asset() && worker.interval() == self.interval()
                    && delay_ms == self.interval(),
                Resolution::Malformed => progress is Malformed,
            },
    {
        proof {
            use_type_invariant(&self);
        }
        let HolderWorker { asset, interval_ms, retry } = self;
        if let Some(accounts) = reply {
            if accounts.len() > 0 {
                return match account_key(&accounts[0]) {
                    Some(owner) => HolderProgress::Found(HolderOutcome { owner }),
                    None => HolderProgress::Malformed,
                };
            }
        }
        proof {
            use_type_invariant(&retry);
        }
        match retry.fail() {
            RetryStep::Retry { state, delay_ms } => {
                proof {
                    use_type_invariant(&state);
                }
                HolderProgress::PollAgain {
                    worker: HolderWorker { asset, interval_ms, retry: state },
                    delay_ms,
                }
            },
            RetryStep::Exhausted => vstd::pervasive::unreached(),
        }
    }
}

} // verus!

//! The retry policy of unary requests: what an attempt came to decides
//! whether the request is done or is tried again, up to a fixed number of
//! retries.

use crate::error::{ClientError, ClientResult, HttpFailure};
use std::time::Duration;
use vstd::prelude::*;

verus! {

/// A response whose status is in 2xx.
#[derive(Debug, Clone, PartialEq, Eq)]
pub struct HttpResponse {
    pub status: u16,
    pub body: String,
}

/// What one attempt came to.
#[derive(Debug, Clone, PartialEq, Eq)]
pub enum AttemptOutcome {
    /// The server answered with this status and body.
    Response { status: u16, body: String },
    /// The transport failed.
    Failure(HttpFailure),
}

/// What the executor does after an attempt.
#[derive(Debug, PartialEq, Eq)]
pub enum Decision {
    /// The request is over, with this result.
    Done(ClientResult<HttpResponse>),
    /// The request is tried again once the retry delay has passed. `retry`
    /// counts the retries, this one included; `error` is why the attempt
    /// failed.
    Retry { retry: usize, error: ClientError },
}

/// Whether `status` is in 2xx.
pub open spec fn is_success(status: u16) -> bool {
    200 <= status <= 299
}

/// The error that an attempt stands for, if it failed: a status outside 2xx
/// is classified with the body as its message, a transport failure is an
/// HTTP error.
pub open spec fn outcome_error(outcome: AttemptOutcome) -> Option<ClientError> {
    match outcome {
        AttemptOutcome::Response { status, body } => if is_success(status) {
            None
        } else {
            Some(ClientError::of_response(status, body))
        },
        AttemptOutcome::Failure(f) => Some(ClientError::HttpError(f)),
    }
}

/// What the executor does after an attempt that came to `outcome`, with
/// `used` of at most `max_retries` retries taken. A response in 2xx ends the
/// request with that response. A failure is retried where it is retryable
/// and a retry is left; any other failure ends the request.
pub open spec fn decide(max_retries: usize, used: usize, outcome: AttemptOutcome) -> Decision {
    match outcome_error(outcome) {
        None => Decision::Done(
            Ok(HttpResponse { status: outcome->status, body: outcome->body }),
        ),
        Some(e) => if e.retryable() && used < max_retries {
            Decision::Retry { retry: (used + 1) as usize, error: e }
        } else {
            Decision::Done(Err(e))
        },
    }
}

/// How a request went: its result, if it has one yet, and the attempts made.
pub struct Run {
    pub result: Option<ClientResult<HttpResponse>>,
    pub attempts: nat,
}

/// How a request goes whose attempts come to `outcomes`, in order, with
/// `used` retries taken before. Outcomes behind the one that ends the
/// request are never asked for. Where the outcomes run out first, the
/// request has no result yet.
pub open spec fn run(max_retries: usize, used: usize, outcomes: Seq<AttemptOutcome>) -> Run
    decreases outcomes.len(),
{
    if outcomes.len() == 0 {
        Run { result: None, attempts: 0 }
    } else {
        match decide(max_retries, used, outcomes[0]) {
            Decision::Done(r) => Run { result: Some(r), attempts: 1 },
            Decision::Retry { retry, .. } => {
                let rest = run(max_retries, retry, outcomes.drop_first());
                Run { result: rest.result, attempts: rest.attempts + 1 }
            },
        }
    }
}

/// The state of one request: the bound on retries, the pause before each
/// retry, and the retries taken.
pub struct RetryState {
    max_retries: usize,
    retry_delay: Duration,
    retries: usize,
}

impl RetryState {
    /// No more retries are taken than the bound allows.
    #[verifier::type_invariant]
    spec fn well_formed(self) -> bool {
        self.retries <= self.max_retries
    }

    /// The bound on retries.
    pub closed spec fn limit(self) -> usize {
        self.max_retries
    }

    /// The retries taken.
    pub closed spec fn used(self) -> usize {
        self.retries
    }

    /// The pause before each retry: the same for every retry of the
    /// request.
    pub closed spec fn delay(self) -> Duration {
        self.retry_delay
    }

    /// The state before the first attempt of a request that may be retried
    /// `max_retries` times, each time after `retry_delay`.
    pub fn new(max_retries: usize, retry_delay: Duration) -> (s: Self)
        ensures
            s.limit() == max_retries,
            s.delay() == retry_delay,
            s.used() == 0,
    {
        RetryState { max_retries, retry_delay, retries: 0 }
    }

    /// The retries taken.
    pub fn retries(&self) -> (n: usize)
        ensures
            n == self.used(),
            n <= self.limit(),
    {
        proof {
            use_type_invariant(self);
        }
        self.retries
    }

    /// The pause before each retry.
    pub fn retry_delay(&self) -> (d: Duration)
        ensures
            d == self.delay(),
    {
        self.retry_delay.clone()
    }

    /// Takes in what an attempt came to and decides what to do next. A
    /// retry is counted; the pause before it stays as it is.
    pub fn on_outcome(&mut self, outcome: AttemptOutcome) -> (d: Decision)
        ensures
            d == decide(old(self).limit(), old(self).used(), outcome),
            final(self).limit() == old(self).limit(),
            final(self).delay() == old(self).delay(),
            final(self).used() == if d is Retry {
                old(self).used() + 1
            } else {
                old(self).used() as int
            },
    {
        proof {
            use_type_invariant(&*self);
        }
        let error = match outcome {
            AttemptOutcome::Response { status, body } => {
                if 200 <= status && status <= 299 {
                    return Decision::Done(Ok(HttpResponse { status, body }));
                }
                ClientError::from_response(status, body)
            },
            AttemptOutcome::Failure(f) => ClientError::HttpError(f),
        };
        if error.is_retryable() && self.retries < self.max_retries {
            self.retries = self.retries + 1;
            Decision::Retry { retry: self.retries, error }
        } else {
            Decision::Done(Err(error))
        }
    }
}

/// Carries out a request against attempts that come to `outcomes`, in
/// order: the result, if the outcomes suffice for one, and the number of
/// attempts made.
pub fn replay(max_retries: usize, outcomes: Vec<AttemptOutcome>) -> (r: (
    Option<ClientResult<HttpResponse>>,
    usize,
))
    ensures
        r.0 == run(max_retries, 0, outcomes@).result,
        r.1 == run(max_retries, 0, outcomes@).attempts,
{
    let mut state = RetryState::new(max_retries, Duration::from_secs(0));
    let mut attempts: usize = 0;
    let ghost all = outcomes@;
    proof {
        assert(all.skip(0) =~= all);
        assert(all.len() == outcomes.len());
    }
    for outcome in it: outcomes
        invariant
            it.seq() == all,
            all.len() <= usize::MAX,
            attempts == it.index(),
            state.limit() == max_retries,
            run(max_retries, 0, all).result == run(
                max_retries,
                state.used(),
                all.skip(attempts as int),
            ).result,
            run(max_retries, 0, all).attempts == attempts + run(
                max_retries,
                state.used(),
                all.skip(attempts as int),
            ).attempts,
    {
        proof {
            assert(all.skip(attempts as int)[0] == outcome);
            assert(all.skip(attempts as int).drop_first() =~= all.skip(attempts + 1));
        }
        attempts = attempts + 1;
        match state.on_outcome(outcome) {
            Decision::Done(r) => {
                return (Some(r), attempts);
            },
            Decision::Retry { .. } => {},
        }
    }
    (None, attempts)
}

/// A request whose attempts fail in a retryable way exactly `max_retries`
/// times and then succeed ends in that success, after `max_retries + 1`
/// attempts.
pub proof fn lemma_success_after_retries(max_retries: usize, outcomes: Seq<AttemptOutcome>)
    requires
        outcomes.len() == max_retries + 1,
        forall|i: int|
            0 <= i < max_retries ==> (#[trigger] outcome_error(outcomes[i])) is Some
                && outcome_error(outcomes[i])->0.retryable(),
        outcome_error(outcomes[max_retries as int]) is None,
    ensures
        run(max_retries, 0, outcomes).attempts == max_retries + 1,
        run(max_retries, 0, outcomes).result == Some(
            Ok::<HttpResponse, ClientError>(
                HttpResponse {
                    status: outcomes[max_retries as int]->status,
                    body: outcomes[max_retries as int]->body,
                },
            ),
        ),
{
    lemma_retries_then_success(max_retries, 0, outcomes);
}

/// The same with `used` retries taken before: as many retryable failures
/// as retries are left, then a success.
proof fn lemma_retries_then_success(max_retries: usize, used: usize, outcomes: Seq<AttemptOutcome>)
    requires
        used <= max_retries,
        outcomes.len() == max_retries - used + 1,
        forall|i: int|
            0 <= i < max_retries - used ==> (#[trigger] outcome_error(outcomes[i])) is Some
                && outcome_error(outcomes[i])->0.retryable(),
        outcome_error(outcomes.last()) is None,
    ensures
        run(max_retries, used, outcomes).attempts == max_retries - used + 1,
        run(max_retries, used, outcomes).result == Some(
            Ok::<HttpResponse, ClientError>(
                HttpResponse { status: outcomes.last()->status, body: outcomes.last()->body },
            ),
        ),
    decreases max_retries - used,
{
    if used < max_retries {
        let rest = outcomes.drop_first();
        assert(outcome_error(outcomes[0]) is Some);
        assert forall|i: int| 0 <= i < max_retries - (used + 1) implies (#[trigger] outcome_error(
            rest[i],
        )) is Some && outcome_error(rest[i])->0.retryable() by {
            assert(rest[i] == outcomes[i + 1]);
            assert(outcome_error(outcomes[i + 1]) is Some);
        }
        assert(rest.last() == outcomes.last());
        lemma_retries_then_success(max_retries, (used + 1) as usize, rest);
    }
}

/// A status 503 is a retryable failure, whatever the body.
pub proof fn lemma_unavailable_is_retryable(body: String)
    ensures
        outcome_error(AttemptOutcome::Response { status: 503, body }) is Some,
        outcome_error(AttemptOutcome::Response { status: 503, body })->0.retryable(),
{
}

/// A request whose first attempt fails in a way that is not retryable ends
/// in that failure after one attempt, whatever the bound on retries: a
/// status 404 ends it as a missing model.
pub proof fn lemma_fatal_failure_is_not_retried(max_retries: usize, outcomes: Seq<AttemptOutcome>)
    requires
        outcomes.len() > 0,
        outcome_error(outcomes[0]) is Some,
        !outcome_error(outcomes[0])->0.retryable(),
    ensures
        run(max_retries, 0, outcomes).attempts == 1,
        run(max_retries, 0, outcomes).result == Some(
            Err::<HttpResponse, ClientError>(outcome_error(outcomes[0])->0),
        ),
        outcomes[0] matches AttemptOutcome::Response { status: 404, body } ==> run(
            max_retries,
            0,
            outcomes,
        ).result == Some(Err::<HttpResponse, ClientError>(ClientError::ModelNotFound(body))),
{
}

/// No request makes more than `max_retries + 1` attempts.
pub proof fn lemma_attempts_are_bounded(
    max_retries: usize,
    used: usize,
    outcomes: Seq<AttemptOutcome>,
)
    requires
        used <= max_retries,
    ensures
        run(max_retries, used, outcomes).attempts <= max_retries - used + 1,
    decreases outcomes.len(),
{
    if outcomes.len() > 0 {
        if decide(max_retries, used, outcomes[0]) is Retry {
            lemma_attempts_are_bounded(max_retries, (used + 1) as usize, outcomes.drop_first());
        }
    }
}

} // verus!

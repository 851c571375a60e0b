use vstd::prelude::*;
use vstd::string::*;

use crate::error::AliasError;

verus! {

/// How many times one request is attempted before its failure is surfaced.
pub const MAX_ATTEMPTS: u32 = 3;

/// The wait before the first retry; each further retry waits twice as long.
pub const BASE_DELAY_MS: u64 = 250;

/// How one attempt of a request failed.
#[derive(Debug, Clone)]
pub enum Failure {
    /// No answer came: connection refused, reset or timed out.
    Network { message: String },
    /// The provider answered with a non-success status.
    Status { status: u16, message: String },
}

/// What to do after a failed attempt.
#[derive(Debug, Clone)]
pub enum RetryStep {
    /// Send the request again after waiting `delay_ms` milliseconds.
    Retry { delay_ms: u64 },
    /// Stop and surface the error.
    GiveUp(AliasError),
}

/// A failure worth another attempt: no answer at all, or a server-side status.
pub open spec fn is_transient(f: Failure) -> bool {
    match f {
        Failure::Network { .. } => true,
        Failure::Status { status, .. } => 500 <= status && status <= 599,
    }
}

/// The error a failure surfaces as.
pub open spec fn error_of(f: Failure) -> AliasError {
    match f {
        Failure::Network { message } => AliasError::NetworkError { message },
        Failure::Status { status, message } => AliasError::ApiError { status, message },
    }
}

/// The wait before the retry that follows `failures` earlier failures.
pub open spec fn backoff(failures: nat) -> nat
    decreases failures,
{
    if failures == 0 {
        BASE_DELAY_MS as nat
    } else {
        2 * backoff((failures - 1) as nat)
    }
}

/// The step taken after failure `f`, when `failures` attempts had failed before it.
pub open spec fn retry_step(failures: nat, f: Failure) -> RetryStep {
    if is_transient(f) && failures + 1 < MAX_ATTEMPTS {
        RetryStep::Retry { delay_ms: backoff(failures) as u64 }
    } else {
        RetryStep::GiveUp(error_of(f))
    }
}

/// The retry bookkeeping of one request.
pub struct RetryPolicy {
    /// The attempts of this request that have failed so far.
    pub failures: u32,
}

impl RetryPolicy {
    /// The policy of a request not yet attempted.
    pub fn new() -> (r: RetryPolicy)
        ensures
            r.failures == 0,
    {
        RetryPolicy { failures: 0 }
    }

    /// Records a failed attempt and decides whether to try again.
    pub fn after_failure(&mut self, f: Failure) -> (step: RetryStep)
        requires
            old(self).failures < MAX_ATTEMPTS,
        ensures
            final(self).failures == old(self).failures + 1,
            step == retry_step(old(self).failures as nat, f),
            step is Retry ==> final(self).failures < MAX_ATTEMPTS,
    {
        let prior = self.failures;
        self.failures = self.failures + 1;
        let transient = match &f {
            Failure::Network { .. } => true,
            Failure::Status { status, .. } => 500 <= *status && *status <= 599,
        };
        if transient && self.failures < MAX_ATTEMPTS {
            proof {
                reveal_with_fuel(backoff, 3);
            }
            let delay_ms = if prior == 0 {
                BASE_DELAY_MS
            } else {
                BASE_DELAY_MS * 2
            };
            RetryStep::Retry { delay_ms }
        } else {
            match f {
                Failure::Network { message } => RetryStep::GiveUp(AliasError::NetworkError { message }),
                Failure::Status { status, message } => RetryStep::GiveUp(AliasError::ApiError { status, message }),
            }
        }
    }
}

/// An attempt outcome that is a transient failure.
pub open spec fn transient_outcome(o: Option<Failure>) -> bool {
    match o {
        Some(f) => is_transient(f),
        None => false,
    }
}

/// How a request ends when its attempts meet `outcomes` in turn (`None` for a
/// success), `failures` attempts having failed before: `Ok` with the number of
/// attempts made, `Err` with the surfaced error, `None` if the outcomes run out.
pub open spec fn replay(failures: nat, outcomes: Seq<Option<Failure>>) -> Option<Result<nat, AliasError>>
    decreases outcomes.len(),
{
    if outcomes.len() == 0 {
        None
    } else {
        match outcomes[0] {
            None => Some(Ok(failures + 1)),
            Some(f) => match retry_step(failures, f) {
                RetryStep::Retry { .. } => replay(failures + 1, outcomes.drop_first()),
                RetryStep::GiveUp(e) => Some(Err(e)),
            },
        }
    }
}

/// A request whose attempts fail transiently fewer times than the ceiling
/// allows, and then succeed, succeeds.
pub proof fn lemma_transient_failures_recovered(failures: nat, outcomes: Seq<Option<Failure>>, k: nat)
    requires
        k < outcomes.len(),
        failures + k < MAX_ATTEMPTS,
        forall|i: int| 0 <= i < k ==> transient_outcome(#[trigger] outcomes[i]),
        outcomes[k as int] is None,
    ensures
        replay(failures, outcomes) == Some(Ok::<nat, AliasError>(failures + k + 1)),
    decreases k,
{
    if k > 0 {
        let rest = outcomes.drop_first();
        assert forall|i: int| 0 <= i < k - 1 implies transient_outcome(#[trigger] rest[i]) by {
            assert(rest[i] == outcomes[i + 1]);
        }
        assert(transient_outcome(outcomes[0]));
        lemma_transient_failures_recovered(failures + 1, rest, (k - 1) as nat);
    }
}

/// A request whose first attempt fails with a non-transient status is not
/// retried: it ends at once with that status.
pub proof fn lemma_permanent_failure_not_retried(outcomes: Seq<Option<Failure>>)
    requires
        outcomes.len() > 0,
        outcomes[0] is Some,
        !is_transient(outcomes[0]->0),
    ensures
        replay(0, outcomes) == Some(Err::<nat, AliasError>(error_of(outcomes[0]->0))),
{
}

/// The value of the authorization header that carries `token`.
pub fn authorization_value(token: &str) -> (r: String)
    ensures
        r@ == seq!['B', 'e', 'a', 'r', 'e', 'r', ' '] + token@,
{
    proof {
        reveal_strlit("Bearer ");
    }
    let mut s = String::from_str("Bearer ");
    s.append(token);
    s
}

/// The failure an answer with HTTP `status` stands for: none for a 2xx status.
pub fn response_failure(status: u16, message: String) -> (r: Option<Failure>)
    ensures
        200 <= status <= 299 ==> r is None,
        !(200 <= status <= 299) ==> r == Some(Failure::Status { status, message }),
{
    if 200 <= status && status <= 299 {
        None
    } else {
        Some(Failure::Status { status, message })
    }
}

/// The path of the forwarding-rule collection of zone `zone`, under the API root.
pub fn rules_path(zone: &str) -> (r: String)
    ensures
        r@ == "/zones/"@ + zone@ + "/email/routing/rules"@,
{
    let mut s = String::from_str("/zones/");
    s.append(zone);
    s.append("/email/routing/rules");
    s
}

} // verus!

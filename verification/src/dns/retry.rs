//! Retry control of one lookup: a state machine that is fed the outcome of
//! each attempt and answers with the next attempt or the final result.

use crate::dns::ip::{reverse_name, IpAddress, IpAddressView};
use crate::dns::result::{opt_text, LookupResult, LookupResultView, LookupStatus};
use crate::error::{ErrorView, ReverDNSError};
use crate::text::{
    chars_of, is_substring, str_contains, string_of, strip_trailing, strip_trailing_dots,
    texts_of,
};
use vstd::prelude::*;
use vstd::string::StringExecFns;

verus! {

/// How one resolution attempt ended.
#[derive(Debug, Clone)]
pub enum AttemptOutcome {
    /// The resolver answered; carries the names of the answer, in order.
    Resolved(Vec<String>),
    /// The resolver reported a failure; carries its message.
    Failed(String),
    /// The attempt exceeded the time limit of one attempt.
    TimedOut,
}

/// The mathematical value of an [`AttemptOutcome`].
pub enum OutcomeView {
    Resolved(Seq<Seq<char>>),
    Failed(Seq<char>),
    TimedOut,
}

impl View for AttemptOutcome {
    type V = OutcomeView;

    open spec fn view(&self) -> OutcomeView {
        match self {
            AttemptOutcome::Resolved(names) => OutcomeView::Resolved(texts_of(names@)),
            AttemptOutcome::Failed(m) => OutcomeView::Failed(m@),
            AttemptOutcome::TimedOut => OutcomeView::TimedOut,
        }
    }
}

/// How an attempt ended, given what the resolver handed back: names, or an
/// error. A `Timeout` is an attempt that timed out, a `ResolutionFailed`
/// is a failure with the message it carries, and any other error is a
/// failure with the line that describes the error.
pub open spec fn outcome_of(attempt: Result<Seq<Seq<char>>, ErrorView>) -> OutcomeView {
    match attempt {
        Ok(names) => OutcomeView::Resolved(names),
        Err(ErrorView::Timeout) => OutcomeView::TimedOut,
        Err(ErrorView::ResolutionFailed(message)) => OutcomeView::Failed(message),
        Err(e) => OutcomeView::Failed(e.message()),
    }
}

/// The value of what a resolver handed back.
pub open spec fn attempt_view(attempt: Result<Vec<String>, ReverDNSError>) -> Result<
    Seq<Seq<char>>,
    ErrorView,
> {
    match attempt {
        Ok(names) => Ok(texts_of(names@)),
        Err(e) => Err(e@),
    }
}

impl AttemptOutcome {
    /// How an attempt ended, given what the resolver handed back.
    pub fn from_result(attempt: Result<Vec<String>, ReverDNSError>) -> (outcome: AttemptOutcome)
        ensures
            outcome@ == outcome_of(attempt_view(attempt)),
    {
        match attempt {
            Ok(names) => AttemptOutcome::Resolved(names),
            Err(ReverDNSError::Timeout) => AttemptOutcome::TimedOut,
            Err(ReverDNSError::ResolutionFailed(message)) => AttemptOutcome::Failed(message),
            Err(e) => AttemptOutcome::Failed(e.to_string()),
        }
    }
}

/// The error recorded for an attempt that exceeded its time limit.
pub open spec fn timeout_text() -> Seq<char> {
    "Timeout"@
}

/// The error recorded for an answer that holds no name.
pub open spec fn no_records_text() -> Seq<char> {
    "NoRecordsFound: the answer holds no name"@
}

/// A failure that no retry can mend: its message says that the domain does
/// not exist or that there are no records.
pub open spec fn is_hard_failure(message: Seq<char>) -> bool {
    is_substring("NXDOMAIN"@, message) || is_substring("NoRecordsFound"@, message)
}

/// The attempt failed in a way that a retry may mend.
pub open spec fn is_retryable_outcome(o: OutcomeView) -> bool {
    match o {
        OutcomeView::TimedOut => true,
        OutcomeView::Failed(m) => !is_hard_failure(m),
        OutcomeView::Resolved(_) => false,
    }
}

/// The attempt failed in a way that no retry can mend.
pub open spec fn is_hard_outcome(o: OutcomeView) -> bool {
    match o {
        OutcomeView::TimedOut => false,
        OutcomeView::Failed(m) => is_hard_failure(m),
        OutcomeView::Resolved(names) => names.len() == 0,
    }
}

/// What changes from attempt to attempt of one lookup.
#[derive(Debug, Clone)]
pub struct RetryState {
    /// The number of the attempt that is due, counted from zero.
    pub attempt: u32,
    /// The error of the attempt before it, if there was one.
    pub last_error: Option<String>,
}

/// One lookup in progress: its target, the settings it runs under, and its
/// retry state.
#[derive(Debug)]
pub struct Lookup {
    ip: String,
    address: IpAddress,
    resolver: String,
    retry_count: u32,
    retry_backoff_ms: u64,
    state: RetryState,
}

/// The mathematical value of a [`Lookup`].
pub struct LookupView {
    pub ip: Seq<char>,
    pub address: IpAddressView,
    pub resolver: Seq<char>,
    pub retry_count: u32,
    pub retry_backoff_ms: u64,
    pub attempt: u32,
    pub last_error: Option<Seq<char>>,
}

/// What follows an attempt.
#[derive(Debug)]
pub enum LookupStep {
    /// Another attempt is due, after the backoff of the new state.
    Retry(Lookup),
    /// The lookup is over.
    Done(LookupResult),
}

/// The mathematical value of a [`LookupStep`].
pub enum StepView {
    Retry(LookupView),
    Done(LookupResultView),
}

impl LookupView {
    /// The state before the first attempt.
    pub open spec fn initial(
        ip: Seq<char>,
        address: IpAddressView,
        resolver: Seq<char>,
        retry_count: u32,
        retry_backoff_ms: u64,
    ) -> LookupView {
        LookupView {
            ip,
            address,
            resolver,
            retry_count,
            retry_backoff_ms,
            attempt: 0,
            last_error: None,
        }
    }

    /// The attempt that is due is within the retry budget.
    pub open spec fn wf(self) -> bool {
        self.attempt <= self.retry_count
    }

    /// The wait before the attempt that is due, in milliseconds: the
    /// backoff base times the number of the attempt.
    pub open spec fn backoff_ms(self) -> int {
        self.retry_backoff_ms * self.attempt
    }

    /// The state in which the next attempt is due.
    pub open spec fn next(self, error: Seq<char>) -> LookupView {
        LookupView { attempt: (self.attempt + 1) as u32, last_error: Some(error), ..self }
    }

    /// The result of a lookup that succeeded with `hostname`.
    pub open spec fn success(self, hostname: Seq<char>, latency_ms: u128) -> LookupResultView {
        LookupResultView {
            ip: self.ip,
            hostname: Some(hostname),
            status: LookupStatus::Success,
            ttl: None,
            latency_ms,
            resolver: self.resolver,
            error: None,
        }
    }

    /// The result of a lookup that ended without a name.
    pub open spec fn failure(
        self,
        status: LookupStatus,
        error: Seq<char>,
        latency_ms: u128,
    ) -> LookupResultView {
        LookupResultView {
            ip: self.ip,
            hostname: None,
            status,
            ttl: None,
            latency_ms,
            resolver: self.resolver,
            error: Some(error),
        }
    }

    /// The transition rule. A resolved attempt ends the lookup with the
    /// first name of the answer, trailing dots removed. A timeout or a
    /// failure that a retry may mend leads to the next attempt while the
    /// budget lasts, and ends the lookup as `Timeout` or `Failed` when it is
    /// spent. A failure that no retry can mend ends the lookup at once.
    pub open spec fn advance(self, outcome: OutcomeView, elapsed_ms: u128) -> StepView {
        match outcome {
            OutcomeView::Resolved(names) => {
                if names.len() > 0 {
                    StepView::Done(self.success(strip_trailing_dots(names[0]), elapsed_ms))
                } else {
                    StepView::Done(
                        self.failure(LookupStatus::Failed, no_records_text(), elapsed_ms),
                    )
                }
            },
            OutcomeView::TimedOut => {
                if self.attempt < self.retry_count {
                    StepView::Retry(self.next(timeout_text()))
                } else {
                    StepView::Done(
                        self.failure(LookupStatus::Timeout, timeout_text(), elapsed_ms),
                    )
                }
            },
            OutcomeView::Failed(message) => {
                if !is_hard_failure(message) && self.attempt < self.retry_count {
                    StepView::Retry(self.next(message))
                } else {
                    StepView::Done(self.failure(LookupStatus::Failed, message, elapsed_ms))
                }
            },
        }
    }
}

/// How a lookup went over a series of attempts: how many attempts were made,
/// and the result if the lookup came to an end.
pub struct RunView {
    pub attempts: nat,
    pub result: Option<LookupResultView>,
}

/// Runs a lookup from state `l` over the outcomes of its attempts, in order,
/// until it ends or the outcomes run out.
pub open spec fn lookup_run(
    l: LookupView,
    outcomes: Seq<OutcomeView>,
    elapsed_ms: u128,
) -> RunView
    decreases outcomes.len(),
{
    if outcomes.len() == 0 {
        RunView { attempts: 0, result: None }
    } else {
        match l.advance(outcomes[0], elapsed_ms) {
            StepView::Done(r) => RunView { attempts: 1, result: Some(r) },
            StepView::Retry(next) => {
                let rest = lookup_run(next, outcomes.drop_first(), elapsed_ms);
                RunView { attempts: rest.attempts + 1, result: rest.result }
            },
        }
    }
}

/// Every result that the transition rule produces has a hostname exactly
/// when it is a success, and an error exactly when it is not.
pub proof fn lemma_results_consistent(l: LookupView, outcome: OutcomeView, elapsed_ms: u128)
    ensures
        l.advance(outcome, elapsed_ms) matches StepView::Done(r) ==> r.consistent(),
        l.wf() ==> (l.advance(outcome, elapsed_ms) matches StepView::Retry(next) ==> next.wf()),
{
}

/// A lookup whose every attempt fails in a way that a retry may mend makes
/// one attempt and then all the retries that are left, and ends as `Failed`
/// or `Timeout`. From the initial state with a budget of `N` retries that
/// is `N + 1` attempts.
pub proof fn lemma_retry_budget(l: LookupView, outcomes: Seq<OutcomeView>, elapsed_ms: u128)
    requires
        l.wf(),
        outcomes.len() > l.retry_count - l.attempt,
        forall|i: int|
            0 <= i <= l.retry_count - l.attempt ==> is_retryable_outcome(#[trigger] outcomes[i]),
    ensures
        lookup_run(l, outcomes, elapsed_ms).attempts == l.retry_count - l.attempt + 1,
        lookup_run(l, outcomes, elapsed_ms).result is Some,
        lookup_run(l, outcomes, elapsed_ms).result.unwrap().status == LookupStatus::Failed || lookup_run(
            l,
            outcomes,
            elapsed_ms,
        ).result.unwrap().status == LookupStatus::Timeout,
    decreases l.retry_count - l.attempt,
{
    assert(is_retryable_outcome(outcomes[0]));
    if l.attempt < l.retry_count {
        let error = match outcomes[0] {
            OutcomeView::Failed(m) => m,
            _ => timeout_text(),
        };
        let next = l.next(error);
        assert(l.advance(outcomes[0], elapsed_ms) == StepView::Retry(next));
        let rest = outcomes.drop_first();
        assert forall|i: int| 0 <= i <= next.retry_count - next.attempt implies is_retryable_outcome(
            #[trigger] rest[i],
        ) by {
            assert(rest[i] == outcomes[i + 1]);
        }
        lemma_retry_budget(next, rest, elapsed_ms);
    }
}

/// Whatever the attempts bring, a lookup makes no more attempts than one
/// and the retries that are left, it stops only with a result or when the
/// outcomes run out, and its result is consistent.
pub proof fn lemma_attempts_within_budget(
    l: LookupView,
    outcomes: Seq<OutcomeView>,
    elapsed_ms: u128,
)
    requires
        l.wf(),
    ensures
        lookup_run(l, outcomes, elapsed_ms).attempts <= l.retry_count - l.attempt + 1,
        lookup_run(l, outcomes, elapsed_ms).attempts <= outcomes.len(),
        lookup_run(l, outcomes, elapsed_ms).result is None ==> lookup_run(l, outcomes, elapsed_ms).attempts
            == outcomes.len(),
        lookup_run(l, outcomes, elapsed_ms).result matches Some(r) ==> r.consistent(),
    decreases outcomes.len(),
{
    if outcomes.len() > 0 {
        match l.advance(outcomes[0], elapsed_ms) {
            StepView::Done(_) => {},
            StepView::Retry(next) => {
                lemma_attempts_within_budget(next, outcomes.drop_first(), elapsed_ms);
            },
        }
    }
}

/// A lookup whose attempt fails in a way that no retry can mend ends with
/// that attempt as `Failed`, whatever is left of the retry budget.
pub proof fn lemma_hard_failure_stops(
    l: LookupView,
    outcomes: Seq<OutcomeView>,
    elapsed_ms: u128,
)
    requires
        outcomes.len() > 0,
        is_hard_outcome(outcomes[0]),
    ensures
        lookup_run(l, outcomes, elapsed_ms).attempts == 1,
        lookup_run(l, outcomes, elapsed_ms).result is Some,
        lookup_run(l, outcomes, elapsed_ms).result.unwrap().status == LookupStatus::Failed,
{
}

/// Whether the message of a failure says that no retry can mend it.
pub fn message_is_hard_failure(message: &str) -> (b: bool)
    ensures
        b == is_hard_failure(message@),
{
    str_contains(message, "NXDOMAIN") || str_contains(message, "NoRecordsFound")
}

/// A name without the dots of the root label at its end.
pub fn without_trailing_dots(name: &str) -> (s: String)
    ensures
        s@ == strip_trailing_dots(name@),
{
    let v = chars_of(name);
    let kept = strip_trailing(&v, '.');
    string_of(&kept)
}

impl Lookup {
    #[verifier::type_invariant]
    spec fn in_budget(self) -> bool {
        self.state.attempt <= self.retry_count
    }

    /// The mathematical value of the lookup.
    pub closed spec fn view(&self) -> LookupView {
        LookupView {
            ip: self.ip@,
            address: self.address@,
            resolver: self.resolver@,
            retry_count: self.retry_count,
            retry_backoff_ms: self.retry_backoff_ms,
            attempt: self.state.attempt,
            last_error: opt_text(self.state.last_error),
        }
    }

    /// A lookup of `address`, given as the text `ip`, before its first
    /// attempt.
    pub(crate) fn start(
        ip: String,
        address: IpAddress,
        resolver: String,
        retry_count: u32,
        retry_backoff_ms: u64,
    ) -> (l: Lookup)
        ensures
            l@ == LookupView::initial(ip@, address@, resolver@, retry_count, retry_backoff_ms),
            l@.wf(),
    {
        Lookup {
            ip,
            address,
            resolver,
            retry_count,
            retry_backoff_ms,
            state: RetryState { attempt: 0, last_error: None },
        }
    }

    /// The number of the attempt that is due, counted from zero.
    pub fn attempt(&self) -> (n: u32)
        ensures
            n == self@.attempt,
            self@.wf(),
    {
        proof {
            use_type_invariant(self);
        }
        self.state.attempt
    }

    /// What changes from attempt to attempt: the number of the attempt that
    /// is due and the error of the attempt before it.
    pub fn retry_state(&self) -> (state: &RetryState)
        ensures
            state.attempt == self@.attempt,
            opt_text(state.last_error) == self@.last_error,
    {
        &self.state
    }

    /// The target as it was given.
    pub fn ip(&self) -> (ip: &String)
        ensures
            ip@ == self@.ip,
    {
        &self.ip
    }

    /// The address that is looked up.
    pub fn address(&self) -> (a: IpAddress)
        ensures
            a@ == self@.address,
    {
        self.address
    }

    /// The name under which the PTR record is queried.
    pub fn query_name(&self) -> (name: String)
        ensures
            name@ == reverse_name(self@.address),
    {
        self.address.reverse_name()
    }

    /// The wait before the attempt that is due, in milliseconds.
    pub fn backoff_ms(&self) -> (ms: u128)
        ensures
            ms == self@.backoff_ms(),
    {
        let base: u128 = self.retry_backoff_ms as u128;
        let n: u128 = self.state.attempt as u128;
        assert(base * n <= 0xffff_ffff_ffff_ffff * 0xffff_ffff) by (nonlinear_arith)
            requires
                base <= 0xffff_ffff_ffff_ffff,
                n <= 0xffff_ffff,
        ;
        base * n
    }

    /// Takes the outcome of the attempt that was due and the time since the
    /// lookup started, and answers with the next state or the final result.
    pub fn advance(self, outcome: AttemptOutcome, elapsed_ms: u128) -> (step: LookupStep)
        ensures
            step@ == self@.advance(outcome@, elapsed_ms),
            step matches LookupStep::Done(r) ==> r@.consistent(),
            step matches LookupStep::Retry(next) ==> next@.wf(),
    {
        proof {
            use_type_invariant(&self);
        }
        match outcome {
            AttemptOutcome::Resolved(names) => {
                if names.len() > 0 {
                    let hostname = without_trailing_dots(names[0].as_str());
                    LookupStep::Done(
                        LookupResult {
                            ip: self.ip,
                            hostname: Some(hostname),
                            status: LookupStatus::Success,
                            ttl: None,
                            latency_ms: elapsed_ms,
                            resolver: self.resolver,
                            error: None,
                        },
                    )
                } else {
                    let error = String::from_str("NoRecordsFound: the answer holds no name");
                    LookupStep::Done(
                        LookupResult {
                            ip: self.ip,
                            hostname: None,
                            status: LookupStatus::Failed,
                            ttl: None,
                            latency_ms: elapsed_ms,
                            resolver: self.resolver,
                            error: Some(error),
                        },
                    )
                }
            },
            AttemptOutcome::TimedOut => {
                let error = String::from_str("Timeout");
                if self.state.attempt < self.retry_count {
                    LookupStep::Retry(
                        Lookup {
                            ip: self.ip,
                            address: self.address,
                            resolver: self.resolver,
                            retry_count: self.retry_count,
                            retry_backoff_ms: self.retry_backoff_ms,
                            state: RetryState {
                                attempt: self.state.attempt + 1,
                                last_error: Some(error),
                            },
                        },
                    )
                } else {
                    LookupStep::Done(
                        LookupResult {
                            ip: self.ip,
                            hostname: None,
                            status: LookupStatus::Timeout,
                            ttl: None,
                            latency_ms: elapsed_ms,
                            resolver: self.resolver,
                            error: Some(error),
                        },
                    )
                }
            },
            AttemptOutcome::Failed(message) => {
                if !message_is_hard_failure(message.as_str()) && self.state.attempt
                    < self.retry_count {
                    LookupStep::Retry(
                        Lookup {
                            ip: self.ip,
                            address: self.address,
                            resolver: self.resolver,
                            retry_count: self.retry_count,
                            retry_backoff_ms: self.retry_backoff_ms,
                            state: RetryState {
                                attempt: self.state.attempt + 1,
                                last_error: Some(message),
                            },
                        },
                    )
                } else {
                    LookupStep::Done(
                        LookupResult {
                            ip: self.ip,
                            hostname: None,
                            status: LookupStatus::Failed,
                            ttl: None,
                            latency_ms: elapsed_ms,
                            resolver: self.resolver,
                            error: Some(message),
                        },
                    )
                }
            },
        }
    }
}

impl View for LookupStep {
    type V = StepView;

    open spec fn view(&self) -> StepView {
        match self {
            LookupStep::Retry(l) => StepView::Retry(l@),
            LookupStep::Done(r) => StepView::Done(r@),
        }
    }
}

} // verus!

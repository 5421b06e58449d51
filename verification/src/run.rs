//! One run: what is looked up, with which resolver, and the dispatch of the
//! lookups under a concurrency bound.

use crate::cli::Args;
use crate::dns::rate::{interval_nanos, RateLimiter};
use crate::dns::resolver::{
    all_ip_texts, custom_config, default_config, doh_config, doh_url, first_invalid, DnsResolver,
    DnsResolverView,
};
use crate::dns::result::{opt_text, result_views, LookupResult, LookupResultView};
use crate::error::{ErrorView, ReverDNSError};
use crate::text::{chars_of, string_of, texts_of, trim, trim_chars};
use vstd::prelude::*;
use vstd::string::StringExecFns;

verus! {

/// What a line of an input file contributes: the line without the
/// whitespace around it, unless that is empty or starts with `#`.
pub open spec fn ip_of_line(line: Seq<char>) -> Option<Seq<char>> {
    let t = trim(line);
    if t.len() > 0 && t[0] != '#' {
        Some(t)
    } else {
        None
    }
}

/// The targets that the lines of an input file contribute, in order.
pub open spec fn ips_of_lines(lines: Seq<Seq<char>>) -> Seq<Seq<char>>
    decreases lines.len(),
{
    if lines.len() == 0 {
        Seq::<Seq<char>>::empty()
    } else {
        let before = ips_of_lines(lines.drop_last());
        match ip_of_line(lines.last()) {
            Some(t) => before.push(t),
            None => before,
        }
    }
}

/// What a line of an input file contributes.
pub fn select_ip_line(line: &str) -> (r: Option<String>)
    ensures
        opt_text(r) == ip_of_line(line@),
{
    let v = chars_of(line);
    let t = trim_chars(&v);
    if t.len() > 0 && t[0] != '#' {
        Some(string_of(&t))
    } else {
        None
    }
}

/// The targets that the lines of an input file contribute: blank lines and
/// lines that start with `#` are skipped, the others are trimmed.
pub fn select_ip_lines(lines: &Vec<String>) -> (ips: Vec<String>)
    ensures
        texts_of(ips@) == ips_of_lines(texts_of(lines@)),
{
    let mut ips: Vec<String> = Vec::new();
    let ghost texts = texts_of(lines@);
    let mut i: usize = 0;
    assert(texts_of(ips@) =~= ips_of_lines(texts.take(0)));
    while i < lines.len()
        invariant
            i <= lines.len(),
            texts == texts_of(lines@),
            texts_of(ips@) == ips_of_lines(texts.take(i as int)),
        decreases lines.len() - i,
    {
        assert(texts.take(i + 1).drop_last() =~= texts.take(i as int));
        assert(texts.take(i + 1).last() == lines@[i as int]@);
        let ghost before = texts_of(ips@);
        match select_ip_line(lines[i].as_str()) {
            Some(ip) => {
                ips.push(ip);
                assert(texts_of(ips@) =~= before.push(ip@));
            },
            None => {},
        }
        i += 1;
    }
    assert(texts.take(lines.len() as int) =~= texts);
    ips
}

/// The texts of the targets that come from an input file, if there is one.
pub open spec fn file_texts(file_ips: Option<Vec<String>>) -> Seq<Seq<char>> {
    match file_ips {
        Some(ips) => texts_of(ips@),
        None => Seq::<Seq<char>>::empty(),
    }
}

/// Appends copies of the strings of `more` to `all`.
fn append_copies(all: &mut Vec<String>, more: &Vec<String>)
    ensures
        texts_of(final(all)@) == texts_of(old(all)@) + texts_of(more@),
{
    let ghost start = texts_of(all@);
    let mut i: usize = 0;
    assert(texts_of(all@) =~= start + texts_of(more@).take(0));
    while i < more.len()
        invariant
            i <= more.len(),
            texts_of(all@) == start + texts_of(more@).take(i as int),
        decreases more.len() - i,
    {
        let ghost before = texts_of(all@);
        all.push(more[i].clone());
        assert(texts_of(all@) =~= before.push(more@[i as int]@));
        assert(texts_of(more@).take(i + 1) =~= texts_of(more@).take(i as int).push(
            more@[i as int]@,
        ));
        i += 1;
    }
    assert(texts_of(more@).take(more.len() as int) =~= texts_of(more@));
}

/// The targets of a run: those given directly, then those of the input
/// file. A run without any target is refused as a `ConfigError`.
pub fn collect_targets(ips: &Vec<String>, file_ips: Option<Vec<String>>) -> (r: Result<
    Vec<String>,
    ReverDNSError,
>)
    ensures
        r is Ok <==> ips@.len() + file_texts(file_ips).len() > 0,
        r matches Ok(all) ==> texts_of(all@) == texts_of(ips@) + file_texts(file_ips),
        r matches Err(e) ==> e@ == ErrorView::ConfigError("No IPs provided"@),
{
    let mut all: Vec<String> = Vec::new();
    assert(texts_of(all@) =~= Seq::<Seq<char>>::empty());
    append_copies(&mut all, ips);
    assert(texts_of(all@) =~= texts_of(ips@));
    match &file_ips {
        Some(more) => {
            append_copies(&mut all, more);
        },
        None => {
            assert(texts_of(all@) =~= texts_of(ips@) + file_texts(file_ips));
        },
    }
    assert(texts_of(all@).len() == all@.len());
    assert(texts_of(ips@).len() == ips@.len());
    if all.len() == 0 {
        return Err(ReverDNSError::ConfigError(String::from_str("No IPs provided")));
    }
    Ok(all)
}

/// The configuration that the settings select, where there is one.
pub open spec fn selected_config(args: &Args) -> DnsResolverView {
    if args.dns_over_https {
        doh_config(
            doh_url(opt_text(args.doh_provider)),
            args.timeout,
            args.retry_count,
            args.retry_backoff,
        )
    } else if args.resolver@.len() > 0 {
        custom_config(texts_of(args.resolver@), args.timeout, args.retry_count, args.retry_backoff)
    } else {
        default_config(args.timeout, args.retry_count, args.retry_backoff)
    }
}

/// The resolver configuration of a run: DNS over HTTPS where it is asked
/// for, else the custom resolvers where some are given, else the defaults.
pub fn select_resolver(args: &Args) -> (r: Result<DnsResolver, ReverDNSError>)
    ensures
        r is Ok <==> args.dns_over_https || all_ip_texts(texts_of(args.resolver@)),
        r matches Ok(resolver) ==> resolver@ == selected_config(args),
        r matches Err(e) ==> exists|k: int|
            first_invalid(texts_of(args.resolver@), k) && e@ == ErrorView::InvalidResolver(
                #[trigger] texts_of(args.resolver@)[k],
            ),
{
    if args.resolver.len() > 0 || args.dns_over_https {
        let provider = match &args.doh_provider {
            Some(url) => Some(url.clone()),
            None => None,
        };
        DnsResolver::with_resolvers(
            args.resolver.as_slice(),
            args.timeout,
            args.retry_count,
            args.retry_backoff,
            args.dns_over_https,
            provider,
        )
    } else {
        DnsResolver::new(args.timeout, args.retry_count, args.retry_backoff)
    }
}

/// What the dispatch loop does next.
#[derive(Debug, Clone, Copy, PartialEq, Eq, Structural)]
pub enum DispatchAction {
    /// Start the lookup of the target at `index`, after a wait of
    /// `delay_nanos` nanoseconds.
    Start { index: usize, delay_nanos: u64 },
    /// Wait for one of the lookups in flight to complete.
    Wait,
    /// Every target has been looked up or dropped.
    Finished,
}

/// The state of the dispatch loop: how far the targets have been handed
/// out, how many lookups are in flight, and what has come back.
#[derive(Debug)]
pub struct Dispatcher {
    total: usize,
    concurrency: usize,
    limiter: RateLimiter,
    started: usize,
    in_flight: usize,
    results: Vec<LookupResult>,
    dropped: usize,
}

/// The mathematical value of a [`Dispatcher`].
pub struct DispatcherView {
    /// How many targets there are.
    pub total: nat,
    /// How many lookups may be in flight at once.
    pub concurrency: nat,
    /// The wait before each lookup, in nanoseconds.
    pub delay_nanos: u64,
    /// How many targets have been handed out.
    pub started: nat,
    /// How many lookups are in flight.
    pub in_flight: nat,
    /// The results so far, in the order of completion.
    pub results: Seq<LookupResultView>,
    /// How many targets were dropped because their lookup ended in an error.
    pub dropped: nat,
}

impl DispatcherView {
    /// The state before anything is handed out.
    pub open spec fn initial(total: nat, concurrency: nat, delay_nanos: u64) -> DispatcherView {
        DispatcherView {
            total,
            concurrency,
            delay_nanos,
            started: 0,
            in_flight: 0,
            results: Seq::empty(),
            dropped: 0,
        }
    }

    /// No more lookups are in flight than the bound allows, and every
    /// target that was handed out is in flight, has a result, or was
    /// dropped.
    pub open spec fn wf(self) -> bool {
        &&& self.concurrency > 0
        &&& self.in_flight <= self.concurrency
        &&& self.started <= self.total
        &&& self.results.len() + self.dropped + self.in_flight == self.started
    }

    /// What the loop does next: start a lookup while a slot is free and a
    /// target is left, else wait for a completion, and finish when nothing
    /// is left or in flight.
    pub open spec fn next_action(self) -> DispatchAction {
        if self.in_flight < self.concurrency && self.started < self.total {
            DispatchAction::Start { index: self.started as usize, delay_nanos: self.delay_nanos }
        } else if self.in_flight > 0 {
            DispatchAction::Wait
        } else {
            DispatchAction::Finished
        }
    }

    /// The state after the loop has taken up the next action.
    pub open spec fn after_action(self) -> DispatcherView {
        if self.next_action() is Start {
            DispatcherView { started: self.started + 1, in_flight: self.in_flight + 1, ..self }
        } else {
            self
        }
    }

    /// The state after a lookup in flight has completed: a result is kept,
    /// an error drops the target. With nothing in flight the state stays.
    pub open spec fn after_completion(
        self,
        outcome: Result<LookupResultView, ErrorView>,
    ) -> DispatcherView {
        if self.in_flight == 0 {
            self
        } else {
            match outcome {
                Ok(r) => DispatcherView {
                    in_flight: (self.in_flight - 1) as nat,
                    results: self.results.push(r),
                    ..self
                },
                Err(_) => DispatcherView {
                    in_flight: (self.in_flight - 1) as nat,
                    dropped: self.dropped + 1,
                    ..self
                },
            }
        }
    }
}

/// The value of the outcome of one lookup.
pub open spec fn outcome_view(outcome: Result<LookupResult, ReverDNSError>) -> Result<
    LookupResultView,
    ErrorView,
> {
    match outcome {
        Ok(r) => Ok(r@),
        Err(e) => Err(e@),
    }
}

/// In every state that the dispatch loop can reach, no more lookups are in
/// flight than the concurrency bound allows: both steps of the loop keep
/// the state well-formed.
pub proof fn lemma_concurrency_bound(d: DispatcherView, outcome: Result<LookupResultView, ErrorView>)
    requires
        d.wf(),
    ensures
        d.in_flight <= d.concurrency,
        d.after_action().wf(),
        d.after_completion(outcome).wf(),
{
}

/// What is left to do: two steps for every target that has not been handed
/// out, one for every lookup in flight.
pub open spec fn work_left(d: DispatcherView) -> int {
    2 * (d.total - d.started) + d.in_flight
}

/// The loop makes progress: starting a lookup and taking a completion each
/// leave less to do, and the loop waits only while a lookup is in flight.
pub proof fn lemma_dispatch_progress(
    d: DispatcherView,
    outcome: Result<LookupResultView, ErrorView>,
)
    requires
        d.wf(),
    ensures
        work_left(d) >= 0,
        d.next_action() is Start ==> work_left(d.after_action()) < work_left(d),
        d.next_action() is Wait ==> d.in_flight > 0 && work_left(d.after_completion(outcome))
            < work_left(d),
        d.next_action() is Finished ==> work_left(d) == 0,
{
}

/// The loop finishes only when every target has produced a result or was
/// dropped.
pub proof fn lemma_finished_is_complete(d: DispatcherView)
    requires
        d.wf(),
        d.next_action() is Finished,
    ensures
        d.started == d.total,
        d.in_flight == 0,
        d.results.len() + d.dropped == d.total,
{
}

impl Dispatcher {
    #[verifier::type_invariant]
    spec fn inv(self) -> bool {
        &&& self.concurrency > 0
        &&& self.in_flight <= self.concurrency
        &&& self.started <= self.total
        &&& self.results@.len() + self.dropped + self.in_flight == self.started
    }

    /// The mathematical value of the state.
    pub closed spec fn view(&self) -> DispatcherView {
        DispatcherView {
            total: self.total as nat,
            concurrency: self.concurrency as nat,
            delay_nanos: self.limiter.interval(),
            started: self.started as nat,
            in_flight: self.in_flight as nat,
            results: result_views(self.results@),
            dropped: self.dropped as nat,
        }
    }

    /// The dispatch of `total` targets with at most `concurrency` lookups in
    /// flight, at `rate_limit` lookups per second. A bound of zero is
    /// refused as a `ConfigError`.
    pub fn new(total: usize, concurrency: usize, rate_limit: u32) -> (r: Result<
        Dispatcher,
        ReverDNSError,
    >)
        ensures
            r is Ok <==> concurrency > 0,
            r matches Ok(d) ==> d@ == DispatcherView::initial(
                total as nat,
                concurrency as nat,
                interval_nanos(rate_limit),
            ) && d@.wf(),
            r matches Err(e) ==> e@ == ErrorView::ConfigError(
                "Concurrency must be greater than 0"@,
            ),
    {
        if concurrency == 0 {
            return Err(
                ReverDNSError::ConfigError(String::from_str("Concurrency must be greater than 0")),
            );
        }
        let d = Dispatcher {
            total,
            concurrency,
            limiter: RateLimiter::new(rate_limit),
            started: 0,
            in_flight: 0,
            results: Vec::new(),
            dropped: 0,
        };
        assert(d@.results =~= Seq::<LookupResultView>::empty());
        Ok(d)
    }

    /// What the loop does next, and the state in which it has done so.
    pub fn next_action(self) -> (r: (DispatchAction, Dispatcher))
        ensures
            self@.wf(),
            r.0 == self@.next_action(),
            r.1@ == self@.after_action(),
            r.1@.wf(),
    {
        proof {
            use_type_invariant(&self);
        }
        if self.in_flight < self.concurrency && self.started < self.total {
            let action = DispatchAction::Start {
                index: self.started,
                delay_nanos: self.limiter.interval_nanos(),
            };
            let next = Dispatcher {
                total: self.total,
                concurrency: self.concurrency,
                limiter: self.limiter,
                started: self.started + 1,
                in_flight: self.in_flight + 1,
                results: self.results,
                dropped: self.dropped,
            };
            (action, next)
        } else if self.in_flight > 0 {
            (DispatchAction::Wait, self)
        } else {
            (DispatchAction::Finished, self)
        }
    }

    /// Takes the outcome of a lookup that was in flight: a result is kept,
    /// an error drops the target.
    pub fn complete(self, outcome: Result<LookupResult, ReverDNSError>) -> (next: Dispatcher)
        ensures
            self@.wf(),
            next@ == self@.after_completion(outcome_view(outcome)),
            next@.wf(),
    {
        proof {
            use_type_invariant(&self);
        }
        if self.in_flight == 0 {
            return self;
        }
        match outcome {
            Ok(result) => {
                let ghost before = result_views(self.results@);
                let mut results = self.results;
                results.push(result);
                assert(result_views(results@) =~= before.push(result@));
                Dispatcher {
                    total: self.total,
                    concurrency: self.concurrency,
                    limiter: self.limiter,
                    started: self.started,
                    in_flight: self.in_flight - 1,
                    results,
                    dropped: self.dropped,
                }
            },
            Err(_) => Dispatcher {
                total: self.total,
                concurrency: self.concurrency,
                limiter: self.limiter,
                started: self.started,
                in_flight: self.in_flight - 1,
                results: self.results,
                dropped: self.dropped + 1,
            },
        }
    }

    /// How many lookups are in flight.
    pub fn in_flight(&self) -> (n: usize)
        ensures
            n == self@.in_flight,
            n <= self@.concurrency,
    {
        proof {
            use_type_invariant(self);
        }
        self.in_flight
    }

    /// How many targets were dropped because their lookup ended in an error.
    pub fn dropped(&self) -> (n: usize)
        ensures
            n == self@.dropped,
    {
        self.dropped
    }

    /// Whether every target has produced a result or was dropped.
    pub fn is_finished(&self) -> (b: bool)
        ensures
            b == (self@.next_action() is Finished),
            b ==> self@.results.len() + self@.dropped == self@.total,
    {
        proof {
            use_type_invariant(self);
        }
        self.started == self.total && self.in_flight == 0
    }

    /// The results, in the order of completion.
    pub fn into_results(self) -> (results: Vec<LookupResult>)
        ensures
            result_views(results@) == self@.results,
    {
        self.results
    }
}

/// What a run works with: its targets, its resolver configuration, and the
/// state of its dispatch loop before anything is handed out.
#[derive(Debug)]
pub struct RunPlan {
    pub targets: Vec<String>,
    pub resolver: DnsResolver,
    pub dispatcher: Dispatcher,
}

/// Whether a run has anything to look up.
pub open spec fn has_targets(args: &Args, file_ips: Option<Vec<String>>) -> bool {
    args.ips@.len() + file_texts(file_ips).len() > 0
}

/// Whether the settings select a resolver configuration.
pub open spec fn resolver_selectable(args: &Args) -> bool {
    args.dns_over_https || all_ip_texts(texts_of(args.resolver@))
}

/// Prepares a run, in this order: the targets are collected, and a run
/// without any is refused before a resolver is configured; then the
/// resolver is selected; then the dispatch loop is set up.
pub fn prepare(args: &Args, file_ips: Option<Vec<String>>) -> (r: Result<RunPlan, ReverDNSError>)
    ensures
        r is Ok <==> has_targets(args, file_ips) && resolver_selectable(args) && args.concurrency
            > 0,
        r matches Ok(plan) ==> {
            &&& texts_of(plan.targets@) == texts_of(args.ips@) + file_texts(file_ips)
            &&& plan.resolver@ == selected_config(args)
            &&& plan.dispatcher@ == DispatcherView::initial(
                plan.targets@.len(),
                args.concurrency as nat,
                interval_nanos(args.rate_limit),
            )
        },
        r matches Err(e) ==> {
            if !has_targets(args, file_ips) {
                e@ == ErrorView::ConfigError("No IPs provided"@)
            } else if !resolver_selectable(args) {
                exists|k: int|
                    first_invalid(texts_of(args.resolver@), k) && e@ == ErrorView::InvalidResolver(
                        #[trigger] texts_of(args.resolver@)[k],
                    )
            } else {
                e@ == ErrorView::ConfigError("Concurrency must be greater than 0"@)
            }
        },
{
    let targets = match collect_targets(&args.ips, file_ips) {
        Ok(targets) => targets,
        Err(e) => {
            return Err(e);
        },
    };
    let resolver = match select_resolver(args) {
        Ok(resolver) => resolver,
        Err(e) => {
            return Err(e);
        },
    };
    let dispatcher = match Dispatcher::new(targets.len(), args.concurrency, args.rate_limit) {
        Ok(dispatcher) => dispatcher,
        Err(e) => {
            return Err(e);
        },
    };
    Ok(RunPlan { targets, resolver, dispatcher })
}

} // verus!

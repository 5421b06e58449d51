use reverdns::run::{
    collect_targets, prepare, select_ip_line, select_ip_lines, select_resolver, DispatchAction,
    Dispatcher,
};
use reverdns::dns::{AttemptOutcome, LookupStep};
use reverdns::{Args, LogLevel, LookupResult, LookupStatus, OutputFormat, ReverDNSError};

fn base_args() -> Args {
    Args {
        ips: vec!["8.8.8.8".to_string()],
        input: None,
        output: None,
        format: OutputFormat::Json,
        resolver: vec![],
        timeout: 5,
        concurrency: 10,
        rate_limit: 100,
        dns_over_https: false,
        doh_provider: None,
        retry_count: 3,
        retry_backoff: 100,
        log_level: LogLevel::Info,
        stats: false,
        web_server: false,
        web_port: 8080,
    }
}

fn result_for(ip: &str) -> LookupResult {
    LookupResult {
        ip: ip.to_string(),
        hostname: Some("host".to_string()),
        status: LookupStatus::Success,
        ttl: None,
        latency_ms: 1,
        resolver: "r".to_string(),
        error: None,
    }
}

fn strings(items: &[&str]) -> Vec<String> {
    items.iter().map(|s| s.to_string()).collect()
}

#[test]
fn blank_lines_and_comments_are_skipped() {
    let lines = strings(&["8.8.8.8", "", "  ", "# a comment", "  1.1.1.1  ", "\t#x", "::1\r", "a # b"]);
    assert_eq!(select_ip_lines(&lines), strings(&["8.8.8.8", "1.1.1.1", "::1", "a # b"]));
    assert_eq!(select_ip_lines(&vec![]), Vec::<String>::new());
}

#[test]
fn line_is_trimmed_before_it_is_looked_at() {
    assert_eq!(select_ip_line(" 8.8.8.8 "), Some("8.8.8.8".to_string()));
    assert_eq!(select_ip_line("not-an-ip"), Some("not-an-ip".to_string()));
    assert_eq!(select_ip_line("   # note"), None);
    assert_eq!(select_ip_line("#"), None);
    assert_eq!(select_ip_line(""), None);
    assert_eq!(select_ip_line(" \t "), None);
}

#[test]
fn targets_are_the_arguments_followed_by_the_file() {
    let ips = strings(&["8.8.8.8", "1.1.1.1"]);
    assert_eq!(
        collect_targets(&ips, Some(strings(&["9.9.9.9"]))),
        Ok(strings(&["8.8.8.8", "1.1.1.1", "9.9.9.9"]))
    );
    assert_eq!(collect_targets(&ips, None), Ok(strings(&["8.8.8.8", "1.1.1.1"])));
    assert_eq!(collect_targets(&vec![], Some(strings(&["9.9.9.9"]))), Ok(strings(&["9.9.9.9"])));
}

#[test]
fn run_without_targets_is_refused() {
    let expected = Err(ReverDNSError::ConfigError("No IPs provided".to_string()));
    assert_eq!(collect_targets(&vec![], None), expected);
    assert_eq!(collect_targets(&vec![], Some(vec![])), expected);
}

#[test]
fn run_without_targets_is_refused_before_the_resolver_is_looked_at() {
    let mut args = base_args();
    args.ips = vec![];
    args.resolver = strings(&["not-an-ip"]);
    args.concurrency = 0;
    assert!(args.validate().is_err());
    match prepare(&args, Some(vec![])) {
        Err(e) => {
            assert_eq!(e, ReverDNSError::ConfigError("No IPs provided".to_string()));
            assert_eq!(e.exit_code(), 2);
        }
        Ok(_) => panic!("a run without targets was prepared"),
    }
}

#[test]
fn prepare_reports_a_resolver_that_is_no_ip_address() {
    let mut args = base_args();
    args.resolver = strings(&["not-an-ip"]);
    args.concurrency = 0;
    match prepare(&args, None) {
        Err(e) => assert_eq!(e, ReverDNSError::InvalidResolver("not-an-ip".to_string())),
        Ok(_) => panic!("a resolver that is no IP address was accepted"),
    }
}

#[test]
fn prepare_refuses_a_concurrency_of_zero() {
    let mut args = base_args();
    args.concurrency = 0;
    match prepare(&args, None) {
        Err(e) => {
            assert_eq!(e, ReverDNSError::ConfigError("Concurrency must be greater than 0".to_string()))
        }
        Ok(_) => panic!("a concurrency of zero was accepted"),
    }
}

#[test]
fn prepare_sets_up_targets_resolver_and_dispatch() {
    let mut args = base_args();
    args.ips = strings(&["8.8.8.8", "1.1.1.1"]);
    args.concurrency = 1;
    let plan = prepare(&args, Some(strings(&["::1"]))).unwrap();
    assert_eq!(plan.targets, strings(&["8.8.8.8", "1.1.1.1", "::1"]));
    assert_eq!(plan.resolver.resolver_names(), "default(8.8.8.8,1.1.1.1)");
    assert_eq!(plan.dispatcher.in_flight(), 0);
    let (action, d) = plan.dispatcher.next_action();
    assert_eq!(action, DispatchAction::Start { index: 0, delay_nanos: 10_000_000 });
    let (action, _) = d.next_action();
    assert_eq!(action, DispatchAction::Wait);
}

#[test]
fn resolver_selection_follows_the_settings() {
    let args = base_args();
    assert_eq!(select_resolver(&args).unwrap().resolver_names(), "default(8.8.8.8,1.1.1.1)");

    let mut custom = base_args();
    custom.resolver = strings(&["9.9.9.9", "8.8.4.4"]);
    custom.timeout = 9;
    custom.retry_count = 1;
    custom.retry_backoff = 7;
    let resolver = select_resolver(&custom).unwrap();
    assert_eq!(resolver.resolver_names(), "9.9.9.9,8.8.4.4");
    assert_eq!(resolver.servers().len(), 2);
    assert_eq!(resolver.timeout_secs(), 9);
    assert_eq!(resolver.retry_count(), 1);
    assert_eq!(resolver.retry_backoff_ms(), 7);

    let mut doh = base_args();
    doh.dns_over_https = true;
    doh.resolver = strings(&["not-an-ip"]);
    doh.doh_provider = Some("https://dns.google/dns-query".to_string());
    assert_eq!(select_resolver(&doh).unwrap().resolver_names(), "google-doh");
    doh.doh_provider = None;
    assert_eq!(select_resolver(&doh).unwrap().resolver_names(), "cloudflare-doh");

    let mut bad = base_args();
    bad.resolver = strings(&["1.1.1.1", "nope"]);
    assert_eq!(
        select_resolver(&bad).unwrap_err(),
        ReverDNSError::InvalidResolver("nope".to_string())
    );
}

#[test]
fn dispatcher_refuses_a_concurrency_of_zero() {
    match Dispatcher::new(3, 0, 100) {
        Err(e) => {
            assert_eq!(e, ReverDNSError::ConfigError("Concurrency must be greater than 0".to_string()))
        }
        Ok(_) => panic!("a concurrency of zero was accepted"),
    }
}

#[test]
fn dispatcher_without_targets_finishes_at_once() {
    let d = Dispatcher::new(0, 4, 100).unwrap();
    assert!(d.is_finished());
    let (action, d) = d.next_action();
    assert_eq!(action, DispatchAction::Finished);
    assert_eq!(d.into_results().len(), 0);
}

#[test]
fn dispatcher_never_has_more_in_flight_than_the_bound() {
    for (total, bound) in [(10usize, 3usize), (3, 10), (5, 1), (1, 1), (7, 7)] {
        let mut d = Dispatcher::new(total, bound, 50).unwrap();
        let mut in_flight: Vec<usize> = Vec::new();
        let mut started: Vec<usize> = Vec::new();
        let mut peak = 0;
        let mut steps = 0;
        loop {
            steps += 1;
            assert!(steps < 1000);
            let (action, next) = d.next_action();
            d = next;
            match action {
                DispatchAction::Start { index, delay_nanos } => {
                    assert_eq!(delay_nanos, 20_000_000);
                    assert_eq!(index, started.len());
                    started.push(index);
                    in_flight.push(index);
                }
                DispatchAction::Wait => {
                    assert!(in_flight.len() == bound || started.len() == total);
                    // The lookup that was started last completes first.
                    let index = in_flight.pop().unwrap();
                    d = d.complete(Ok(result_for(&index.to_string())));
                }
                DispatchAction::Finished => break,
            }
            assert_eq!(d.in_flight(), in_flight.len());
            assert!(d.in_flight() <= bound);
            peak = peak.max(d.in_flight());
        }
        assert!(d.is_finished());
        assert_eq!(peak, bound.min(total));
        assert_eq!(started, (0..total).collect::<Vec<_>>());
        assert_eq!(d.dropped(), 0);
        assert_eq!(d.into_results().len(), total);
    }
}

#[test]
fn dispatcher_keeps_results_in_the_order_of_completion_and_drops_errors() {
    let d = Dispatcher::new(4, 2, 100).unwrap();
    let (a0, d) = d.next_action();
    let (a1, d) = d.next_action();
    let (a2, d) = d.next_action();
    assert_eq!(a0, DispatchAction::Start { index: 0, delay_nanos: 10_000_000 });
    assert_eq!(a1, DispatchAction::Start { index: 1, delay_nanos: 10_000_000 });
    assert_eq!(a2, DispatchAction::Wait);
    assert!(!d.is_finished());
    let d = d.complete(Ok(result_for("second")));
    let (a3, d) = d.next_action();
    assert_eq!(a3, DispatchAction::Start { index: 2, delay_nanos: 10_000_000 });
    let d = d.complete(Err(ReverDNSError::InvalidIpAddress("bad".to_string())));
    assert_eq!(d.dropped(), 1);
    let (a4, d) = d.next_action();
    assert_eq!(a4, DispatchAction::Start { index: 3, delay_nanos: 10_000_000 });
    let d = d.complete(Ok(result_for("fourth")));
    let d = d.complete(Ok(result_for("first")));
    let (a5, d) = d.next_action();
    assert_eq!(a5, DispatchAction::Finished);
    assert!(d.is_finished());
    assert_eq!(d.in_flight(), 0);
    assert_eq!(d.dropped(), 1);
    let ips: Vec<String> = d.into_results().into_iter().map(|r| r.ip).collect();
    assert_eq!(ips, strings(&["second", "fourth", "first"]));
}

#[test]
fn completion_with_nothing_in_flight_changes_nothing() {
    let d = Dispatcher::new(2, 2, 100).unwrap();
    let d = d.complete(Ok(result_for("stray")));
    assert_eq!(d.in_flight(), 0);
    assert_eq!(d.dropped(), 0);
    let (action, d) = d.next_action();
    assert_eq!(action, DispatchAction::Start { index: 0, delay_nanos: 10_000_000 });
    assert_eq!(d.into_results().len(), 0);
}

/// Runs the whole engine over `args`, with a resolver that answers every
/// attempt as `answer` says.
fn run_with(args: &Args, answer: fn(&str, u32) -> AttemptOutcome) -> Vec<LookupResult> {
    let plan = prepare(args, None).unwrap();
    let mut dispatcher = plan.dispatcher;
    let mut waiting: Vec<usize> = Vec::new();
    loop {
        let (action, next) = dispatcher.next_action();
        dispatcher = next;
        match action {
            DispatchAction::Start { index, .. } => waiting.push(index),
            DispatchAction::Wait => {
                let index = waiting.remove(0);
                let ip = &plan.targets[index];
                let outcome = match plan.resolver.lookup(ip) {
                    Err(e) => Err(e),
                    Ok(mut state) => loop {
                        let attempt = state.attempt();
                        match state.advance(answer(ip, attempt), 10 * (attempt as u128 + 1)) {
                            LookupStep::Done(result) => break Ok(result),
                            LookupStep::Retry(next) => state = next,
                        }
                    },
                };
                dispatcher = dispatcher.complete(outcome);
            }
            DispatchAction::Finished => break,
        }
    }
    dispatcher.into_results()
}

#[test]
fn single_target_resolves_against_a_resolver_with_fixed_data() {
    let mut args = base_args();
    args.ips = strings(&["8.8.8.8"]);
    args.timeout = 5;
    args.retry_count = 3;
    let results = run_with(&args, |_, _| AttemptOutcome::Resolved(vec!["dns.google.".to_string()]));
    assert_eq!(results.len(), 1);
    assert_eq!(results[0].ip, "8.8.8.8");
    assert_eq!(results[0].status, LookupStatus::Success);
    assert!(results[0].hostname.as_ref().unwrap().contains("dns.google"));
    assert_eq!(results[0].hostname, Some("dns.google".to_string()));
    assert_eq!(results[0].error, None);
    assert_eq!(results[0].ttl, None);
    assert_eq!(results[0].resolver, "default(8.8.8.8,1.1.1.1)");
}

#[test]
fn malformed_targets_disappear_from_the_results() {
    let mut args = base_args();
    args.ips = strings(&["8.8.8.8", "not-an-ip", "10.0.0.1", "", "::1"]);
    args.concurrency = 2;
    args.retry_count = 2;
    let results = run_with(&args, |ip, attempt| {
        if ip == "8.8.8.8" {
            AttemptOutcome::Resolved(vec!["dns.google.".to_string()])
        } else if ip == "10.0.0.1" {
            AttemptOutcome::TimedOut
        } else if attempt == 0 {
            AttemptOutcome::Failed("connection refused".to_string())
        } else {
            AttemptOutcome::Failed("no record found: NXDOMAIN".to_string())
        }
    });
    let summary: Vec<(String, LookupStatus, u128)> =
        results.iter().map(|r| (r.ip.clone(), r.status, r.latency_ms)).collect();
    assert_eq!(
        summary,
        vec![
            ("8.8.8.8".to_string(), LookupStatus::Success, 10),
            ("10.0.0.1".to_string(), LookupStatus::Timeout, 30),
            ("::1".to_string(), LookupStatus::Failed, 20),
        ]
    );
    assert!(results.iter().all(|r| r.is_consistent()));
}

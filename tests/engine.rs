use tcp_probe::duration::parse_duration;
use tcp_probe::orchestrator::{RunError, Scheduler, Summary};
use tcp_probe::probe::{
    backoff_ms, describe_failure, probe_with_outcomes, AttemptOutcome, ProbeResult,
    ResolveError, RetryController, Status, Step,
};
use tcp_probe::report::{format_latency, pad_to, report_line};
use tcp_probe::targets::{collect_targets, parse_target_lines};
use tcp_probe::text::{trim_bounds, u64_to_decimal};

fn refused() -> AttemptOutcome {
    AttemptOutcome::ConnectionRefused("Connection refused (os error 111)".to_string())
}

fn healthy(host: &str, us: u64) -> ProbeResult {
    ProbeResult {
        host: host.to_string(),
        status: Status::Healthy,
        latency_us: Some(us),
        error: None,
        retries_used: 0,
    }
}

fn unhealthy(host: &str) -> ProbeResult {
    ProbeResult {
        host: host.to_string(),
        status: Status::Unhealthy,
        latency_us: None,
        error: Some("timeout (200ms)".to_string()),
        retries_used: 1,
    }
}

fn targets(names: &[&str]) -> Vec<String> {
    names.iter().map(|s| s.to_string()).collect()
}

#[test]
fn durations_in_each_form() {
    assert_eq!(parse_duration("5s"), 5000);
    assert_eq!(parse_duration("250ms"), 250);
    assert_eq!(parse_duration("3"), 3000);
    assert_eq!(parse_duration("  2s \n"), 2000);
    assert_eq!(parse_duration("0ms"), 0);
}

#[test]
fn durations_with_decimal_seconds() {
    assert_eq!(parse_duration("1.5s"), 1500);
    assert_eq!(parse_duration("0.25s"), 250);
    assert_eq!(parse_duration("2.0005s"), 2000);
    assert_eq!(parse_duration("0.2s"), 200);
    assert_eq!(parse_duration("1.2.3s"), 5000);
    assert_eq!(parse_duration("1.5"), 5000);
    assert_eq!(parse_duration("1.5ms"), 5000);
    assert_eq!(parse_duration("18446744073709551615.999s"), u64::MAX);
}

#[test]
fn durations_with_a_plus_sign() {
    assert_eq!(parse_duration("+10"), 10_000);
    assert_eq!(parse_duration("+5ms"), 5);
    assert_eq!(parse_duration("+2s"), 2000);
    assert_eq!(parse_duration("+1.5s"), 1500);
    assert_eq!(parse_duration("++5ms"), 5000);
    assert_eq!(parse_duration("+"), 5000);
    assert_eq!(parse_duration("+ms"), 5000);
    assert_eq!(parse_duration("-5"), 5000);
}

#[test]
fn durations_with_digits_on_one_side_of_the_point() {
    assert_eq!(parse_duration(".5s"), 500);
    assert_eq!(parse_duration("5.s"), 5000);
    assert_eq!(parse_duration("3.s"), 3000);
    assert_eq!(parse_duration("+.25s"), 250);
    assert_eq!(parse_duration(".s"), 5000);
    assert_eq!(parse_duration("1e3s"), 5000);
}

#[test]
fn durations_unreadable_fall_back_to_five_seconds() {
    assert_eq!(parse_duration("abc"), 5000);
    assert_eq!(parse_duration("xms"), 5000);
    assert_eq!(parse_duration("s"), 5000);
    assert_eq!(parse_duration(""), 5000);
    assert_eq!(parse_duration("99999999999999999999ms"), 5000);
}

#[test]
fn durations_saturate_when_too_large() {
    assert_eq!(parse_duration("18446744073709551615s"), u64::MAX);
    assert_eq!(parse_duration("18446744073709551615ms"), u64::MAX);
}

#[test]
fn trim_removes_unicode_whitespace() {
    let s = "\u{3000} a b\t\u{a0}";
    let (a, b) = trim_bounds(s);
    let chars: Vec<char> = s.chars().collect();
    let t: String = chars[a..b].iter().collect();
    assert_eq!(t, "a b");
    assert_eq!(trim_bounds("   "), (3, 3));
}

#[test]
fn decimal_rendering() {
    assert_eq!(u64_to_decimal(0), "0");
    assert_eq!(u64_to_decimal(7), "7");
    assert_eq!(u64_to_decimal(1200), "1200");
    assert_eq!(u64_to_decimal(u64::MAX), "18446744073709551615");
}

#[test]
fn target_lines_skip_blanks_and_comments() {
    let text = "a.example:80\n\n# comment\n   b.example:443  \r\n  #x\nc:1";
    assert_eq!(
        parse_target_lines(text),
        targets(&["a.example:80", "b.example:443", "c:1"])
    );
    assert!(parse_target_lines("").is_empty());
    assert!(parse_target_lines("\n\n  \n# only\n").is_empty());
}

#[test]
fn targets_merge_direct_then_list() {
    let merged = collect_targets(targets(&["x:1"]), Some("y:2\nz:3\n"));
    assert_eq!(merged, targets(&["x:1", "y:2", "z:3"]));
    assert_eq!(collect_targets(targets(&["x:1"]), None), targets(&["x:1"]));
    assert!(collect_targets(Vec::new(), Some("# none\n")).is_empty());
}

#[test]
fn failure_texts() {
    assert_eq!(
        describe_failure(&AttemptOutcome::ConnectionRefused("boom".to_string())),
        "Connection refused: boom"
    );
    assert_eq!(describe_failure(&AttemptOutcome::Timeout(200)), "timeout (200ms)");
    assert_eq!(
        describe_failure(&AttemptOutcome::ResolutionFailed(ResolveError::Lookup(
            "no such host".to_string()
        ))),
        "DNS error: no such host"
    );
    assert_eq!(
        describe_failure(&AttemptOutcome::ResolutionFailed(ResolveError::NoAddresses)),
        "DNS resolution failed: no addresses"
    );
}

#[test]
fn backoff_is_linear_and_absent_before_first_attempt() {
    assert_eq!(backoff_ms(0), 0);
    assert_eq!(backoff_ms(1), 100);
    assert_eq!(backoff_ms(2), 200);
    assert_eq!(backoff_ms(7), 700);
    assert_eq!(backoff_ms(u32::MAX), 100 * u32::MAX as u64);
}

#[test]
fn controller_asks_for_attempts_with_backoff() {
    let mut c = RetryController::new("h:1".to_string(), 2);
    let mut delays = Vec::new();
    loop {
        match c.next_step() {
            Step::Attempt { index, backoff_ms } => {
                assert_eq!(index as usize, delays.len());
                delays.push(backoff_ms);
                c.record(&AttemptOutcome::Timeout(50));
            }
            Step::Done => break,
        }
    }
    assert_eq!(delays, vec![0, 100, 200]);
    let r = c.into_result();
    assert_eq!(r.status, Status::Unhealthy);
    assert_eq!(r.retries_used, 2);
    assert_eq!(r.error.as_deref(), Some("timeout (50ms)"));
}

#[test]
fn refused_port_without_retries_is_unhealthy() {
    let r = probe_with_outcomes("127.0.0.1:1", 0, &vec![refused()]).unwrap();
    assert_eq!(r.host, "127.0.0.1:1");
    assert_eq!(r.status, Status::Unhealthy);
    assert_eq!(r.retries_used, 0);
    assert_eq!(r.latency_us, None);
    assert!(r.error.unwrap().starts_with("Connection refused: "));
    let s = Summary::from_results(vec![
        probe_with_outcomes("127.0.0.1:1", 0, &vec![refused()]).unwrap(),
    ]);
    assert_eq!(s.exit_code(), 1);
}

#[test]
fn listening_port_without_retries_is_healthy() {
    let r = probe_with_outcomes("127.0.0.1:8080", 0, &vec![AttemptOutcome::Connected(420)])
        .unwrap();
    assert_eq!(r.status, Status::Healthy);
    assert_eq!(r.latency_us, Some(420));
    assert_eq!(r.error, None);
    assert_eq!(r.retries_used, 0);
    let s = Summary::from_results(vec![r]);
    assert!(s.all_healthy());
    assert_eq!(s.exit_code(), 0);
}

#[test]
fn unroutable_with_one_retry_times_out_twice() {
    let mut c = RetryController::new("10.255.255.1:1".to_string(), 1);
    let mut waited: u64 = 0;
    let mut attempts = 0;
    while let Step::Attempt { backoff_ms, .. } = c.next_step() {
        waited += backoff_ms + 200;
        attempts += 1;
        c.record(&AttemptOutcome::Timeout(200));
    }
    assert_eq!(attempts, 2);
    assert_eq!(waited, 500);
    let r = c.into_result();
    assert_eq!(r.status, Status::Unhealthy);
    assert_eq!(r.retries_used, 1);
    assert_eq!(r.error.as_deref(), Some("timeout (200ms)"));
}

#[test]
fn empty_target_list_is_refused() {
    assert_eq!(Scheduler::new(Vec::new(), 50).err(), Some(RunError::NoTargets));
    assert_eq!(
        Scheduler::new(targets(&["a:1"]), 0).err(),
        Some(RunError::ZeroConcurrency)
    );
}

#[test]
fn success_on_a_later_attempt_counts_its_retries() {
    let outs = vec![
        AttemptOutcome::ResolutionFailed(ResolveError::NoAddresses),
        refused(),
        AttemptOutcome::Connected(900),
        refused(),
    ];
    let r = probe_with_outcomes("h:2", 3, &outs).unwrap();
    assert_eq!(r.status, Status::Healthy);
    assert_eq!(r.retries_used, 2);
    assert_eq!(r.latency_us, Some(900));
}

#[test]
fn all_failures_use_the_whole_budget_and_keep_the_last_error() {
    let outs = vec![
        AttemptOutcome::Timeout(10),
        refused(),
        AttemptOutcome::ResolutionFailed(ResolveError::Lookup("gone".to_string())),
    ];
    let r = probe_with_outcomes("h:3", 2, &outs).unwrap();
    assert_eq!(r.status, Status::Unhealthy);
    assert_eq!(r.retries_used, 2);
    assert_eq!(r.error.as_deref(), Some("DNS error: gone"));
}

#[test]
fn outcomes_that_run_out_settle_nothing() {
    assert!(probe_with_outcomes("h:4", 2, &vec![refused()]).is_none());
    assert!(probe_with_outcomes("h:4", 0, &Vec::new()).is_none());
}

#[test]
fn reachable_target_is_healthy_on_every_run() {
    for _ in 0..2 {
        let r = probe_with_outcomes("h:5", 1, &vec![AttemptOutcome::Connected(30), refused()])
            .unwrap();
        assert_eq!(r.status, Status::Healthy);
        assert_eq!(r.retries_used, 0);
    }
}

#[test]
fn scheduler_bounds_concurrency_and_keeps_input_order() {
    let names = ["a:1", "b:2", "c:3", "d:4", "e:5"];
    let mut s = Scheduler::new(targets(&names), 2).unwrap();
    let mut running: Vec<usize> = Vec::new();
    let mut finished = 0;
    while !s.is_finished() {
        while let Some(i) = s.start_next() {
            running.push(i);
            assert!(s.active <= 2);
            assert!(running.len() <= 2);
        }
        // Complete the most recently started target first.
        let i = running.pop().unwrap();
        let r = if i % 2 == 0 { healthy(names[i], 1000 + i as u64) } else { unhealthy(names[i]) };
        assert!(s.complete(i, r));
        finished += 1;
    }
    assert_eq!(finished, 5);
    let summary = s.into_summary();
    assert_eq!(summary.total, 5);
    assert_eq!(summary.healthy, 3);
    let hosts: Vec<&str> = summary.results.iter().map(|r| r.host.as_str()).collect();
    assert_eq!(hosts, names.to_vec());
    assert_eq!(summary.results[2].latency_us, Some(1002));
    assert!(!summary.all_healthy());
    assert_eq!(summary.exit_code(), 1);
    assert_eq!(summary.counts_text(), "3/5 healthy");
}

#[test]
fn scheduler_refuses_results_it_cannot_place() {
    let mut s = Scheduler::new(targets(&["a:1", "b:2"]), 1).unwrap();
    assert_eq!(s.start_next(), Some(0));
    assert_eq!(s.start_next(), None);
    assert!(!s.complete(1, healthy("b:2", 1)));
    assert!(!s.complete(0, healthy("b:2", 1)));
    assert!(s.complete(0, healthy("a:1", 1)));
    assert!(!s.complete(0, healthy("a:1", 1)));
    assert_eq!(s.active, 0);
    assert_eq!(s.start_next(), Some(1));
    assert_eq!(s.start_next(), None);
    assert!(!s.is_finished());
}

#[test]
fn report_lines() {
    let mut r = healthy("example.com:443", 12_345);
    r.retries_used = 2;
    let line = report_line(&r);
    assert_eq!(line.tag, "[OK]  ");
    assert_eq!(line.host, format!("{:<30}", "example.com:443"));
    assert_eq!(line.detail, "12.3ms (retries: 2)");
    let line = report_line(&healthy("h:1", 49));
    assert_eq!(line.detail, "0.0ms");
    let line = report_line(&healthy("h:1", 1_950));
    assert_eq!(line.detail, "2.0ms");
    let line = report_line(&unhealthy("h:1"));
    assert_eq!(line.tag, "[FAIL]");
    assert_eq!(line.detail, "timeout (200ms)");
    let mut u = unhealthy("h:1");
    u.error = None;
    assert_eq!(report_line(&u).detail, "unknown");
}

#[test]
fn padding_and_latency_text() {
    assert_eq!(pad_to("ab", 5), "ab   ");
    assert_eq!(pad_to("abcdef", 3), "abcdef");
    assert_eq!(pad_to("", 0), "");
    assert_eq!(format_latency(0), "0.0");
    assert_eq!(format_latency(150), "0.2");
    assert_eq!(format_latency(1_234_567), "1234.6");
}

#[test]
fn status_words() {
    assert_eq!(Status::Healthy.as_str(), "ok");
    assert_eq!(Status::Unhealthy.as_str(), "fail");
}

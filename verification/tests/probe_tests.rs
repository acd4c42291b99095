use website_status_checker::model::RetryPolicy;
use website_status_checker::probe::{Probe, ProbeStep, run_scripted};

fn policy(max_attempts: u64, delay_ms: u64) -> RetryPolicy {
    RetryPolicy { max_attempts, timeout_secs: 5, delay_ms }
}

#[test]
fn zero_retries_always_failing_fetcher() {
    // maxAttempts = 0: one call, the outcome is that failure.
    let events: Vec<Result<u16, String>> = vec![
        Err("connect refused".to_string()),
        Err("never reached".to_string()),
    ];
    let r = run_scripted(&policy(0, 100), &events);
    assert_eq!(r.calls, 1);
    assert_eq!(r.delay_total_ms, 0);
    match r.verdict {
        Some(Err(reason)) => assert_eq!(reason, "connect refused"),
        other => panic!("expected a failure verdict, got {:?}", other.is_some()),
    }
}

#[test]
fn two_failures_then_success() {
    // maxAttempts = 2: fail, fail, succeed -> success, 3 calls, 2 delays.
    let events: Vec<Result<u16, String>> = vec![
        Err("timeout".to_string()),
        Err("timeout".to_string()),
        Ok(200),
    ];
    let r = run_scripted(&policy(2, 100), &events);
    assert_eq!(r.calls, 3);
    assert_eq!(r.delay_total_ms, 200);
    assert!(r.delay_total_ms >= 2 * 100);
    match r.verdict {
        Some(Ok(code)) => assert_eq!(code, 200),
        _ => panic!("expected a success verdict"),
    }
}

#[test]
fn last_failure_wins() {
    // maxAttempts = 1, reasons "A" then "B": the outcome carries "B".
    let events: Vec<Result<u16, String>> = vec![
        Err("A".to_string()),
        Err("B".to_string()),
    ];
    let r = run_scripted(&policy(1, 100), &events);
    assert_eq!(r.calls, 2);
    assert_eq!(r.delay_total_ms, 100);
    match r.verdict {
        Some(Err(reason)) => assert_eq!(reason, "B"),
        _ => panic!("expected a failure verdict"),
    }
}

#[test]
fn first_success_stops_at_once() {
    let events: Vec<Result<u16, String>> = vec![Ok(301), Err("unused".to_string())];
    let r = run_scripted(&policy(5, 100), &events);
    assert_eq!(r.calls, 1);
    assert_eq!(r.delay_total_ms, 0);
    match r.verdict {
        Some(Ok(code)) => assert_eq!(code, 301),
        _ => panic!("expected a success verdict"),
    }
}

#[test]
fn script_too_short_leaves_probe_undecided() {
    let events: Vec<Result<u16, String>> = vec![Err("x".to_string())];
    let r = run_scripted(&policy(3, 50), &events);
    assert!(r.verdict.is_none());
    assert_eq!(r.calls, 1);
    assert_eq!(r.delay_total_ms, 50);
}

#[test]
fn state_machine_steps() {
    let mut p = Probe::new(&policy(1, 250));
    let step = p.on_fetch(Err("down".to_string()));
    assert!(matches!(step, ProbeStep::RetryAfter { delay_ms: 250 }));
    let step = p.on_fetch(Err("still down".to_string()));
    assert!(matches!(step, ProbeStep::Done));
    match p.take_verdict() {
        Err(reason) => assert_eq!(reason, "still down"),
        Ok(_) => panic!("expected a failure verdict"),
    }
}

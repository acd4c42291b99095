use website_status_checker::dispatch::Engine;
use website_status_checker::model::RunError;

fn targets(names: &[&str]) -> Vec<String> {
    names.iter().map(|s| s.to_string()).collect()
}

#[test]
fn zero_workers_is_a_pool_startup_error() {
    // A pool with no worker fails before any work, with the distinct error.
    let r = Engine::new(targets(&["http://a"]), 0);
    assert!(matches!(r, Err(RunError::PoolStartup)));
    let msg = RunError::PoolStartup.message();
    assert_eq!(msg, "pool startup failed: no worker could be started");
}

#[test]
fn every_target_gets_exactly_one_outcome() {
    let list = targets(&["http://a", "http://b", "http://c"]);
    let mut engine = Engine::new(list.clone(), 2).unwrap_or_else(|_| panic!("pool"));
    assert_eq!(engine.target_count(), 3);
    assert_eq!(engine.worker_count(), 2);
    let mut seen = Vec::new();
    loop {
        match engine.take_job() {
            Some(job) => {
                seen.push(job.target().clone());
                engine.deliver(job, Ok(200), 5, 1_700_000_000);
            }
            None => break,
        }
    }
    // FIFO hand-out order.
    assert_eq!(seen, list);
    let run = match engine.finish() {
        Ok(run) => run,
        Err(_) => panic!("run should be complete"),
    };
    assert_eq!(run.outcomes.len(), 3);
    let mut got: Vec<String> = run.outcomes.iter().map(|o| o.target.clone()).collect();
    let mut want = list;
    got.sort();
    want.sort();
    assert_eq!(got, want);
}

#[test]
fn no_target_is_probed_twice_even_out_of_order() {
    // Drive many targets with two jobs in flight, delivering out of order.
    let mut list = Vec::new();
    for i in 0..10_000u32 {
        list.push(format!("http://host{}", i));
    }
    let mut engine = Engine::new(list.clone(), 10).unwrap_or_else(|_| panic!("pool"));
    loop {
        let first = match engine.take_job() {
            Some(j) => j,
            None => break,
        };
        match engine.take_job() {
            Some(second) => {
                engine.deliver(second, Err("late".to_string()), 9, 1_700_000_001);
                engine.deliver(first, Ok(200), 3, 1_700_000_001);
            }
            None => {
                engine.deliver(first, Ok(200), 3, 1_700_000_001);
            }
        }
    }
    let run = match engine.finish() {
        Ok(run) => run,
        Err(_) => panic!("run should be complete"),
    };
    assert_eq!(run.outcomes.len(), 10_000);
    let mut got: Vec<String> = run.outcomes.iter().map(|o| o.target.clone()).collect();
    got.sort();
    let mut want = list;
    want.sort();
    assert_eq!(got, want);
}

#[test]
fn empty_target_list_completes_with_no_outcomes() {
    let mut engine = Engine::new(Vec::new(), 4).unwrap_or_else(|_| panic!("pool"));
    assert!(engine.take_job().is_none());
    let run = match engine.finish() {
        Ok(run) => run,
        Err(_) => panic!("run should be complete"),
    };
    assert!(run.outcomes.is_empty());
}

#[test]
fn short_stream_is_an_integrity_error() {
    let mut engine = Engine::new(targets(&["http://a", "http://b"]), 1).unwrap_or_else(|_| panic!("pool"));
    let job = engine.take_job().unwrap_or_else(|| panic!("job"));
    engine.deliver(job, Err("down".to_string()), 12, 1_700_000_002);
    // The second job is taken but never delivered: a worker died mid-probe.
    let _lost = engine.take_job();
    match engine.finish() {
        Err(RunError::ShortRun { received, expected }) => {
            assert_eq!(received, 1);
            assert_eq!(expected, 2);
        }
        _ => panic!("expected the short-run error"),
    }
    let msg = RunError::ShortRun { received: 1, expected: 2 }.message();
    assert_eq!(msg, "short run: received 1 of 2 outcomes");
}

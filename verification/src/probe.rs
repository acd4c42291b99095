use vstd::prelude::*;
use crate::model::{RetryPolicy, status_view};

verus! {

/// The views of a sequence of fetch results.
pub open spec fn fetch_views(s: Seq<Result<u16, String>>) -> Seq<Result<u16, Seq<char>>> {
    s.map_values(|e: Result<u16, String>| status_view(e))
}

/// The verdict of a probe allowed `k` retries, fed the fetch results `evs`
/// in order: the code of the first success, or the reason of the attempt that
/// exhausted the budget. `None` if the results run out before the probe is
/// decided.
pub open spec fn probe_verdict(k: nat, evs: Seq<Result<u16, Seq<char>>>) -> Option<
    Result<u16, Seq<char>>,
>
    decreases evs.len(),
{
    if evs.len() == 0 {
        None
    } else {
        match evs[0] {
            Ok(c) => Some(Ok(c)),
            Err(r) => if k == 0 {
                Some(Err(r))
            } else {
                probe_verdict((k - 1) as nat, evs.subrange(1, evs.len() as int))
            },
        }
    }
}

/// How many fetch calls a probe allowed `k` retries consumes from `evs`.
pub open spec fn probe_calls(k: nat, evs: Seq<Result<u16, Seq<char>>>) -> nat
    decreases evs.len(),
{
    if evs.len() == 0 {
        0
    } else {
        match evs[0] {
            Ok(_) => 1,
            Err(_) => if k == 0 {
                1
            } else {
                1 + probe_calls((k - 1) as nat, evs.subrange(1, evs.len() as int))
            },
        }
    }
}

/// The total inter-attempt delay a probe commands: one delay of `d` after
/// each failed attempt that will be retried.
pub open spec fn probe_delay(k: nat, evs: Seq<Result<u16, Seq<char>>>, d: u64) -> nat
    decreases evs.len(),
{
    if evs.len() == 0 {
        0
    } else {
        match evs[0] {
            Ok(_) => 0,
            Err(_) => if k == 0 {
                0
            } else {
                d as nat + probe_delay((k - 1) as nat, evs.subrange(1, evs.len() as int), d)
            },
        }
    }
}

/// If the first fetch succeeds, the probe succeeds with that code after
/// exactly one call and no inter-attempt delay.
pub proof fn lemma_first_success(k: nat, evs: Seq<Result<u16, Seq<char>>>, d: u64)
    requires
        evs.len() >= 1,
        evs[0] is Ok,
    ensures
        probe_verdict(k, evs) == Some(evs[0]),
        probe_calls(k, evs) == 1,
        probe_delay(k, evs, d) == 0,
{
}

/// Last failure wins: if every attempt fails and the budget of `k` retries is
/// used up, the probe fails with the reason of the last attempt, after
/// exactly `k + 1` calls and `k` inter-attempt delays.
pub proof fn lemma_last_failure_wins(k: nat, evs: Seq<Result<u16, Seq<char>>>, d: u64)
    requires
        evs.len() == k + 1,
        forall|i: int| 0 <= i < evs.len() ==> evs[i] is Err,
    ensures
        probe_verdict(k, evs) == Some(evs[k as int]),
        probe_calls(k, evs) == k + 1,
        probe_delay(k, evs, d) == k * d,
    decreases k,
{
    if k == 0 {
    } else {
        let rest = evs.subrange(1, evs.len() as int);
        lemma_last_failure_wins((k - 1) as nat, rest, d);
        assert(rest[k - 1] == evs[k as int]);
        assert(k * d == d + (k - 1) * d) by (nonlinear_arith);
    }
}

/// If the first `j` attempts fail and attempt `j` (still within the budget)
/// succeeds, the probe succeeds with that code after exactly `j + 1` calls
/// and `j` inter-attempt delays.
pub proof fn lemma_retry_then_success(k: nat, evs: Seq<Result<u16, Seq<char>>>, d: u64, j: nat)
    requires
        j <= k,
        j < evs.len(),
        forall|i: int| 0 <= i < j ==> evs[i] is Err,
        evs[j as int] is Ok,
    ensures
        probe_verdict(k, evs) == Some(evs[j as int]),
        probe_calls(k, evs) == j + 1,
        probe_delay(k, evs, d) == j * d,
    decreases j,
{
    if j == 0 {
    } else {
        let rest = evs.subrange(1, evs.len() as int);
        lemma_retry_then_success((k - 1) as nat, rest, d, (j - 1) as nat);
        assert(rest[j - 1] == evs[j as int]);
        assert(j * d == d + (j - 1) * d) by (nonlinear_arith);
    }
}

/// The retry state machine for one target. The caller performs one fetch,
/// hands the result to `on_fetch`, and obeys the returned step: either the
/// probe is decided, or the caller sleeps the given delay and fetches again.
pub struct Probe {
    pub max_attempts: u64,
    pub delay_ms: u64,
    pub attempts_made: u64,
    pub verdict: Option<Result<u16, String>>,
}

/// What the caller of `Probe::on_fetch` must do next.
pub enum ProbeStep {
    /// The probe is decided; read the verdict.
    Done,
    /// Sleep this many milliseconds, then fetch again.
    RetryAfter { delay_ms: u64 },
}

impl Probe {
    pub open spec fn wf(self) -> bool {
        self.attempts_made <= self.max_attempts
    }

    pub open spec fn done(self) -> bool {
        self.verdict is Some
    }

    /// The total inter-attempt delay commanded so far.
    pub open spec fn delay_commanded(self) -> nat {
        self.attempts_made as nat * self.delay_ms as nat
    }

    pub fn new(policy: &RetryPolicy) -> (p: Probe)
        ensures
            p.wf(),
            !p.done(),
            p.max_attempts == policy.max_attempts,
            p.delay_ms == policy.delay_ms,
            p.attempts_made == 0,
    {
        Probe { max_attempts: policy.max_attempts, delay_ms: policy.delay_ms, attempts_made: 0, verdict: None }
    }

    /// Feed the result of one fetch attempt. A success decides the probe at
    /// once; a failure decides it with that reason when the attempt budget is
    /// exhausted, and otherwise commands one more attempt after the
    /// configured delay.
    pub fn on_fetch(&mut self, r: Result<u16, String>) -> (step: ProbeStep)
        requires
            old(self).wf(),
            !old(self).done(),
        ensures
            final(self).wf(),
            final(self).max_attempts == old(self).max_attempts,
            final(self).delay_ms == old(self).delay_ms,
            r is Ok ==> final(self).verdict == Some(r)
                && final(self).attempts_made == old(self).attempts_made
                && step == ProbeStep::Done,
            r is Err && old(self).attempts_made == old(self).max_attempts
                ==> final(self).verdict == Some(r)
                && final(self).attempts_made == old(self).attempts_made
                && step == ProbeStep::Done,
            r is Err && old(self).attempts_made < old(self).max_attempts
                ==> final(self).verdict is None
                && final(self).attempts_made == old(self).attempts_made + 1
                && step == (ProbeStep::RetryAfter { delay_ms: old(self).delay_ms }),
    {
        match r {
            Ok(c) => {
                self.verdict = Some(Ok(c));
                ProbeStep::Done
            },
            Err(e) => {
                if self.attempts_made == self.max_attempts {
                    self.verdict = Some(Err(e));
                    ProbeStep::Done
                } else {
                    self.attempts_made = self.attempts_made + 1;
                    ProbeStep::RetryAfter { delay_ms: self.delay_ms }
                }
            },
        }
    }

    /// Consume a decided probe and return its verdict.
    pub fn take_verdict(self) -> (v: Result<u16, String>)
        requires
            self.done(),
        ensures
            Some(v) == self.verdict,
    {
        self.verdict.unwrap()
    }
}

/// The outcome of driving a probe against a fixed script of fetch results.
pub struct ScriptedProbe {
    /// The verdict, or `None` if the script ran out before the probe was
    /// decided.
    pub verdict: Option<Result<u16, String>>,
    /// How many fetch results were consumed.
    pub calls: usize,
    /// The total inter-attempt delay the probe commanded, in milliseconds.
    pub delay_total_ms: u128,
}

/// The view of a scripted verdict.
pub open spec fn verdict_view(v: Option<Result<u16, String>>) -> Option<Result<u16, Seq<char>>> {
    match v {
        Some(r) => Some(status_view(r)),
        None => None,
    }
}

/// Drive the retry state machine against a fixed script of fetch results,
/// consuming them in order. The result is exactly what the probe
/// specification says of the script.
pub fn run_scripted(policy: &RetryPolicy, events: &Vec<Result<u16, String>>) -> (r: ScriptedProbe)
    ensures
        verdict_view(r.verdict) == probe_verdict(
            policy.max_attempts as nat,
            fetch_views(events@),
        ),
        r.verdict is Some ==> r.calls == probe_calls(
            policy.max_attempts as nat,
            fetch_views(events@),
        ),
        r.verdict is None ==> r.calls == events@.len(),
        r.delay_total_ms == probe_delay(policy.max_attempts as nat, fetch_views(events@), policy.delay_ms),
{
    let ghost k0: nat = policy.max_attempts as nat;
    let ghost full: Seq<Result<u16, Seq<char>>> = fetch_views(events@);
    let mut p = Probe::new(policy);
    let mut i: usize = 0;
    let mut delay_total: u128 = 0;
    proof {
        assert(full.subrange(0, full.len() as int) =~= full);
    }
    while i < events.len() && p.verdict.is_none()
        invariant
            i <= events.len(),
            full == fetch_views(events@),
            k0 == policy.max_attempts as nat,
            full.len() == events@.len(),
            p.wf(),
            p.max_attempts == policy.max_attempts,
            p.delay_ms == policy.delay_ms,
            p.verdict is None ==> {
                &&& p.attempts_made == i
                &&& i <= k0
                &&& probe_verdict(k0, full) == probe_verdict((k0 - i) as nat, full.subrange(i as int, full.len() as int))
                &&& probe_calls(k0, full) == i + probe_calls((k0 - i) as nat, full.subrange(i as int, full.len() as int))
                &&& probe_delay(k0, full, policy.delay_ms) == i as nat * policy.delay_ms as nat
                    + probe_delay((k0 - i) as nat, full.subrange(i as int, full.len() as int), policy.delay_ms)
            },
            p.verdict is Some ==> {
                &&& probe_verdict(k0, full) == verdict_view(p.verdict)
                &&& probe_calls(k0, full) == i
                &&& probe_delay(k0, full, policy.delay_ms) == p.delay_commanded()
            },
            delay_total == p.delay_commanded(),
        decreases events.len() - i,
    {
        let ev: Result<u16, String> = match &events[i] {
            Ok(c) => Ok(*c),
            Err(s) => Err(s.clone()),
        };
        let ghost rest = full.subrange(i as int, full.len() as int);
        proof {
            assert(rest[0] == full[i as int]);
            assert(full[i as int] == status_view(events@[i as int]));
            assert(rest.subrange(1, rest.len() as int) =~= full.subrange(
                i + 1,
                full.len() as int,
            ));
        }
        let step = p.on_fetch(ev);
        match step {
            ProbeStep::Done => {
            },
            ProbeStep::RetryAfter { delay_ms } => {
                proof {
                    let a = p.attempts_made as int;
                    let dm = p.delay_ms as int;
                    assert((i + 1) * dm == i * dm + dm) by (nonlinear_arith);
                    assert(a * dm < 0x100000000000000000000000000000000) by (nonlinear_arith)
                        requires
                            0 <= a < 0x10000000000000000,
                            0 <= dm < 0x10000000000000000,
                    ;
                }
                delay_total = delay_total + delay_ms as u128;
            },
        }
        i = i + 1;
    }
    proof {
        if p.verdict is None {
            assert(full.subrange(i as int, full.len() as int) =~= Seq::<
                Result<u16, Seq<char>>,
            >::empty());
        }
    }
    ScriptedProbe { verdict: p.verdict, calls: i, delay_total_ms: delay_total }
}

} // verus!

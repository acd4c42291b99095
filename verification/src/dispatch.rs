use vstd::prelude::*;
use vstd::multiset::Multiset;
use crate::model::{Outcome, OutcomeView, RunError, outcome_views, status_view, str_views};

verus! {

broadcast use vstd::multiset::group_multiset_axioms;

/// The multiset of the elements of a sequence of target identifiers.
pub open spec fn seq_to_ms(s: Seq<Seq<char>>) -> Multiset<Seq<char>>
    decreases s.len(),
{
    if s.len() == 0 {
        Multiset::empty()
    } else {
        seq_to_ms(s.drop_last()).insert(s.last())
    }
}

/// The targets named by a sequence of outcomes, in arrival order.
pub open spec fn outcome_targets(s: Seq<OutcomeView>) -> Seq<Seq<char>> {
    s.map_values(|o: OutcomeView| o.target)
}

/// A completed run: every submitted target's outcome, in arrival order.
pub struct Run {
    pub outcomes: Vec<Outcome>,
}

/// One unit of work handed to a worker. A job cannot be copied or forged:
/// each one the engine hands out can be delivered back at most once.
pub struct Job {
    target: String,
}

impl View for Job {
    type V = Seq<char>;

    closed spec fn view(&self) -> Seq<char> {
        self.target@
    }
}

impl Job {
    /// The target this job probes.
    pub fn target(&self) -> (t: &String)
        ensures
            t@ == self@,
    {
        &self.target
    }
}

/// The dispatch and collection engine. It owns the submitted target list and
/// hands targets out as jobs, first in first out; each delivered job adds
/// exactly one outcome. The engine's invariant ties the collected outcomes
/// and the still-outstanding jobs to the dispatched prefix of the target
/// list, so that a completed run holds every submitted target exactly once.
pub struct Engine {
    targets: Vec<String>,
    worker_count: usize,
    next: usize,
    outcomes: Vec<Outcome>,
    outstanding: Ghost<Multiset<Seq<char>>>,
}

impl Engine {
    /// The submitted targets.
    pub closed spec fn targets(self) -> Seq<Seq<char>> {
        str_views(self.targets@)
    }

    /// How many targets have been handed out so far.
    pub closed spec fn dispatched(self) -> nat {
        self.next as nat
    }

    /// The outcomes collected so far, in arrival order.
    pub closed spec fn collected(self) -> Seq<OutcomeView> {
        outcome_views(self.outcomes@)
    }

    /// The targets handed out but not yet delivered back.
    pub closed spec fn outstanding(self) -> Multiset<Seq<char>> {
        self.outstanding@
    }

    /// The configured number of workers.
    pub closed spec fn spec_worker_count(self) -> nat {
        self.worker_count as nat
    }

    /// Every handed-out target is either collected or outstanding, the two
    /// together are exactly the dispatched prefix of the target list, and
    /// never more jobs are outstanding than the pool has workers.
    pub closed spec fn wf(self) -> bool {
        &&& self.next <= self.targets@.len()
        &&& self.worker_count >= 1
        &&& self.outstanding@.len() <= self.worker_count
        &&& self.collected().len() + self.outstanding@.len() == self.next
        &&& seq_to_ms(outcome_targets(self.collected())).add(self.outstanding@) =~= seq_to_ms(
            self.targets().take(self.next as int),
        )
    }

    /// Start an engine for one run. Fails, before any work is dispatched,
    /// when the pool would have no worker at all.
    pub fn new(targets: Vec<String>, worker_count: usize) -> (r: Result<Engine, RunError>)
        ensures
            worker_count == 0 <==> (r matches Err(e) && e == RunError::PoolStartup),
            worker_count >= 1 ==> (r matches Ok(en) && en.wf() && en.targets() == str_views(
                targets@,
            ) && en.dispatched() == 0 && en.collected() =~= Seq::<OutcomeView>::empty()
                && en.outstanding() =~= Multiset::<Seq<char>>::empty() && en.spec_worker_count()
                == worker_count),
    {
        if worker_count == 0 {
            Err(RunError::PoolStartup)
        } else {
            let en = Engine {
                targets,
                worker_count,
                next: 0,
                outcomes: Vec::new(),
                outstanding: Ghost(Multiset::empty()),
            };
            proof {
                assert(en.targets().take(0) =~= Seq::<Seq<char>>::empty());
                assert(seq_to_ms(outcome_targets(en.collected())).add(en.outstanding@)
                    =~= seq_to_ms(en.targets().take(0)));
            }
            Ok(en)
        }
    }

    /// How many targets were submitted.
    pub fn target_count(&self) -> (n: usize)
        ensures
            n == self.targets().len(),
    {
        self.targets.len()
    }

    /// The configured number of workers.
    pub fn worker_count(&self) -> (n: usize)
        ensures
            n == self.spec_worker_count(),
    {
        self.worker_count
    }

    /// At most the configured number of workers' jobs are ever outstanding:
    /// a worker asks for a job only while it holds none, so the pool never
    /// has more probes in flight than it has workers.
    pub proof fn lemma_bounded_in_flight(self)
        requires
            self.wf(),
        ensures
            self.outstanding().len() <= self.spec_worker_count(),
    {
    }

    /// Hand out the next target, first in first out. A worker asks only
    /// while it holds no job, so fewer jobs than workers are outstanding.
    /// Returns `None` exactly when every target has already been handed
    /// out; no target is ever handed out twice.
    pub fn take_job(&mut self) -> (r: Option<Job>)
        requires
            old(self).wf(),
            old(self).outstanding().len() < old(self).spec_worker_count(),
        ensures
            final(self).wf(),
            final(self).targets() == old(self).targets(),
            final(self).collected() == old(self).collected(),
            final(self).spec_worker_count() == old(self).spec_worker_count(),
            old(self).dispatched() < old(self).targets().len() ==> (r matches Some(j)
                && j@ == old(self).targets()[old(self).dispatched() as int]
                && final(self).dispatched() == old(self).dispatched() + 1
                && final(self).outstanding() =~= old(self).outstanding().insert(j@)),
            old(self).dispatched() == old(self).targets().len() ==> r is None && *final(self)
                == *old(self),
    {
        if self.next < self.targets.len() {
            let t = self.targets[self.next].clone();
            let ghost prefix = self.targets().take(self.next as int);
            self.next = self.next + 1;
            proof {
                self.outstanding@ = self.outstanding@.insert(t@);
                let prefix2 = self.targets().take(self.next as int);
                assert(prefix2.drop_last() =~= prefix);
                assert(prefix2.last() == t@);
                assert(seq_to_ms(outcome_targets(self.collected())).add(self.outstanding@)
                    =~= seq_to_ms(prefix2));
            }
            Some(Job { target: t })
        } else {
            None
        }
    }

    /// Deliver the outcome of one job: the engine records an outcome for the
    /// job's target with the given status, elapsed time and timestamp,
    /// appended in arrival order. The job is consumed.
    pub fn deliver(&mut self, job: Job, status: Result<u16, String>, elapsed_ms: u64, observed_at: u64)
        requires
            old(self).wf(),
            old(self).outstanding().count(job@) >= 1,
        ensures
            final(self).wf(),
            final(self).targets() == old(self).targets(),
            final(self).dispatched() == old(self).dispatched(),
            final(self).spec_worker_count() == old(self).spec_worker_count(),
            final(self).outstanding() =~= old(self).outstanding().remove(job@),
            final(self).collected() =~= old(self).collected().push(
                (OutcomeView {
                    target: job@,
                    status: status_view(status),
                    elapsed_ms: elapsed_ms,
                    observed_at: observed_at,
                }),
            ),
    {
        let ghost t = job@;
        let outcome = Outcome { target: job.target, status, elapsed_ms, observed_at };
        self.outcomes.push(outcome);
        proof {
            self.outstanding@ = self.outstanding@.remove(t);
            let coll = outcome_targets(old(self).collected());
            let coll2 = outcome_targets(self.collected());
            assert(coll2.drop_last() =~= coll);
            assert(coll2.last() == t);
            assert(Multiset::singleton(t).subset_of(old(self).outstanding@)) by {
                assert(forall|v: Seq<char>| Multiset::singleton(t).count(v)
                    <= old(self).outstanding@.count(v));
            };
            assert(seq_to_ms(coll2).add(self.outstanding@) =~= seq_to_ms(coll).add(
                old(self).outstanding@,
            ));
        }
    }

    /// Finish the run once the result stream has ended. If every submitted
    /// target has an outcome, the run is complete, and its outcomes name the
    /// submitted targets exactly — the same multiset, nothing lost and
    /// nothing duplicated, whatever the worker count. Otherwise the stream
    /// ended short, and the run fails with the distinct integrity error.
    pub fn finish(self) -> (r: Result<Run, RunError>)
        requires
            self.wf(),
        ensures
            self.collected().len() <= self.targets().len(),
            self.collected().len() == self.targets().len() ==> (r matches Ok(run)
                && outcome_views(run.outcomes@) == self.collected()
                && seq_to_ms(outcome_targets(outcome_views(run.outcomes@))) =~= seq_to_ms(
                self.targets(),
            )),
            self.collected().len() < self.targets().len() ==> (r matches Err(e) && e == (
            RunError::ShortRun {
                received: self.collected().len() as usize,
                expected: self.targets().len() as usize,
            })),
    {
        if self.outcomes.len() == self.targets.len() {
            proof {
                vstd::multiset::lemma_multiset_empty_len(self.outstanding@);
                assert(self.outstanding@.len() == 0);
                assert(self.targets().take(self.next as int) =~= self.targets());
                assert(seq_to_ms(outcome_targets(self.collected())).add(Multiset::empty())
                    =~= seq_to_ms(outcome_targets(self.collected())));
            }
            Ok(Run { outcomes: self.outcomes })
        } else {
            Err(RunError::ShortRun { received: self.outcomes.len(), expected: self.targets.len() })
        }
    }
}

} // verus!

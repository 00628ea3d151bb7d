//! Settling the jobs of earlier runs: one pass over the ledger in which
//! each pending job is asked about once, and the first one found complete
//! is brought home.
use crate::error::ArchiveError;
use crate::jobs::{
    failed_with, request, request_of, settle, settle_phase, JobAction, JobActionView, JobEvent,
    JobPhase, Status,
};
use crate::ledger::{pruned, InitiatedJob, JobLedger, JobType};
use crate::seqs::lemma_filter_take_next;
use vstd::prelude::*;

verus! {

/// The test that passes the jobs of the type `job_type`.
pub open spec fn of_type(job_type: JobType) -> spec_fn(InitiatedJob) -> bool {
    |job: InitiatedJob| job.job_type == job_type
}

/// The machine that settles pending jobs of one type.
#[derive(Debug)]
pub struct Reconciler {
    base: String,
    candidates: Vec<InitiatedJob>,
    cursor: usize,
    phase: JobPhase,
}

/// What the settling machine holds: the jobs to ask about, how many of them
/// are dealt with, and where it stands with the next one.
pub struct ReconcilerView {
    pub base: Seq<char>,
    pub candidates: Seq<InitiatedJob>,
    pub cursor: nat,
    pub phase: JobPhase,
}

impl ReconcilerView {
    /// The machine at the start of a pass over `jobs`: before the first job
    /// of the type, or at its end at once, as pending, where there is none.
    pub open spec fn initial(jobs: Seq<InitiatedJob>, job_type: JobType, base: Seq<char>) -> Self {
        let candidates = jobs.filter(of_type(job_type));
        ReconcilerView {
            base,
            candidates,
            cursor: 0,
            phase: if candidates.len() > 0 {
                JobPhase::Querying
            } else {
                JobPhase::Finished { status: Status::Pending, error: None }
            },
        }
    }

    /// While the pass is under way there is a job in hand, and the machine
    /// never sleeps.
    pub open spec fn well_formed(self) -> bool {
        &&& self.cursor <= self.candidates.len()
        &&& !(self.phase is Finished) ==> self.cursor < self.candidates.len()
        &&& !(self.phase is Sleeping)
    }

    /// The number of queries that the machine may still ask for.
    pub open spec fn queries_left(self) -> nat {
        if self.phase is Querying {
            (self.candidates.len() - self.cursor) as nat
        } else {
            0
        }
    }

    /// What the machine asks of its driver.
    pub open spec fn action(self) -> JobActionView {
        request_of(self.phase, self.candidates[self.cursor as int], self.base, None, 0)
    }

    /// The machine after `event`.
    ///
    /// A query that finds the job complete leads on to fetching its output.
    /// Any other answer to a query, a failure too, moves on to the next
    /// job, and past the last one ends the pass as pending. From the
    /// fetching on see `settle`.
    pub open spec fn on_event(self, event: JobEvent) -> ReconcilerView {
        match self.phase {
            JobPhase::Querying => match event {
                JobEvent::Described { completed: true } => ReconcilerView {
                    phase: JobPhase::Fetching,
                    ..self
                },
                JobEvent::Described { completed: false } | JobEvent::DescribeFailed => {
                    ReconcilerView {
                        cursor: self.cursor + 1,
                        phase: if self.cursor + 1 < self.candidates.len() {
                            JobPhase::Querying
                        } else {
                            JobPhase::Finished { status: Status::Pending, error: None }
                        },
                        ..self
                    }
                },
                _ => ReconcilerView { phase: failed_with(ArchiveError::ServiceError), ..self },
            },
            _ => ReconcilerView { phase: settle(self.phase, event), ..self },
        }
    }

    /// The machine after the events of `events`, one after the other.
    pub open spec fn run(self, events: Seq<JobEvent>) -> ReconcilerView
        decreases events.len(),
    {
        if events.len() == 0 {
            self
        } else {
            self.on_event(events[0]).run(events.skip(1))
        }
    }

    /// The number of queries that the driver makes while it reports the
    /// events of `events`: one for each event that finds the machine
    /// querying.
    pub open spec fn queries_during(self, events: Seq<JobEvent>) -> nat
        decreases events.len(),
    {
        if events.len() == 0 {
            0
        } else {
            let asked: nat = if self.phase is Querying {
                1
            } else {
                0
            };
            asked + self.on_event(events[0]).queries_during(events.skip(1))
        }
    }
}

impl View for Reconciler {
    type V = ReconcilerView;

    closed spec fn view(&self) -> ReconcilerView {
        ReconcilerView {
            base: self.base@,
            candidates: self.candidates@,
            cursor: self.cursor as nat,
            phase: self.phase,
        }
    }
}

/// Every event leaves the machine well formed, every answer to a query
/// leaves fewer queries to ask, and the machine asks for no wait.
pub proof fn lemma_reconcile_step(machine: ReconcilerView, event: JobEvent)
    requires
        machine.well_formed(),
    ensures
        machine.on_event(event).well_formed(),
        machine.phase is Querying ==> machine.on_event(event).queries_left()
            < machine.queries_left(),
        machine.on_event(event).queries_left() <= machine.queries_left(),
        !(machine.action() is Sleep),
        machine.on_event(event).candidates == machine.candidates,
{
}

/// A pass ends as pending only past the last job, none of which was found
/// complete; as done only over a forgotten job; and as failed with the
/// error that failed it.
pub proof fn lemma_reconcile_outcome(machine: ReconcilerView, event: JobEvent)
    requires
        machine.well_formed(),
        !(machine.phase is Finished),
    ensures
        machine.on_event(event).phase matches JobPhase::Finished { status, error } ==> match status {
            Status::Pending => {
                &&& error is None
                &&& machine.phase is Querying
                &&& machine.cursor + 1 == machine.candidates.len()
                &&& event != (JobEvent::Described { completed: true })
            },
            Status::Done => error is None && machine.phase is Forgetting && event
                == JobEvent::Forgotten,
            Status::Failed => error is Some,
        },
{
}

/// A pass asks about each pending job at most once: whatever the driver
/// reports, it makes no more queries than there are jobs left to ask about.
pub proof fn lemma_reconcile_queries_bounded(machine: ReconcilerView, events: Seq<JobEvent>)
    requires
        machine.well_formed(),
    ensures
        machine.queries_during(events) <= machine.queries_left(),
        machine.queries_left() <= machine.candidates.len(),
        machine.run(events).well_formed(),
    decreases events.len(),
{
    if events.len() > 0 {
        lemma_reconcile_step(machine, events[0]);
        lemma_reconcile_queries_bounded(machine.on_event(events[0]), events.skip(1));
    }
}

/// A pass is over after one report for each job left to ask about and two
/// more, for the fetching and the forgetting of the one found complete.
pub proof fn lemma_reconcile_ends(machine: ReconcilerView, events: Seq<JobEvent>)
    requires
        machine.well_formed(),
        events.len() >= machine.queries_left() + 2,
    ensures
        machine.run(events).phase is Finished,
    decreases events.len(),
{
    lemma_reconcile_step(machine, events[0]);
    let next = machine.on_event(events[0]);
    if events.len() > 1 {
        if machine.phase is Querying {
            if next.phase is Querying {
                lemma_reconcile_ends(next, events.skip(1));
            } else {
                lemma_settled_ends(next, events.skip(1));
            }
        } else {
            lemma_settled_ends(machine, events);
        }
    }
}

/// Once the querying is over, two reports end the pass.
proof fn lemma_settled_ends(machine: ReconcilerView, events: Seq<JobEvent>)
    requires
        machine.well_formed(),
        !(machine.phase is Querying),
        events.len() >= 2 || (events.len() >= 1 && !(machine.phase is Fetching))
            || machine.phase is Finished,
    ensures
        machine.run(events).phase is Finished,
    decreases events.len(),
{
    if events.len() > 0 {
        lemma_reconcile_step(machine, events[0]);
        lemma_settled_ends(machine.on_event(events[0]), events.skip(1));
    }
}

impl Reconciler {
    #[verifier::type_invariant]
    spec fn holds(&self) -> bool {
        self@.well_formed()
    }

    /// Starts a pass over the jobs of the type `job_type`.
    ///
    /// First the jobs that have reached the age `ttl` at `now` leave
    /// `ledger`. The pass then runs over what is left, in the ledger's
    /// order; `base` is the state directory under which inventories go.
    pub fn start(ledger: &mut JobLedger, job_type: JobType, base: String, now: i64, ttl: i64) -> (r:
        Reconciler)
        ensures
            final(ledger)@ == pruned(old(ledger)@, now as int, ttl as int),
            r@ == ReconcilerView::initial(final(ledger)@, job_type, base@),
            r@.well_formed(),
    {
        ledger.prune(now, ttl);
        let jobs = ledger.list();
        let ghost keep = of_type(job_type);
        let mut candidates: Vec<InitiatedJob> = Vec::new();
        let mut i: usize = 0;
        proof {
            assert(jobs@.take(0) =~= Seq::<InitiatedJob>::empty());
            reveal(Seq::filter);
        }
        while i < jobs.len()
            invariant
                i <= jobs.len(),
                keep == of_type(job_type),
                candidates@ == jobs@.take(i as int).filter(keep),
            decreases jobs.len() - i,
        {
            proof {
                lemma_filter_take_next(jobs@, i as int, keep);
            }
            if jobs[i].job_type == job_type {
                candidates.push(jobs[i].clone());
            }
            i = i + 1;
        }
        proof {
            assert(jobs@.take(jobs@.len() as int) =~= jobs@);
        }
        let phase = if candidates.len() > 0 {
            JobPhase::Querying
        } else {
            JobPhase::Finished { status: Status::Pending, error: None }
        };
        Reconciler { base, candidates, cursor: 0, phase }
    }

    /// What the driver is to do next. It is never a wait.
    pub fn action(&self) -> (r: JobAction)
        ensures
            r@ == self@.action(),
            !(r is Sleep),
            self@.well_formed(),
    {
        proof {
            use_type_invariant(self);
        }
        match self.phase {
            JobPhase::Finished { status, error } => JobAction::Finish { status, error },
            _ => request(self.phase, &self.candidates[self.cursor], self.base.as_str(), &None, 0),
        }
    }

    /// Takes in what the driver reports.
    pub fn on_event(&mut self, event: JobEvent)
        ensures
            final(self)@ == old(self)@.on_event(event),
            final(self)@.well_formed(),
    {
        proof {
            use_type_invariant(&*self);
            lemma_reconcile_step(self@, event);
        }
        match self.phase {
            JobPhase::Querying => match event {
                JobEvent::Described { completed: true } => {
                    self.phase = JobPhase::Fetching;
                },
                JobEvent::Described { completed: false } | JobEvent::DescribeFailed => {
                    if self.candidates.len() - self.cursor <= 1 {
                        self.phase = JobPhase::Finished { status: Status::Pending, error: None };
                    }
                    self.cursor = self.cursor + 1;
                },
                _ => {
                    self.phase = JobPhase::Finished {
                        status: Status::Failed,
                        error: Some(ArchiveError::ServiceError),
                    };
                },
            },
            _ => {
                self.phase = settle_phase(self.phase, event);
            },
        }
    }

    /// How the pass ended: `None` while it is under way.
    pub fn status(&self) -> (r: Option<Status>)
        ensures
            r == match self@.phase {
                JobPhase::Finished { status, .. } => Some(status),
                _ => None,
            },
    {
        match self.phase {
            JobPhase::Finished { status, .. } => Some(status),
            _ => None,
        }
    }
}

} // verus!

//! Waiting for one job: ask, sleep, ask again, until the service reports
//! the job complete or the asking fails.
use crate::error::ArchiveError;
use crate::jobs::{
    failed_with, request, request_of, settle, settle_phase, JobAction, JobActionView, JobEvent,
    JobPhase, Status,
};
use crate::ledger::InitiatedJob;
use vstd::prelude::*;

verus! {

/// The wait between two queries, in seconds: one hour.
pub const SLEEP_DURATION: u64 = 3600;

/// The machine that waits for one job and brings its output home.
#[derive(Debug)]
pub struct JobPoller {
    job: InitiatedJob,
    base: String,
    output_as: Option<String>,
    interval: u64,
    phase: JobPhase,
}

/// What the waiting machine holds.
pub struct JobPollerView {
    pub job: InitiatedJob,
    pub base: Seq<char>,
    pub output_as: Option<Seq<char>>,
    pub interval: u64,
    pub phase: JobPhase,
}

impl JobPollerView {
    /// What the machine asks of its driver.
    pub open spec fn action(self) -> JobActionView {
        request_of(self.phase, self.job, self.base, self.output_as, self.interval)
    }

    /// Where the machine stands after `event`.
    ///
    /// A query that finds the job complete leads on to fetching its output;
    /// one that finds it not ready puts the machine to sleep, and waking up
    /// leads back to the query. A query that fails ends the run with
    /// `ServiceError`: it is not tried again. From the fetching on, and for
    /// events that answer nothing that was asked, see `settle`.
    pub open spec fn next_phase(self, event: JobEvent) -> JobPhase {
        match self.phase {
            JobPhase::Querying => match event {
                JobEvent::Described { completed } => if completed {
                    JobPhase::Fetching
                } else {
                    JobPhase::Sleeping
                },
                _ => failed_with(ArchiveError::ServiceError),
            },
            JobPhase::Sleeping => match event {
                JobEvent::Woke => JobPhase::Querying,
                _ => failed_with(ArchiveError::ServiceError),
            },
            _ => settle(self.phase, event),
        }
    }

    /// The machine after `event`.
    pub open spec fn on_event(self, event: JobEvent) -> JobPollerView {
        JobPollerView { phase: self.next_phase(event), ..self }
    }

    /// The machine after the events of `events`, one after the other.
    pub open spec fn run(self, events: Seq<JobEvent>) -> JobPollerView
        decreases events.len(),
    {
        if events.len() == 0 {
            self
        } else {
            self.on_event(events[0]).run(events.skip(1))
        }
    }
}

impl View for JobPoller {
    type V = JobPollerView;

    closed spec fn view(&self) -> JobPollerView {
        JobPollerView {
            job: self.job,
            base: self.base@,
            output_as: match self.output_as {
                Some(path) => Some(path@),
                None => None,
            },
            interval: self.interval,
            phase: self.phase,
        }
    }
}

/// The end of a run is final: no event leads out of it.
pub proof fn lemma_poll_end_is_final(machine: JobPollerView, events: Seq<JobEvent>)
    requires
        machine.phase is Finished,
    ensures
        machine.run(events) == machine,
    decreases events.len(),
{
    if events.len() > 0 {
        lemma_poll_end_is_final(machine, events.skip(1));
    }
}

/// The machine never asks twice in a row: after a query it fetches, sleeps
/// or stops, and it sleeps for its interval exactly.
pub proof fn lemma_poll_waits_between_queries(machine: JobPollerView, event: JobEvent)
    requires
        machine.phase is Querying,
    ensures
        !(machine.on_event(event).phase is Querying),
        machine.on_event(event).phase is Sleeping ==> machine.on_event(event).action()
            == (JobActionView::Sleep { seconds: machine.interval }),
        machine.on_event(event).phase is Sleeping <==> event == (JobEvent::Described {
            completed: false,
        }),
{
}

/// A run ends as done only over a query that found the job complete, its
/// output on disk and the job out of the ledger, in that order.
pub proof fn lemma_poll_done_is_earned(machine: JobPollerView, event: JobEvent)
    ensures
        !(machine.phase is Finished) && (machine.on_event(event).phase matches JobPhase::Finished {
            status,
            ..
        } && status == Status::Done) ==> machine.phase is Forgetting && event
            == JobEvent::Forgotten,
        machine.on_event(event).phase is Forgetting && !(machine.phase is Forgetting)
            ==> machine.phase is Fetching && event == JobEvent::OutputWritten,
        machine.on_event(event).phase is Fetching && !(machine.phase is Fetching)
            ==> machine.phase is Querying && event == (JobEvent::Described { completed: true }),
{
}

/// A run ends as done without an error, or as failed with one; it never
/// ends as pending.
pub proof fn lemma_poll_ends_done_or_failed(machine: JobPollerView, event: JobEvent)
    requires
        !(machine.phase is Finished),
    ensures
        machine.on_event(event).phase matches JobPhase::Finished { status, error } ==> (status
            == Status::Done && error is None) || (status == Status::Failed && error is Some),
{
}

impl JobPoller {
    /// A machine that waits for `job`, asking every `interval` seconds.
    ///
    /// An inventory goes to the vault's inventory file under the state
    /// directory `base`; a retrieved archive goes to `output_as`, or to a
    /// file named by the job's id.
    pub fn new(job: InitiatedJob, base: String, output_as: Option<String>, interval: u64) -> (r:
        JobPoller)
        ensures
            r@.job == job,
            r@.base == base@,
            r@.output_as == match output_as {
                Some(path) => Some(path@),
                None => None,
            },
            r@.interval == interval,
            r@.phase == JobPhase::Querying,
    {
        JobPoller { job, base, output_as, interval, phase: JobPhase::Querying }
    }

    /// What the driver is to do next.
    pub fn action(&self) -> (r: JobAction)
        ensures
            r@ == self@.action(),
    {
        request(self.phase, &self.job, self.base.as_str(), &self.output_as, self.interval)
    }

    /// Takes in what the driver reports.
    pub fn on_event(&mut self, event: JobEvent)
        ensures
            final(self)@ == old(self)@.on_event(event),
    {
        self.phase = match self.phase {
            JobPhase::Querying => match event {
                JobEvent::Described { completed } => if completed {
                    JobPhase::Fetching
                } else {
                    JobPhase::Sleeping
                },
                _ => JobPhase::Finished {
                    status: Status::Failed,
                    error: Some(ArchiveError::ServiceError),
                },
            },
            JobPhase::Sleeping => match event {
                JobEvent::Woke => JobPhase::Querying,
                _ => JobPhase::Finished {
                    status: Status::Failed,
                    error: Some(ArchiveError::ServiceError),
                },
            },
            _ => settle_phase(self.phase, event),
        };
    }

    /// Where the machine stands.
    pub fn phase(&self) -> (r: JobPhase)
        ensures
            r == self@.phase,
    {
        self.phase
    }

    /// How the run ended: `None` while it is not over, `Ok` where the job's
    /// output is on disk and the job out of the ledger, else the error.
    pub fn outcome(&self) -> (r: Option<Result<(), ArchiveError>>)
        ensures
            r == match self@.phase {
                JobPhase::Finished { status, error } => Some(
                    match error {
                        Some(e) => Err(e),
                        None => Ok(()),
                    },
                ),
                _ => None,
            },
    {
        match self.phase {
            JobPhase::Finished { status, error } => Some(
                match error {
                    Some(e) => Err(e),
                    None => Ok(()),
                },
            ),
            _ => None,
        }
    }
}

} // verus!

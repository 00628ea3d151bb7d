//! What the job machines ask of their driver, and what the driver answers.
use crate::error::ArchiveError;
use crate::ledger::{InitiatedJob, JobType};
use crate::paths::{inventory_directory, inventory_directory_of, inventory_file, inventory_file_of};
use crate::picker::ArchiveItem;
use vstd::prelude::*;
use vstd::string::StringExecFns;

verus! {

/// How a run over jobs ended, or stands.
#[derive(Debug, Clone, Copy, PartialEq, Eq, Structural)]
pub enum Status {
    Failed,
    Done,
    Pending,
}

impl Status {
    /// The state of a job that the service describes as completed or not.
    pub fn of_description(completed: bool) -> (r: Status)
        ensures
            r == if completed {
                Status::Done
            } else {
                Status::Pending
            },
    {
        if completed {
            Status::Done
        } else {
            Status::Pending
        }
    }
}

/// What the driver reports back after it has done what a machine asked.
#[derive(Debug, Clone, Copy, PartialEq, Eq, Structural)]
pub enum JobEvent {
    /// The service described the job, as completed or not.
    Described { completed: bool },
    /// The service could not be asked about the job.
    DescribeFailed,
    /// The wait is over.
    Woke,
    /// The job's output is on disk.
    OutputWritten,
    /// The service did not hand out the job's output.
    OutputFailed,
    /// A local file could not be written: the job's output, or the ledger.
    WriteFailed,
    /// The job is out of the ledger file.
    Forgotten,
}

/// Where a machine stands with the job it is working on.
#[derive(Debug, Clone, Copy, PartialEq, Eq, Structural)]
pub enum JobPhase {
    /// The service is to be asked how the job stands.
    Querying,
    /// The job was not ready; the machine waits before it asks again.
    Sleeping,
    /// The job is complete; its output is to be fetched and written.
    Fetching,
    /// The output is on disk; the job is to leave the ledger file.
    Forgetting,
    /// The run is over.
    Finished { status: Status, error: Option<ArchiveError> },
}

/// The end of a run that failed with `error`.
pub open spec fn failed_with(error: ArchiveError) -> JobPhase {
    JobPhase::Finished { status: Status::Failed, error: Some(error) }
}

/// Where a machine stands after `event`, once the job in hand is known to
/// be complete, and where it stays once the run is over.
///
/// Output on disk leads on to forgetting the job, and a forgotten job ends
/// the run as done. Output that the service withheld ends the run with
/// `ServiceError`; a file that could not be written, the output or the
/// ledger, ends it with `IOError`. An event that does not answer what was
/// asked ends the run with `ServiceError`.
pub open spec fn settle(phase: JobPhase, event: JobEvent) -> JobPhase {
    match phase {
        JobPhase::Finished { .. } => phase,
        JobPhase::Fetching => match event {
            JobEvent::OutputWritten => JobPhase::Forgetting,
            JobEvent::WriteFailed => failed_with(ArchiveError::IOError),
            _ => failed_with(ArchiveError::ServiceError),
        },
        JobPhase::Forgetting => match event {
            JobEvent::Forgotten => JobPhase::Finished { status: Status::Done, error: None },
            JobEvent::WriteFailed => failed_with(ArchiveError::IOError),
            _ => failed_with(ArchiveError::ServiceError),
        },
        _ => failed_with(ArchiveError::ServiceError),
    }
}

/// Computes `settle`.
pub fn settle_phase(phase: JobPhase, event: JobEvent) -> (r: JobPhase)
    ensures
        r == settle(phase, event),
{
    let failed = JobPhase::Finished {
        status: Status::Failed,
        error: Some(ArchiveError::ServiceError),
    };
    match phase {
        JobPhase::Finished { .. } => phase,
        JobPhase::Fetching => match event {
            JobEvent::OutputWritten => JobPhase::Forgetting,
            JobEvent::WriteFailed => JobPhase::Finished {
                status: Status::Failed,
                error: Some(ArchiveError::IOError),
            },
            _ => failed,
        },
        JobPhase::Forgetting => match event {
            JobEvent::Forgotten => JobPhase::Finished { status: Status::Done, error: None },
            JobEvent::WriteFailed => JobPhase::Finished {
                status: Status::Failed,
                error: Some(ArchiveError::IOError),
            },
            _ => failed,
        },
        _ => failed,
    }
}

/// What a machine asks its driver to do next.
#[derive(Debug)]
pub enum JobAction {
    /// Ask the service once how the job stands.
    Describe { vault: String, job_id: String },
    /// Wait for so many seconds.
    Sleep { seconds: u64 },
    /// Fetch the job's output and write it to `destination`, after creating
    /// `directory` where one is named.
    Fetch { vault: String, job_id: String, directory: Option<String>, destination: String },
    /// Take the job out of the ledger file.
    Forget { job_id: String },
    /// Stop: the run has ended as `status`, with `error` where it failed.
    Finish { status: Status, error: Option<ArchiveError> },
}

/// A request to the driver, with its texts as sequences of characters.
pub enum JobActionView {
    Describe { vault: Seq<char>, job_id: Seq<char> },
    Sleep { seconds: u64 },
    Fetch {
        vault: Seq<char>,
        job_id: Seq<char>,
        directory: Option<Seq<char>>,
        destination: Seq<char>,
    },
    Forget { job_id: Seq<char> },
    Finish { status: Status, error: Option<ArchiveError> },
}

impl View for JobAction {
    type V = JobActionView;

    open spec fn view(&self) -> JobActionView {
        match *self {
            JobAction::Describe { vault, job_id } => JobActionView::Describe {
                vault: vault@,
                job_id: job_id@,
            },
            JobAction::Sleep { seconds } => JobActionView::Sleep { seconds },
            JobAction::Fetch { vault, job_id, directory, destination } => JobActionView::Fetch {
                vault: vault@,
                job_id: job_id@,
                directory: match directory {
                    Some(d) => Some(d@),
                    None => None,
                },
                destination: destination@,
            },
            JobAction::Forget { job_id } => JobActionView::Forget { job_id: job_id@ },
            JobAction::Finish { status, error } => JobActionView::Finish { status, error },
        }
    }
}

/// The request to describe `job`.
pub open spec fn describe_of(job: InitiatedJob) -> JobActionView {
    JobActionView::Describe { vault: job.vault@, job_id: job.job_id@ }
}

/// The request to fetch the output of `job`.
///
/// An inventory goes to the inventory file of the job's vault under the
/// state directory `base`, whose directory is created first. A retrieved
/// archive goes to the file `output_as`, or to a file named by the job's id
/// where none is given.
pub open spec fn fetch_of(
    job: InitiatedJob,
    base: Seq<char>,
    output_as: Option<Seq<char>>,
) -> JobActionView {
    match job.job_type {
        JobType::Inventory => JobActionView::Fetch {
            vault: job.vault@,
            job_id: job.job_id@,
            directory: Some(inventory_directory_of(base, job.vault@)),
            destination: inventory_file_of(base, job.vault@),
        },
        JobType::Retrieval => JobActionView::Fetch {
            vault: job.vault@,
            job_id: job.job_id@,
            directory: None,
            destination: match output_as {
                Some(path) => path,
                None => job.job_id@,
            },
        },
    }
}

/// The request to take `job` out of the ledger file.
pub open spec fn forget_of(job: InitiatedJob) -> JobActionView {
    JobActionView::Forget { job_id: job.job_id@ }
}

/// What a machine at `phase` asks for, working on `job`: one query while
/// it is querying, a wait of `interval` seconds while it sleeps, then the
/// fetching of the output, the forgetting of the job, and the end.
pub open spec fn request_of(
    phase: JobPhase,
    job: InitiatedJob,
    base: Seq<char>,
    output_as: Option<Seq<char>>,
    interval: u64,
) -> JobActionView {
    match phase {
        JobPhase::Querying => describe_of(job),
        JobPhase::Sleeping => JobActionView::Sleep { seconds: interval },
        JobPhase::Fetching => fetch_of(job, base, output_as),
        JobPhase::Forgetting => forget_of(job),
        JobPhase::Finished { status, error } => JobActionView::Finish { status, error },
    }
}

/// The request of a machine at `phase`, working on `job`.
pub fn request(
    phase: JobPhase,
    job: &InitiatedJob,
    base: &str,
    output_as: &Option<String>,
    interval: u64,
) -> (r: JobAction)
    ensures
        r@ == request_of(
            phase,
            *job,
            base@,
            match *output_as {
                Some(path) => Some(path@),
                None => None,
            },
            interval,
        ),
{
    match phase {
        JobPhase::Querying => describe_request(job),
        JobPhase::Sleeping => JobAction::Sleep { seconds: interval },
        JobPhase::Fetching => fetch_request(job, base, output_as),
        JobPhase::Forgetting => JobAction::Forget { job_id: job.job_id.clone() },
        JobPhase::Finished { status, error } => JobAction::Finish { status, error },
    }
}

/// The request to describe `job`.
pub fn describe_request(job: &InitiatedJob) -> (r: JobAction)
    ensures
        r@ == describe_of(*job),
{
    JobAction::Describe { vault: job.vault.clone(), job_id: job.job_id.clone() }
}

/// The request to fetch the output of `job` to where it belongs.
pub fn fetch_request(job: &InitiatedJob, base: &str, output_as: &Option<String>) -> (r: JobAction)
    ensures
        r@ == fetch_of(
            *job,
            base@,
            match *output_as {
                Some(path) => Some(path@),
                None => None,
            },
        ),
{
    match job.job_type {
        JobType::Inventory => JobAction::Fetch {
            vault: job.vault.clone(),
            job_id: job.job_id.clone(),
            directory: Some(inventory_directory(base, job.vault.as_str())),
            destination: inventory_file(base, job.vault.as_str()),
        },
        JobType::Retrieval => JobAction::Fetch {
            vault: job.vault.clone(),
            job_id: job.job_id.clone(),
            directory: None,
            destination: match output_as {
                Some(path) => path.clone(),
                None => job.job_id.clone(),
            },
        },
    }
}

/// What the service is asked to start: the listing of a vault's inventory,
/// or the retrieval of one archive.
#[derive(Debug)]
pub struct JobSpec {
    pub kind: String,
    pub description: Option<String>,
    pub format: Option<String>,
    pub archive_id: Option<String>,
}

impl JobSpec {
    /// The job that lists the inventory of `vault`, as JSON, described by
    /// the vault's name.
    pub fn inventory(vault: &str) -> (r: JobSpec)
        ensures
            r.kind@ == "inventory-retrieval"@,
            r.description matches Some(d) && d@ == vault@,
            r.format matches Some(f) && f@ == "JSON"@,
            r.archive_id is None,
    {
        JobSpec {
            kind: String::from_str("inventory-retrieval"),
            description: Some(String::from_str(vault)),
            format: Some(String::from_str("JSON")),
            archive_id: None,
        }
    }

    /// The job that retrieves the archive `archive_id`.
    pub fn retrieval(archive_id: &str) -> (r: JobSpec)
        ensures
            r.kind@ == "archive-retrieval"@,
            r.description is None,
            r.format is None,
            r.archive_id matches Some(a) && a@ == archive_id@,
    {
        JobSpec {
            kind: String::from_str("archive-retrieval"),
            description: None,
            format: None,
            archive_id: Some(String::from_str(archive_id)),
        }
    }

    /// What kind of job this is.
    pub fn job_type(&self) -> (r: JobType)
        ensures
            r == if self.archive_id is Some {
                JobType::Retrieval
            } else {
                JobType::Inventory
            },
    {
        match self.archive_id {
            Some(_) => JobType::Retrieval,
            None => JobType::Inventory,
        }
    }
}

/// The archive to download, where the operator marked exactly one.
pub fn only_archive(archives: &Vec<ArchiveItem>) -> (r: Option<ArchiveItem>)
    ensures
        r is Some <==> archives@.len() == 1,
        r matches Some(item) ==> item == archives@[0],
{
    if archives.len() == 1 {
        Some(archives[0].clone())
    } else {
        None
    }
}

} // verus!

use basmati::error::ArchiveError;
use basmati::jobs::{only_archive, JobAction, JobEvent, JobPhase, JobSpec, Status};
use basmati::ledger::{InitiatedJob, JobLedger, JobType, TWENTY_FOUR_HOURS};
use basmati::paths::{
    basmati_directory, inventory_directory, inventory_file, jobs_directory, jobs_file,
};
use basmati::picker::ArchiveItem;
use basmati::poll::{JobPoller, SLEEP_DURATION};
use basmati::reconcile::Reconciler;

fn job(id: &str, vault: &str, timestamp: i64, job_type: JobType) -> InitiatedJob {
    InitiatedJob {
        location: format!("/1/vaults/{}/jobs/{}", vault, id),
        job_id: String::from(id),
        vault: String::from(vault),
        timestamp,
        job_type,
    }
}

fn ledger_of(jobs: Vec<InitiatedJob>) -> JobLedger {
    JobLedger::from_jobs(jobs)
}

fn ids(ledger: &JobLedger) -> Vec<String> {
    ledger.list().iter().map(|j| j.job_id.clone()).collect()
}

fn described(action: &JobAction) -> (String, String) {
    match action {
        JobAction::Describe { vault, job_id } => (vault.clone(), job_id.clone()),
        other => panic!("expected a query, got {:?}", other),
    }
}

fn finished(action: &JobAction) -> (Status, Option<ArchiveError>) {
    match action {
        JobAction::Finish { status, error } => (*status, *error),
        other => panic!("expected the end, got {:?}", other),
    }
}

#[test]
fn local_paths() {
    assert_eq!(basmati_directory("/home/me"), "/home/me/.basmati");
    assert_eq!(jobs_directory("/home/me/.basmati"), "/home/me/.basmati/jobs");
    assert_eq!(jobs_file("/home/me/.basmati"), "/home/me/.basmati/jobs/jobs.json");
    assert_eq!(inventory_directory("/b", "photos"), "/b/vault/photos");
    assert_eq!(inventory_file("/b", "photos"), "/b/vault/photos/inventory.json");
}

#[test]
fn status_of_a_description() {
    assert_eq!(Status::of_description(true), Status::Done);
    assert_eq!(Status::of_description(false), Status::Pending);
}

#[test]
fn job_specs() {
    let inventory = JobSpec::inventory("photos");
    assert_eq!(inventory.kind, "inventory-retrieval");
    assert_eq!(inventory.description.as_deref(), Some("photos"));
    assert_eq!(inventory.format.as_deref(), Some("JSON"));
    assert_eq!(inventory.archive_id, None);
    assert_eq!(inventory.job_type(), JobType::Inventory);
    let retrieval = JobSpec::retrieval("arch-1");
    assert_eq!(retrieval.kind, "archive-retrieval");
    assert_eq!(retrieval.description, None);
    assert_eq!(retrieval.format, None);
    assert_eq!(retrieval.archive_id.as_deref(), Some("arch-1"));
    assert_eq!(retrieval.job_type(), JobType::Retrieval);
}

fn archive(id: &str) -> ArchiveItem {
    ArchiveItem {
        archive_id: String::from(id),
        archive_description: format!("archive {}", id),
        creation_date: String::from("2024-03-28T00:00:00Z"),
        size: 1,
        sha256_tree_hash: String::new(),
    }
}

#[test]
fn exactly_one_archive_can_be_downloaded() {
    assert!(only_archive(&vec![]).is_none());
    assert_eq!(only_archive(&vec![archive("a")]).unwrap().archive_id, "a");
    assert!(only_archive(&vec![archive("a"), archive("b")]).is_none());
}

#[test]
fn reconciler_prunes_then_asks_about_each_job_of_the_type_once() {
    let mut ledger = ledger_of(vec![
        job("expired", "v0", 0, JobType::Inventory),
        job("i1", "v1", 100_000, JobType::Inventory),
        job("r1", "v2", 100_000, JobType::Retrieval),
        job("i2", "v3", 100_001, JobType::Inventory),
    ]);
    let now = TWENTY_FOUR_HOURS + 10;
    let mut pass =
        Reconciler::start(&mut ledger, JobType::Inventory, String::from("/b"), now, TWENTY_FOUR_HOURS);
    assert_eq!(ids(&ledger), vec!["i1", "r1", "i2"]);
    assert_eq!(pass.status(), None);
    assert_eq!(described(&pass.action()), (String::from("v1"), String::from("i1")));
    pass.on_event(JobEvent::Described { completed: false });
    assert_eq!(described(&pass.action()), (String::from("v3"), String::from("i2")));
    pass.on_event(JobEvent::DescribeFailed);
    assert_eq!(finished(&pass.action()), (Status::Pending, None));
    assert_eq!(pass.status(), Some(Status::Pending));
    pass.on_event(JobEvent::Described { completed: true });
    assert_eq!(pass.status(), Some(Status::Pending));
}

#[test]
fn reconciler_brings_home_the_first_complete_inventory() {
    let mut ledger = ledger_of(vec![
        job("i1", "v1", 50, JobType::Inventory),
        job("i2", "v2", 60, JobType::Inventory),
        job("i3", "v3", 70, JobType::Inventory),
    ]);
    let mut pass =
        Reconciler::start(&mut ledger, JobType::Inventory, String::from("/b"), 100, TWENTY_FOUR_HOURS);
    pass.on_event(JobEvent::Described { completed: false });
    described(&pass.action());
    pass.on_event(JobEvent::Described { completed: true });
    match pass.action() {
        JobAction::Fetch { vault, job_id, directory, destination } => {
            assert_eq!(vault, "v2");
            assert_eq!(job_id, "i2");
            assert_eq!(directory.as_deref(), Some("/b/vault/v2"));
            assert_eq!(destination, "/b/vault/v2/inventory.json");
        },
        other => panic!("expected a fetch, got {:?}", other),
    }
    pass.on_event(JobEvent::OutputWritten);
    match pass.action() {
        JobAction::Forget { job_id } => {
            assert_eq!(job_id, "i2");
            ledger.remove(&job_id);
        },
        other => panic!("expected a forget, got {:?}", other),
    }
    pass.on_event(JobEvent::Forgotten);
    assert_eq!(finished(&pass.action()), (Status::Done, None));
    assert_eq!(pass.status(), Some(Status::Done));
    assert_eq!(ids(&ledger), vec!["i1", "i3"]);
}

#[test]
fn reconciler_writes_a_retrieval_to_a_file_named_by_the_job() {
    let mut ledger = ledger_of(vec![job("r1", "v1", 50, JobType::Retrieval)]);
    let mut pass =
        Reconciler::start(&mut ledger, JobType::Retrieval, String::from("/b"), 100, TWENTY_FOUR_HOURS);
    pass.on_event(JobEvent::Described { completed: true });
    match pass.action() {
        JobAction::Fetch { vault, job_id, directory, destination } => {
            assert_eq!(vault, "v1");
            assert_eq!(job_id, "r1");
            assert_eq!(directory, None);
            assert_eq!(destination, "r1");
        },
        other => panic!("expected a fetch, got {:?}", other),
    }
}

#[test]
fn reconciler_fails_when_output_cannot_be_had() {
    for (event, error) in [
        (JobEvent::OutputFailed, ArchiveError::ServiceError),
        (JobEvent::WriteFailed, ArchiveError::IOError),
        (JobEvent::Woke, ArchiveError::ServiceError),
    ] {
        let mut ledger = ledger_of(vec![job("i1", "v1", 50, JobType::Inventory)]);
        let mut pass = Reconciler::start(
            &mut ledger,
            JobType::Inventory,
            String::from("/b"),
            100,
            TWENTY_FOUR_HOURS,
        );
        pass.on_event(JobEvent::Described { completed: true });
        pass.on_event(event);
        assert_eq!(finished(&pass.action()), (Status::Failed, Some(error)));
        assert_eq!(ids(&ledger), vec!["i1"]);
    }
}

#[test]
fn reconciler_with_nothing_to_ask_is_pending_at_once() {
    let mut empty = JobLedger::new();
    let pass =
        Reconciler::start(&mut empty, JobType::Inventory, String::from("/b"), 0, TWENTY_FOUR_HOURS);
    assert_eq!(finished(&pass.action()), (Status::Pending, None));
    let mut other = ledger_of(vec![job("r1", "v", 0, JobType::Retrieval)]);
    let pass =
        Reconciler::start(&mut other, JobType::Inventory, String::from("/b"), 0, TWENTY_FOUR_HOURS);
    assert_eq!(pass.status(), Some(Status::Pending));
    let mut expired = ledger_of(vec![job("i1", "v", 0, JobType::Inventory)]);
    let pass = Reconciler::start(
        &mut expired,
        JobType::Inventory,
        String::from("/b"),
        TWENTY_FOUR_HOURS,
        TWENTY_FOUR_HOURS,
    );
    assert_eq!(pass.status(), Some(Status::Pending));
    assert!(expired.list().is_empty());
}

#[test]
fn reconciler_never_sleeps_and_asks_at_most_once_per_job() {
    let jobs: Vec<InitiatedJob> =
        (0..25).map(|i| job(&format!("j{}", i), "v", 10, JobType::Retrieval)).collect();
    let mut ledger = ledger_of(jobs);
    let mut pass =
        Reconciler::start(&mut ledger, JobType::Retrieval, String::from("/b"), 20, TWENTY_FOUR_HOURS);
    let mut asked: Vec<String> = Vec::new();
    let mut steps = 0;
    loop {
        match pass.action() {
            JobAction::Describe { job_id, .. } => {
                asked.push(job_id);
                pass.on_event(JobEvent::Described { completed: false });
            },
            JobAction::Sleep { .. } => panic!("a pass must not sleep"),
            JobAction::Finish { status, .. } => {
                assert_eq!(status, Status::Pending);
                break;
            },
            other => panic!("nothing was complete, got {:?}", other),
        }
        steps += 1;
        assert!(steps <= 25);
    }
    let expected: Vec<String> = (0..25).map(|i| format!("j{}", i)).collect();
    assert_eq!(asked, expected);
}

#[test]
fn sleep_duration_is_one_hour() {
    assert_eq!(SLEEP_DURATION, 3600);
}

#[test]
fn poller_sleeps_between_queries_until_the_job_is_complete() {
    let mut poller = JobPoller::new(
        job("i1", "photos", 5, JobType::Inventory),
        String::from("/b"),
        None,
        SLEEP_DURATION,
    );
    assert_eq!(poller.phase(), JobPhase::Querying);
    assert_eq!(poller.outcome(), None);
    for _ in 0..3 {
        assert_eq!(described(&poller.action()), (String::from("photos"), String::from("i1")));
        poller.on_event(JobEvent::Described { completed: false });
        match poller.action() {
            JobAction::Sleep { seconds } => assert_eq!(seconds, 3600),
            other => panic!("expected a wait, got {:?}", other),
        }
        poller.on_event(JobEvent::Woke);
    }
    poller.on_event(JobEvent::Described { completed: true });
    match poller.action() {
        JobAction::Fetch { vault, job_id, directory, destination } => {
            assert_eq!(vault, "photos");
            assert_eq!(job_id, "i1");
            assert_eq!(directory.as_deref(), Some("/b/vault/photos"));
            assert_eq!(destination, "/b/vault/photos/inventory.json");
        },
        other => panic!("expected a fetch, got {:?}", other),
    }
    poller.on_event(JobEvent::OutputWritten);
    match poller.action() {
        JobAction::Forget { job_id } => assert_eq!(job_id, "i1"),
        other => panic!("expected a forget, got {:?}", other),
    }
    assert_eq!(poller.outcome(), None);
    poller.on_event(JobEvent::Forgotten);
    assert_eq!(finished(&poller.action()), (Status::Done, None));
    assert_eq!(poller.outcome(), Some(Ok(())));
    poller.on_event(JobEvent::DescribeFailed);
    assert_eq!(poller.outcome(), Some(Ok(())));
}

#[test]
fn poller_writes_a_retrieval_where_the_operator_says() {
    let mut named = JobPoller::new(
        job("r1", "photos", 5, JobType::Retrieval),
        String::from("/b"),
        Some(String::from("holiday.tar")),
        60,
    );
    named.on_event(JobEvent::Described { completed: true });
    match named.action() {
        JobAction::Fetch { directory, destination, .. } => {
            assert_eq!(directory, None);
            assert_eq!(destination, "holiday.tar");
        },
        other => panic!("expected a fetch, got {:?}", other),
    }
    let mut unnamed =
        JobPoller::new(job("r1", "photos", 5, JobType::Retrieval), String::from("/b"), None, 60);
    unnamed.on_event(JobEvent::Described { completed: false });
    match unnamed.action() {
        JobAction::Sleep { seconds } => assert_eq!(seconds, 60),
        other => panic!("expected a wait, got {:?}", other),
    }
    unnamed.on_event(JobEvent::Woke);
    unnamed.on_event(JobEvent::Described { completed: true });
    match unnamed.action() {
        JobAction::Fetch { destination, .. } => assert_eq!(destination, "r1"),
        other => panic!("expected a fetch, got {:?}", other),
    }
}

#[test]
fn poller_fails_for_good_on_a_remote_error() {
    let mut poller =
        JobPoller::new(job("i1", "photos", 5, JobType::Inventory), String::from("/b"), None, 60);
    poller.on_event(JobEvent::DescribeFailed);
    assert_eq!(finished(&poller.action()), (Status::Failed, Some(ArchiveError::ServiceError)));
    assert_eq!(poller.outcome(), Some(Err(ArchiveError::ServiceError)));
    poller.on_event(JobEvent::Described { completed: true });
    assert_eq!(poller.outcome(), Some(Err(ArchiveError::ServiceError)));

    let mut writing =
        JobPoller::new(job("i1", "photos", 5, JobType::Inventory), String::from("/b"), None, 60);
    writing.on_event(JobEvent::Described { completed: true });
    writing.on_event(JobEvent::WriteFailed);
    assert_eq!(writing.outcome(), Some(Err(ArchiveError::IOError)));

    let mut fetching =
        JobPoller::new(job("i1", "photos", 5, JobType::Inventory), String::from("/b"), None, 60);
    fetching.on_event(JobEvent::Described { completed: true });
    fetching.on_event(JobEvent::OutputFailed);
    assert_eq!(fetching.outcome(), Some(Err(ArchiveError::ServiceError)));
}

use basmati::error::ArchiveError;
use basmati::ledger::{vault_from_location, InitiatedJob, JobLedger, JobType, TWENTY_FOUR_HOURS};

fn job(id: &str, timestamp: i64, job_type: JobType) -> InitiatedJob {
    InitiatedJob {
        location: format!("/111122223333/vaults/photos/jobs/{}", id),
        job_id: String::from(id),
        vault: String::from("photos"),
        timestamp,
        job_type,
    }
}

fn ids(ledger: &JobLedger) -> Vec<String> {
    ledger.list().iter().map(|j| j.job_id.clone()).collect()
}

#[test]
fn vault_is_the_fourth_piece_of_the_location() {
    assert_eq!(
        vault_from_location("/111122223333/vaults/examplevault/jobs/HkF9p6"),
        Ok(String::from("examplevault"))
    );
    assert_eq!(vault_from_location("a/b/c/d"), Ok(String::from("d")));
    assert_eq!(vault_from_location("a/b/c/d/"), Ok(String::from("d")));
    assert_eq!(vault_from_location("a/b/c/"), Ok(String::from("")));
    assert_eq!(vault_from_location("///"), Ok(String::from("")));
    assert_eq!(vault_from_location("/1/vaults/b\u{e9}ta/jobs/x"), Ok(String::from("b\u{e9}ta")));
}

#[test]
fn location_without_a_vault_is_malformed() {
    assert_eq!(vault_from_location(""), Err(ArchiveError::MalformedLocation));
    assert_eq!(vault_from_location("/111122223333/vaults"), Err(ArchiveError::MalformedLocation));
    assert_eq!(vault_from_location("a/b/c"), Err(ArchiveError::MalformedLocation));
    assert_eq!(vault_from_location("no slashes at all"), Err(ArchiveError::MalformedLocation));
    assert_eq!(ArchiveError::MalformedLocation.message(), "malformed url, exiting");
}

#[test]
fn twenty_four_hours_in_seconds() {
    assert_eq!(TWENTY_FOUR_HOURS, 86400);
}

#[test]
fn inserted_job_survives_pruning_before_its_ttl() {
    let mut ledger = JobLedger::new();
    ledger.insert(job("j1", 1_000, JobType::Inventory));
    ledger.prune(1_000 + TWENTY_FOUR_HOURS - 1, TWENTY_FOUR_HOURS);
    assert!(ledger.contains("j1"));
    assert_eq!(ids(&ledger), vec!["j1"]);
    ledger.prune(1_000, TWENTY_FOUR_HOURS);
    assert!(ledger.contains("j1"));
}

#[test]
fn inserted_job_is_pruned_at_its_ttl() {
    let mut ledger = JobLedger::new();
    ledger.insert(job("j1", 1_000, JobType::Inventory));
    ledger.prune(1_000 + TWENTY_FOUR_HOURS, TWENTY_FOUR_HOURS);
    assert!(!ledger.contains("j1"));
    assert!(ledger.list().is_empty());
}

#[test]
fn pruning_keeps_exactly_the_young_jobs_in_order() {
    let mut ledger = JobLedger::new();
    ledger.insert(job("old", 0, JobType::Inventory));
    ledger.insert(job("edge", 100, JobType::Retrieval));
    ledger.insert(job("young", 101, JobType::Inventory));
    ledger.insert(job("future", 5_000, JobType::Retrieval));
    ledger.prune(1_100, 1_000);
    assert_eq!(ids(&ledger), vec!["young", "future"]);
}

#[test]
fn pruning_does_not_overflow_on_extreme_times() {
    let mut ledger = JobLedger::new();
    ledger.insert(job("ancient", i64::MIN, JobType::Inventory));
    ledger.insert(job("late", i64::MAX, JobType::Inventory));
    ledger.prune(i64::MAX, TWENTY_FOUR_HOURS);
    assert_eq!(ids(&ledger), vec!["late"]);
    ledger.prune(i64::MIN, i64::MIN);
    assert_eq!(ids(&ledger), vec!["late"]);
    ledger.prune(i64::MAX, 0);
    assert!(ledger.list().is_empty());
}

#[test]
fn removing_an_unknown_job_changes_nothing() {
    let mut ledger = JobLedger::new();
    ledger.insert(job("j1", 1, JobType::Inventory));
    ledger.insert(job("j2", 2, JobType::Retrieval));
    ledger.remove("nobody");
    assert_eq!(ids(&ledger), vec!["j1", "j2"]);
    let mut empty = JobLedger::new();
    empty.remove("nobody");
    assert!(empty.list().is_empty());
}

#[test]
fn removing_takes_out_just_that_job() {
    let mut ledger = JobLedger::new();
    ledger.insert(job("j1", 1, JobType::Inventory));
    ledger.insert(job("j2", 2, JobType::Retrieval));
    ledger.insert(job("j3", 3, JobType::Inventory));
    ledger.remove("j2");
    assert_eq!(ids(&ledger), vec!["j1", "j3"]);
    assert!(!ledger.contains("j2"));
}

#[test]
fn a_job_id_stands_once_in_the_ledger() {
    let mut ledger = JobLedger::new();
    ledger.insert(job("j1", 1, JobType::Inventory));
    ledger.insert(job("j2", 2, JobType::Inventory));
    ledger.insert(job("j1", 3, JobType::Retrieval));
    assert_eq!(ids(&ledger), vec!["j2", "j1"]);
    assert_eq!(ledger.list()[1].timestamp, 3);
    assert_eq!(ledger.list()[1].job_type, JobType::Retrieval);
}

#[test]
fn ledger_from_a_list_keeps_distinct_jobs_as_they_are() {
    let jobs = vec![
        job("a", 1, JobType::Inventory),
        job("b", 2, JobType::Retrieval),
        job("c", 3, JobType::Inventory),
    ];
    let ledger = JobLedger::from_jobs(jobs);
    assert_eq!(ids(&ledger), vec!["a", "b", "c"]);
    let doubled = JobLedger::from_jobs(vec![
        job("a", 1, JobType::Inventory),
        job("b", 2, JobType::Retrieval),
        job("a", 9, JobType::Inventory),
    ]);
    assert_eq!(ids(&doubled), vec!["b", "a"]);
    assert_eq!(doubled.list()[1].timestamp, 9);
    assert!(JobLedger::from_jobs(vec![]).list().is_empty());
}

#[test]
fn recording_a_job_reads_the_vault_from_its_location() {
    let mut ledger = JobLedger::new();
    let done = ledger.record(
        String::from("/111122223333/vaults/examplevault/jobs/HkF9p6"),
        String::from("HkF9p6"),
        JobType::Retrieval,
        1_700_000_000,
    );
    assert_eq!(done, Ok(()));
    let entry = &ledger.list()[0];
    assert_eq!(entry.vault, "examplevault");
    assert_eq!(entry.job_id, "HkF9p6");
    assert_eq!(entry.location, "/111122223333/vaults/examplevault/jobs/HkF9p6");
    assert_eq!(entry.timestamp, 1_700_000_000);
    assert_eq!(entry.job_type, JobType::Retrieval);
}

#[test]
fn recording_a_malformed_location_leaves_the_ledger() {
    let mut ledger = JobLedger::new();
    ledger.insert(job("j1", 1, JobType::Inventory));
    let done = ledger.record(String::from("/oops"), String::from("j2"), JobType::Inventory, 5);
    assert_eq!(done, Err(ArchiveError::MalformedLocation));
    assert_eq!(ids(&ledger), vec!["j1"]);
}

#[test]
fn unparseable_ledger_file_counts_as_empty() {
    let (ledger, warning) = JobLedger::load(None);
    assert!(ledger.list().is_empty());
    assert_eq!(warning, Some(ArchiveError::LedgerCorrupt));
    assert!(warning.unwrap().is_absorbed());
    let (ledger, warning) = JobLedger::load(Some(vec![
        job("a", 1, JobType::Inventory),
        job("b", 2, JobType::Retrieval),
    ]));
    assert_eq!(ids(&ledger), vec!["a", "b"]);
    assert_eq!(warning, None);
    let (ledger, warning) = JobLedger::load(Some(vec![]));
    assert!(ledger.list().is_empty());
    assert_eq!(warning, None);
}

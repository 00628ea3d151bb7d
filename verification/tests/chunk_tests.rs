use basmati::chunk::{calculate_optimal_interval, MAX_PART_AMOUNT, ONE_MB};
use basmati::error::ArchiveError;

const GIB: u64 = 1024 * 1024 * 1024;

#[test]
fn fifty_gib_selects_eight_mib() {
    let chosen = calculate_optimal_interval(50 * GIB).unwrap();
    assert_eq!(chosen, 8 * ONE_MB);
    assert!(50 * GIB / chosen < MAX_PART_AMOUNT);
    assert!(50 * GIB / (4 * ONE_MB) >= MAX_PART_AMOUNT);
}

#[test]
fn small_files_use_one_mib() {
    assert_eq!(calculate_optimal_interval(0), Ok(ONE_MB));
    assert_eq!(calculate_optimal_interval(1), Ok(ONE_MB));
    assert_eq!(calculate_optimal_interval(10 * ONE_MB), Ok(ONE_MB));
    assert_eq!(calculate_optimal_interval(10000 * ONE_MB - 1), Ok(ONE_MB));
}

#[test]
fn size_doubles_at_each_ceiling() {
    assert_eq!(calculate_optimal_interval(10000 * ONE_MB), Ok(2 * ONE_MB));
    assert_eq!(calculate_optimal_interval(20000 * ONE_MB - 1), Ok(2 * ONE_MB));
    assert_eq!(calculate_optimal_interval(20000 * ONE_MB), Ok(4 * ONE_MB));
    assert_eq!(calculate_optimal_interval(10000 * 2048 * ONE_MB), Ok(4096 * ONE_MB));
}

#[test]
fn chosen_size_is_smallest_that_fits() {
    let sizes: Vec<u64> = (0..13).map(|k| ONE_MB << k).collect();
    for file_size in [0u64, 5 * GIB, 123_456_789_012, 9_999 * GIB, 39_000 * GIB] {
        let chosen = calculate_optimal_interval(file_size).unwrap();
        assert!(sizes.contains(&chosen));
        assert!(file_size / chosen < MAX_PART_AMOUNT);
        for smaller in sizes.iter().filter(|s| **s < chosen) {
            assert!(file_size / smaller >= MAX_PART_AMOUNT);
        }
    }
}

#[test]
fn largest_archive_that_fits() {
    let limit = 10000 * 4096 * ONE_MB;
    assert_eq!(calculate_optimal_interval(limit - 1), Ok(4096 * ONE_MB));
    assert_eq!(calculate_optimal_interval(limit), Err(ArchiveError::ArchiveTooLarge));
    assert_eq!(calculate_optimal_interval(u64::MAX), Err(ArchiveError::ArchiveTooLarge));
}

#[test]
fn too_large_message() {
    assert_eq!(
        ArchiveError::ArchiveTooLarge.message(),
        "Ensure that archive is between 1 MB and 40,000 GB"
    );
    assert!(ArchiveError::LedgerCorrupt.is_absorbed());
    assert!(!ArchiveError::ServiceError.is_absorbed());
}

#[test]
fn every_failure_has_its_message() {
    let all = [
        ArchiveError::ArchiveTooLarge,
        ArchiveError::EmptyArchive,
        ArchiveError::IOError,
        ArchiveError::ServiceError,
        ArchiveError::UploadIncomplete,
        ArchiveError::MalformedLocation,
        ArchiveError::LedgerCorrupt,
    ];
    let messages: Vec<String> = all.iter().map(|e| e.message()).collect();
    for (i, message) in messages.iter().enumerate() {
        assert!(!message.is_empty());
        for other in &messages[i + 1..] {
            assert_ne!(message, other);
        }
    }
    assert_eq!(ArchiveError::EmptyArchive.message(), "The archive is empty");
    assert_eq!(
        all.iter().filter(|e| e.is_absorbed()).collect::<Vec<_>>(),
        vec![&ArchiveError::LedgerCorrupt]
    );
}

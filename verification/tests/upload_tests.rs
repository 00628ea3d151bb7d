use basmati::chunk::ONE_MB;
use basmati::digest::ContentDigest;
use basmati::error::ArchiveError;
use basmati::parts::PartFile;
use basmati::split::SplitSummary;
use basmati::tree::tree_hash;
use basmati::upload::{
    plan_parts, UploadAction, UploadConfirmation, UploadEvent, UploadPhase, Uploader,
};

fn part(name: &str, size: u64) -> PartFile {
    PartFile::named(String::from(name), size).unwrap()
}

fn summary(windows: usize, archive_size: u64, chunk_size: u64) -> SplitSummary {
    SplitSummary {
        archive_size,
        chunk_size,
        digests: (0..windows).map(|i| ContentDigest::of_bytes(&[i as u8])).collect(),
    }
}

fn confirmation() -> UploadConfirmation {
    UploadConfirmation {
        archive_id: String::from("arch-1"),
        location: String::from("/1/vaults/photos/archives/arch-1"),
        checksum: String::from("abc"),
    }
}

fn twelve_parts() -> Vec<PartFile> {
    let mut parts: Vec<PartFile> = vec![part("part_12.bin", 5)];
    for i in (1..12).rev() {
        parts.push(part(&format!("part_{}.bin", i), ONE_MB));
    }
    parts
}

fn new_upload(parts: &Vec<PartFile>, summary: &SplitSummary) -> Uploader {
    Uploader::new(
        String::from("photos"),
        String::from("holiday"),
        String::from("/b/TMP/x"),
        parts,
        summary,
    )
    .unwrap()
}

#[test]
fn plan_sends_parts_in_numeric_order_with_their_ranges() {
    let plan = plan_parts(&twelve_parts(), ONE_MB).unwrap();
    assert_eq!(plan.len(), 12);
    assert_eq!(plan[0].name, "part_1.bin");
    assert_eq!(plan[0].range, "bytes 0-1048575/*");
    assert_eq!(plan[1].name, "part_2.bin");
    assert_eq!(plan[1].range, "bytes 1048576-2097151/*");
    assert_eq!(plan[9].name, "part_10.bin");
    assert_eq!(plan[9].range, "bytes 9437184-10485759/*");
    assert_eq!(plan[11].name, "part_12.bin");
    assert_eq!(plan[11].range, "bytes 11534336-11534340/*");
}

#[test]
fn plan_refuses_empty_parts() {
    let parts = vec![part("part_1.bin", ONE_MB), part("part_2.bin", 0)];
    assert_eq!(plan_parts(&parts, ONE_MB).err(), Some(ArchiveError::IOError));
    assert_eq!(plan_parts(&vec![part("part_1.bin", 2)], u64::MAX).unwrap().len(), 1);
    let beyond = vec![part("part_1.bin", 1), part("part_2.bin", 2)];
    assert_eq!(plan_parts(&beyond, u64::MAX).err(), Some(ArchiveError::IOError));
    assert!(plan_parts(&vec![], ONE_MB).unwrap().is_empty());
}

#[test]
fn upload_without_digests_is_an_empty_archive() {
    let made = Uploader::new(
        String::from("photos"),
        String::from("holiday"),
        String::from("/b/TMP/x"),
        &vec![part("part_1.bin", 0)],
        &summary(0, 0, ONE_MB),
    );
    assert_eq!(made.err(), Some(ArchiveError::EmptyArchive));
    let made = Uploader::new(
        String::from("photos"),
        String::from("holiday"),
        String::from("/b/TMP/x"),
        &vec![part("part_1.bin", 0)],
        &summary(1, 0, ONE_MB),
    );
    assert_eq!(made.err(), Some(ArchiveError::IOError));
}

#[test]
fn upload_runs_from_initiation_to_confirmation() {
    let parts = twelve_parts();
    let summary = summary(12, 11 * ONE_MB + 5, ONE_MB);
    let expected_checksum = tree_hash(&summary.digests).unwrap().to_hex();
    let mut upload = new_upload(&parts, &summary);
    assert_eq!(upload.phase(), UploadPhase::Initiating);
    match upload.action() {
        UploadAction::Initiate { vault, description, part_size } => {
            assert_eq!(vault, "photos");
            assert_eq!(description, "holiday");
            assert_eq!(part_size, "1048576");
        },
        other => panic!("expected the beginning, got {:?}", other),
    }
    upload.on_event(UploadEvent::Initiated { upload_id: String::from("up-7") });
    let mut sent: Vec<(String, String)> = Vec::new();
    while upload.phase() == UploadPhase::Sending {
        match upload.action() {
            UploadAction::SendPart { upload_id, vault, file, range } => {
                assert_eq!(upload_id, "up-7");
                assert_eq!(vault, "photos");
                sent.push((file, range));
            },
            other => panic!("expected a part, got {:?}", other),
        }
        upload.on_event(UploadEvent::PartSent);
    }
    assert_eq!(sent.len(), 12);
    assert_eq!(sent[0], (String::from("/b/TMP/x/part_1.bin"), String::from("bytes 0-1048575/*")));
    assert_eq!(
        sent[1],
        (String::from("/b/TMP/x/part_2.bin"), String::from("bytes 1048576-2097151/*"))
    );
    assert_eq!(
        sent[11],
        (String::from("/b/TMP/x/part_12.bin"), String::from("bytes 11534336-11534340/*"))
    );
    match upload.action() {
        UploadAction::Complete { upload_id, vault, checksum, archive_size } => {
            assert_eq!(upload_id, "up-7");
            assert_eq!(vault, "photos");
            assert_eq!(checksum, expected_checksum);
            assert_eq!(archive_size, "11534341");
        },
        other => panic!("expected the completion, got {:?}", other),
    }
    upload.on_event(UploadEvent::Completed { confirmation: confirmation() });
    assert_eq!(upload.phase(), UploadPhase::Cleaning);
    match upload.action() {
        UploadAction::RemoveParts { directory } => assert_eq!(directory, "/b/TMP/x"),
        other => panic!("expected the cleaning, got {:?}", other),
    }
    upload.on_event(UploadEvent::Cleaned);
    assert_eq!(upload.phase(), UploadPhase::Finished);
    assert!(matches!(upload.action(), UploadAction::Finish));
    let confirmed = upload.into_outcome().unwrap().unwrap();
    assert_eq!(confirmed.archive_id, "arch-1");
    assert_eq!(confirmed.location, "/1/vaults/photos/archives/arch-1");
    assert_eq!(confirmed.checksum, "abc");
}

#[test]
fn failed_parts_do_not_stop_the_upload_but_completion_decides() {
    let parts = vec![part("part_1.bin", ONE_MB), part("part_2.bin", ONE_MB), part("part_3.bin", 9)];
    let summary = summary(3, 2 * ONE_MB + 9, ONE_MB);
    let mut upload = new_upload(&parts, &summary);
    upload.on_event(UploadEvent::Initiated { upload_id: String::from("up-1") });
    upload.on_event(UploadEvent::PartSent);
    upload.on_event(UploadEvent::PartFailed);
    assert_eq!(upload.phase(), UploadPhase::Sending);
    match upload.action() {
        UploadAction::SendPart { file, .. } => assert_eq!(file, "/b/TMP/x/part_3.bin"),
        other => panic!("expected the third part, got {:?}", other),
    }
    upload.on_event(UploadEvent::PartFailed);
    assert_eq!(upload.phase(), UploadPhase::Completing);
    upload.on_event(UploadEvent::CompletionRejected);
    assert_eq!(upload.phase(), UploadPhase::Cleaning);
    upload.on_event(UploadEvent::Cleaned);
    assert_eq!(upload.phase(), UploadPhase::Finished);
    assert_eq!(upload.into_outcome().unwrap().err(), Some(ArchiveError::UploadIncomplete));
}

#[test]
fn refused_initiation_is_a_service_error_and_still_cleans_up() {
    let parts = vec![part("part_1.bin", 9)];
    let summary = summary(1, 9, ONE_MB);
    let mut upload = new_upload(&parts, &summary);
    upload.on_event(UploadEvent::InitiateFailed);
    assert_eq!(upload.phase(), UploadPhase::Cleaning);
    assert!(matches!(upload.action(), UploadAction::RemoveParts { .. }));
    upload.on_event(UploadEvent::Cleaned);
    assert_eq!(upload.phase(), UploadPhase::Finished);
    upload.on_event(UploadEvent::Completed { confirmation: confirmation() });
    assert_eq!(upload.phase(), UploadPhase::Finished);
    assert_eq!(upload.into_outcome().unwrap().err(), Some(ArchiveError::ServiceError));
}

#[test]
fn outcome_is_open_while_the_upload_runs() {
    let parts = vec![part("part_1.bin", 9)];
    let summary = summary(1, 9, ONE_MB);
    let mut upload = new_upload(&parts, &summary);
    upload.on_event(UploadEvent::Initiated { upload_id: String::from("up-1") });
    assert!(upload.into_outcome().is_none());
    let mut stray = new_upload(&parts, &summary);
    stray.on_event(UploadEvent::Initiated { upload_id: String::from("up-1") });
    stray.on_event(UploadEvent::Completed { confirmation: confirmation() });
    assert_eq!(stray.phase(), UploadPhase::Cleaning);
    assert_eq!(stray.into_outcome().unwrap().err(), Some(ArchiveError::ServiceError));
}

#[test]
fn upload_without_parts_goes_straight_to_completion() {
    let summary = summary(1, 9, ONE_MB);
    let mut upload = new_upload(&vec![], &summary);
    upload.on_event(UploadEvent::Initiated { upload_id: String::from("up-1") });
    assert_eq!(upload.phase(), UploadPhase::Completing);
}

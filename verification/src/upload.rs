//! The multipart upload: begin, send every part in the order of the part
//! numbers, complete with the tree hash, clean up.
use crate::digest::ContentDigest;
use crate::error::ArchiveError;
use crate::parts::{
    byte_range, byte_range_of, index_order, order_parts, range_header, range_text, PartFile,
};
use crate::split::SplitSummary;
use crate::text::{decimal, decimal_text};
use crate::tree::{digest_texts, tree_hash, tree_root};
use vstd::prelude::*;
use vstd::string::StringExecFns;

verus! {

/// A part as it will be sent: its file and the bytes of the archive that it
/// covers, as a range header.
#[derive(Debug)]
pub struct PlannedPart {
    pub name: String,
    pub range: String,
}

/// Whether every part of `ordered` covers bytes that 64 bits can count,
/// where the part at position `k` starts at `k` times `chunk_size`.
pub open spec fn plannable(ordered: Seq<PartFile>, chunk_size: nat) -> bool {
    forall|k: int|
        0 <= k < ordered.len() ==> byte_range_of(
            k,
            chunk_size as int,
            (#[trigger] ordered[k]).size as int,
        ) is Some
}

/// Whether `plan` sends the parts of `ordered` in their order, each with
/// the range that its position and its size give.
pub open spec fn is_plan_of(plan: Seq<PlannedPart>, ordered: Seq<PartFile>, chunk_size: nat) -> bool {
    &&& plan.len() == ordered.len()
    &&& forall|k: int|
        0 <= k < plan.len() ==> {
            &&& (#[trigger] plan[k]).name == ordered[k].name
            &&& byte_range_of(k, chunk_size as int, ordered[k].size as int) matches Some(
                (start, end),
            )
            &&& plan[k].range@ == range_text(start as nat, end as nat)
        }
}

/// Plans the sending of `parts`: in the order of the numbers in their
/// names, the part at position `k` covering the bytes from `k` times
/// `chunk_size` on.
///
/// Fails with `IOError` exactly when a part is empty or ends beyond what 64
/// bits can count.
pub fn plan_parts(parts: &Vec<PartFile>, chunk_size: u64) -> (r: Result<
    Vec<PlannedPart>,
    ArchiveError,
>)
    ensures
        match r {
            Ok(plan) => is_plan_of(plan@, index_order(parts@), chunk_size as nat) && plannable(
                index_order(parts@),
                chunk_size as nat,
            ),
            Err(e) => e == ArchiveError::IOError && !plannable(
                index_order(parts@),
                chunk_size as nat,
            ),
        },
{
    let ordered = order_parts(parts);
    let mut plan: Vec<PlannedPart> = Vec::new();
    let mut k: usize = 0;
    while k < ordered.len()
        invariant
            k <= ordered.len(),
            ordered@ == index_order(parts@),
            is_plan_of(plan@, ordered@.take(k as int), chunk_size as nat),
        decreases ordered.len() - k,
    {
        match byte_range(k as u64, chunk_size, ordered[k].size) {
            Some((start, end)) => {
                plan.push(
                    PlannedPart { name: ordered[k].name.clone(), range: range_header(start, end) },
                );
            },
            None => {
                assert(ordered@[k as int].size == ordered[k as int].size);
                return Err(ArchiveError::IOError);
            },
        }
        k = k + 1;
    }
    proof {
        assert(ordered@.take(ordered@.len() as int) =~= ordered@);
        assert forall|k: int| 0 <= k < ordered@.len() implies byte_range_of(
            k,
            chunk_size as int,
            (#[trigger] ordered@[k]).size as int,
        ) is Some by {
            assert(plan@[k].name == ordered@[k].name);
        }
    }
    Ok(plan)
}

/// What the service confirms when an upload is complete.
#[derive(Debug)]
pub struct UploadConfirmation {
    pub archive_id: String,
    pub location: String,
    pub checksum: String,
}

/// Where an upload stands.
#[derive(Debug, Clone, Copy, PartialEq, Eq, Structural)]
pub enum UploadPhase {
    /// The service is to be asked to begin the upload.
    Initiating,
    /// The parts are being sent.
    Sending,
    /// All parts were tried; the service is to be asked to complete.
    Completing,
    /// The working directory is to be emptied.
    Cleaning,
    /// The upload is over.
    Finished,
}

/// What the driver reports back after it has done what the upload asked.
#[derive(Debug)]
pub enum UploadEvent {
    /// The service began the upload under this id.
    Initiated { upload_id: String },
    /// The service did not begin the upload.
    InitiateFailed,
    /// The service took the part.
    PartSent,
    /// The part could not be sent.
    PartFailed,
    /// The service accepted the completion.
    Completed { confirmation: UploadConfirmation },
    /// The service rejected the completion.
    CompletionRejected,
    /// The working directory is empty.
    Cleaned,
}

/// What an upload asks its driver to do next.
#[derive(Debug)]
pub enum UploadAction {
    /// Begin a multipart upload with parts of `part_size` bytes.
    Initiate { vault: String, description: String, part_size: String },
    /// Send the bytes of `file` as the range `range` of the archive.
    SendPart { upload_id: String, vault: String, file: String, range: String },
    /// Complete the upload of `archive_size` bytes with the tree hash
    /// `checksum`.
    Complete { upload_id: String, vault: String, checksum: String, archive_size: String },
    /// Remove the part files in `directory`.
    RemoveParts { directory: String },
    /// Stop: the upload is over.
    Finish,
}

/// A request of an upload, with its texts as sequences of characters.
pub enum UploadActionView {
    Initiate { vault: Seq<char>, description: Seq<char>, part_size: Seq<char> },
    SendPart { upload_id: Seq<char>, vault: Seq<char>, file: Seq<char>, range: Seq<char> },
    Complete {
        upload_id: Seq<char>,
        vault: Seq<char>,
        checksum: Seq<char>,
        archive_size: Seq<char>,
    },
    RemoveParts { directory: Seq<char> },
    Finish,
}

impl View for UploadAction {
    type V = UploadActionView;

    open spec fn view(&self) -> UploadActionView {
        match *self {
            UploadAction::Initiate { vault, description, part_size } => UploadActionView::Initiate {
                vault: vault@,
                description: description@,
                part_size: part_size@,
            },
            UploadAction::SendPart { upload_id, vault, file, range } => UploadActionView::SendPart {
                upload_id: upload_id@,
                vault: vault@,
                file: file@,
                range: range@,
            },
            UploadAction::Complete {
                upload_id,
                vault,
                checksum,
                archive_size,
            } => UploadActionView::Complete {
                upload_id: upload_id@,
                vault: vault@,
                checksum: checksum@,
                archive_size: archive_size@,
            },
            UploadAction::RemoveParts { directory } => UploadActionView::RemoveParts {
                directory: directory@,
            },
            UploadAction::Finish => UploadActionView::Finish,
        }
    }
}

/// The machine that carries one multipart upload through.
pub struct Uploader {
    vault: String,
    description: String,
    directory: String,
    chunk_size: u64,
    archive_size: u64,
    checksum: ContentDigest,
    plan: Vec<PlannedPart>,
    upload_id: Option<String>,
    position: usize,
    stage: UploadPhase,
    outcome: Option<Result<UploadConfirmation, ArchiveError>>,
    cleaned: bool,
}

/// What an upload holds.
pub struct UploaderView {
    pub vault: String,
    pub description: String,
    pub directory: String,
    pub chunk_size: u64,
    pub archive_size: u64,
    pub checksum: Seq<char>,
    pub plan: Seq<PlannedPart>,
    pub upload_id: Option<String>,
    pub position: nat,
    pub phase: UploadPhase,
    pub outcome: Option<Result<UploadConfirmation, ArchiveError>>,
}

impl UploaderView {
    /// No part is sent before the upload has begun; while parts are sent
    /// there is a part in hand and the upload has its id; from the cleaning
    /// on, and not before, it has its outcome.
    pub open spec fn well_formed(self) -> bool {
        &&& self.position <= self.plan.len()
        &&& self.phase is Initiating ==> self.position == 0
        &&& self.phase is Sending ==> self.position < self.plan.len()
        &&& (self.phase is Sending || self.phase is Completing) ==> self.upload_id is Some
        &&& (self.phase is Cleaning || self.phase is Finished) <==> self.outcome is Some
    }

    /// What the upload asks of its driver.
    pub open spec fn action(self) -> UploadActionView {
        match self.phase {
            UploadPhase::Initiating => UploadActionView::Initiate {
                vault: self.vault@,
                description: self.description@,
                part_size: decimal_text(self.chunk_size as nat),
            },
            UploadPhase::Sending => UploadActionView::SendPart {
                upload_id: self.upload_id->Some_0@,
                vault: self.vault@,
                file: self.directory@ + "/"@ + self.plan[self.position as int].name@,
                range: self.plan[self.position as int].range@,
            },
            UploadPhase::Completing => UploadActionView::Complete {
                upload_id: self.upload_id->Some_0@,
                vault: self.vault@,
                checksum: self.checksum,
                archive_size: decimal_text(self.archive_size as nat),
            },
            UploadPhase::Cleaning => UploadActionView::RemoveParts { directory: self.directory@ },
            UploadPhase::Finished => UploadActionView::Finish,
        }
    }

    /// The upload as it fails with `error`: the working directory is still
    /// to be emptied.
    pub open spec fn failed(self, error: ArchiveError) -> UploaderView {
        UploaderView { phase: UploadPhase::Cleaning, outcome: Some(Err(error)), ..self }
    }

    /// The upload after `event`.
    ///
    /// Once begun, every part is sent, whether the one before went through
    /// or not: only the completion tells whether the archive arrived. A
    /// rejected completion fails the upload with `UploadIncomplete`, a
    /// refused beginning with `ServiceError`, as does an event that does
    /// not answer what was asked. However the upload went, the working
    /// directory is emptied before it ends.
    pub open spec fn on_event(self, event: UploadEvent) -> UploaderView {
        match self.phase {
            UploadPhase::Initiating => match event {
                UploadEvent::Initiated { upload_id } => UploaderView {
                    upload_id: Some(upload_id),
                    phase: if self.plan.len() > 0 {
                        UploadPhase::Sending
                    } else {
                        UploadPhase::Completing
                    },
                    ..self
                },
                _ => self.failed(ArchiveError::ServiceError),
            },
            UploadPhase::Sending => match event {
                UploadEvent::PartSent | UploadEvent::PartFailed => UploaderView {
                    position: self.position + 1,
                    phase: if self.position + 1 < self.plan.len() {
                        UploadPhase::Sending
                    } else {
                        UploadPhase::Completing
                    },
                    ..self
                },
                _ => self.failed(ArchiveError::ServiceError),
            },
            UploadPhase::Completing => match event {
                UploadEvent::Completed { confirmation } => UploaderView {
                    phase: UploadPhase::Cleaning,
                    outcome: Some(Ok(confirmation)),
                    ..self
                },
                UploadEvent::CompletionRejected => self.failed(ArchiveError::UploadIncomplete),
                _ => self.failed(ArchiveError::ServiceError),
            },
            UploadPhase::Cleaning => UploaderView { phase: UploadPhase::Finished, ..self },
            UploadPhase::Finished => self,
        }
    }
}

impl View for Uploader {
    type V = UploaderView;

    closed spec fn view(&self) -> UploaderView {
        UploaderView {
            vault: self.vault,
            description: self.description,
            directory: self.directory,
            chunk_size: self.chunk_size,
            archive_size: self.archive_size,
            checksum: self.checksum@,
            plan: self.plan@,
            upload_id: self.upload_id,
            position: self.position as nat,
            phase: if self.outcome is None {
                self.stage
            } else if self.cleaned {
                UploadPhase::Finished
            } else {
                UploadPhase::Cleaning
            },
            outcome: self.outcome,
        }
    }
}

/// Every event leaves an upload well formed, and a part that fails moves
/// the upload on just as a part that went through.
pub proof fn lemma_upload_step(upload: UploaderView, event: UploadEvent)
    requires
        upload.well_formed(),
    ensures
        upload.on_event(event).well_formed(),
        upload.on_event(UploadEvent::PartFailed) == upload.on_event(UploadEvent::PartSent),
        upload.phase is Sending && (event is PartSent || event is PartFailed) ==> upload.on_event(
            event,
        ).position == upload.position + 1,
{
}

/// Only the service's confirmation makes an upload succeed, and no upload
/// ends before its working directory was emptied.
pub proof fn lemma_upload_outcome(upload: UploaderView, event: UploadEvent)
    requires
        upload.well_formed(),
    ensures
        upload.outcome is None ==> (upload.on_event(event).outcome matches Some(Ok(confirmation))
            ==> upload.phase is Completing && event == (UploadEvent::Completed { confirmation })),
        upload.phase is Completing && event is CompletionRejected ==> upload.on_event(event).outcome
            == Some(Err::<UploadConfirmation, ArchiveError>(ArchiveError::UploadIncomplete)),
        upload.on_event(event).phase is Finished && !(upload.phase is Finished)
            ==> upload.phase is Cleaning,
        upload.outcome is Some ==> upload.on_event(event).outcome == upload.outcome,
{
}

impl Uploader {
    #[verifier::type_invariant]
    spec fn holds(&self) -> bool {
        &&& self@.well_formed()
        &&& self.stage is Initiating || self.stage is Sending || self.stage is Completing
        &&& self.cleaned ==> self.outcome is Some
    }

    /// Prepares the upload of an archive that was cut into `parts`, which
    /// lie in `directory`, to the vault `vault`.
    ///
    /// Fails with `EmptyArchive` exactly when `summary` holds no digest;
    /// else with `IOError` exactly when a part is empty or ends beyond what
    /// 64 bits can count.
    pub fn new(
        vault: String,
        description: String,
        directory: String,
        parts: &Vec<PartFile>,
        summary: &SplitSummary,
    ) -> (r: Result<Uploader, ArchiveError>)
        ensures
            match r {
                Ok(upload) => {
                    &&& summary.digests@.len() > 0
                    &&& plannable(index_order(parts@), summary.chunk_size as nat)
                    &&& upload@.vault == vault
                    &&& upload@.description == description
                    &&& upload@.directory == directory
                    &&& upload@.chunk_size == summary.chunk_size
                    &&& upload@.archive_size == summary.archive_size
                    &&& upload@.checksum == tree_root(digest_texts(summary.digests@))
                    &&& is_plan_of(
                        upload@.plan,
                        index_order(parts@),
                        summary.chunk_size as nat,
                    )
                    &&& upload@.upload_id is None
                    &&& upload@.position == 0
                    &&& upload@.phase == UploadPhase::Initiating
                    &&& upload@.outcome is None
                    &&& upload@.well_formed()
                },
                Err(e) => if summary.digests@.len() == 0 {
                    e == ArchiveError::EmptyArchive
                } else {
                    e == ArchiveError::IOError && !plannable(
                        index_order(parts@),
                        summary.chunk_size as nat,
                    )
                },
            },
    {
        let checksum = match tree_hash(&summary.digests) {
            Ok(root) => root,
            Err(e) => {
                return Err(e);
            },
        };
        let plan = match plan_parts(parts, summary.chunk_size) {
            Ok(plan) => plan,
            Err(e) => {
                return Err(e);
            },
        };
        Ok(
            Uploader {
                vault,
                description,
                directory,
                chunk_size: summary.chunk_size,
                archive_size: summary.archive_size,
                checksum,
                plan,
                upload_id: None,
                position: 0,
                stage: UploadPhase::Initiating,
                outcome: None,
                cleaned: false,
            },
        )
    }

    /// Where the upload stands.
    pub fn phase(&self) -> (r: UploadPhase)
        ensures
            r == self@.phase,
    {
        match self.outcome {
            None => self.stage,
            Some(_) => if self.cleaned {
                UploadPhase::Finished
            } else {
                UploadPhase::Cleaning
            },
        }
    }

    /// What the driver is to do next.
    pub fn action(&self) -> (r: UploadAction)
        ensures
            r@ == self@.action(),
            self@.well_formed(),
    {
        proof {
            use_type_invariant(self);
        }
        match self.phase() {
            UploadPhase::Initiating => UploadAction::Initiate {
                vault: self.vault.clone(),
                description: self.description.clone(),
                part_size: decimal(self.chunk_size),
            },
            UploadPhase::Sending => {
                let part = &self.plan[self.position];
                match &self.upload_id {
                    Some(upload_id) => UploadAction::SendPart {
                        upload_id: upload_id.clone(),
                        vault: self.vault.clone(),
                        file: self.directory.clone().concat("/").concat(part.name.as_str()),
                        range: part.range.clone(),
                    },
                    None => UploadAction::Finish,
                }
            },
            UploadPhase::Completing => match &self.upload_id {
                Some(upload_id) => UploadAction::Complete {
                    upload_id: upload_id.clone(),
                    vault: self.vault.clone(),
                    checksum: self.checksum.to_hex(),
                    archive_size: decimal(self.archive_size),
                },
                None => UploadAction::Finish,
            },
            UploadPhase::Cleaning => UploadAction::RemoveParts {
                directory: self.directory.clone(),
            },
            UploadPhase::Finished => UploadAction::Finish,
        }
    }

    /// Takes in what the driver reports.
    pub fn on_event(&mut self, event: UploadEvent)
        ensures
            final(self)@ == old(self)@.on_event(event),
            final(self)@.well_formed(),
    {
        proof {
            use_type_invariant(&*self);
            lemma_upload_step(self@, event);
        }
        match self.phase() {
            UploadPhase::Initiating => match event {
                UploadEvent::Initiated { upload_id } => {
                    self.upload_id = Some(upload_id);
                    self.stage = if self.plan.len() > 0 {
                        UploadPhase::Sending
                    } else {
                        UploadPhase::Completing
                    };
                },
                _ => {
                    self.outcome = Some(Err(ArchiveError::ServiceError));
                },
            },
            UploadPhase::Sending => match event {
                UploadEvent::PartSent | UploadEvent::PartFailed => {
                    if self.plan.len() - self.position <= 1 {
                        self.stage = UploadPhase::Completing;
                    }
                    self.position = self.position + 1;
                },
                _ => {
                    self.outcome = Some(Err(ArchiveError::ServiceError));
                },
            },
            UploadPhase::Completing => match event {
                UploadEvent::Completed { confirmation } => {
                    self.outcome = Some(Ok(confirmation));
                },
                UploadEvent::CompletionRejected => {
                    self.outcome = Some(Err(ArchiveError::UploadIncomplete));
                },
                _ => {
                    self.outcome = Some(Err(ArchiveError::ServiceError));
                },
            },
            UploadPhase::Cleaning => {
                self.cleaned = true;
            },
            UploadPhase::Finished => {},
        }
    }

    /// How the upload ended: `None` while it is under way.
    pub fn into_outcome(self) -> (r: Option<Result<UploadConfirmation, ArchiveError>>)
        ensures
            r == self@.outcome,
    {
        self.outcome
    }
}

} // verus!

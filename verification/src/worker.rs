//! The transcode worker's decisions.
//!
//! The worker polls the raw bucket for queue markers. For each marker it
//! claims the job by deleting the marker, then runs a [`TranscodeFlow`]:
//! it marks the video as processing, submits a MediaConvert job that reads
//! the raw upload and writes each rendition `q` as `videos/<id>/<q>.mp4`,
//! polls the job until it completes, lists the files it wrote, deletes the
//! raw upload and records the qualities as done. Any failure, a failed or
//! canceled job among them, is recorded as an error status. The I/O is done by the caller, which feeds
//! [`TranscodeFlow::step`] what happened and performs what it is told.

use vstd::prelude::*;
use crate::keys::{
    job_id_from_queue_key, job_id_of, raw_key_of, raw_upload_key, rendition_key_of, s3_uri,
    s3_uri_of, status_key, status_key_of, video_prefix, video_prefix_of,
};
use crate::renditions::{
    opt_views, profile, profile_view, qualities_from_keys, qualities_of, quality_of_key,
    rendition_table, rendition_views, renditions, ProfileView, Rendition, TranscodeProfile,
};
use crate::status::{StatusView, TranscodeStatus};
use crate::text::{owned, views};

verus! {

/// Seconds between two polls of the queue.
pub const QUEUE_POLL_SECS: u64 = 30;

/// Seconds to wait before each poll of a MediaConvert job.
pub const JOB_POLL_SECS: u64 = 15;

/// A queued job: the key of its queue marker and the id of its video.
pub struct QueuedJob {
    pub marker_key: String,
    pub id: String,
}

/// The job a listed queue key stands for, if any.
pub open spec fn queued_job_of(key: Option<Seq<char>>) -> Option<(Seq<char>, Seq<char>)> {
    match key {
        Some(k) => match job_id_of(k) {
            Some(id) => Some((k, id)),
            None => None,
        },
        None => None,
    }
}

/// The jobs that a listing of the `queue/` prefix holds, in listing order:
/// every listed key that is `queue/` followed by a non-empty id. Objects
/// without a key and other keys are passed over.
pub fn queued_jobs(keys: &Vec<Option<String>>) -> (jobs: Vec<QueuedJob>)
    ensures
        jobs@.map_values(|j: QueuedJob| (j.marker_key@, j.id@)) == opt_views(keys@).filter_map(
            |k: Option<Seq<char>>| queued_job_of(k),
        ),
{
    let ghost ks = opt_views(keys@);
    let ghost f = |k: Option<Seq<char>>| queued_job_of(k);
    let mut jobs: Vec<QueuedJob> = Vec::new();
    let mut i: usize = 0;
    assert(ks.take(0) =~= Seq::<Option<Seq<char>>>::empty());
    assert(jobs@.map_values(|j: QueuedJob| (j.marker_key@, j.id@)) =~= Seq::<
        (Seq<char>, Seq<char>),
    >::empty());
    while i < keys.len()
        invariant
            ks == opt_views(keys@),
            f == (|k: Option<Seq<char>>| queued_job_of(k)),
            i <= keys.len(),
            jobs@.map_values(|j: QueuedJob| (j.marker_key@, j.id@)) == ks.take(i as int).filter_map(
                f,
            ),
        decreases keys.len() - i,
    {
        assert(ks.take(i + 1).drop_last() =~= ks.take(i as int));
        let ghost before = jobs@.map_values(|j: QueuedJob| (j.marker_key@, j.id@));
        match &keys[i] {
            Some(k) => {
                match job_id_from_queue_key(k.as_str()) {
                    Some(id) => {
                        let job = QueuedJob { marker_key: k.clone(), id };
                        let ghost jv = (job.marker_key@, job.id@);
                        jobs.push(job);
                        assert(jobs@.map_values(|j: QueuedJob| (j.marker_key@, j.id@)) =~= before
                            + seq![jv]);
                    },
                    None => {},
                }
            },
            None => {},
        }
        i = i + 1;
    }
    assert(ks.take(keys.len() as int) =~= ks);
    jobs
}

/// The state of a MediaConvert job, as its status field reports it.
#[derive(PartialEq, Eq, Structural, Clone, Copy)]
pub enum JobStatusKind {
    Submitted,
    Progressing,
    Complete,
    Canceled,
    Error,
    /// A status this worker does not know.
    Other,
}

/// What a poll of a MediaConvert job reported.
pub struct JobReport {
    pub status: Option<JobStatusKind>,
    pub error_message: Option<String>,
}

/// Where a transcode job stands.
#[derive(PartialEq, Eq, Structural, Clone, Copy)]
pub enum TranscodePhase {
    /// Claimed, nothing done yet.
    Claimed,
    /// Waiting for the processing status to be stored.
    AwaitingProcessingStatus,
    /// Waiting for MediaConvert to accept the job.
    AwaitingJob,
    /// Polling the MediaConvert job.
    Polling,
    /// Waiting for the listing of the transcoded files.
    AwaitingListing,
    /// Waiting for the raw upload to be deleted.
    AwaitingRawDelete,
    /// Waiting for the done status to be stored.
    AwaitingDoneStatus,
    /// Waiting for the error status to be stored.
    AwaitingErrorStatus,
    /// The job is over.
    Finished,
}

/// What happened since the last step.
pub enum TranscodeEvent {
    /// Start the job.
    Begin,
    /// A status document was stored, or the raw upload deleted.
    Stored,
    /// MediaConvert accepted the job, answering with this job id.
    JobCreated(Option<String>),
    /// A poll of the job answered with this report, or found no job.
    JobPolled(Option<JobReport>),
    /// The transcoded files were listed, with these keys.
    Listed(Vec<Option<String>>),
    /// A request failed, with this message.
    Failed(String),
}

/// What the caller is to do next.
pub enum TranscodeAction {
    /// Store this status document under `key` in the video bucket.
    PutStatus { key: String, status: TranscodeStatus },
    /// Submit a MediaConvert job, running as the IAM role `role`, that
    /// reads `input` and writes each of `renditions`, encoded with
    /// `profile`, as a file output group of its own whose destination is
    /// the entry of `destinations` at the same position, with no name
    /// modifier.
    CreateJob {
        role: String,
        input: String,
        destinations: Vec<String>,
        renditions: Vec<Rendition>,
        profile: TranscodeProfile,
    },
    /// Wait `wait_secs` seconds, then poll the job.
    PollJob { job_id: String, wait_secs: u64 },
    /// List the keys under `prefix` in the video bucket.
    ListOutputs { prefix: String },
    /// Delete the raw upload `key` from the raw bucket.
    DeleteRaw { key: String },
    /// The job is over: it succeeded, or failed with this message.
    Finish(Result<(), String>),
}

/// A job report as plain values.
pub struct JobReportView {
    pub status: Option<JobStatusKind>,
    pub error_message: Option<Seq<char>>,
}

/// An event as plain values.
pub enum TranscodeEventView {
    Begin,
    Stored,
    JobCreated(Option<Seq<char>>),
    JobPolled(Option<JobReportView>),
    Listed(Seq<Option<Seq<char>>>),
    Failed(Seq<char>),
}

/// An action as plain values.
pub enum TranscodeActionView {
    PutStatus { key: Seq<char>, status: StatusView },
    CreateJob {
        role: Seq<char>,
        input: Seq<char>,
        destinations: Seq<Seq<char>>,
        renditions: Seq<(Seq<char>, int, int)>,
        profile: ProfileView,
    },
    PollJob { job_id: Seq<char>, wait_secs: int },
    ListOutputs { prefix: Seq<char> },
    DeleteRaw { key: Seq<char> },
    Finish(Result<(), Seq<char>>),
}

impl View for TranscodeEvent {
    type V = TranscodeEventView;

    open spec fn view(&self) -> TranscodeEventView {
        match self {
            TranscodeEvent::Begin => TranscodeEventView::Begin,
            TranscodeEvent::Stored => TranscodeEventView::Stored,
            TranscodeEvent::JobCreated(j) => TranscodeEventView::JobCreated(
                crate::upload::opt_view(*j),
            ),
            TranscodeEvent::JobPolled(r) => TranscodeEventView::JobPolled(
                match r {
                    Some(r) => Some(
                        JobReportView {
                            status: r.status,
                            error_message: crate::upload::opt_view(r.error_message),
                        },
                    ),
                    None => None,
                },
            ),
            TranscodeEvent::Listed(keys) => TranscodeEventView::Listed(opt_views(keys@)),
            TranscodeEvent::Failed(m) => TranscodeEventView::Failed(m@),
        }
    }
}

impl View for TranscodeAction {
    type V = TranscodeActionView;

    open spec fn view(&self) -> TranscodeActionView {
        match self {
            TranscodeAction::PutStatus { key, status } => TranscodeActionView::PutStatus {
                key: key@,
                status: status@,
            },
            TranscodeAction::CreateJob { role, input, destinations, renditions, profile } =>
                TranscodeActionView::CreateJob {
                role: role@,
                input: input@,
                destinations: views(destinations@),
                renditions: rendition_views(renditions@),
                profile: profile_view(*profile),
            },
            TranscodeAction::PollJob { job_id, wait_secs } => TranscodeActionView::PollJob {
                job_id: job_id@,
                wait_secs: *wait_secs as int,
            },
            TranscodeAction::ListOutputs { prefix } => TranscodeActionView::ListOutputs {
                prefix: prefix@,
            },
            TranscodeAction::DeleteRaw { key } => TranscodeActionView::DeleteRaw { key: key@ },
            TranscodeAction::Finish(r) => TranscodeActionView::Finish(
                match r {
                    Ok(()) => Ok(()),
                    Err(m) => Err(m@),
                },
            ),
        }
    }
}

/// The state of a transcode job as plain values.
pub struct TranscodeModel {
    pub phase: TranscodePhase,
    pub id: Seq<char>,
    pub raw_bucket: Seq<char>,
    pub video_bucket: Seq<char>,
    pub role: Seq<char>,
    pub job_id: Seq<char>,
    pub qualities: Seq<Seq<char>>,
    pub failure: Seq<char>,
}

/// The destination of the output group of rendition `name`:
/// `s3://<bucket>/videos/<id>/<name>`, whose last segment is the base
/// filename of the group's one output.
pub open spec fn rendition_destination_of(bucket: Seq<char>, id: Seq<char>, name: Seq<char>) -> Seq<
    char,
> {
    s3_uri_of(bucket, video_prefix_of(id) + name)
}

/// The destinations of the renditions of video `id`, in the order of the
/// rendition table.
pub open spec fn rendition_destinations_of(bucket: Seq<char>, id: Seq<char>) -> Seq<Seq<char>> {
    rendition_table().map_values(
        |r: (Seq<char>, int, int)| rendition_destination_of(bucket, id, r.0),
    )
}

/// The destination of each of `renditions`, in order.
fn rendition_destinations(bucket: &str, id: &str, renditions: &Vec<Rendition>) -> (d: Vec<String>)
    ensures
        d@.len() == renditions@.len(),
        forall|j: int|
            0 <= j < d@.len() ==> #[trigger] d@[j]@ == rendition_destination_of(
                bucket@,
                id@,
                renditions@[j].name@,
            ),
{
    let prefix = video_prefix(id);
    let mut d: Vec<String> = Vec::new();
    let mut i: usize = 0;
    while i < renditions.len()
        invariant
            i <= renditions@.len(),
            prefix@ == video_prefix_of(id@),
            d@.len() == i,
            forall|j: int|
                0 <= j < i ==> #[trigger] d@[j]@ == rendition_destination_of(
                    bucket@,
                    id@,
                    renditions@[j].name@,
                ),
        decreases renditions@.len() - i,
    {
        let mut base = prefix.clone();
        base.append(renditions[i].name.as_str());
        d.push(s3_uri(bucket, base.as_str()));
        i = i + 1;
    }
    d
}

/// Record a failure with this message as the video's status.
pub open spec fn record_failure(m: TranscodeModel, msg: Seq<char>) -> (
    TranscodeModel,
    TranscodeActionView,
) {
    (
        TranscodeModel { phase: TranscodePhase::AwaitingErrorStatus, failure: msg, ..m },
        TranscodeActionView::PutStatus { key: status_key_of(m.id), status: StatusView::Error(msg) },
    )
}

/// Poll the job again after the usual wait.
pub open spec fn poll_again(m: TranscodeModel) -> (TranscodeModel, TranscodeActionView) {
    (
        TranscodeModel { phase: TranscodePhase::Polling, ..m },
        TranscodeActionView::PollJob { job_id: m.job_id, wait_secs: JOB_POLL_SECS as int },
    )
}

/// Which events a job in state `m` expects.
pub open spec fn transcode_accepts(m: TranscodeModel, e: TranscodeEventView) -> bool {
    match m.phase {
        TranscodePhase::Claimed => e is Begin,
        TranscodePhase::AwaitingProcessingStatus | TranscodePhase::AwaitingRawDelete
        | TranscodePhase::AwaitingDoneStatus | TranscodePhase::AwaitingErrorStatus => e is Stored
            || e is Failed,
        TranscodePhase::AwaitingJob => e is JobCreated || e is Failed,
        TranscodePhase::Polling => e is JobPolled || e is Failed,
        TranscodePhase::AwaitingListing => e is Listed || e is Failed,
        TranscodePhase::Finished => false,
    }
}

/// One step of a transcode job: the next state and what to do.
pub open spec fn transcode_step(m: TranscodeModel, e: TranscodeEventView) -> (
    TranscodeModel,
    TranscodeActionView,
) {
    match e {
        TranscodeEventView::Begin => (
            TranscodeModel { phase: TranscodePhase::AwaitingProcessingStatus, ..m },
            TranscodeActionView::PutStatus {
                key: status_key_of(m.id),
                status: StatusView::Processing,
            },
        ),
        TranscodeEventView::Stored => match m.phase {
            TranscodePhase::AwaitingProcessingStatus => (
                TranscodeModel { phase: TranscodePhase::AwaitingJob, ..m },
                TranscodeActionView::CreateJob {
                    role: m.role,
                    input: s3_uri_of(m.raw_bucket, raw_key_of(m.id)),
                    destinations: rendition_destinations_of(m.video_bucket, m.id),
                    renditions: rendition_table(),
                    profile: crate::renditions::transcode_profile(),
                },
            ),
            TranscodePhase::AwaitingRawDelete => (
                TranscodeModel {
                    phase: TranscodePhase::AwaitingDoneStatus,
                    qualities: Seq::empty(),
                    ..m
                },
                TranscodeActionView::PutStatus {
                    key: status_key_of(m.id),
                    status: StatusView::Done(m.qualities),
                },
            ),
            TranscodePhase::AwaitingDoneStatus => (
                TranscodeModel { phase: TranscodePhase::Finished, ..m },
                TranscodeActionView::Finish(Ok(())),
            ),
            _ => (
                TranscodeModel { phase: TranscodePhase::Finished, ..m },
                TranscodeActionView::Finish(Err(m.failure)),
            ),
        },
        TranscodeEventView::JobCreated(job_id) => match job_id {
            Some(j) => poll_again(TranscodeModel { job_id: j, ..m }),
            None => record_failure(m, "MediaConvert returned no job ID"@),
        },
        TranscodeEventView::JobPolled(report) => match report {
            Some(r) => {
                if r.status == Some(JobStatusKind::Complete) {
                    (
                        TranscodeModel { phase: TranscodePhase::AwaitingListing, ..m },
                        TranscodeActionView::ListOutputs { prefix: video_prefix_of(m.id) },
                    )
                } else if r.status == Some(JobStatusKind::Error) {
                    record_failure(
                        m,
                        "MediaConvert error: "@ + match r.error_message {
                            Some(msg) => msg,
                            None => "unknown error"@,
                        },
                    )
                } else if r.status == Some(JobStatusKind::Canceled) {
                    record_failure(m, "MediaConvert job canceled"@)
                } else {
                    poll_again(m)
                }
            },
            None => record_failure(m, "job disappeared"@),
        },
        TranscodeEventView::Listed(keys) => (
            TranscodeModel {
                phase: TranscodePhase::AwaitingRawDelete,
                qualities: qualities_of(keys),
                ..m
            },
            TranscodeActionView::DeleteRaw { key: raw_key_of(m.id) },
        ),
        TranscodeEventView::Failed(msg) => {
            if m.phase == TranscodePhase::AwaitingErrorStatus {
                (
                    TranscodeModel { phase: TranscodePhase::Finished, ..m },
                    TranscodeActionView::Finish(Err(m.failure)),
                )
            } else {
                record_failure(m, msg)
            }
        },
    }
}

/// A transcode job in progress.
pub struct TranscodeFlow {
    phase: TranscodePhase,
    id: String,
    raw_bucket: String,
    video_bucket: String,
    role: String,
    job_id: String,
    qualities: Vec<String>,
    failure: String,
}

impl View for TranscodeFlow {
    type V = TranscodeModel;

    closed spec fn view(&self) -> TranscodeModel {
        TranscodeModel {
            phase: self.phase,
            id: self.id@,
            raw_bucket: self.raw_bucket@,
            video_bucket: self.video_bucket@,
            role: self.role@,
            job_id: self.job_id@,
            qualities: views(self.qualities@),
            failure: self.failure@,
        }
    }
}

/// The state of a job just claimed.
pub open spec fn transcode_start(
    id: Seq<char>,
    raw_bucket: Seq<char>,
    video_bucket: Seq<char>,
    role: Seq<char>,
) -> TranscodeModel {
    TranscodeModel {
        phase: TranscodePhase::Claimed,
        id,
        raw_bucket,
        video_bucket,
        role,
        job_id: Seq::empty(),
        qualities: Seq::empty(),
        failure: Seq::empty(),
    }
}

impl TranscodeFlow {
    /// A job for video `id`, whose raw upload is in `raw_bucket` and whose
    /// renditions and status go to `video_bucket`, transcoded by
    /// MediaConvert as the IAM role `role`.
    pub fn new(id: String, raw_bucket: String, video_bucket: String, role: String) -> (f:
        TranscodeFlow)
        ensures
            f@ == transcode_start(id@, raw_bucket@, video_bucket@, role@),
    {
        let f = TranscodeFlow {
            phase: TranscodePhase::Claimed,
            id,
            raw_bucket,
            video_bucket,
            role,
            job_id: String::new(),
            qualities: Vec::new(),
            failure: String::new(),
        };
        assert(views(f.qualities@) =~= Seq::<Seq<char>>::empty());
        f
    }

    /// Where the job stands.
    pub fn phase(&self) -> (p: TranscodePhase)
        ensures
            p == self@.phase,
    {
        self.phase
    }

    /// Whether the job expects `event` now.
    pub fn accepts(&self, event: &TranscodeEvent) -> (b: bool)
        ensures
            b == transcode_accepts(self@, event@),
    {
        match self.phase {
            TranscodePhase::Claimed => matches!(event, TranscodeEvent::Begin),
            TranscodePhase::AwaitingProcessingStatus | TranscodePhase::AwaitingRawDelete
            | TranscodePhase::AwaitingDoneStatus | TranscodePhase::AwaitingErrorStatus => matches!(
                event,
                TranscodeEvent::Stored | TranscodeEvent::Failed(_)
            ),
            TranscodePhase::AwaitingJob => matches!(
                event,
                TranscodeEvent::JobCreated(_) | TranscodeEvent::Failed(_)
            ),
            TranscodePhase::Polling => matches!(
                event,
                TranscodeEvent::JobPolled(_) | TranscodeEvent::Failed(_)
            ),
            TranscodePhase::AwaitingListing => matches!(
                event,
                TranscodeEvent::Listed(_) | TranscodeEvent::Failed(_)
            ),
            TranscodePhase::Finished => false,
        }
    }

    /// Record a failure with this message as the video's status.
    fn record_failure(&mut self, msg: String) -> (a: TranscodeAction)
        ensures
            (final(self)@, a@) == record_failure(old(self)@, msg@),
    {
        self.phase = TranscodePhase::AwaitingErrorStatus;
        self.failure = msg.clone();
        TranscodeAction::PutStatus {
            key: status_key(self.id.as_str()),
            status: TranscodeStatus::Error(msg),
        }
    }

    /// Poll the job again after the usual wait.
    fn poll_again(&mut self) -> (a: TranscodeAction)
        ensures
            (final(self)@, a@) == poll_again(old(self)@),
    {
        self.phase = TranscodePhase::Polling;
        TranscodeAction::PollJob { job_id: self.job_id.clone(), wait_secs: JOB_POLL_SECS }
    }

    /// Stop with the outcome recorded so far.
    fn finish_failed(&mut self) -> (a: TranscodeAction)
        ensures
            final(self)@ == (TranscodeModel { phase: TranscodePhase::Finished, ..old(self)@ }),
            a@ == TranscodeActionView::Finish(Err(old(self)@.failure)),
    {
        self.phase = TranscodePhase::Finished;
        TranscodeAction::Finish(Err(self.failure.clone()))
    }

    /// One step: the next state and what to do, given what happened.
    pub fn step(&mut self, event: TranscodeEvent) -> (action: TranscodeAction)
        requires
            transcode_accepts(old(self)@, event@),
        ensures
            (final(self)@, action@) == transcode_step(old(self)@, event@),
    {
        match event {
            TranscodeEvent::Begin => {
                self.phase = TranscodePhase::AwaitingProcessingStatus;
                TranscodeAction::PutStatus {
                    key: status_key(self.id.as_str()),
                    status: TranscodeStatus::Processing,
                }
            },
            TranscodeEvent::Stored => match self.phase {
                TranscodePhase::AwaitingProcessingStatus => {
                    self.phase = TranscodePhase::AwaitingJob;
                    let raw_key = raw_upload_key(self.id.as_str());
                    let rs = renditions();
                    let destinations = rendition_destinations(
                        self.video_bucket.as_str(),
                        self.id.as_str(),
                        &rs,
                    );
                    proof {
                        assert forall|j: int| 0 <= j < rs@.len() implies #[trigger] rs@[j].name@
                            == rendition_table()[j].0 by {
                            assert(rendition_views(rs@)[j] == rendition_table()[j]);
                        }
                        assert(views(destinations@) =~= rendition_destinations_of(
                            self.video_bucket@,
                            self.id@,
                        ));
                    }
                    TranscodeAction::CreateJob {
                        role: self.role.clone(),
                        input: s3_uri(self.raw_bucket.as_str(), raw_key.as_str()),
                        destinations,
                        renditions: rs,
                        profile: profile(),
                    }
                },
                TranscodePhase::AwaitingRawDelete => {
                    self.phase = TranscodePhase::AwaitingDoneStatus;
                    let mut qualities: Vec<String> = Vec::new();
                    core::mem::swap(&mut qualities, &mut self.qualities);
                    assert(views(self.qualities@) =~= Seq::<Seq<char>>::empty());
                    TranscodeAction::PutStatus {
                        key: status_key(self.id.as_str()),
                        status: TranscodeStatus::Done(qualities),
                    }
                },
                TranscodePhase::AwaitingDoneStatus => {
                    self.phase = TranscodePhase::Finished;
                    TranscodeAction::Finish(Ok(()))
                },
                _ => self.finish_failed(),
            },
            TranscodeEvent::JobCreated(job_id) => match job_id {
                Some(j) => {
                    self.job_id = j;
                    self.poll_again()
                },
                None => self.record_failure(owned("MediaConvert returned no job ID")),
            },
            TranscodeEvent::JobPolled(report) => match report {
                Some(r) => {
                    if r.status == Some(JobStatusKind::Complete) {
                        self.phase = TranscodePhase::AwaitingListing;
                        TranscodeAction::ListOutputs { prefix: video_prefix(self.id.as_str()) }
                    } else if r.status == Some(JobStatusKind::Error) {
                        let mut msg = owned("MediaConvert error: ");
                        match &r.error_message {
                            Some(m) => msg.append(m.as_str()),
                            None => msg.append("unknown error"),
                        }
                        self.record_failure(msg)
                    } else if r.status == Some(JobStatusKind::Canceled) {
                        self.record_failure(owned("MediaConvert job canceled"))
                    } else {
                        self.poll_again()
                    }
                },
                None => self.record_failure(owned("job disappeared")),
            },
            TranscodeEvent::Listed(keys) => {
                self.qualities = qualities_from_keys(&keys);
                self.phase = TranscodePhase::AwaitingRawDelete;
                TranscodeAction::DeleteRaw { key: raw_upload_key(self.id.as_str()) }
            },
            TranscodeEvent::Failed(msg) => {
                if self.phase == TranscodePhase::AwaitingErrorStatus {
                    self.finish_failed()
                } else {
                    self.record_failure(msg)
                }
            },
        }
    }
}

/// The raw upload is deleted only once the transcoded files have been
/// listed, and that listing is asked for only after MediaConvert reported
/// the job complete.
pub proof fn lemma_raw_kept_until_transcoded(m: TranscodeModel, e: TranscodeEventView)
    requires
        transcode_accepts(m, e),
    ensures
        transcode_step(m, e).1 is DeleteRaw ==> m.phase == TranscodePhase::AwaitingListing
            && e is Listed,
        transcode_step(m, e).0.phase == TranscodePhase::AwaitingListing ==> m.phase
            == TranscodePhase::Polling && (e matches TranscodeEventView::JobPolled(Some(r))
            && r.status == Some(JobStatusKind::Complete)),
{
}

/// A job ends only after its final status: done, once the done status was
/// stored; failed with the recorded message, once the error status was
/// stored or could not be.
pub proof fn lemma_job_ends_with_final_status(m: TranscodeModel, e: TranscodeEventView)
    requires
        transcode_accepts(m, e),
        transcode_step(m, e).1 is Finish,
    ensures
        transcode_step(m, e).1 == TranscodeActionView::Finish(Ok(())) ==> m.phase
            == TranscodePhase::AwaitingDoneStatus && e is Stored,
        transcode_step(m, e).1 != TranscodeActionView::Finish(Ok(())) ==> m.phase
            == TranscodePhase::AwaitingErrorStatus && transcode_step(m, e).1
            == TranscodeActionView::Finish(Err(m.failure)),
{
}

/// A failure at any point before the job is over is recorded as the
/// video's error status, with the failure's message.
pub proof fn lemma_failure_recorded(m: TranscodeModel, msg: Seq<char>)
    requires
        transcode_accepts(m, TranscodeEventView::Failed(msg)),
        m.phase != TranscodePhase::AwaitingErrorStatus,
    ensures
        transcode_step(m, TranscodeEventView::Failed(msg)).1 == (TranscodeActionView::PutStatus {
            key: status_key_of(m.id),
            status: StatusView::Error(msg),
        }),
{
}

/// The done status lists the qualities of the listed files, in rank order.
pub proof fn lemma_done_status_lists_qualities(
    m: TranscodeModel,
    keys: Seq<Option<Seq<char>>>,
)
    requires
        m.phase == TranscodePhase::AwaitingListing,
    ensures
        ({
            let m2 = transcode_step(m, TranscodeEventView::Listed(keys)).0;
            transcode_step(m2, TranscodeEventView::Stored).1 == (TranscodeActionView::PutStatus {
                key: status_key_of(m.id),
                status: StatusView::Done(qualities_of(keys)),
            })
        }),
{
}

/// The job reads the raw upload from the key the upload handler wrote it
/// under and submits exactly the rendition table with the transcode
/// profile, as the configured role. Each rendition `q` goes to the
/// destination `s3://<video bucket>/videos/<id>/<q>`; MediaConvert names
/// the one output of a file group that has no name modifier after the base
/// filename its destination ends in, with the extension of its container
/// (`.mp4` for MP4), so `q` is written as `videos/<id>/<q>.mp4`, and that
/// key is read back from the listing as quality `q`.
pub proof fn lemma_worker_reads_what_backend_wrote(
    m: TranscodeModel,
    q: Seq<char>,
)
    requires
        m.phase == TranscodePhase::AwaitingProcessingStatus,
        !q.contains('/'),
        q != "status"@,
    ensures
        transcode_step(m, TranscodeEventView::Stored).1 == (TranscodeActionView::CreateJob {
            role: m.role,
            input: s3_uri_of(m.raw_bucket, raw_key_of(m.id)),
            destinations: rendition_destinations_of(m.video_bucket, m.id),
            renditions: rendition_table(),
            profile: crate::renditions::transcode_profile(),
        }),
        forall|i: int|
            0 <= i < rendition_table().len() ==> #[trigger] rendition_destinations_of(
                m.video_bucket,
                m.id,
            )[i] == rendition_destination_of(m.video_bucket, m.id, rendition_table()[i].0),
        rendition_destination_of(m.video_bucket, m.id, q) + ".mp4"@ == s3_uri_of(
            m.video_bucket,
            rendition_key_of(m.id, q),
        ),
        quality_of_key(Some(rendition_key_of(m.id, q))) == Some(q),
{
    reveal_strlit("/");
    let prefix = video_prefix_of(m.id);
    assert(prefix.last() == '/');
    crate::renditions::lemma_quality_round_trip(prefix, q);
    assert(rendition_destination_of(m.video_bucket, m.id, q) + ".mp4"@ =~= s3_uri_of(
        m.video_bucket,
        rendition_key_of(m.id, q),
    ));
}

/// An upload that stores its queue marker hands the worker its video: the
/// worker reads the video id back from the marker, and the job it runs
/// for that id transcodes the raw upload from the key the upload stored
/// the body under and reports to the status key the upload initialised.
pub proof fn lemma_queued_upload_reaches_worker(
    m: crate::upload::UploadModel,
    fresh_id: Seq<char>,
    raw_bucket: Seq<char>,
    video_bucket: Seq<char>,
    role: Seq<char>,
)
    requires
        crate::upload::upload_inv(m),
        m.phase == crate::upload::UploadPhase::AwaitingStatus,
        m.id.len() > 0,
    ensures
        ({
            let a = crate::upload::upload_step(m, crate::upload::UploadEventView::Stored, fresh_id).1;
            &&& a matches crate::upload::UploadActionView::PutQueueMarker { key }
            &&& job_id_of(a->PutQueueMarker_key) == Some(m.id)
        }),
        ({
            let j0 = transcode_start(m.id, raw_bucket, video_bucket, role);
            let (j1, a1) = transcode_step(j0, TranscodeEventView::Begin);
            let a2 = transcode_step(j1, TranscodeEventView::Stored).1;
            &&& a1 == TranscodeActionView::PutStatus {
                key: status_key_of(m.id),
                status: StatusView::Processing,
            }
            &&& a2 == TranscodeActionView::CreateJob {
                role,
                input: s3_uri_of(raw_bucket, m.key),
                destinations: rendition_destinations_of(video_bucket, m.id),
                renditions: rendition_table(),
                profile: crate::renditions::transcode_profile(),
            }
        }),
{
    crate::keys::lemma_queue_key_round_trip(m.id);
}

/// Whether a job in state `m` accepts each of `events` in turn.
pub open spec fn transcode_run_accepted(m: TranscodeModel, events: Seq<TranscodeEventView>) -> bool
    decreases events.len(),
{
    events.len() == 0 || (transcode_accepts(m, events[0]) && transcode_run_accepted(
        transcode_step(m, events[0]).0,
        events.drop_first(),
    ))
}

/// The actions a job in state `m` takes on `events`, one per event.
pub open spec fn transcode_run_actions(
    m: TranscodeModel,
    events: Seq<TranscodeEventView>,
) -> Seq<TranscodeActionView>
    decreases events.len(),
{
    if events.len() == 0 {
        Seq::empty()
    } else {
        let (m1, a) = transcode_step(m, events[0]);
        seq![a] + transcode_run_actions(m1, events.drop_first())
    }
}

/// A status write that is final: done or error, for the video `id`.
pub open spec fn is_final_status_write(a: TranscodeActionView, id: Seq<char>) -> bool {
    a matches TranscodeActionView::PutStatus { key, status } && key == status_key_of(id) && (
    status is Done || status is Error)
}

/// One step keeps the video id; a step into the phases that wait for the
/// done or the error status is that status's write; a step that finishes
/// leaves nothing more to accept.
proof fn lemma_step_shape(m: TranscodeModel, e: TranscodeEventView)
    requires
        transcode_accepts(m, e),
    ensures
        transcode_step(m, e).0.id == m.id,
        (transcode_step(m, e).0.phase == TranscodePhase::AwaitingDoneStatus
            || transcode_step(m, e).0.phase == TranscodePhase::AwaitingErrorStatus)
            ==> is_final_status_write(transcode_step(m, e).1, m.id),
        transcode_step(m, e).1 is Finish ==> transcode_step(m, e).0.phase
            == TranscodePhase::Finished,
        transcode_step(m, e).0.phase != TranscodePhase::Claimed,
{
}

/// The actions of a job that has begun: every status it writes is final
/// and is the video's; it finishes at most once, as its last action, and
/// right after a final status write (or, as its first action, from a phase
/// that waits for one).
proof fn lemma_run_after_begin(m: TranscodeModel, events: Seq<TranscodeEventView>)
    requires
        m.phase != TranscodePhase::Claimed,
        transcode_run_accepted(m, events),
    ensures
        ({
            let acts = transcode_run_actions(m, events);
            &&& acts.len() == events.len()
            &&& forall|i: int|
                0 <= i < acts.len() && #[trigger] acts[i] is PutStatus ==> is_final_status_write(
                    acts[i],
                    m.id,
                )
            &&& forall|i: int|
                0 <= i < acts.len() && #[trigger] acts[i] is Finish ==> i == acts.len() - 1 && (
                if i == 0 {
                    m.phase == TranscodePhase::AwaitingDoneStatus || m.phase
                        == TranscodePhase::AwaitingErrorStatus
                } else {
                    is_final_status_write(acts[i - 1], m.id)
                })
        }),
    decreases events.len(),
{
    if events.len() > 0 {
        let e = events[0];
        let (m1, a) = transcode_step(m, e);
        let rest = events.drop_first();
        lemma_step_shape(m, e);
        if a is PutStatus {
            lemma_later_statuses_are_final(m, e);
        }
        if a is Finish {
            lemma_job_ends_with_final_status(m, e);
        }
        assert(transcode_run_accepted(m1, rest));
        if a is Finish {
            assert(m1.phase == TranscodePhase::Finished);
            if rest.len() > 0 {
                assert(!transcode_accepts(m1, rest[0]));
            }
            assert(rest.len() == 0);
        } else {
            lemma_run_after_begin(m1, rest);
        }
        let acts = transcode_run_actions(m, events);
        let tail = transcode_run_actions(m1, rest);
        assert(acts == seq![a] + tail);
        assert forall|i: int| 0 <= i < acts.len() && #[trigger] acts[i] is PutStatus implies
            is_final_status_write(acts[i], m.id) by {
            if i > 0 {
                assert(acts[i] == tail[i - 1]);
            }
        }
        assert forall|i: int| 0 <= i < acts.len() && #[trigger] acts[i] is Finish implies i
            == acts.len() - 1 && (if i == 0 {
            m.phase == TranscodePhase::AwaitingDoneStatus || m.phase
                == TranscodePhase::AwaitingErrorStatus
        } else {
            is_final_status_write(acts[i - 1], m.id)
        }) by {
            if i > 0 {
                assert(acts[i] == tail[i - 1]);
                assert(acts[i - 1] == if i == 1 { a } else { tail[i - 2] });
            }
        }
    }
}

/// Over a whole job, from the claim on: its first action writes the
/// processing status, every later status it writes is done or error, all
/// of them under the video's status key, and it finishes only as its last
/// action, right after writing done or error.
pub proof fn lemma_job_status_order(
    id: Seq<char>,
    raw_bucket: Seq<char>,
    video_bucket: Seq<char>,
    role: Seq<char>,
    events: Seq<TranscodeEventView>,
)
    requires
        transcode_run_accepted(transcode_start(id, raw_bucket, video_bucket, role), events),
    ensures
        ({
            let acts = transcode_run_actions(
                transcode_start(id, raw_bucket, video_bucket, role),
                events,
            );
            &&& acts.len() == events.len()
            &&& acts.len() > 0 ==> acts[0] == (TranscodeActionView::PutStatus {
                key: status_key_of(id),
                status: StatusView::Processing,
            })
            &&& forall|i: int|
                0 < i < acts.len() && #[trigger] acts[i] is PutStatus ==> is_final_status_write(
                    acts[i],
                    id,
                )
            &&& forall|i: int|
                0 <= i < acts.len() && #[trigger] acts[i] is Finish ==> i == acts.len() - 1 && i > 0
                    && is_final_status_write(acts[i - 1], id)
        }),
{
    let m = transcode_start(id, raw_bucket, video_bucket, role);
    if events.len() > 0 {
        let e = events[0];
        let (m1, a) = transcode_step(m, e);
        let rest = events.drop_first();
        lemma_run_after_begin(m1, rest);
        let acts = transcode_run_actions(m, events);
        let tail = transcode_run_actions(m1, rest);
        assert(acts == seq![a] + tail);
        assert(m1.phase == TranscodePhase::AwaitingProcessingStatus);
        assert forall|i: int| 0 < i < acts.len() && #[trigger] acts[i] is PutStatus implies
            is_final_status_write(acts[i], id) by {
            assert(acts[i] == tail[i - 1]);
        }
        assert forall|i: int| 0 <= i < acts.len() && #[trigger] acts[i] is Finish implies i
            == acts.len() - 1 && i > 0 && is_final_status_write(acts[i - 1], id) by {
            if i > 0 {
                assert(acts[i] == tail[i - 1]);
                assert(acts[i - 1] == if i == 1 { a } else { tail[i - 2] });
            }
        }
    }
}

/// The events that report how an action of a transcode job went: a stored
/// document or a deleted file is `Stored`, a submitted job answers with
/// its id, a poll with its report, a listing with its keys; any request
/// may fail. A finished job waits for nothing.
pub open spec fn transcode_answers(a: TranscodeActionView, e: TranscodeEventView) -> bool {
    match a {
        TranscodeActionView::PutStatus { .. } => e is Stored || e is Failed,
        TranscodeActionView::CreateJob { .. } => e is JobCreated || e is Failed,
        TranscodeActionView::PollJob { .. } => e is JobPolled || e is Failed,
        TranscodeActionView::ListOutputs { .. } => e is Listed || e is Failed,
        TranscodeActionView::DeleteRaw { .. } => e is Stored || e is Failed,
        TranscodeActionView::Finish(_) => false,
    }
}

/// A job can always be told how the action it asked for went: a claimed
/// job accepts `Begin`, and after any step, every event that reports the
/// outcome of the action it returned is accepted by the state it moved to.
pub proof fn lemma_transcode_outcomes_accepted(
    m: TranscodeModel,
    e: TranscodeEventView,
    next: TranscodeEventView,
)
    requires
        transcode_accepts(m, e),
    ensures
        m.phase == TranscodePhase::Claimed ==> transcode_accepts(m, TranscodeEventView::Begin),
        transcode_answers(transcode_step(m, e).1, next) ==> transcode_accepts(
            transcode_step(m, e).0,
            next,
        ),
{
}

/// The job that is polled is the one MediaConvert created: the id a
/// creation answers with is kept, the first poll asks for it, every later
/// poll asks for the kept id, and no other event changes it.
pub proof fn lemma_polls_the_submitted_job(m: TranscodeModel, e: TranscodeEventView)
    requires
        transcode_accepts(m, e),
    ensures
        e matches TranscodeEventView::JobCreated(Some(j)) ==> transcode_step(m, e).0.job_id == j
            && transcode_step(m, e).1 == (TranscodeActionView::PollJob {
            job_id: j,
            wait_secs: JOB_POLL_SECS as int,
        }),
        !(e is JobCreated) ==> transcode_step(m, e).0.job_id == m.job_id,
        !(e is JobCreated) && transcode_step(m, e).1 is PollJob ==> transcode_step(m, e).1
            == (TranscodeActionView::PollJob {
            job_id: m.job_id,
            wait_secs: JOB_POLL_SECS as int,
        }),
{
}

/// The requests a job makes name its own video: the status it writes is
/// under `videos/<id>/status.json`, the listing is of `videos/<id>/`, and
/// the file it deletes is the raw upload `uploads/<id>.orig`; no step
/// changes the video id or the buckets.
pub proof fn lemma_job_requests_name_its_video(m: TranscodeModel, e: TranscodeEventView)
    requires
        transcode_accepts(m, e),
    ensures
        ({
            let (m2, a) = transcode_step(m, e);
            &&& m2.id == m.id && m2.raw_bucket == m.raw_bucket && m2.video_bucket == m.video_bucket
                && m2.role == m.role
            &&& a matches TranscodeActionView::PutStatus { key, .. } ==> key == status_key_of(m.id)
            &&& a matches TranscodeActionView::ListOutputs { prefix } ==> prefix == video_prefix_of(
                m.id,
            )
            &&& a matches TranscodeActionView::DeleteRaw { key } ==> key == raw_key_of(m.id)
        }),
{
}

/// A poll that finds the job complete, failed or canceled stops polling:
/// a complete job's files are listed next, and a failed or canceled job is
/// recorded as the video's error status. A job still submitted or
/// progressing, or in a state this worker does not know, is polled again.
pub proof fn lemma_final_job_status_stops_polling(m: TranscodeModel, r: JobReportView)
    requires
        m.phase == TranscodePhase::Polling,
    ensures
        ({
            let a = transcode_step(m, TranscodeEventView::JobPolled(Some(r))).1;
            let settled = r.status == Some(JobStatusKind::Complete) || r.status == Some(
                JobStatusKind::Error,
            ) || r.status == Some(JobStatusKind::Canceled);
            &&& a is PollJob <==> !settled
            &&& r.status == Some(JobStatusKind::Complete) ==> a == (TranscodeActionView::ListOutputs {
                prefix: video_prefix_of(m.id),
            })
            &&& r.status == Some(JobStatusKind::Error) ==> (a matches TranscodeActionView::PutStatus {
                key,
                status: StatusView::Error(_),
            } && key == status_key_of(m.id))
            &&& r.status == Some(JobStatusKind::Canceled) ==> a == (TranscodeActionView::PutStatus {
                key: status_key_of(m.id),
                status: StatusView::Error("MediaConvert job canceled"@),
            })
        }),
{
}

/// After the processing status, every status a job writes is final: done
/// or error.
pub proof fn lemma_later_statuses_are_final(m: TranscodeModel, e: TranscodeEventView)
    requires
        transcode_accepts(m, e),
        m.phase != TranscodePhase::Claimed,
        transcode_step(m, e).1 is PutStatus,
    ensures
        transcode_step(m, e).1->PutStatus_status is Done || transcode_step(m, e).1->PutStatus_status
            is Error,
{
}

/// A file listed directly under the video's prefix (not in a folder below
/// it) that reads as quality `q` is the rendition file of `q`.
pub proof fn lemma_listed_quality_has_its_key(id: Seq<char>, key: Seq<char>, q: Seq<char>)
    requires
        video_prefix_of(id).is_prefix_of(key),
        !key.skip(video_prefix_of(id).len() as int).contains('/'),
        quality_of_key(Some(key)) == Some(q),
    ensures
        key == rendition_key_of(id, q),
{
    reveal_strlit("/");
    let prefix = video_prefix_of(id);
    let rest = key.skip(prefix.len() as int);
    assert(prefix + rest =~= key);
    crate::renditions::lemma_after_last_tail(prefix, rest, '/');
    let ext = ".mp4"@;
    assert(ext.is_suffix_of(rest));
    assert(q == rest.take(rest.len() - ext.len()));
    assert(q + ext =~= rest);
    assert(prefix + q + ext =~= key);
}

/// Where a pass over the queue stands.
#[derive(PartialEq, Eq, Structural, Clone, Copy)]
pub enum PollPhase {
    /// Nothing done yet.
    Idle,
    /// Waiting for the listing of the queue.
    AwaitingListing,
    /// Waiting for the marker of the current job to be deleted.
    AwaitingClaim,
    /// Waiting for the current job to end.
    AwaitingJob,
    /// The pass is over.
    Finished,
}

/// What happened since the last step of a pass.
pub enum PollEvent {
    /// Start the pass.
    Begin,
    /// The queue was listed, with these keys.
    Listed(Vec<Option<String>>),
    /// The current job's marker was deleted: the job is claimed.
    Claimed,
    /// The current job ended (its outcome is recorded in its status).
    JobFinished,
    /// Listing the queue or deleting a marker failed, with this message.
    Failed(String),
}

/// What the caller is to do next in a pass.
pub enum PollAction {
    /// List the keys under `prefix` in the raw bucket.
    ListQueue { prefix: String },
    /// Delete the queue marker `marker_key`, claiming its job.
    Claim { marker_key: String },
    /// Run the transcode job of video `id`.
    Process { id: String },
    /// The pass is over: it went through, or stopped with this message.
    Done(Result<(), String>),
}

/// A pass event as plain values.
pub enum PollEventView {
    Begin,
    Listed(Seq<Option<Seq<char>>>),
    Claimed,
    JobFinished,
    Failed(Seq<char>),
}

/// A pass action as plain values.
pub enum PollActionView {
    ListQueue { prefix: Seq<char> },
    Claim { marker_key: Seq<char> },
    Process { id: Seq<char> },
    Done(Result<(), Seq<char>>),
}

impl View for PollEvent {
    type V = PollEventView;

    open spec fn view(&self) -> PollEventView {
        match self {
            PollEvent::Begin => PollEventView::Begin,
            PollEvent::Listed(keys) => PollEventView::Listed(opt_views(keys@)),
            PollEvent::Claimed => PollEventView::Claimed,
            PollEvent::JobFinished => PollEventView::JobFinished,
            PollEvent::Failed(m) => PollEventView::Failed(m@),
        }
    }
}

impl View for PollAction {
    type V = PollActionView;

    open spec fn view(&self) -> PollActionView {
        match self {
            PollAction::ListQueue { prefix } => PollActionView::ListQueue { prefix: prefix@ },
            PollAction::Claim { marker_key } => PollActionView::Claim { marker_key: marker_key@ },
            PollAction::Process { id } => PollActionView::Process { id: id@ },
            PollAction::Done(r) => PollActionView::Done(
                match r {
                    Ok(()) => Ok(()),
                    Err(m) => Err(m@),
                },
            ),
        }
    }
}

/// A pass as plain values: the jobs listed (marker key, video id) and the
/// index of the current one.
pub struct PollModel {
    pub phase: PollPhase,
    pub jobs: Seq<(Seq<char>, Seq<char>)>,
    pub next: int,
}

/// The jobs a listing of the queue holds.
pub open spec fn jobs_of(keys: Seq<Option<Seq<char>>>) -> Seq<(Seq<char>, Seq<char>)> {
    keys.filter_map(|k: Option<Seq<char>>| queued_job_of(k))
}

/// Which events a pass in state `m` expects.
pub open spec fn poll_accepts(m: PollModel, e: PollEventView) -> bool {
    match m.phase {
        PollPhase::Idle => e is Begin,
        PollPhase::AwaitingListing => e is Listed || e is Failed,
        PollPhase::AwaitingClaim => e is Claimed || e is Failed,
        PollPhase::AwaitingJob => e is JobFinished,
        PollPhase::Finished => false,
    }
}

/// Claim the job at index `i`, or end the pass when there is none.
pub open spec fn claim_or_end(m: PollModel, i: int) -> (PollModel, PollActionView) {
    if i < m.jobs.len() {
        (
            PollModel { phase: PollPhase::AwaitingClaim, next: i, ..m },
            PollActionView::Claim { marker_key: m.jobs[i].0 },
        )
    } else {
        (PollModel { phase: PollPhase::Finished, next: i, ..m }, PollActionView::Done(Ok(())))
    }
}

/// One step of a pass over the queue: list it, then for each job in order
/// claim it by deleting its marker and run it; a failed listing or claim
/// ends the pass with its message, a job's own failure does not.
pub open spec fn poll_step(m: PollModel, e: PollEventView) -> (PollModel, PollActionView) {
    match e {
        PollEventView::Begin => (
            PollModel { phase: PollPhase::AwaitingListing, ..m },
            PollActionView::ListQueue { prefix: "queue/"@ },
        ),
        PollEventView::Listed(keys) => claim_or_end(PollModel { jobs: jobs_of(keys), ..m }, 0),
        PollEventView::Claimed => (
            PollModel { phase: PollPhase::AwaitingJob, ..m },
            PollActionView::Process { id: m.jobs[m.next].1 },
        ),
        PollEventView::JobFinished => claim_or_end(m, m.next + 1),
        PollEventView::Failed(msg) => (
            PollModel { phase: PollPhase::Finished, ..m },
            PollActionView::Done(Err(msg)),
        ),
    }
}

/// Every job of the pass names the video its marker stands for.
pub open spec fn jobs_valid(jobs: Seq<(Seq<char>, Seq<char>)>) -> bool {
    forall|i: int| 0 <= i < jobs.len() ==> job_id_of((#[trigger] jobs[i]).0) == Some(jobs[i].1)
}

/// What holds of every state a pass reaches.
pub open spec fn poll_inv(m: PollModel) -> bool {
    &&& jobs_valid(m.jobs)
    &&& (m.phase == PollPhase::AwaitingClaim || m.phase == PollPhase::AwaitingJob ==> 0 <= m.next
        < m.jobs.len())
}

/// The jobs of a listing name the videos of their markers.
proof fn lemma_jobs_of_valid(keys: Seq<Option<Seq<char>>>)
    ensures
        jobs_valid(jobs_of(keys)),
    decreases keys.len(),
{
    if keys.len() > 0 {
        lemma_jobs_of_valid(keys.drop_last());
        let rest = jobs_of(keys.drop_last());
        let all = jobs_of(keys);
        assert forall|i: int| 0 <= i < all.len() implies job_id_of((#[trigger] all[i]).0) == Some(
            all[i].1,
        ) by {
            if i < rest.len() {
                assert(all[i] == rest[i]);
            }
        }
    }
}

/// Every step of a pass keeps its invariant.
pub proof fn lemma_poll_step_keeps_inv(m: PollModel, e: PollEventView)
    requires
        poll_inv(m),
        poll_accepts(m, e),
    ensures
        poll_inv(poll_step(m, e).0),
{
    if let PollEventView::Listed(keys) = e {
        lemma_jobs_of_valid(keys);
    }
}

/// A job is run only right after its marker was deleted, and the video it
/// runs is the one that marker names; a failed claim ends the pass without
/// running the job.
pub proof fn lemma_process_only_claimed(m: PollModel, e: PollEventView)
    requires
        poll_inv(m),
        poll_accepts(m, e),
    ensures
        poll_step(m, e).1 is Process ==> m.phase == PollPhase::AwaitingClaim && e is Claimed
            && job_id_of(m.jobs[m.next].0) == Some(poll_step(m, e).1->Process_id),
        e matches PollEventView::Failed(msg) ==> poll_step(m, e).1 == PollActionView::Done(
            Err(msg),
        ),
{
}

/// The events that report how an action of a pass went: a listing answers
/// with its keys, a claim with its confirmation, a job with its end; a
/// listing or a claim may fail. A finished pass waits for nothing.
pub open spec fn poll_answers(a: PollActionView, e: PollEventView) -> bool {
    match a {
        PollActionView::ListQueue { .. } => e is Listed || e is Failed,
        PollActionView::Claim { .. } => e is Claimed || e is Failed,
        PollActionView::Process { .. } => e is JobFinished,
        PollActionView::Done(_) => false,
    }
}

/// A pass can always be told how the action it asked for went: an idle
/// pass accepts `Begin`, and after any step, every event that reports the
/// outcome of the action it returned is accepted by the state it moved to.
pub proof fn lemma_poll_outcomes_accepted(m: PollModel, e: PollEventView, next: PollEventView)
    requires
        poll_inv(m),
        poll_accepts(m, e),
    ensures
        m.phase == PollPhase::Idle ==> poll_accepts(m, PollEventView::Begin),
        poll_answers(poll_step(m, e).1, next) ==> poll_accepts(poll_step(m, e).0, next),
{
}

/// A pass takes the queued jobs one after the other, in listing order,
/// each once: a listing makes its markers the pass's jobs and claims the
/// first; the end of a job claims the one after it; the pass ends, with
/// success, only when no job is left.
pub proof fn lemma_jobs_taken_in_order(m: PollModel, e: PollEventView)
    requires
        poll_inv(m),
        poll_accepts(m, e),
    ensures
        ({
            let (m2, a) = poll_step(m, e);
            let first = if e is Listed { 0 } else { m.next + 1 };
            &&& e matches PollEventView::Listed(keys) ==> m2.jobs == jobs_of(keys)
            &&& !(e is Listed) ==> m2.jobs == m.jobs
            &&& (e is Listed || e is JobFinished) ==> if first < m2.jobs.len() {
                m2.next == first && a == (PollActionView::Claim { marker_key: m2.jobs[first].0 })
            } else {
                a == PollActionView::Done(Ok(()))
            }
            &&& e is Claimed ==> m2.next == m.next && a == (PollActionView::Process {
                id: m.jobs[m.next].1,
            })
        }),
{
}

/// A pass over the queue in progress.
pub struct PollFlow {
    phase: PollPhase,
    jobs: Vec<QueuedJob>,
    next: usize,
}

/// The views of queued jobs.
pub open spec fn job_views(v: Seq<QueuedJob>) -> Seq<(Seq<char>, Seq<char>)> {
    v.map_values(|j: QueuedJob| (j.marker_key@, j.id@))
}

impl View for PollFlow {
    type V = PollModel;

    closed spec fn view(&self) -> PollModel {
        PollModel { phase: self.phase, jobs: job_views(self.jobs@), next: self.next as int }
    }
}

impl PollFlow {
    /// A pass that has done nothing yet.
    pub fn new() -> (f: PollFlow)
        ensures
            f@ == (PollModel { phase: PollPhase::Idle, jobs: Seq::empty(), next: 0 }),
            poll_inv(f@),
    {
        let f = PollFlow { phase: PollPhase::Idle, jobs: Vec::new(), next: 0 };
        assert(job_views(f.jobs@) =~= Seq::<(Seq<char>, Seq<char>)>::empty());
        f
    }

    /// Whether the pass expects `event` now.
    pub fn accepts(&self, event: &PollEvent) -> (b: bool)
        ensures
            b == poll_accepts(self@, event@),
    {
        match self.phase {
            PollPhase::Idle => matches!(event, PollEvent::Begin),
            PollPhase::AwaitingListing => matches!(event, PollEvent::Listed(_) | PollEvent::Failed(_)),
            PollPhase::AwaitingClaim => matches!(event, PollEvent::Claimed | PollEvent::Failed(_)),
            PollPhase::AwaitingJob => matches!(event, PollEvent::JobFinished),
            PollPhase::Finished => false,
        }
    }

    /// Claim the job at index `i`, or end the pass when there is none.
    fn claim_or_end(&mut self, i: usize) -> (a: PollAction)
        ensures
            (final(self)@, a@) == claim_or_end(old(self)@, i as int),
    {
        self.next = i;
        if i < self.jobs.len() {
            self.phase = PollPhase::AwaitingClaim;
            PollAction::Claim { marker_key: self.jobs[i].marker_key.clone() }
        } else {
            self.phase = PollPhase::Finished;
            PollAction::Done(Ok(()))
        }
    }

    /// One step of the pass.
    pub fn step(&mut self, event: PollEvent) -> (action: PollAction)
        requires
            poll_inv(old(self)@),
            poll_accepts(old(self)@, event@),
        ensures
            poll_inv(final(self)@),
            (final(self)@, action@) == poll_step(old(self)@, event@),
    {
        proof {
            lemma_poll_step_keeps_inv(self@, event@);
        }
        match event {
            PollEvent::Begin => {
                self.phase = PollPhase::AwaitingListing;
                PollAction::ListQueue { prefix: crate::keys::queue_prefix() }
            },
            PollEvent::Listed(keys) => {
                self.jobs = queued_jobs(&keys);
                self.claim_or_end(0)
            },
            PollEvent::Claimed => {
                self.phase = PollPhase::AwaitingJob;
                PollAction::Process { id: self.jobs[self.next].id.clone() }
            },
            PollEvent::JobFinished => {
                assert(job_views(self.jobs@).len() == self.jobs@.len());
                assert(self@.phase == PollPhase::AwaitingJob);
                assert(self.next < self.jobs.len());
                self.claim_or_end(self.next + 1)
            },
            PollEvent::Failed(msg) => {
                self.phase = PollPhase::Finished;
                PollAction::Done(Err(msg))
            },
        }
    }
}

} // verus!

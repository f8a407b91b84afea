use assetlab::renditions::{profile, qualities_from_keys, quality_from_key, renditions};
use assetlab::status::{status_document, TranscodeStatus};
use assetlab::worker::{
    queued_jobs, JobReport, JobStatusKind, PollAction, PollEvent, PollFlow, TranscodeAction,
    TranscodeEvent, TranscodeFlow, TranscodePhase,
};

fn s(x: &str) -> Option<String> {
    Some(x.to_string())
}

#[test]
fn qualities_are_sorted_by_resolution() {
    let keys = vec![
        s("videos/v/1080p.mp4"),
        None,
        s("videos/v/status.json"),
        s("videos/v/360p.mp4"),
        s("videos/v/extra.mp4"),
        s("videos/v/720p.mp4"),
        s("videos/v/status.mp4"),
        s("videos/v/other.mov"),
    ];
    assert_eq!(qualities_from_keys(&keys), vec!["360p", "720p", "1080p", "extra"]);
    assert_eq!(quality_from_key("videos/v/720p.mp4"), s("720p"));
    assert_eq!(quality_from_key("720p.mp4"), s("720p"));
    assert_eq!(quality_from_key("videos/v/status.mp4"), None);
}

#[test]
fn equal_ranks_keep_listing_order() {
    let keys = vec![s("a/zeta.mp4"), s("a/720p.mp4"), s("a/alpha.mp4")];
    assert_eq!(qualities_from_keys(&keys), vec!["720p", "zeta", "alpha"]);
}

#[test]
fn rendition_table() {
    let r = renditions();
    let rows: Vec<(String, i32, i32)> = r.into_iter().map(|x| (x.name, x.height, x.max_bitrate)).collect();
    assert_eq!(
        rows,
        vec![
            ("360p".to_string(), 360, 1_500_000),
            ("720p".to_string(), 720, 4_000_000),
            ("1080p".to_string(), 1080, 8_000_000)
        ]
    );
}

#[test]
fn queue_listing_to_jobs() {
    let keys = vec![s("queue/a"), s("queue/"), None, s("other/b"), s("queue/c")];
    let jobs: Vec<(String, String)> = queued_jobs(&keys).into_iter().map(|j| (j.marker_key, j.id)).collect();
    assert_eq!(
        jobs,
        vec![("queue/a".to_string(), "a".to_string()), ("queue/c".to_string(), "c".to_string())]
    );
}

fn status_of(a: &TranscodeAction) -> (String, String) {
    match a {
        TranscodeAction::PutStatus { key, status } => (
            key.clone(),
            match status {
                TranscodeStatus::Pending => "pending".to_string(),
                TranscodeStatus::Processing => "processing".to_string(),
                TranscodeStatus::Done(q) => format!("done:{}", q.join(",")),
                TranscodeStatus::Error(m) => format!("error:{}", m),
            },
        ),
        _ => panic!("expected PutStatus"),
    }
}

#[test]
fn successful_job() {
    let mut f = TranscodeFlow::new("v1".to_string(), "raw".to_string(), "vid".to_string(), "arn:role".to_string());
    let a = f.step(TranscodeEvent::Begin);
    assert_eq!(status_of(&a), ("videos/v1/status.json".to_string(), "processing".to_string()));
    match f.step(TranscodeEvent::Stored) {
        TranscodeAction::CreateJob { role, input, destinations, renditions, profile } => {
            assert_eq!(role, "arn:role");
            assert_eq!(input, "s3://raw/uploads/v1.orig");
            assert_eq!(destinations, vec!["s3://vid/videos/v1/360p", "s3://vid/videos/v1/720p", "s3://vid/videos/v1/1080p"]);
            let names: Vec<String> = renditions.into_iter().map(|r| r.name).collect();
            assert_eq!(names, vec!["360p", "720p", "1080p"]);
            assert_eq!(profile.video_codec, "H_264");
            assert_eq!(profile.container, "MP4");
        }
        _ => panic!("expected CreateJob"),
    }
    match f.step(TranscodeEvent::JobCreated(s("job-9"))) {
        TranscodeAction::PollJob { job_id, wait_secs } => assert_eq!((job_id.as_str(), wait_secs), ("job-9", 15)),
        _ => panic!("expected PollJob"),
    }
    let progressing = JobReport { status: Some(JobStatusKind::Progressing), error_message: None };
    assert!(matches!(f.step(TranscodeEvent::JobPolled(Some(progressing))), TranscodeAction::PollJob { .. }));
    assert!(matches!(f.step(TranscodeEvent::JobPolled(Some(JobReport { status: None, error_message: None }))), TranscodeAction::PollJob { .. }));
    let complete = JobReport { status: Some(JobStatusKind::Complete), error_message: None };
    match f.step(TranscodeEvent::JobPolled(Some(complete))) {
        TranscodeAction::ListOutputs { prefix } => assert_eq!(prefix, "videos/v1/"),
        _ => panic!("expected ListOutputs"),
    }
    match f.step(TranscodeEvent::Listed(vec![s("videos/v1/720p.mp4"), s("videos/v1/360p.mp4"), s("videos/v1/status.json")])) {
        TranscodeAction::DeleteRaw { key } => assert_eq!(key, "uploads/v1.orig"),
        _ => panic!("expected DeleteRaw"),
    }
    let a = f.step(TranscodeEvent::Stored);
    assert_eq!(status_of(&a), ("videos/v1/status.json".to_string(), "done:360p,720p".to_string()));
    assert!(matches!(f.step(TranscodeEvent::Stored), TranscodeAction::Finish(Ok(()))));
    assert!(f.phase() == TranscodePhase::Finished);
}

#[test]
fn failed_jobs_record_an_error_status() {
    let start = || {
        let mut f = TranscodeFlow::new("v".to_string(), "r".to_string(), "w".to_string(), "role".to_string());
        f.step(TranscodeEvent::Begin);
        f.step(TranscodeEvent::Stored);
        f
    };
    let mut f = start();
    assert_eq!(status_of(&f.step(TranscodeEvent::JobCreated(None))).1, "error:MediaConvert returned no job ID");
    match f.step(TranscodeEvent::Stored) {
        TranscodeAction::Finish(Err(m)) => assert_eq!(m, "MediaConvert returned no job ID"),
        _ => panic!("expected Finish(Err)"),
    }

    let mut f = start();
    f.step(TranscodeEvent::JobCreated(s("j")));
    let report = JobReport { status: Some(JobStatusKind::Error), error_message: s("bad input") };
    assert_eq!(status_of(&f.step(TranscodeEvent::JobPolled(Some(report)))).1, "error:MediaConvert error: bad input");

    let mut f = start();
    f.step(TranscodeEvent::JobCreated(s("j")));
    let report = JobReport { status: Some(JobStatusKind::Error), error_message: None };
    assert_eq!(status_of(&f.step(TranscodeEvent::JobPolled(Some(report)))).1, "error:MediaConvert error: unknown error");

    let mut f = start();
    f.step(TranscodeEvent::JobCreated(s("j")));
    assert_eq!(status_of(&f.step(TranscodeEvent::JobPolled(None))).1, "error:job disappeared");
    // A failure to store the error status still ends the job with the failure.
    match f.step(TranscodeEvent::Failed("network".to_string())) {
        TranscodeAction::Finish(Err(m)) => assert_eq!(m, "job disappeared"),
        _ => panic!("expected Finish(Err)"),
    }

    let mut f = TranscodeFlow::new("v".to_string(), "r".to_string(), "w".to_string(), "role".to_string());
    f.step(TranscodeEvent::Begin);
    assert_eq!(status_of(&f.step(TranscodeEvent::Failed("denied".to_string()))).1, "error:denied");
}

#[test]
fn canceled_job_records_an_error_status() {
    let mut f = TranscodeFlow::new("v".to_string(), "r".to_string(), "w".to_string(), "role".to_string());
    f.step(TranscodeEvent::Begin);
    f.step(TranscodeEvent::Stored);
    f.step(TranscodeEvent::JobCreated(s("j")));
    let submitted = JobReport { status: Some(JobStatusKind::Submitted), error_message: None };
    assert!(matches!(f.step(TranscodeEvent::JobPolled(Some(submitted))), TranscodeAction::PollJob { .. }));
    let unknown = JobReport { status: Some(JobStatusKind::Other), error_message: None };
    assert!(matches!(f.step(TranscodeEvent::JobPolled(Some(unknown))), TranscodeAction::PollJob { .. }));
    let canceled = JobReport { status: Some(JobStatusKind::Canceled), error_message: s("by operator") };
    assert_eq!(
        status_of(&f.step(TranscodeEvent::JobPolled(Some(canceled)))),
        ("videos/v/status.json".to_string(), "error:MediaConvert job canceled".to_string())
    );
    match f.step(TranscodeEvent::Stored) {
        TranscodeAction::Finish(Err(m)) => assert_eq!(m, "MediaConvert job canceled"),
        _ => panic!("expected Finish(Err)"),
    }
    assert!(f.phase() == TranscodePhase::Finished);
}

#[test]
fn transcode_profile() {
    let p = profile();
    assert_eq!(
        (p.video_codec.as_str(), p.rate_control.as_str(), p.qvbr_quality_level, p.scaling.as_str()),
        ("H_264", "QVBR", 7, "FIT_NO_UPSCALE")
    );
    assert_eq!(
        (p.audio_selector.as_str(), p.audio_default_selection.as_str(), p.audio_codec.as_str()),
        ("Audio Selector 1", "DEFAULT", "AAC")
    );
    assert_eq!(
        (p.audio_sample_rate, p.audio_bitrate, p.audio_coding_mode.as_str()),
        (48000, 128000, "CODING_MODE_2_0")
    );
    assert_eq!((p.container.as_str(), p.output_group_type.as_str()), ("MP4", "FILE_GROUP_SETTINGS"));
}

#[test]
fn queue_pass_claims_then_processes_each_job() {
    let mut pass = PollFlow::new();
    match pass.step(PollEvent::Begin) {
        PollAction::ListQueue { prefix } => assert_eq!(prefix, "queue/"),
        _ => panic!("expected ListQueue"),
    }
    let listing = vec![s("queue/a"), s("queue/"), None, s("queue/b")];
    match pass.step(PollEvent::Listed(listing)) {
        PollAction::Claim { marker_key } => assert_eq!(marker_key, "queue/a"),
        _ => panic!("expected Claim"),
    }
    match pass.step(PollEvent::Claimed) {
        PollAction::Process { id } => assert_eq!(id, "a"),
        _ => panic!("expected Process"),
    }
    match pass.step(PollEvent::JobFinished) {
        PollAction::Claim { marker_key } => assert_eq!(marker_key, "queue/b"),
        _ => panic!("expected Claim"),
    }
    match pass.step(PollEvent::Claimed) {
        PollAction::Process { id } => assert_eq!(id, "b"),
        _ => panic!("expected Process"),
    }
    assert!(matches!(pass.step(PollEvent::JobFinished), PollAction::Done(Ok(()))));
}

#[test]
fn queue_pass_stops_on_failed_claim_or_listing() {
    let mut pass = PollFlow::new();
    pass.step(PollEvent::Begin);
    pass.step(PollEvent::Listed(vec![s("queue/a"), s("queue/b")]));
    match pass.step(PollEvent::Failed("denied".to_string())) {
        PollAction::Done(Err(m)) => assert_eq!(m, "denied"),
        _ => panic!("expected Done(Err)"),
    }
    assert!(!pass.accepts(&PollEvent::Claimed));

    let mut pass = PollFlow::new();
    pass.step(PollEvent::Begin);
    assert!(matches!(pass.step(PollEvent::Failed("x".to_string())), PollAction::Done(Err(_))));

    let mut pass = PollFlow::new();
    pass.step(PollEvent::Begin);
    assert!(matches!(pass.step(PollEvent::Listed(vec![])), PollAction::Done(Ok(()))));
}

#[test]
fn status_documents() {
    let d = status_document(TranscodeStatus::Pending);
    assert_eq!((d.status.as_str(), d.qualities, d.error), ("pending", None, None));
    let d = status_document(TranscodeStatus::Processing);
    assert_eq!((d.status.as_str(), d.qualities, d.error), ("processing", None, None));
    let d = status_document(TranscodeStatus::Done(vec!["720p".to_string()]));
    assert_eq!((d.status.as_str(), d.qualities, d.error), ("done", Some(vec!["720p".to_string()]), None));
    let d = status_document(TranscodeStatus::Error("boom".to_string()));
    assert_eq!((d.status.as_str(), d.qualities, d.error), ("error", None, Some("boom".to_string())));
}

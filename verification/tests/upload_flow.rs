use assetlab::error::AppError;
use assetlab::status::TranscodeStatus;
use assetlab::upload::{
    CompletedPart, UploadAction, UploadEvent, UploadFlow, UploadPhase, S3_PART_MIN_BYTES,
};

fn is_v4_text(id: &str) -> bool {
    let cs: Vec<char> = id.chars().collect();
    cs.len() == 36
        && cs.iter().enumerate().all(|(i, c)| {
            if [8, 13, 18, 23].contains(&i) {
                *c == '-'
            } else {
                c.is_ascii_digit() || ('a'..='f').contains(c)
            }
        })
        && cs[14] == '4'
        && "89ab".contains(cs[19])
}

/// Drives an upload whose file field arrives in `chunks`, acknowledging
/// every part; returns the part bodies, the completed parts and the answer.
fn drive(chunks: Vec<Vec<u8>>) -> (Vec<(i32, Vec<u8>)>, Vec<CompletedPart>, Vec<String>, Result<(String, String), String>) {
    let mut flow = UploadFlow::new();
    let mut parts = Vec::new();
    let mut completed = Vec::new();
    let mut puts = Vec::new();
    let mut pending = chunks.into_iter();
    let mut action = flow.step(UploadEvent::Field(Some("title".to_string())));
    assert!(matches!(action, UploadAction::ReadField));
    action = flow.step(UploadEvent::Field(Some("file".to_string())));
    loop {
        let event = match action {
            UploadAction::ReadField => UploadEvent::NoMoreFields,
            UploadAction::CreateUpload { key } => {
                assert!(key.starts_with("uploads/") && key.ends_with(".orig"));
                UploadEvent::UploadCreated(Some("up-1".to_string()))
            }
            UploadAction::ReadChunk => match pending.next() {
                Some(c) => UploadEvent::Chunk(c),
                None => UploadEvent::NoMoreChunks,
            },
            UploadAction::UploadPart { key: _, upload_id, part_number, body } => {
                assert_eq!(upload_id, "up-1");
                parts.push((part_number, body));
                UploadEvent::PartUploaded(Some(format!("etag-{}", part_number)))
            }
            UploadAction::CompleteUpload { parts: done, .. } => {
                completed = done;
                UploadEvent::Stored
            }
            UploadAction::PutStatus { key, status } => {
                assert!(matches!(status, TranscodeStatus::Pending));
                puts.push(key);
                UploadEvent::Stored
            }
            UploadAction::PutQueueMarker { key } => {
                puts.push(key);
                UploadEvent::Stored
            }
            UploadAction::Respond(r) => {
                assert!(flow.phase() == UploadPhase::Finished);
                let answer = match r {
                    Ok(s) => Ok((s.id, s.key)),
                    Err(e) => Err(e.into_response().message),
                };
                return (parts, completed, puts, answer);
            }
        };
        assert!(flow.accepts(&event));
        action = flow.step(event);
    }
}

#[test]
fn small_file_is_one_part() {
    let (parts, completed, puts, answer) = drive(vec![vec![1, 2, 3], vec![4, 5]]);
    assert_eq!(parts, vec![(1, vec![1, 2, 3, 4, 5])]);
    assert_eq!(completed.len(), 1);
    assert_eq!((completed[0].part_number, completed[0].e_tag.as_str()), (1, "etag-1"));
    let (id, key) = answer.unwrap();
    assert!(is_v4_text(&id));
    assert_eq!(key, format!("uploads/{}.orig", id));
    assert_eq!(puts, vec![format!("videos/{}/status.json", id), format!("queue/{}", id)]);
}

#[test]
fn large_file_is_cut_into_full_parts_then_the_rest() {
    let p = S3_PART_MIN_BYTES;
    let data: Vec<u8> = (0..(2 * p + 1000)).map(|i| (i % 251) as u8).collect();
    // Deliver it in uneven chunks, one of them larger than a part.
    let chunks = vec![data[..10].to_vec(), data[10..p + 7].to_vec(), data[p + 7..].to_vec()];
    let (parts, completed, _, answer) = drive(chunks);
    assert!(answer.is_ok());
    let numbers: Vec<i32> = parts.iter().map(|(n, _)| *n).collect();
    assert_eq!(numbers, vec![1, 2, 3]);
    assert_eq!(parts[0].1.len(), p);
    assert_eq!(parts[1].1.len(), p);
    assert_eq!(parts[2].1.len(), 1000);
    let joined: Vec<u8> = parts.iter().flat_map(|(_, b)| b.clone()).collect();
    assert_eq!(joined, data);
    let nums: Vec<i32> = completed.iter().map(|c| c.part_number).collect();
    assert_eq!(nums, vec![1, 2, 3]);
}

#[test]
fn exact_multiple_has_no_short_part() {
    let p = S3_PART_MIN_BYTES;
    let data = vec![7u8; p];
    let (parts, completed, _, answer) = drive(vec![data.clone()]);
    assert!(answer.is_ok());
    assert_eq!(parts.len(), 1);
    assert_eq!(parts[0].1, data);
    assert_eq!(completed.len(), 1);
}

#[test]
fn empty_file_completes_with_no_parts() {
    let (parts, completed, _, answer) = drive(vec![]);
    assert!(parts.is_empty());
    assert!(completed.is_empty());
    assert!(answer.is_ok());
}

#[test]
fn no_file_field() {
    let mut flow = UploadFlow::new();
    let a = flow.step(UploadEvent::Field(None));
    assert!(matches!(a, UploadAction::ReadField));
    match flow.step(UploadEvent::NoMoreFields) {
        UploadAction::Respond(Err(AppError::MissingFile)) => {}
        _ => panic!("expected MissingFile"),
    }
    assert!(!flow.accepts(&UploadEvent::NoMoreFields));
}

fn failure_message(a: UploadAction) -> String {
    match a {
        UploadAction::Respond(Err(AppError::S3(m))) => m,
        _ => panic!("expected an S3 error"),
    }
}

#[test]
fn failures_are_reported() {
    let mut flow = UploadFlow::new();
    assert_eq!(failure_message(flow.step(UploadEvent::FieldError("bad boundary".to_string()))), "multipart error: bad boundary");

    let mut flow = UploadFlow::new();
    flow.step(UploadEvent::Field(Some("file".to_string())));
    assert_eq!(failure_message(flow.step(UploadEvent::UploadCreated(None))), "missing upload_id");

    let mut flow = UploadFlow::new();
    flow.step(UploadEvent::Field(Some("file".to_string())));
    flow.step(UploadEvent::UploadCreated(Some("u".to_string())));
    assert_eq!(failure_message(flow.step(UploadEvent::ChunkError("reset".to_string()))), "stream error: reset");

    let mut flow = UploadFlow::new();
    flow.step(UploadEvent::Field(Some("file".to_string())));
    flow.step(UploadEvent::UploadCreated(Some("u".to_string())));
    flow.step(UploadEvent::Chunk(vec![1]));
    flow.step(UploadEvent::NoMoreChunks);
    assert_eq!(failure_message(flow.step(UploadEvent::PartUploaded(None))), "upload_part missing etag");

    let mut flow = UploadFlow::new();
    flow.step(UploadEvent::Field(Some("file".to_string())));
    assert_eq!(failure_message(flow.step(UploadEvent::S3Failed("denied".to_string()))), "denied");
}

#[test]
fn fixed_id_gives_fixed_key() {
    let mut flow = UploadFlow::new();
    match flow.step_with_id(UploadEvent::Field(Some("file".to_string())), "abc".to_string()) {
        UploadAction::CreateUpload { key } => assert_eq!(key, "uploads/abc.orig"),
        _ => panic!("expected CreateUpload"),
    }
}

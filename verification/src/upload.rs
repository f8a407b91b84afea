//! The upload handler's decisions, as a state machine.
//!
//! The handler reads a multipart form, finds the field named `file`, and
//! streams its bytes to object storage with a multipart upload, in parts of
//! [`S3_PART_MIN_BYTES`] (the last part may be shorter), without holding the
//! whole file in memory. Then it writes the video's initial status and its
//! queue marker, so that a worker picks it up. The I/O is done by the
//! caller: it feeds [`UploadFlow::step`] what happened ([`UploadEvent`]) and
//! performs what it is told ([`UploadAction`]).

use vstd::prelude::*;
use crate::error::{AppError, ErrorView, UploadSuccess};
use crate::ids::{is_v4_uuid_text, new_video_id};
use crate::keys::{queue_key, queue_key_of, raw_key_of, raw_upload_key, status_key, status_key_of};
use crate::status::{StatusView, TranscodeStatus};
use crate::text::{owned, str_eq};

verus! {

/// Size of every part of a multipart upload but the last: 5 MiB, the
/// smallest part S3 accepts.
pub const S3_PART_MIN_BYTES: usize = 5 * 1024 * 1024;

/// The part size as an integer.
pub open spec fn part_size() -> int {
    S3_PART_MIN_BYTES as int
}

/// How a file body is cut into parts: consecutive blocks of
/// [`S3_PART_MIN_BYTES`], the last one possibly shorter; no part is empty.
pub open spec fn part_layout(data: Seq<u8>) -> Seq<Seq<u8>>
    decreases data.len(),
{
    if data.len() == 0 {
        Seq::empty()
    } else if data.len() <= part_size() {
        seq![data]
    } else {
        seq![data.take(part_size())] + part_layout(data.skip(part_size()))
    }
}

/// The first `k` full parts of `data`.
pub open spec fn full_parts(data: Seq<u8>, k: int) -> Seq<Seq<u8>> {
    Seq::new(k as nat, |i: int| data.subrange(i * part_size(), i * part_size() + part_size()))
}

/// A list of completed parts numbered 1, 2, 3, ... in order.
pub open spec fn numbered(parts: Seq<(int, Seq<char>)>) -> bool {
    forall|i: int| 0 <= i < parts.len() ==> (#[trigger] parts[i]).0 == i + 1
}

/// A part of `data` of full size splits off the front.
proof fn lemma_layout_unfold(data: Seq<u8>)
    requires
        data.len() >= part_size(),
    ensures
        part_layout(data) == seq![data.take(part_size())] + part_layout(data.skip(part_size())),
{
    if data.len() == part_size() {
        assert(data.take(part_size()) =~= data);
        assert(data.skip(part_size()).len() == 0);
        assert(seq![data.take(part_size())] + Seq::<Seq<u8>>::empty() =~= seq![data]);
    }
}

/// The layout of `data` begins with its first `k` full parts.
proof fn lemma_layout_full_parts(data: Seq<u8>, k: int)
    requires
        0 <= k,
        k * part_size() <= data.len(),
    ensures
        part_layout(data) == full_parts(data, k) + part_layout(data.skip(k * part_size())),
    decreases k,
{
    if k == 0 {
        assert(k * part_size() == 0) by (nonlinear_arith)
            requires
                k == 0,
        ;
        assert(data.skip(0) =~= data);
        assert(full_parts(data, 0) =~= Seq::<Seq<u8>>::empty());
        assert(Seq::<Seq<u8>>::empty() + part_layout(data) =~= part_layout(data));
    } else {
        let p = part_size();
        assert(p > 0);
        assert(k * p == (k - 1) * p + p && (k - 1) * p >= 0) by (nonlinear_arith)
            requires
                k >= 1,
                p > 0,
        ;
        lemma_layout_unfold(data);
        let rest = data.skip(p);
        lemma_layout_full_parts(rest, k - 1);
        assert(rest.skip((k - 1) * p) =~= data.skip(k * p));
        let lhs = full_parts(data, k);
        let rhs = seq![data.take(p)] + full_parts(rest, k - 1);
        assert forall|i: int| 0 <= i < k implies #[trigger] lhs[i] == rhs[i] by {
            if i == 0 {
                assert(lhs[i] =~= data.take(p));
            } else {
                assert(i * p == (i - 1) * p + p && (i - 1) * p >= 0 && i * p + p <= k * p)
                    by (nonlinear_arith)
                    requires
                        1 <= i < k,
                        p > 0,
                ;
                assert(lhs[i] =~= rest.subrange((i - 1) * p, (i - 1) * p + p));
            }
        }
        assert(lhs =~= rhs);
        assert(part_layout(data) =~= lhs + part_layout(data.skip(k * p)));
    }
}

/// Growing `data` at the end does not change its first full parts.
proof fn lemma_full_parts_extend(data: Seq<u8>, more: Seq<u8>, k: int)
    requires
        0 <= k,
        k * part_size() <= data.len(),
    ensures
        full_parts(data + more, k) == full_parts(data, k),
{
    let a = full_parts(data + more, k);
    let b = full_parts(data, k);
    let p = part_size();
    assert forall|i: int| 0 <= i < k implies #[trigger] a[i] == b[i] by {
        assert(i * p + p <= k * p && 0 <= i * p) by (nonlinear_arith)
            requires
                0 <= i < k,
                p > 0,
        ;
        assert(a[i] =~= b[i]);
    }
    assert(a =~= b);
}

/// One more full part.
proof fn lemma_full_parts_push(data: Seq<u8>, k: int)
    requires
        0 <= k,
        (k + 1) * part_size() <= data.len(),
    ensures
        full_parts(data, k + 1) == full_parts(data, k).push(
            data.subrange(k * part_size(), k * part_size() + part_size()),
        ),
{
    assert(full_parts(data, k + 1) =~= full_parts(data, k).push(
        data.subrange(k * part_size(), k * part_size() + part_size()),
    ));
}

/// The parts of a body put back together give the body; every part but the
/// last is exactly [`S3_PART_MIN_BYTES`] long, and the last is not empty and
/// not longer.
pub proof fn lemma_part_layout_reassembles(data: Seq<u8>)
    ensures
        part_layout(data).flatten() == data,
        forall|i: int|
            0 <= i < part_layout(data).len() - 1 ==> (#[trigger] part_layout(data)[i]).len()
                == part_size(),
        data.len() > 0 ==> 0 < part_layout(data).last().len() <= part_size(),
        data.len() == 0 ==> part_layout(data).len() == 0,
    decreases data.len(),
{
    let p = part_size();
    if data.len() == 0 {
    } else if data.len() <= p {
        assert(seq![data].flatten() =~= data) by {
            seq![data].lemma_flatten_one_element();
        }
    } else {
        let rest = data.skip(p);
        lemma_part_layout_reassembles(rest);
        let head = seq![data.take(p)];
        vstd::seq_lib::lemma_flatten_concat(head, part_layout(rest));
        head.lemma_flatten_one_element();
        assert(data.take(p) + rest =~= data);
        assert forall|i: int| 0 <= i < part_layout(data).len() - 1 implies (
        #[trigger] part_layout(data)[i]).len() == p by {
            if i > 0 {
                assert(part_layout(data)[i] == part_layout(rest)[i - 1]);
            }
        }
    }
}

/// Where an upload stands.
#[derive(PartialEq, Eq, Structural, Clone, Copy)]
pub enum UploadPhase {
    /// Waiting for the next field of the form.
    AwaitingField,
    /// Waiting for object storage to open the multipart upload.
    AwaitingUploadId,
    /// Waiting for the next chunk of the file field.
    Streaming,
    /// Waiting for the ETag of a full part.
    AwaitingPart,
    /// Waiting for the ETag of the last, shorter part.
    AwaitingFinalPart,
    /// Waiting for object storage to complete the multipart upload.
    AwaitingComplete,
    /// Waiting for the initial status document to be stored.
    AwaitingStatus,
    /// Waiting for the queue marker to be stored.
    AwaitingQueueMarker,
    /// The answer has been given.
    Finished,
}

/// A part that object storage has acknowledged.
pub struct CompletedPart {
    pub part_number: i32,
    pub e_tag: String,
}

/// What happened since the last step.
pub enum UploadEvent {
    /// The form has a next field, with this name (if it has one).
    Field(Option<String>),
    /// The form has no more fields.
    NoMoreFields,
    /// Reading the form failed, with this message.
    FieldError(String),
    /// Object storage opened the multipart upload, with this upload id.
    UploadCreated(Option<String>),
    /// The file field delivered these bytes.
    Chunk(Vec<u8>),
    /// The file field has no more bytes.
    NoMoreChunks,
    /// Reading the file field failed, with this message.
    ChunkError(String),
    /// Object storage stored a part, answering with this ETag.
    PartUploaded(Option<String>),
    /// Object storage completed a request (completing the upload, storing the
    /// status document or the queue marker).
    Stored,
    /// An object storage request failed, with this message.
    S3Failed(String),
}

/// What the caller is to do next.
pub enum UploadAction {
    /// Read the next field of the form.
    ReadField,
    /// Open a multipart upload of `key` in the raw bucket.
    CreateUpload { key: String },
    /// Read the next chunk of the file field.
    ReadChunk,
    /// Store `body` as part `part_number` of the upload.
    UploadPart { key: String, upload_id: String, part_number: i32, body: Vec<u8> },
    /// Complete the upload from these parts.
    CompleteUpload { key: String, upload_id: String, parts: Vec<CompletedPart> },
    /// Store this status document under `key` in the video bucket.
    PutStatus { key: String, status: TranscodeStatus },
    /// Store an empty queue marker under `key` in the raw bucket.
    PutQueueMarker { key: String },
    /// Answer the request: `201 Created` with the id and key, or the error.
    Respond(Result<UploadSuccess, AppError>),
}

/// An event as plain values.
pub enum UploadEventView {
    Field(Option<Seq<char>>),
    NoMoreFields,
    FieldError(Seq<char>),
    UploadCreated(Option<Seq<char>>),
    Chunk(Seq<u8>),
    NoMoreChunks,
    ChunkError(Seq<char>),
    PartUploaded(Option<Seq<char>>),
    Stored,
    S3Failed(Seq<char>),
}

/// An action as plain values.
pub enum UploadActionView {
    ReadField,
    CreateUpload { key: Seq<char> },
    ReadChunk,
    UploadPart { key: Seq<char>, upload_id: Seq<char>, part_number: int, body: Seq<u8> },
    CompleteUpload { key: Seq<char>, upload_id: Seq<char>, parts: Seq<(int, Seq<char>)> },
    PutStatus { key: Seq<char>, status: StatusView },
    PutQueueMarker { key: Seq<char> },
    Respond(Result<(Seq<char>, Seq<char>), ErrorView>),
}

/// The view of an optional string.
pub open spec fn opt_view(o: Option<String>) -> Option<Seq<char>> {
    match o {
        Some(s) => Some(s@),
        None => None,
    }
}

/// The views of completed parts: (part number, ETag).
pub open spec fn parts_view(v: Seq<CompletedPart>) -> Seq<(int, Seq<char>)> {
    v.map_values(|p: CompletedPart| (p.part_number as int, p.e_tag@))
}

impl View for UploadEvent {
    type V = UploadEventView;

    open spec fn view(&self) -> UploadEventView {
        match self {
            UploadEvent::Field(n) => UploadEventView::Field(opt_view(*n)),
            UploadEvent::NoMoreFields => UploadEventView::NoMoreFields,
            UploadEvent::FieldError(m) => UploadEventView::FieldError(m@),
            UploadEvent::UploadCreated(u) => UploadEventView::UploadCreated(opt_view(*u)),
            UploadEvent::Chunk(c) => UploadEventView::Chunk(c@),
            UploadEvent::NoMoreChunks => UploadEventView::NoMoreChunks,
            UploadEvent::ChunkError(m) => UploadEventView::ChunkError(m@),
            UploadEvent::PartUploaded(t) => UploadEventView::PartUploaded(opt_view(*t)),
            UploadEvent::Stored => UploadEventView::Stored,
            UploadEvent::S3Failed(m) => UploadEventView::S3Failed(m@),
        }
    }
}

impl View for UploadAction {
    type V = UploadActionView;

    open spec fn view(&self) -> UploadActionView {
        match self {
            UploadAction::ReadField => UploadActionView::ReadField,
            UploadAction::CreateUpload { key } => UploadActionView::CreateUpload { key: key@ },
            UploadAction::ReadChunk => UploadActionView::ReadChunk,
            UploadAction::UploadPart { key, upload_id, part_number, body } =>
                UploadActionView::UploadPart {
                    key: key@,
                    upload_id: upload_id@,
                    part_number: *part_number as int,
                    body: body@,
                },
            UploadAction::CompleteUpload { key, upload_id, parts } =>
                UploadActionView::CompleteUpload {
                    key: key@,
                    upload_id: upload_id@,
                    parts: parts_view(parts@),
                },
            UploadAction::PutStatus { key, status } =>
                UploadActionView::PutStatus { key: key@, status: status@ },
            UploadAction::PutQueueMarker { key } => UploadActionView::PutQueueMarker { key: key@ },
            UploadAction::Respond(r) => UploadActionView::Respond(
                match r {
                    Ok(s) => Ok((s.id@, s.key@)),
                    Err(e) => Err(e@),
                },
            ),
        }
    }
}

/// The state of an upload as plain values. `received` is every byte the
/// file field delivered so far; `sent` is every part body handed out to be
/// stored, in order.
pub struct UploadModel {
    pub phase: UploadPhase,
    pub id: Seq<char>,
    pub key: Seq<char>,
    pub upload_id: Seq<char>,
    pub buffer: Seq<u8>,
    pub next_part: int,
    pub completed: Seq<(int, Seq<char>)>,
    pub received: Seq<u8>,
    pub sent: Seq<Seq<u8>>,
}

/// Stop with this answer.
pub open spec fn finish(
    m: UploadModel,
    answer: Result<(Seq<char>, Seq<char>), ErrorView>,
) -> (UploadModel, UploadActionView) {
    (UploadModel { phase: UploadPhase::Finished, ..m }, UploadActionView::Respond(answer))
}

/// Hand out a full part if the buffer holds one, else read on.
pub open spec fn part_or_read(m: UploadModel) -> (UploadModel, UploadActionView) {
    if m.buffer.len() >= part_size() {
        let body = m.buffer.take(part_size());
        (
            UploadModel {
                phase: UploadPhase::AwaitingPart,
                buffer: m.buffer.skip(part_size()),
                sent: m.sent.push(body),
                ..m
            },
            UploadActionView::UploadPart {
                key: m.key,
                upload_id: m.upload_id,
                part_number: m.next_part,
                body,
            },
        )
    } else {
        (UploadModel { phase: UploadPhase::Streaming, ..m }, UploadActionView::ReadChunk)
    }
}

/// Complete the upload with the parts acknowledged so far.
pub open spec fn complete(m: UploadModel) -> (UploadModel, UploadActionView) {
    (
        UploadModel { phase: UploadPhase::AwaitingComplete, completed: Seq::empty(), ..m },
        UploadActionView::CompleteUpload { key: m.key, upload_id: m.upload_id, parts: m.completed },
    )
}

/// Which events an upload in state `m` expects. A chunk must leave room for
/// the buffer in memory, and a full part's number must leave room for the
/// next one.
pub open spec fn accepts(m: UploadModel, e: UploadEventView) -> bool {
    match m.phase {
        UploadPhase::AwaitingField => e is Field || e is NoMoreFields || e is FieldError,
        UploadPhase::AwaitingUploadId => e is UploadCreated || e is S3Failed,
        UploadPhase::Streaming => {
            ||| (e matches UploadEventView::Chunk(c) && c.len() <= usize::MAX - S3_PART_MIN_BYTES)
            ||| e is NoMoreChunks
            ||| e is ChunkError
        },
        UploadPhase::AwaitingPart => {
            ||| (e matches UploadEventView::PartUploaded(t) && (t is Some ==> m.next_part
                < i32::MAX))
            ||| e is S3Failed
        },
        UploadPhase::AwaitingFinalPart => e is PartUploaded || e is S3Failed,
        UploadPhase::AwaitingComplete => e is Stored || e is S3Failed,
        UploadPhase::AwaitingStatus => e is Stored || e is S3Failed,
        UploadPhase::AwaitingQueueMarker => e is Stored || e is S3Failed,
        UploadPhase::Finished => false,
    }
}

/// One step of the upload handler: the next state and what to do, given the
/// event. `fresh_id` is the id the video gets when its file field is found.
pub open spec fn upload_step(m: UploadModel, e: UploadEventView, fresh_id: Seq<char>) -> (
    UploadModel,
    UploadActionView,
) {
    match e {
        UploadEventView::Field(name) => {
            if name == Some("file"@) {
                let key = raw_key_of(fresh_id);
                (
                    UploadModel { phase: UploadPhase::AwaitingUploadId, id: fresh_id, key, ..m },
                    UploadActionView::CreateUpload { key },
                )
            } else {
                (m, UploadActionView::ReadField)
            }
        },
        UploadEventView::NoMoreFields => finish(m, Err(ErrorView::MissingFile)),
        UploadEventView::FieldError(msg) => finish(
            m,
            Err(ErrorView::S3("multipart error: "@ + msg)),
        ),
        UploadEventView::UploadCreated(upload_id) => match upload_id {
            Some(u) => (
                UploadModel {
                    phase: UploadPhase::Streaming,
                    upload_id: u,
                    buffer: Seq::empty(),
                    next_part: 1,
                    completed: Seq::empty(),
                    received: Seq::empty(),
                    sent: Seq::empty(),
                    ..m
                },
                UploadActionView::ReadChunk,
            ),
            None => finish(m, Err(ErrorView::S3("missing upload_id"@))),
        },
        UploadEventView::Chunk(c) => part_or_read(
            UploadModel { buffer: m.buffer + c, received: m.received + c, ..m },
        ),
        UploadEventView::NoMoreChunks => {
            if m.buffer.len() > 0 {
                (
                    UploadModel {
                        phase: UploadPhase::AwaitingFinalPart,
                        buffer: Seq::empty(),
                        sent: m.sent.push(m.buffer),
                        ..m
                    },
                    UploadActionView::UploadPart {
                        key: m.key,
                        upload_id: m.upload_id,
                        part_number: m.next_part,
                        body: m.buffer,
                    },
                )
            } else {
                complete(m)
            }
        },
        UploadEventView::ChunkError(msg) => finish(m, Err(ErrorView::S3("stream error: "@ + msg))),
        UploadEventView::PartUploaded(e_tag) => match e_tag {
            Some(t) => {
                let acknowledged = m.completed.push((m.next_part, t));
                if m.phase == UploadPhase::AwaitingFinalPart {
                    complete(UploadModel { completed: acknowledged, ..m })
                } else {
                    part_or_read(
                        UploadModel { completed: acknowledged, next_part: m.next_part + 1, ..m },
                    )
                }
            },
            None => finish(m, Err(ErrorView::S3("upload_part missing etag"@))),
        },
        UploadEventView::Stored => {
            if m.phase == UploadPhase::AwaitingComplete {
                (
                    UploadModel { phase: UploadPhase::AwaitingStatus, ..m },
                    UploadActionView::PutStatus { key: status_key_of(m.id), status: StatusView::Pending },
                )
            } else if m.phase == UploadPhase::AwaitingStatus {
                (
                    UploadModel { phase: UploadPhase::AwaitingQueueMarker, ..m },
                    UploadActionView::PutQueueMarker { key: queue_key_of(m.id) },
                )
            } else {
                finish(m, Ok((m.id, m.key)))
            }
        },
        UploadEventView::S3Failed(msg) => finish(m, Err(ErrorView::S3(msg))),
    }
}

/// The bytes received so far are the parts handed out, all full, followed
/// by the buffer.
pub open spec fn streamed(m: UploadModel) -> bool {
    &&& m.received.len() == m.sent.len() * part_size() + m.buffer.len()
    &&& m.sent == full_parts(m.received, m.sent.len() as int)
    &&& m.buffer == m.received.skip(m.sent.len() * part_size())
}

/// What holds of every upload state the machine reaches.
pub open spec fn upload_inv(m: UploadModel) -> bool {
    &&& 1 <= m.next_part <= i32::MAX
    &&& numbered(m.completed)
    &&& (m.phase != UploadPhase::AwaitingField && m.phase != UploadPhase::Finished ==> m.key
        == raw_key_of(m.id))
    &&& match m.phase {
        UploadPhase::Streaming => {
            &&& streamed(m)
            &&& m.buffer.len() < part_size()
            &&& m.completed.len() == m.sent.len()
            &&& m.next_part == m.sent.len() + 1
        },
        UploadPhase::AwaitingPart => {
            &&& streamed(m)
            &&& m.completed.len() + 1 == m.sent.len()
            &&& m.next_part == m.sent.len()
        },
        UploadPhase::AwaitingFinalPart => {
            &&& m.sent == part_layout(m.received)
            &&& m.buffer.len() == 0
            &&& m.completed.len() + 1 == m.sent.len()
            &&& m.next_part == m.sent.len()
        },
        UploadPhase::AwaitingComplete | UploadPhase::AwaitingStatus
        | UploadPhase::AwaitingQueueMarker => {
            &&& m.sent == part_layout(m.received)
            &&& m.buffer.len() == 0
        },
        _ => true,
    }
}

/// The state in which an upload starts.
pub open spec fn upload_start() -> UploadModel {
    UploadModel {
        phase: UploadPhase::AwaitingField,
        id: Seq::empty(),
        key: Seq::empty(),
        upload_id: Seq::empty(),
        buffer: Seq::empty(),
        next_part: 1,
        completed: Seq::empty(),
        received: Seq::empty(),
        sent: Seq::empty(),
    }
}

/// Handing out a full part keeps the invariant.
proof fn lemma_part_or_read(m: UploadModel)
    requires
        1 <= m.next_part <= i32::MAX,
        numbered(m.completed),
        streamed(m),
        m.completed.len() == m.sent.len(),
        m.next_part == m.sent.len() + 1,
        m.key == raw_key_of(m.id),
    ensures
        upload_inv(part_or_read(m).0),
{
    let p = part_size();
    if m.buffer.len() >= p {
        let k = m.sent.len() as int;
        let m2 = part_or_read(m).0;
        assert(k * p + p == (k + 1) * p) by (nonlinear_arith);
        lemma_full_parts_push(m.received, k);
        assert(m.buffer.take(p) =~= m.received.subrange(k * p, k * p + p));
        assert(m.buffer.skip(p) =~= m.received.skip((k + 1) * p));
        assert(m2.sent.len() == k + 1);
    }
}

/// Once the multipart upload is complete, the video's status is
/// initialised as pending under its status key, and only then its queue
/// marker is written.
pub proof fn lemma_upload_initialises_pending_status(m: UploadModel, fresh_id: Seq<char>)
    requires
        upload_inv(m),
        m.phase == UploadPhase::AwaitingComplete,
    ensures
        ({
            let (m2, a) = upload_step(m, UploadEventView::Stored, fresh_id);
            &&& a == UploadActionView::PutStatus {
                key: status_key_of(m.id),
                status: StatusView::Pending,
            }
            &&& upload_step(m2, UploadEventView::Stored, fresh_id).1
                == UploadActionView::PutQueueMarker { key: queue_key_of(m.id) }
        }),
{
}

/// The answer of a successful upload names the video's id and the key
/// its body was stored under.
pub proof fn lemma_success_names_stored_key(m: UploadModel, e: UploadEventView, fresh_id: Seq<char>)
    requires
        upload_inv(m),
        accepts(m, e),
        upload_step(m, e, fresh_id).1 matches UploadActionView::Respond(Ok(_)),
    ensures
        upload_step(m, e, fresh_id).1 == UploadActionView::Respond(Ok((m.id, raw_key_of(m.id)))),
{
}

/// The events that report how an action of an upload went: a read of the
/// form answers with a field or its end, a read of the file field with a
/// chunk or its end, an opened upload with its id, a stored part with its
/// ETag, any other storage request with `Stored`; reads and storage
/// requests may fail. An answered request waits for nothing.
pub open spec fn upload_answers(a: UploadActionView, e: UploadEventView) -> bool {
    match a {
        UploadActionView::ReadField => e is Field || e is NoMoreFields || e is FieldError,
        UploadActionView::CreateUpload { .. } => e is UploadCreated || e is S3Failed,
        UploadActionView::ReadChunk => e is Chunk || e is NoMoreChunks || e is ChunkError,
        UploadActionView::UploadPart { .. } => e is PartUploaded || e is S3Failed,
        UploadActionView::CompleteUpload { .. } => e is Stored || e is S3Failed,
        UploadActionView::PutStatus { .. } => e is Stored || e is S3Failed,
        UploadActionView::PutQueueMarker { .. } => e is Stored || e is S3Failed,
        UploadActionView::Respond(_) => false,
    }
}

/// The machine limits under which an upload in state `m` takes event `e`:
/// a chunk leaves room for the buffer in memory, and a stored part's
/// number leaves room for the next one.
pub open spec fn within_limits(m: UploadModel, e: UploadEventView) -> bool {
    &&& e matches UploadEventView::Chunk(c) ==> c.len() <= usize::MAX - S3_PART_MIN_BYTES
    &&& e matches UploadEventView::PartUploaded(Some(_)) ==> m.next_part < i32::MAX
}

/// An upload can always be told how the action it asked for went, within
/// the machine limits: a new upload accepts the form's first field, its
/// end or its failure, and after any step, every event that reports the
/// outcome of the action it returned is accepted by the state it moved to.
pub proof fn lemma_upload_outcomes_accepted(
    m: UploadModel,
    e: UploadEventView,
    fresh_id: Seq<char>,
    next: UploadEventView,
)
    requires
        upload_inv(m),
        accepts(m, e),
    ensures
        upload_answers(UploadActionView::ReadField, next) ==> accepts(upload_start(), next),
        upload_answers(upload_step(m, e, fresh_id).1, next) && within_limits(
            upload_step(m, e, fresh_id).0,
            next,
        ) ==> accepts(upload_step(m, e, fresh_id).0, next),
{
}

/// Every part an upload stores, and its completion, go to the multipart
/// upload that object storage opened for the video's raw key: the upload
/// is opened for `uploads/<id>.orig` of the fresh id, the upload id object
/// storage answers with is kept, no later event changes the id or the
/// upload id, and every part and the completion name that key and that
/// upload id.
pub proof fn lemma_parts_go_to_the_opened_upload(
    m: UploadModel,
    e: UploadEventView,
    fresh_id: Seq<char>,
)
    requires
        upload_inv(m),
        accepts(m, e),
    ensures
        ({
            let (m2, a) = upload_step(m, e, fresh_id);
            &&& a matches UploadActionView::CreateUpload { key } ==> key == raw_key_of(fresh_id)
                && m2.id == fresh_id
            &&& e matches UploadEventView::UploadCreated(Some(u)) ==> m2.upload_id == u
            &&& !(e is Field) ==> m2.id == m.id
            &&& !(e is UploadCreated) ==> m2.upload_id == m.upload_id
            &&& a matches UploadActionView::UploadPart { key, upload_id, .. } ==> key == raw_key_of(
                m.id,
            ) && upload_id == m.upload_id
            &&& a matches UploadActionView::CompleteUpload { key, upload_id, .. } ==> key
                == raw_key_of(m.id) && upload_id == m.upload_id
        }),
{
}

/// Parts are numbered by their position: a stored part carries the number
/// of the body it hands out (the first is 1), and the ETag object storage
/// answers for it is recorded under that same number, to be named in the
/// completion.
pub proof fn lemma_parts_numbered_by_position(
    m: UploadModel,
    e: UploadEventView,
    fresh_id: Seq<char>,
)
    requires
        upload_inv(m),
        accepts(m, e),
    ensures
        ({
            let (m2, a) = upload_step(m, e, fresh_id);
            &&& a matches UploadActionView::UploadPart { part_number, body, .. } ==> part_number
                == m2.sent.len() && body == m2.sent.last() && m2.sent.drop_last() == m.sent
            &&& e matches UploadEventView::PartUploaded(Some(t)) ==> m.next_part == m.sent.len() && (
            if a is CompleteUpload {
                a->CompleteUpload_parts == m.completed.push((m.next_part, t))
            } else {
                m2.completed == m.completed.push((m.next_part, t))
            })
        }),
{
}

/// Every step keeps the invariant.
pub proof fn lemma_upload_step_keeps_inv(m: UploadModel, e: UploadEventView, fresh_id: Seq<char>)
    requires
        upload_inv(m),
        accepts(m, e),
    ensures
        upload_inv(upload_step(m, e, fresh_id).0),
{
    let p = part_size();
    match e {
        UploadEventView::UploadCreated(u) => {
            if u is Some {
                let m2 = upload_step(m, e, fresh_id).0;
                assert(0 * p == 0) by (nonlinear_arith);
                assert(full_parts(Seq::<u8>::empty(), 0) =~= Seq::<Seq<u8>>::empty());
                assert(m2.received.skip(0) =~= m2.buffer);
            }
        },
        UploadEventView::Chunk(c) => {
            let k = m.sent.len() as int;
            let m1 = UploadModel { buffer: m.buffer + c, received: m.received + c, ..m };
            lemma_full_parts_extend(m.received, c, k);
            assert(m1.buffer =~= m1.received.skip(k * p));
            lemma_part_or_read(m1);
        },
        UploadEventView::NoMoreChunks => {
            let k = m.sent.len() as int;
            lemma_layout_full_parts(m.received, k);
            if m.buffer.len() > 0 {
                assert(part_layout(m.buffer) == seq![m.buffer]);
                assert(m.sent + seq![m.buffer] =~= m.sent.push(m.buffer));
            } else {
                assert(part_layout(m.buffer) == Seq::<Seq<u8>>::empty());
                assert(m.sent + Seq::<Seq<u8>>::empty() =~= m.sent);
            }
        },
        UploadEventView::PartUploaded(t) => {
            if let Some(tag) = t {
                let acknowledged = m.completed.push((m.next_part, tag));
                assert(numbered(acknowledged)) by {
                    assert forall|i: int| 0 <= i < acknowledged.len() implies (
                    #[trigger] acknowledged[i]).0 == i + 1 by {
                        if i < m.completed.len() {
                            assert(acknowledged[i] == m.completed[i]);
                        }
                    }
                }
                if m.phase == UploadPhase::AwaitingPart {
                    lemma_part_or_read(
                        UploadModel { completed: acknowledged, next_part: m.next_part + 1, ..m },
                    );
                }
            }
        },
        _ => {},
    }
}

/// When the upload is completed, the parts it is completed from are
/// numbered 1 to n, in order, and the bodies stored under them are exactly
/// the layout of the file: every byte of the file field, once, in order,
/// cut into 5 MiB parts however the field arrived in chunks.
pub proof fn lemma_completed_upload_holds_the_file(
    m: UploadModel,
    e: UploadEventView,
    fresh_id: Seq<char>,
)
    requires
        upload_inv(m),
        accepts(m, e),
        upload_step(m, e, fresh_id).1 is CompleteUpload,
    ensures
        ({
            let (m2, a) = upload_step(m, e, fresh_id);
            &&& a->CompleteUpload_parts.len() == part_layout(m2.received).len()
            &&& numbered(a->CompleteUpload_parts)
            &&& m2.sent == part_layout(m2.received)
            &&& m2.sent.flatten() == m2.received
        }),
{
    lemma_upload_step_keeps_inv(m, e, fresh_id);
    let m2 = upload_step(m, e, fresh_id).0;
    lemma_part_layout_reassembles(m2.received);
    match e {
        UploadEventView::PartUploaded(t) => {
            let tag = t->0;
            let acknowledged = m.completed.push((m.next_part, tag));
            assert forall|i: int| 0 <= i < acknowledged.len() implies (
            #[trigger] acknowledged[i]).0 == i + 1 by {
                if i < m.completed.len() {
                    assert(acknowledged[i] == m.completed[i]);
                }
            }
        },
        _ => {
            let k = m.sent.len() as int;
            lemma_layout_full_parts(m.received, k);
            assert(m.sent + Seq::<Seq<u8>>::empty() =~= m.sent);
        },
    }
}

/// An upload in progress: the handler's state between two steps.
pub struct UploadFlow {
    phase: UploadPhase,
    id: String,
    key: String,
    upload_id: String,
    buffer: Vec<u8>,
    next_part: i32,
    completed: Vec<CompletedPart>,
    received: Ghost<Seq<u8>>,
    sent: Ghost<Seq<Seq<u8>>>,
}

impl View for UploadFlow {
    type V = UploadModel;

    closed spec fn view(&self) -> UploadModel {
        UploadModel {
            phase: self.phase,
            id: self.id@,
            key: self.key@,
            upload_id: self.upload_id@,
            buffer: self.buffer@,
            next_part: self.next_part as int,
            completed: parts_view(self.completed@),
            received: self.received@,
            sent: self.sent@,
        }
    }
}

impl UploadFlow {
    /// An upload that has read nothing yet.
    pub fn new() -> (f: UploadFlow)
        ensures
            f@ == upload_start(),
            upload_inv(f@),
    {
        let f = UploadFlow {
            phase: UploadPhase::AwaitingField,
            id: String::new(),
            key: String::new(),
            upload_id: String::new(),
            buffer: Vec::new(),
            next_part: 1,
            completed: Vec::new(),
            received: Ghost(Seq::empty()),
            sent: Ghost(Seq::empty()),
        };
        assert(parts_view(f.completed@) =~= Seq::<(int, Seq<char>)>::empty());
        f
    }

    /// Where the upload stands.
    pub fn phase(&self) -> (p: UploadPhase)
        ensures
            p == self@.phase,
    {
        self.phase
    }

    /// Whether the upload expects `event` now.
    pub fn accepts(&self, event: &UploadEvent) -> (b: bool)
        ensures
            b == accepts(self@, event@),
    {
        match self.phase {
            UploadPhase::AwaitingField => matches!(
                event,
                UploadEvent::Field(_) | UploadEvent::NoMoreFields | UploadEvent::FieldError(_)
            ),
            UploadPhase::AwaitingUploadId => matches!(
                event,
                UploadEvent::UploadCreated(_) | UploadEvent::S3Failed(_)
            ),
            UploadPhase::Streaming => match event {
                UploadEvent::Chunk(c) => c.len() <= usize::MAX - S3_PART_MIN_BYTES,
                UploadEvent::NoMoreChunks => true,
                UploadEvent::ChunkError(_) => true,
                _ => false,
            },
            UploadPhase::AwaitingPart => match event {
                UploadEvent::PartUploaded(t) => t.is_none() || self.next_part < i32::MAX,
                UploadEvent::S3Failed(_) => true,
                _ => false,
            },
            UploadPhase::AwaitingFinalPart => matches!(
                event,
                UploadEvent::PartUploaded(_) | UploadEvent::S3Failed(_)
            ),
            UploadPhase::AwaitingComplete | UploadPhase::AwaitingStatus
            | UploadPhase::AwaitingQueueMarker => matches!(
                event,
                UploadEvent::Stored | UploadEvent::S3Failed(_)
            ),
            UploadPhase::Finished => false,
        }
    }

    /// Stop with this answer.
    fn finish(&mut self, answer: Result<UploadSuccess, AppError>) -> (a: UploadAction)
        ensures
            (final(self)@, a@) == finish(
                old(self)@,
                match answer {
                    Ok(s) => Ok((s.id@, s.key@)),
                    Err(e) => Err(e@),
                },
            ),
    {
        self.phase = UploadPhase::Finished;
        UploadAction::Respond(answer)
    }

    /// Stop with an object-storage error whose message is `prefix + msg`.
    fn fail_with(&mut self, prefix: &str, msg: &str) -> (a: UploadAction)
        ensures
            (final(self)@, a@) == finish(old(self)@, Err(ErrorView::S3(prefix@ + msg@))),
    {
        let mut m = owned(prefix);
        m.append(msg);
        self.finish(Err(AppError::S3(m)))
    }

    /// Hand out a full part if the buffer holds one, else read on.
    fn part_or_read(&mut self) -> (a: UploadAction)
        ensures
            (final(self)@, a@) == part_or_read(old(self)@),
    {
        if self.buffer.len() >= S3_PART_MIN_BYTES {
            let mut body = self.buffer.split_off(S3_PART_MIN_BYTES);
            core::mem::swap(&mut body, &mut self.buffer);
            self.sent = Ghost(self.sent@.push(body@));
            self.phase = UploadPhase::AwaitingPart;
            UploadAction::UploadPart {
                key: self.key.clone(),
                upload_id: self.upload_id.clone(),
                part_number: self.next_part,
                body,
            }
        } else {
            self.phase = UploadPhase::Streaming;
            UploadAction::ReadChunk
        }
    }

    /// Complete the upload with the parts acknowledged so far.
    fn complete(&mut self) -> (a: UploadAction)
        ensures
            (final(self)@, a@) == complete(old(self)@),
    {
        let mut parts: Vec<CompletedPart> = Vec::new();
        core::mem::swap(&mut parts, &mut self.completed);
        self.phase = UploadPhase::AwaitingComplete;
        assert(parts_view(self.completed@) =~= Seq::<(int, Seq<char>)>::empty());
        UploadAction::CompleteUpload {
            key: self.key.clone(),
            upload_id: self.upload_id.clone(),
            parts,
        }
    }

    /// One step, with `fresh_id` as the id the video gets if `event` is
    /// its file field.
    pub fn step_with_id(&mut self, event: UploadEvent, fresh_id: String) -> (action: UploadAction)
        requires
            upload_inv(old(self)@),
            accepts(old(self)@, event@),
        ensures
            upload_inv(final(self)@),
            (final(self)@, action@) == upload_step(old(self)@, event@, fresh_id@),
    {
        proof {
            lemma_upload_step_keeps_inv(self@, event@, fresh_id@);
        }
        match event {
            UploadEvent::Field(name) => {
                let is_file = match &name {
                    Some(n) => str_eq(n.as_str(), "file"),
                    None => false,
                };
                if is_file {
                    let key = raw_upload_key(fresh_id.as_str());
                    self.phase = UploadPhase::AwaitingUploadId;
                    self.id = fresh_id;
                    self.key = key.clone();
                    UploadAction::CreateUpload { key }
                } else {
                    UploadAction::ReadField
                }
            },
            UploadEvent::NoMoreFields => self.finish(Err(AppError::MissingFile)),
            UploadEvent::FieldError(msg) => self.fail_with("multipart error: ", msg.as_str()),
            UploadEvent::UploadCreated(upload_id) => match upload_id {
                Some(u) => {
                    self.phase = UploadPhase::Streaming;
                    self.upload_id = u;
                    self.buffer = Vec::new();
                    self.next_part = 1;
                    self.completed = Vec::new();
                    self.received = Ghost(Seq::empty());
                    self.sent = Ghost(Seq::empty());
                    assert(parts_view(self.completed@) =~= Seq::<(int, Seq<char>)>::empty());
                    UploadAction::ReadChunk
                },
                None => self.finish(Err(AppError::S3(owned("missing upload_id")))),
            },
            UploadEvent::Chunk(chunk) => {
                let mut chunk = chunk;
                self.received = Ghost(self.received@ + chunk@);
                self.buffer.append(&mut chunk);
                self.part_or_read()
            },
            UploadEvent::NoMoreChunks => {
                if self.buffer.len() > 0 {
                    let mut body: Vec<u8> = Vec::new();
                    core::mem::swap(&mut body, &mut self.buffer);
                    self.sent = Ghost(self.sent@.push(body@));
                    self.phase = UploadPhase::AwaitingFinalPart;
                    UploadAction::UploadPart {
                        key: self.key.clone(),
                        upload_id: self.upload_id.clone(),
                        part_number: self.next_part,
                        body,
                    }
                } else {
                    self.complete()
                }
            },
            UploadEvent::ChunkError(msg) => self.fail_with("stream error: ", msg.as_str()),
            UploadEvent::PartUploaded(e_tag) => match e_tag {
                Some(t) => {
                    let ghost before = parts_view(self.completed@);
                    let ghost tv = t@;
                    self.completed.push(CompletedPart { part_number: self.next_part, e_tag: t });
                    assert(parts_view(self.completed@) =~= before.push(
                        (self.next_part as int, tv),
                    ));
                    if self.phase == UploadPhase::AwaitingFinalPart {
                        self.complete()
                    } else {
                        self.next_part = self.next_part + 1;
                        self.part_or_read()
                    }
                },
                None => self.finish(Err(AppError::S3(owned("upload_part missing etag")))),
            },
            UploadEvent::Stored => {
                if self.phase == UploadPhase::AwaitingComplete {
                    self.phase = UploadPhase::AwaitingStatus;
                    UploadAction::PutStatus {
                        key: status_key(self.id.as_str()),
                        status: TranscodeStatus::Pending,
                    }
                } else if self.phase == UploadPhase::AwaitingStatus {
                    self.phase = UploadPhase::AwaitingQueueMarker;
                    UploadAction::PutQueueMarker { key: queue_key(self.id.as_str()) }
                } else {
                    let done = UploadSuccess { id: self.id.clone(), key: self.key.clone() };
                    self.finish(Ok(done))
                }
            },
            UploadEvent::S3Failed(msg) => self.finish(Err(AppError::S3(msg))),
        }
    }

    /// One step: the next state and what to do, given what happened. When
    /// the file field is found, the video gets a fresh random id.
    pub fn step(&mut self, event: UploadEvent) -> (action: UploadAction)
        requires
            upload_inv(old(self)@),
            accepts(old(self)@, event@),
        ensures
            upload_inv(final(self)@),
            (final(self)@, action@) == upload_step(old(self)@, event@, final(self)@.id),
            old(self)@.phase == UploadPhase::AwaitingField && final(self)@.phase
                == UploadPhase::AwaitingUploadId ==> is_v4_uuid_text(final(self)@.id),
    {
        let opens = match &event {
            UploadEvent::Field(Some(n)) => str_eq(n.as_str(), "file"),
            _ => false,
        };
        if opens {
            let id = new_video_id();
            self.step_with_id(event, id)
        } else {
            self.step_with_id(event, String::new())
        }
    }
}

} // verus!

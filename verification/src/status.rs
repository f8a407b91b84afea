//! The transcode status of a video, as stored in `videos/<id>/status.json`.

use vstd::prelude::*;
use crate::text::{owned, views};

verus! {

/// Where a video stands in the transcode pipeline.
pub enum TranscodeStatus {
    /// Uploaded and queued, not yet picked up by a worker.
    Pending,
    /// A worker has claimed the job.
    Processing,
    /// Renditions are available, with these quality names.
    Done(Vec<String>),
    /// Transcoding failed with this message.
    Error(String),
}

/// The status as plain values.
pub enum StatusView {
    Pending,
    Processing,
    Done(Seq<Seq<char>>),
    Error(Seq<char>),
}

impl View for TranscodeStatus {
    type V = StatusView;

    open spec fn view(&self) -> StatusView {
        match self {
            TranscodeStatus::Pending => StatusView::Pending,
            TranscodeStatus::Processing => StatusView::Processing,
            TranscodeStatus::Done(q) => StatusView::Done(views(q@)),
            TranscodeStatus::Error(m) => StatusView::Error(m@),
        }
    }
}

/// The `status` field of a status document.
pub open spec fn status_name(s: StatusView) -> Seq<char> {
    match s {
        StatusView::Pending => "pending"@,
        StatusView::Processing => "processing"@,
        StatusView::Done(_) => "done"@,
        StatusView::Error(_) => "error"@,
    }
}

/// The fields of a status document: `status`, then `qualities` for a done
/// video and `error` for a failed one.
pub struct StatusDocument {
    pub status: String,
    pub qualities: Option<Vec<String>>,
    pub error: Option<String>,
}

/// The fields of the status document that records `s`.
pub fn status_document(s: TranscodeStatus) -> (d: StatusDocument)
    ensures
        d.status@ == status_name(s@),
        match s@ {
            StatusView::Done(q) => d.qualities matches Some(v) && views(v@) == q,
            _ => d.qualities is None,
        },
        match s@ {
            StatusView::Error(m) => d.error matches Some(e) && e@ == m,
            _ => d.error is None,
        },
{
    match s {
        TranscodeStatus::Pending => StatusDocument {
            status: owned("pending"),
            qualities: None,
            error: None,
        },
        TranscodeStatus::Processing => StatusDocument {
            status: owned("processing"),
            qualities: None,
            error: None,
        },
        TranscodeStatus::Done(q) => StatusDocument {
            status: owned("done"),
            qualities: Some(q),
            error: None,
        },
        TranscodeStatus::Error(m) => StatusDocument {
            status: owned("error"),
            qualities: None,
            error: Some(m),
        },
    }
}

/// A status document names one of the four states; it lists qualities
/// exactly when the video is done and carries an error exactly when it
/// failed.
pub proof fn lemma_status_document_shape(s: StatusView)
    ensures
        status_name(s) == "pending"@ || status_name(s) == "processing"@ || status_name(s)
            == "done"@ || status_name(s) == "error"@,
        s is Done <==> status_name(s) == "done"@,
        s is Error <==> status_name(s) == "error"@,
{
    reveal_strlit("pending");
    reveal_strlit("processing");
    reveal_strlit("done");
    reveal_strlit("error");
    assert("done"@[0] == 'd' && "error"@[0] == 'e' && "pending"@[0] == 'p' && "processing"@[0]
        == 'p');
}

} // verus!

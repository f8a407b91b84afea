//! The playback endpoints: a presigned URL of the raw upload, the
//! transcode status, and the URL of a rendition.

use vstd::prelude::*;
use crate::error::{AppError, ErrorView};
use crate::keys::{quality_url, quality_url_of, raw_key_of, raw_upload_key};
use crate::text::owned;
use crate::presign::{presign_get, PresignedGet};

verus! {

/// Seconds for which a presigned URL of a raw upload stays valid: one hour.
pub const PRESIGN_TTL_SECS: u64 = 3600;

/// The request behind `GET /api/video/:id`: a GET of the raw upload
/// `uploads/<id>.orig`, presigned for [`PRESIGN_TTL_SECS`]. The answer is
/// the presigned URL, an immediate fallback while transcoding runs.
pub fn video_url(id: &str) -> (r: Result<PresignedGet, AppError>)
    ensures
        r matches Ok(g) && g@.0 == raw_key_of(id@) && g@.1 == PRESIGN_TTL_SECS,
{
    let key = raw_upload_key(id);
    match presign_get(key, PRESIGN_TTL_SECS) {
        Ok(g) => Ok(g),
        Err(message) => Err(AppError::S3(message)),
    }
}

/// The answer of `GET /api/video/:id`, `GET /api/video/:id/:quality`.
pub struct VideoUrlResponse {
    pub url: String,
}

/// How fetching `videos/<id>/status.json` went.
pub enum StatusFetch {
    /// The document was read, with these bytes.
    Found(Vec<u8>),
    /// There is no such object: the video is unknown or not yet queued.
    NoSuchKey,
    /// The fetch or the read failed, with this message.
    Failed(String),
}

/// A JSON answer: status code, content type and body bytes.
pub struct JsonBody {
    pub status: u16,
    pub content_type: String,
    pub body: Vec<u8>,
}

/// The answer of `GET /api/video/:id/status`: the stored status document
/// verbatim as JSON, `404` when there is none, or the storage error.
pub fn video_status(fetch: StatusFetch) -> (r: Result<JsonBody, AppError>)
    ensures
        match fetch {
            StatusFetch::Found(bytes) => r matches Ok(b) && b.status == 200 && b.content_type@
                == "application/json"@ && b.body@ == bytes@,
            StatusFetch::NoSuchKey => r matches Err(e) && e@ == ErrorView::NotFound,
            StatusFetch::Failed(m) => r matches Err(e) && e@ == ErrorView::S3(m@),
        },
{
    match fetch {
        StatusFetch::Found(bytes) => Ok(
            JsonBody { status: 200, content_type: owned("application/json"), body: bytes },
        ),
        StatusFetch::NoSuchKey => Err(AppError::NotFound),
        StatusFetch::Failed(m) => Err(AppError::S3(m)),
    }
}

/// The answer of `GET /api/video/:id/:quality`: the CDN URL of the
/// rendition, `https://<domain>/videos/<id>/<quality>.mp4`. The CDN has
/// access to the private bucket and the unguessable id guards the URL, so
/// nothing is presigned.
pub fn video_quality_url(domain: &str, id: &str, quality: &str) -> (r: VideoUrlResponse)
    ensures
        r.url@ == quality_url_of(domain@, id@, quality@),
{
    VideoUrlResponse { url: quality_url(domain, id, quality) }
}

} // verus!

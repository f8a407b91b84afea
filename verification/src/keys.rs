//! The object keys and URLs under which videos, statuses and queue markers
//! live. The backend writes and reads them and the worker reads and writes
//! them, so both sides go through these functions.

use vstd::prelude::*;
use crate::text::{owned, concat3, strip_prefix, without_prefix};

verus! {

/// Key of a raw upload in the raw bucket: `uploads/<id>.orig`.
pub open spec fn raw_key_of(id: Seq<char>) -> Seq<char> {
    "uploads/"@ + id + ".orig"@
}

/// Key of the queue marker of a video in the raw bucket: `queue/<id>`.
pub open spec fn queue_key_of(id: Seq<char>) -> Seq<char> {
    "queue/"@ + id
}

/// Prefix under which the renditions and status of a video live in the
/// video bucket: `videos/<id>/`.
pub open spec fn video_prefix_of(id: Seq<char>) -> Seq<char> {
    "videos/"@ + id + "/"@
}

/// Key of the status document of a video: `videos/<id>/status.json`.
pub open spec fn status_key_of(id: Seq<char>) -> Seq<char> {
    video_prefix_of(id) + "status.json"@
}

/// Key of a rendition: `videos/<id>/<quality>.mp4`.
pub open spec fn rendition_key_of(id: Seq<char>, quality: Seq<char>) -> Seq<char> {
    video_prefix_of(id) + quality + ".mp4"@
}

/// An S3 URI: `s3://<bucket>/<key>`.
pub open spec fn s3_uri_of(bucket: Seq<char>, key: Seq<char>) -> Seq<char> {
    "s3://"@ + bucket + "/"@ + key
}

/// Public URL of a rendition: `https://<domain>/videos/<id>/<quality>.mp4`.
pub open spec fn quality_url_of(domain: Seq<char>, id: Seq<char>, quality: Seq<char>) -> Seq<char> {
    "https://"@ + domain + "/"@ + rendition_key_of(id, quality)
}

/// The video id that a queue marker key names, if the key is a marker.
pub open spec fn job_id_of(queue_key: Seq<char>) -> Option<Seq<char>> {
    match without_prefix(queue_key, "queue/"@) {
        Some(id) => if id.len() > 0 { Some(id) } else { None },
        None => None,
    }
}

/// The prefix under which queue markers live: `queue/`.
pub fn queue_prefix() -> (p: String)
    ensures
        p@ == "queue/"@,
{
    owned("queue/")
}

/// `uploads/<id>.orig`.
pub fn raw_upload_key(id: &str) -> (k: String)
    ensures
        k@ == raw_key_of(id@),
{
    concat3("uploads/", id, ".orig")
}

/// `queue/<id>`.
pub fn queue_key(id: &str) -> (k: String)
    ensures
        k@ == queue_key_of(id@),
{
    let mut k = owned("queue/");
    k.append(id);
    k
}

/// `videos/<id>/`.
pub fn video_prefix(id: &str) -> (k: String)
    ensures
        k@ == video_prefix_of(id@),
{
    concat3("videos/", id, "/")
}

/// `videos/<id>/status.json`.
pub fn status_key(id: &str) -> (k: String)
    ensures
        k@ == status_key_of(id@),
{
    let mut k = video_prefix(id);
    k.append("status.json");
    k
}

/// `s3://<bucket>/<key>`.
pub fn s3_uri(bucket: &str, key: &str) -> (u: String)
    ensures
        u@ == s3_uri_of(bucket@, key@),
{
    let mut u = concat3("s3://", bucket, "/");
    u.append(key);
    u
}

/// `https://<domain>/videos/<id>/<quality>.mp4`.
pub fn quality_url(domain: &str, id: &str, quality: &str) -> (u: String)
    ensures
        u@ == quality_url_of(domain@, id@, quality@),
{
    let mut u = concat3("https://", domain, "/");
    u.append("videos/");
    u.append(id);
    u.append("/");
    u.append(quality);
    u.append(".mp4");
    assert(u@ =~= quality_url_of(domain@, id@, quality@));
    u
}

/// The video id named by a queue marker key: the key without its `queue/`
/// prefix, or `None` when the key lacks the prefix or nothing follows it.
pub fn job_id_from_queue_key(key: &str) -> (id: Option<String>)
    ensures
        id matches Some(x) ==> job_id_of(key@) == Some(x@),
        id is None <==> job_id_of(key@) is None,
{
    match strip_prefix(key, "queue/") {
        Some(rest) => {
            if rest.as_str().unicode_len() > 0 {
                Some(rest)
            } else {
                None
            }
        },
        None => None,
    }
}

/// A video id read back from its queue marker is the id the marker was
/// written for, for every non-empty id.
pub proof fn lemma_queue_key_round_trip(id: Seq<char>)
    requires
        id.len() > 0,
    ensures
        job_id_of(queue_key_of(id)) == Some(id),
{
    let k = queue_key_of(id);
    assert(k.subrange(0, "queue/"@.len() as int) =~= "queue/"@);
    assert(k.skip("queue/"@.len() as int) =~= id);
}

} // verus!

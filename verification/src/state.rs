//! Shared state of the API handlers.

use vstd::prelude::*;

verus! {

/// The S3 client of the AWS SDK.
#[verifier::external_type_specification]
#[verifier::external_body]
pub struct ExS3Client(aws_sdk_s3::Client);

/// What every handler of the API shares: the object storage client and
/// where things live. Handlers share it behind an `Arc`.
pub struct AppState {
    pub s3: aws_sdk_s3::Client,
    /// Bucket of raw uploads and queue markers.
    pub raw_bucket: String,
    /// Bucket of renditions and status documents.
    pub video_bucket: String,
    /// Domain of the CDN that serves the video bucket.
    pub cloudfront_domain: String,
}

impl AppState {
    /// The bucket of raw uploads.
    pub fn raw_bucket(&self) -> (b: &str)
        ensures
            b@ == self.raw_bucket@,
    {
        self.raw_bucket.as_str()
    }

    /// The bucket of renditions and status documents.
    pub fn video_bucket(&self) -> (b: &str)
        ensures
            b@ == self.video_bucket@,
    {
        self.video_bucket.as_str()
    }

    /// The bucket uploads are written to: the raw bucket.
    pub fn bucket(&self) -> (b: &str)
        ensures
            b@ == self.raw_bucket@,
    {
        self.raw_bucket.as_str()
    }

    /// The domain of the CDN that serves the renditions.
    pub fn cloudfront_domain(&self) -> (d: &str)
        ensures
            d@ == self.cloudfront_domain@,
    {
        self.cloudfront_domain.as_str()
    }
}

} // verus!

//! Presigned GETs. A [`PresignedGet`] can only be made by [`presign_get`],
//! so the presigning configuration it carries and the validity it reports
//! come from one call of the SDK and cannot disagree.

use vstd::prelude::*;
use aws_sdk_s3::presigning::PresigningConfig;

verus! {

/// The longest validity a presigned URL may have: one week.
pub const MAX_PRESIGN_SECS: u64 = 604800;

/// The presigning configuration of the AWS SDK.
#[verifier::external_type_specification]
#[verifier::external_body]
pub struct ExPresigningConfig(aws_sdk_s3::presigning::PresigningConfig);

/// A GET of an object to presign: its key, and a presigning configuration
/// together with the number of seconds for which it keeps the URL valid.
pub struct PresignedGet {
    key: String,
    config: PresigningConfig,
    expires_secs: u64,
}

impl View for PresignedGet {
    /// The key and the validity in seconds.
    type V = (Seq<char>, u64);

    closed spec fn view(&self) -> (Seq<char>, u64) {
        (self.key@, self.expires_secs)
    }
}

impl PresignedGet {
    /// The key of the object.
    pub fn key(&self) -> (r: &str)
        ensures
            r@ == self@.0,
    {
        self.key.as_str()
    }

    /// How many seconds the configuration keeps the URL valid.
    pub fn expires_secs(&self) -> (r: u64)
        ensures
            r == self@.1,
    {
        self.expires_secs
    }

    /// The key and the configuration, to hand to the signer.
    pub fn into_parts(self) -> (r: (String, PresigningConfig))
        ensures
            r.0@ == self@.0,
    {
        (self.key, self.config)
    }
}

/// A GET of `key` presigned for `secs` seconds from now, or the SDK's
/// error message.
///
/// Trusted: calls `aws_sdk_s3::presigning::PresigningConfig::expires_in`,
/// which refuses a duration longer than one week and otherwise succeeds,
/// and reads the duration back with `PresigningConfig::expires`, which
/// returns the duration the configuration was built with. The start time
/// the configuration takes from the clock, and the text of the error
/// message, are not stated.
#[verifier::external_body]
pub(crate) fn presign_get(key: String, secs: u64) -> (r: Result<PresignedGet, String>)
    ensures
        r is Ok <==> secs <= MAX_PRESIGN_SECS,
        r matches Ok(g) ==> g@ == (key@, secs),
{
    match PresigningConfig::expires_in(std::time::Duration::from_secs(secs)) {
        Ok(config) => {
            let expires_secs = config.expires().as_secs();
            Ok(PresignedGet { key, config, expires_secs })
        },
        Err(e) => Err(e.to_string()),
    }
}

} // verus!

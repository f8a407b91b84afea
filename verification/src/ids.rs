//! Fresh video ids.

use vstd::prelude::*;

verus! {

/// A lowercase hexadecimal digit.
pub open spec fn is_lower_hex(c: char) -> bool {
    ('0' <= c && c <= '9') || ('a' <= c && c <= 'f')
}

/// The hyphenated lowercase text of a version-4 (random) UUID, such as
/// `9b2f6c1e-3d4a-4f7b-8c2d-0e1f2a3b4c5d`: 32 hex digits in groups of 8, 4,
/// 4, 4 and 12, version digit `4`, variant digit one of `8`, `9`, `a`, `b`.
pub open spec fn is_v4_uuid_text(s: Seq<char>) -> bool {
    &&& s.len() == 36
    &&& forall|i: int|
        0 <= i < 36 ==> if i == 8 || i == 13 || i == 18 || i == 23 {
            #[trigger] s[i] == '-'
        } else {
            is_lower_hex(s[i])
        }
    &&& s[14] == '4'
    &&& (s[19] == '8' || s[19] == '9' || s[19] == 'a' || s[19] == 'b')
}

/// A fresh random video id.
///
/// Trusted: calls `uuid::Uuid::new_v4` and formats the result with its
/// `Display` impl, which writes the hyphenated lowercase form. The contract
/// claims only the shape of that text (version 4, RFC 9562 variant), which
/// holds of every random outcome; which id comes back is left open.
#[verifier::external_body]
pub(crate) fn new_video_id() -> (id: String)
    ensures
        is_v4_uuid_text(id@),
{
    uuid::Uuid::new_v4().to_string()
}

} // verus!

//! Identifiers for queued runs.

use vstd::prelude::*;

verus! {

/// A lowercase hexadecimal digit.
pub open spec fn is_lower_hex(c: char) -> bool {
    ('0' <= c && c <= '9') || ('a' <= c && c <= 'f')
}

/// The hyphenated lowercase text of a version-4 UUID: 36 characters, hyphens
/// at 8, 13, 18 and 23, the version digit `4` at 14, one of `8`, `9`, `a`,
/// `b` at 19, lowercase hex digits elsewhere.
pub open spec fn is_uuid_v4_text(s: Seq<char>) -> bool {
    &&& s.len() == 36
    &&& forall|i: int|
        0 <= i < 36 ==> if i == 8 || i == 13 || i == 18 || i == 23 {
            #[trigger] s[i] == '-'
        } else {
            is_lower_hex(s[i])
        }
    &&& s[14] == '4'
    &&& (s[19] == '8' || s[19] == '9' || s[19] == 'a' || s[19] == 'b')
}

/// A fresh random identifier: `uuid::Uuid::new_v4().to_string()`.
///
/// The value is random; the claim is only its shape: `new_v4` fixes the
/// version and variant bits, and `Display` writes the hyphenated lowercase
/// form.
#[verifier::external_body]
pub(crate) fn new_job_id() -> (r: String)
    ensures
        is_uuid_v4_text(r@),
{
    uuid::Uuid::new_v4().to_string()
}

} // verus!

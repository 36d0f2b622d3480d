//! Wall-clock timestamps.

use vstd::prelude::*;

verus! {

/// An RFC 3339 time at UTC as chrono writes it: date, `T`, time, then the
/// offset `+00:00`, at least 25 characters in all.
pub open spec fn is_utc_rfc3339_text(s: Seq<char>) -> bool {
    &&& s.len() >= 25
    &&& s.subrange(s.len() - 6, s.len() as int) == "+00:00"@
}

/// The current UTC time in RFC 3339 form, from `chrono::Utc::now().to_rfc3339()`.
///
/// The time depends on the clock, so only the form is stated: chrono writes
/// the date and time, then the zero offset as `+00:00`.
#[verifier::external_body]
pub(crate) fn utc_now_rfc3339() -> (r: String)
    ensures
        is_utc_rfc3339_text(r@),
{
    chrono::Utc::now().to_rfc3339()
}

} // verus!

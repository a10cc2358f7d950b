use vstd::prelude::*;

verus! {

/// Whether a timestamp ends in the UTC offset `+00:00`.
pub open spec fn ends_in_utc_offset(s: Seq<char>) -> bool {
    s.len() >= 6 && s.subrange(s.len() - 6, s.len() as int) == seq!['+', '0', '0', ':', '0', '0']
}

/// Relies on chrono's `Utc::now` and `DateTime::to_rfc3339`: the current UTC
/// time as an RFC 3339 string. The time itself depends on the moment of the
/// call; the offset is UTC's, which `to_rfc3339` writes as `+00:00`.
#[verifier::external_body]
pub(crate) fn current_timestamp() -> (r: String)
    ensures
        ends_in_utc_offset(r@),
{
    chrono::Utc::now().to_rfc3339()
}

} // verus!

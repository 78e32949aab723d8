//! The current time, through `chrono`.
use vstd::prelude::*;

verus! {

/// The coarse shape every timestamp of this clock has: a date part and a
/// time part joined by `T`, closed by the UTC offset. The full RFC 3339
/// grammar is `chrono`'s; only what holds of every outcome is stated.
pub open spec fn rfc3339_utc_shaped(s: Seq<char>) -> bool {
    &&& s.len() >= 25
    &&& s.contains('T')
    &&& s.contains('-')
    &&& s.contains(':')
    &&& s.skip(s.len() - 6) == seq!['+', '0', '0', ':', '0', '0']
}

/// Relies on `chrono::Utc::now` and `DateTime::to_rfc3339`: the current
/// instant in RFC 3339 form, with the UTC offset written `+00:00`. The
/// result depends on the moment of the call, so only its shape is stated;
/// the transformation takes the timestamp as an argument and is verified
/// for every value of it.
#[verifier::external_body]
pub fn now_rfc3339() -> (r: String)
    ensures
        rfc3339_utc_shaped(r@),
{
    chrono::Utc::now().to_rfc3339()
}

} // verus!

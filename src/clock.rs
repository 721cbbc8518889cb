use vstd::prelude::*;

verus! {

/// Text in the shape of an RFC 3339 date and time: not empty, and free of
/// spaces and line breaks, so that it ends at the first space of a log
/// entry.
pub open spec fn is_timestamp_text(t: Seq<char>) -> bool {
    &&& t.len() > 0
    &&& !t.contains(' ')
    &&& !t.contains('\n')
}

/// Relies on `chrono::Utc::now` for the current time in UTC, and on
/// `chrono::DateTime::to_rfc3339`, which writes it as the date, `T`, the
/// time with an optional fraction, and the offset, using only digits and
/// the characters `-`, `+`, `T`, `:` and `.`.
#[verifier::external_body]
pub(crate) fn now_rfc3339() -> (r: String)
    ensures
        is_timestamp_text(r@),
{
    chrono::Utc::now().to_rfc3339()
}

} // verus!

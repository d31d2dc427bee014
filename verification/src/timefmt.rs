//! Timestamp rendering, done by chrono behind trusted wrappers.

use vstd::prelude::*;

verus! {

/// The seconds chrono can turn into a date: `DateTime::from_timestamp`
/// accepts exactly the timestamps from the first representable day
/// (year -262143) through the last second of the last one (year 262142).
pub open spec fn in_timestamp_range(secs: i64) -> bool {
    -8334601228800 <= secs <= 8210266876799
}

/// What chrono's `%m/%d/%Y %l:%M:%S%p` format shows for a timestamp.
pub uninterp spec fn queue_time_text(secs: i64) -> Seq<char>;

/// Relies on chrono's `DateTime::from_timestamp` and `DateTime::format`:
/// `from_timestamp(secs, 0)` is `Some` exactly for seconds within the
/// representable date range, and the formatted text is a function of the
/// seconds alone.
#[verifier::external_body]
pub(crate) fn format_queue_time(secs: i64) -> (r: Option<String>)
    ensures
        r is Some <==> in_timestamp_range(secs),
        r matches Some(s) ==> s@ == queue_time_text(secs),
{
    match chrono::DateTime::from_timestamp(secs, 0) {
        Some(t) => Some(t.format("%m/%d/%Y %l:%M:%S%p").to_string()),
        None => None,
    }
}

/// What the `Display` of a `DateTime<Utc>` shows for a timestamp, with the
/// epoch standing in for seconds outside the representable range.
pub uninterp spec fn utc_time_text(secs: i64) -> Seq<char>;

/// Relies on chrono's `DateTime::from_timestamp` and the `Display` of
/// `DateTime<Utc>`: the text is a function of the seconds alone, the
/// default (the epoch) standing in where the seconds are out of range.
#[verifier::external_body]
pub(crate) fn utc_time_string(secs: i64) -> (r: String)
    ensures
        r@ == utc_time_text(secs),
{
    chrono::DateTime::from_timestamp(secs, 0).unwrap_or_default().to_string()
}

/// Relies on chrono's `Utc::now`: the clock reads a time at or after the
/// epoch, and every `DateTime` carries a representable timestamp.
#[verifier::external_body]
pub(crate) fn now_secs() -> (r: i64)
    ensures
        0 <= r,
        in_timestamp_range(r),
{
    chrono::Utc::now().timestamp()
}

} // verus!

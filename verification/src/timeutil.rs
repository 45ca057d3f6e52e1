//! Clock access and timestamp rendering, through chrono.

use vstd::prelude::*;

verus! {

/// The text chrono renders for a Unix timestamp under the fixed format
/// `%Y-%m-%d %H:%M UTC`: a function of the timestamp alone (UTC offset,
/// numeric fields, no locale).
pub uninterp spec fn timestamp_text_of(t: int) -> Seq<char>;

/// Relies on chrono's `DateTime::from_timestamp` and `format`: renders a Unix
/// timestamp as `%Y-%m-%d %H:%M UTC` text. A timestamp chrono cannot
/// represent renders as empty text.
#[verifier::external_body]
pub fn render_timestamp(t: i64) -> (r: String)
    ensures
        r@ == timestamp_text_of(t as int),
{
    match chrono::DateTime::<chrono::Utc>::from_timestamp(t, 0) {
        Some(d) => d.format("%Y-%m-%d %H:%M UTC").to_string(),
        None => String::new(),
    }
}

/// Relies on chrono's `Utc::now` and `timestamp`: the current Unix timestamp
/// in seconds. Nothing is assumed of the value.
#[verifier::external_body]
pub fn now_unix() -> i64 {
    chrono::Utc::now().timestamp()
}

/// Relies on chrono's `Utc::now` and `to_rfc3339`: the current time as
/// RFC 3339 text. Nothing is assumed of the value.
#[verifier::external_body]
pub fn now_rfc3339() -> String {
    chrono::Utc::now().to_rfc3339()
}

} // verus!

//! Trusted boundary to the outside calendar library for timestamp display.

use vstd::prelude::*;

use chrono::LocalResult;
use chrono::TimeZone;
use chrono::Utc;

verus! {

/// The RFC 2822 rendering of a UNIX timestamp in UTC. It depends on the
/// timestamp alone, so it is given a name rather than written out.
pub uninterp spec fn spec_rfc2822(ts: u32) -> Seq<char>;

/// Relies on `chrono::TimeZone::timestamp_opt` and `DateTime::to_rfc2822`:
/// renders a timestamp in UTC, which depends on the value alone.
#[verifier::external_body]
pub fn utc_rfc2822(ts: u32) -> (r: String)
    ensures
        r@ == spec_rfc2822(ts),
{
    match Utc.timestamp_opt(ts as i64, 0) {
        LocalResult::Single(val) => val.to_rfc2822(),
        LocalResult::Ambiguous(val, _) => val.to_rfc2822(),
        LocalResult::None => "None".to_string(),
    }
}

} // verus!

//! Clocks that disagree.
use vstd::prelude::*;

verus! {

/// The skew above which the clocks are said to differ significantly, in seconds.
pub const SIGNIFICANT_SKEW_SECS: u64 = 300;

/// The time that `chrono::DateTime::parse_from_rfc2822` reads from `s`, in seconds since the
/// epoch; `None` if `s` is not a date of that form.
pub uninterp spec fn rfc2822_seconds(s: Seq<char>) -> Option<i64>;

/// `chrono::DateTime::parse_from_rfc2822` and the parsed time's `timestamp`. The result
/// depends on `s` alone; the contract says no more than that.
#[verifier::external_body]
pub(crate) fn parse_rfc2822(s: &str) -> (r: Option<i64>)
    ensures
        r == rfc2822_seconds(s@),
{
    chrono::DateTime::parse_from_rfc2822(s).ok().map(|time| time.timestamp())
}

/// How far two times are apart.
pub open spec fn skew(server: int, local: int) -> int {
    if server >= local {
        server - local
    } else {
        local - server
    }
}

/// How far two times are apart.
pub fn clock_skew(server: i64, local: i64) -> (r: u64)
    ensures
        r == skew(server as int, local as int),
{
    if server >= local {
        (server as i128 - local as i128) as u64
    } else {
        (local as i128 - server as i128) as u64
    }
}

/// The skew is what has to be added to the earlier time to get the later one.
pub proof fn law_skew(server: int, local: int)
    ensures
        skew(server, local) >= 0,
        skew(server, local) == skew(local, server),
        server + skew(server, local) == local || local + skew(server, local) == server,
{
}

} // verus!

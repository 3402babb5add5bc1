//! The two readings of the environment the board needs — the current instant
//! and the local timezone offset — obtained through chrono and trusted at
//! this boundary.  Everything computed from them is verified: whatever
//! instant the clock yields, [`build_display_lines`] returns its exact
//! transform.

use vstd::prelude::*;
use crate::model::{DeparturesResponse, TS_BOUND};
use crate::transform::{groups_match, stations_wf, transform, StationGroup};

verus! {

/// Relies on `chrono::Utc::now` and `chrono::DateTime::timestamp`: the
/// current instant as Unix seconds.  A chrono `DateTime` lies within about
/// 262000 years of the epoch, so the reading lies within [`TS_BOUND`];
/// nothing more can be promised of a clock.
#[verifier::external_body]
fn now_unix() -> (r: i64)
    ensures
        -TS_BOUND <= r <= TS_BOUND,
{
    chrono::Utc::now().timestamp()
}

/// Relies on `chrono::Local::now` and `chrono::FixedOffset::local_minus_utc`:
/// the local timezone's offset from UTC in seconds.  chrono's `FixedOffset`
/// keeps its seconds strictly within one day; nothing more holds of an
/// environment reading.
#[verifier::external_body]
fn local_offset_secs() -> (r: i32)
    ensures
        -86400 < r < 86400,
{
    chrono::Local::now().offset().local_minus_utc()
}

/// Transform a fetch result against the wall clock: as
/// [`transform`](crate::transform::transform), with `now` and the local
/// offset read from the environment.
pub fn build_display_lines(resp: &Vec<(String, DeparturesResponse)>) -> (groups: Vec<StationGroup>)
    requires
        stations_wf(resp@),
    ensures
        exists|now: int, offset: int|
            -TS_BOUND <= now <= TS_BOUND && -86400 < offset < 86400 && #[trigger] groups_match(
                resp@,
                groups@,
                now,
                offset,
            ),
{
    let now = now_unix();
    let offset = local_offset_secs();
    let groups = transform(resp, now, offset);
    proof {
        assert(groups_match(resp@, groups@, now as int, offset as int));
    }
    groups
}

} // verus!

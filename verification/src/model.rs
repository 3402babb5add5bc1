//! The data the departure board works on: the stop list read from the user's
//! configuration, the records a departure query yields, the query parameters,
//! and the direction filter applied before transformation.
//!
//! Times are carried as Unix timestamps in seconds.  The departure source
//! guarantees its times lie within a few hundred thousand years of the epoch;
//! [`TS_BOUND`] captures that, and the well-formedness predicates below ask
//! no more.

use vstd::prelude::*;
use crate::text::{contains_seq, str_contains};

verus! {

/// Every timestamp and delay a well-formed record may hold lies within this
/// many seconds of the Unix epoch (the departure source cannot represent
/// dates further than about 262000 years out).
pub const TS_BOUND: i64 = 8_400_000_000_000;

/// The stops the user asked about, as read from configuration.
#[derive(Debug, Clone)]
pub struct InputStops {
    pub stops: Vec<InputStop>,
}

/// One configured stop: the catalog id, the display name, how many minutes
/// to look ahead, and the direction filter substrings (empty keeps all).
#[derive(Debug, Clone)]
pub struct InputStop {
    pub id: String,
    pub name: String,
    pub look_ahead: u32,
    pub directions: Vec<String>,
}

/// The look-ahead a stop gets when the configuration names none.
pub fn u32_value_15() -> (r: u32)
    ensures
        r == 15,
{
    15
}

/// A transit line as the departure source describes it.
#[derive(Debug, Clone)]
pub struct Line {
    pub kind: Option<String>,
    pub id: Option<String>,
    pub name: Option<String>,
    pub mode: Option<String>,
    pub product: Option<String>,
}

/// A stop as the departure source describes it.
#[derive(Debug, Clone)]
pub struct Stop {
    pub kind: Option<String>,
    pub id: Option<String>,
    pub name: Option<String>,
}

/// A hint or warning attached to a departure.
#[derive(Debug, Clone)]
pub struct Remark {
    pub id: Option<String>,
    pub kind: Option<String>,
    pub summary: Option<String>,
    pub text: Option<String>,
}

/// One raw departure record.  `when` is the realtime estimate, `planned_when`
/// the schedule, both Unix seconds; absence means no data, never a sentinel.
/// `delay` is in seconds.
#[derive(Debug, Clone)]
pub struct Departure {
    pub trip_id: Option<String>,
    pub direction: Option<String>,
    pub line: Option<Line>,
    pub when: Option<i64>,
    pub planned_when: Option<i64>,
    pub delay: Option<i64>,
    pub platform: Option<String>,
    pub planned_platform: Option<String>,
    pub stop: Option<Stop>,
    pub remarks: Option<Vec<Remark>>,
}

/// The envelope a departure query yields.
#[derive(Debug, Clone)]
pub struct DeparturesResponse {
    pub departures: Vec<Departure>,
    pub realtime_data_updated_at: Option<i64>,
}

/// The time fields of `d` lie within the departure source's representable
/// range, so that differences of two of them fit the machine integers.
pub open spec fn departure_wf(d: Departure) -> bool {
    &&& (d.when matches Some(t) ==> -TS_BOUND <= t <= TS_BOUND)
    &&& (d.planned_when matches Some(t) ==> -TS_BOUND <= t <= TS_BOUND)
    &&& (d.delay matches Some(t) ==> -TS_BOUND <= t <= TS_BOUND)
}

/// Query parameters of a departure request.  `None` leaves the choice to the
/// departure source.
#[derive(Debug, Clone)]
pub struct DeparturesParams {
    pub when: Option<String>,
    pub direction: Option<String>,
    pub duration: Option<u32>,
    pub results: Option<u32>,
    pub lines_of_stops: Option<bool>,
    pub remarks: Option<bool>,
    pub language: Option<String>,
    pub suburban: Option<bool>,
    pub subway: Option<bool>,
    pub tram: Option<bool>,
    pub bus: Option<bool>,
    pub ferry: Option<bool>,
    pub express: Option<bool>,
    pub regional: Option<bool>,
    pub pretty: Option<bool>,
}

/// The parameters a departure query for `s` is made with: look ahead as
/// configured, remarks on, lines of stops off, German texts.
pub fn departures_params_for_stop(s: &InputStop) -> (p: DeparturesParams)
    ensures
        p.when is None,
        p.direction is None,
        p.duration == Some(s.look_ahead),
        p.results is None,
        p.lines_of_stops == Some(false),
        p.remarks == Some(true),
        (p.language matches Some(l) && l@ == "de"@),
        p.suburban is None,
        p.subway is None,
        p.tram is None,
        p.bus is None,
        p.ferry is None,
        p.express is None,
        p.regional is None,
        p.pretty is None,
{
    DeparturesParams {
        when: None,
        direction: None,
        duration: Some(s.look_ahead),
        results: None,
        lines_of_stops: Some(false),
        remarks: Some(true),
        language: Some(String::from_str("de")),
        suburban: None,
        subway: None,
        tram: None,
        bus: None,
        ferry: None,
        express: None,
        regional: None,
        pretty: None,
    }
}

/// What can go wrong fetching departures, with the transport detail already
/// rendered to text by the caller that performed the I/O.
#[derive(Debug, Clone)]
pub enum DeparturesError {
    Http(String),
    Url(String),
    Status { status: u16, body: String },
}

/// A departure passes the direction filter: the filter set is empty, the
/// record names no direction, or some filter substring occurs in the
/// direction label.
pub open spec fn keep_departure(filters: Seq<String>, d: Departure) -> bool {
    ||| filters.len() == 0
    ||| match d.direction {
        Option::None => true,
        Option::Some(ds) => exists|j: int|
            0 <= j < filters.len() && contains_seq(ds@, (#[trigger] filters[j])@),
    }
}

/// Does `d` pass the direction filter `filters`?
pub fn departure_matches(filters: &Vec<String>, d: &Departure) -> (r: bool)
    ensures
        r == keep_departure(filters@, *d),
{
    if filters.len() == 0 {
        return true;
    }
    match &d.direction {
        Option::None => true,
        Option::Some(ds) => {
            let mut j: usize = 0;
            while j < filters.len()
                invariant
                    d.direction == Some(*ds),
                    j <= filters@.len(),
                    forall|k: int|
                        0 <= k < j ==> !contains_seq(ds@, (#[trigger] filters@[k])@),
                decreases filters@.len() - j,
            {
                if str_contains(ds.as_str(), filters[j].as_str()) {
                    proof {
                        assert(contains_seq(ds@, (filters@[j as int])@));
                    }
                    return true;
                }
                j += 1;
            }
            false
        },
    }
}

/// Drop from `response` every departure that fails the direction filter of
/// `s`, keeping the order of the rest; nothing else changes.
pub fn filter(s: &InputStop, response: &mut DeparturesResponse)
    ensures
        final(response).departures@ == old(response).departures@.filter(
            |d: Departure| keep_departure(s.directions@, d),
        ),
        final(response).realtime_data_updated_at == old(response).realtime_data_updated_at,
{
    broadcast use vstd::seq_lib::group_filter_ensures;

    let ghost pred = |d: Departure| keep_departure(s.directions@, d);
    let mut pending: Vec<Departure> = Vec::new();
    core::mem::swap(&mut pending, &mut response.departures);
    let ghost orig = pending@;
    proof {
        assert(orig.take(0).filter(pred) =~= Seq::<Departure>::empty());
    }
    while pending.len() > 0
        invariant
            pending@.len() <= orig.len(),
            orig == old(response).departures@,
            response.realtime_data_updated_at == old(response).realtime_data_updated_at,
            pending@ == orig.skip(orig.len() - pending@.len()),
            response.departures@ == orig.take(orig.len() - pending@.len()).filter(pred),
            pred == (|d: Departure| keep_departure(s.directions@, d)),
        decreases pending@.len(),
    {
        let ghost k = orig.len() - pending@.len();
        let d = pending.remove(0);
        let kept = departure_matches(&s.directions, &d);
        proof {
            assert(d == orig[k]);
            assert(orig.take(k + 1) =~= orig.take(k) + seq![d]);
            Seq::<Departure>::filter_distributes_over_add(orig.take(k), seq![d], pred);
            reveal_with_fuel(Seq::<Departure>::filter, 3);
            assert(Seq::<Departure>::empty().filter(pred) =~= Seq::<Departure>::empty());
            assert(seq![d].drop_last() =~= Seq::<Departure>::empty());
            assert(pred(d) == keep_departure(s.directions@, d));
            if pred(d) {
                assert(seq![d].filter(pred) =~= seq![d]);
            } else {
                assert(seq![d].filter(pred) =~= Seq::<Departure>::empty());
            }
            assert(pending@ =~= orig.skip(orig.len() - pending@.len()));
        }
        if kept {
            response.departures.push(d);
        }
    }
    proof {
        assert(orig.take(orig.len() as int) =~= orig);
    }
}

} // verus!

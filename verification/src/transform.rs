//! The display transformer: the pure mapping from raw departure records to
//! the presentation-ready model every renderer consumes.

use vstd::prelude::*;
use crate::category::{category_spec, hex_spec, product_category, product_hex, product_symbol,
    symbol_spec, ProductCategory};
use crate::model::{departure_wf, Departure, DeparturesResponse, TS_BOUND};
use crate::num::{floor_div, floor_mod};
use crate::text::{dec2_spec, u64_to_dec2};
use vstd::arithmetic::div_mod::{lemma_div_is_ordered, lemma_div_pos_is_pos};

verus! {

/// One presentation-ready departure: everything a renderer prints, nothing
/// it has to compute.  `actual_mins` is never negative; a `delay_mins` of
/// zero is kept numerically but is not rendered as delay text.
pub struct DisplayEntry {
    pub line: String,
    pub dir: String,
    pub actual_mins: i64,
    pub delay_mins: Option<i64>,
    pub category: ProductCategory,
    pub symbol: &'static str,
    pub hex: &'static str,
    pub abs_time: Option<String>,
}

/// Mathematical image of a [`DisplayEntry`].
pub struct DisplayEntryV {
    pub line: Seq<char>,
    pub dir: Seq<char>,
    pub actual_mins: int,
    pub delay_mins: Option<int>,
    pub category: ProductCategory,
    pub symbol: Seq<char>,
    pub hex: Seq<char>,
    pub abs_time: Option<Seq<char>>,
}

impl View for DisplayEntry {
    type V = DisplayEntryV;

    open spec fn view(&self) -> DisplayEntryV {
        DisplayEntryV {
            line: self.line@,
            dir: self.dir@,
            actual_mins: self.actual_mins as int,
            delay_mins: match self.delay_mins {
                Option::Some(d) => Option::Some(d as int),
                Option::None => Option::None,
            },
            category: self.category,
            symbol: self.symbol@,
            hex: self.hex@,
            abs_time: match self.abs_time {
                Option::Some(ref s) => Option::Some(s@),
                Option::None => Option::None,
            },
        }
    }
}

/// A station name with its transformed departures, in source order.
pub struct StationGroup {
    pub name: String,
    pub entries: Vec<DisplayEntry>,
}

/// Mathematical image of a [`StationGroup`].
pub struct StationGroupV {
    pub name: Seq<char>,
    pub entries: Seq<DisplayEntryV>,
}

impl View for StationGroup {
    type V = StationGroupV;

    open spec fn view(&self) -> StationGroupV {
        StationGroupV {
            name: self.name@,
            entries: self.entries@.map_values(|e: DisplayEntry| e@),
        }
    }
}

/// The departure time the board counts toward: the realtime estimate when
/// present, else the schedule, else nothing.
pub open spec fn effective_time(d: Departure) -> Option<int> {
    match d.when {
        Option::Some(t) => Option::Some(t as int),
        Option::None => match d.planned_when {
            Option::Some(t) => Option::Some(t as int),
            Option::None => Option::None,
        },
    }
}

/// Minutes until departure: the floor of the remaining seconds over 60,
/// clamped at zero, and zero when no time is known.
pub open spec fn minutes_spec(d: Departure, now: int) -> int {
    match effective_time(d) {
        Option::Some(t) => if (t - now) / 60 > 0 {
            (t - now) / 60
        } else {
            0
        },
        Option::None => 0,
    }
}

/// Delay in whole minutes (floor), absent when the record carries none.
pub open spec fn delay_mins_spec(d: Departure) -> Option<int> {
    match d.delay {
        Option::Some(s) => Option::Some(s / 60),
        Option::None => Option::None,
    }
}

/// The line label, `"?"` when the record names none.
pub open spec fn line_label_spec(d: Departure) -> Seq<char> {
    match d.line {
        Option::Some(l) => match l.name {
            Option::Some(n) => n@,
            Option::None => "?"@,
        },
        Option::None => "?"@,
    }
}

/// The raw product/mode string, empty when the record names none.
pub open spec fn product_of(d: Departure) -> Seq<char> {
    match d.line {
        Option::Some(l) => match l.product {
            Option::Some(p) => p@,
            Option::None => ""@,
        },
        Option::None => ""@,
    }
}

/// The direction label, empty when the record names none.
pub open spec fn dir_label_spec(d: Departure) -> Seq<char> {
    match d.direction {
        Option::Some(s) => s@,
        Option::None => ""@,
    }
}

/// Wall-clock `HH:MM` of the instant `t`, shifted by the local offset.
pub open spec fn hhmm_spec(t: int, offset: int) -> Seq<char> {
    let secs = (t + offset) % 86400;
    dec2_spec(secs / 3600) + ":"@ + dec2_spec((secs % 3600) / 60)
}

/// Wall-clock `HH:MM:SS` of the instant `t`, shifted by the local offset.
pub open spec fn hhmmss_spec(t: int, offset: int) -> Seq<char> {
    let secs = (t + offset) % 86400;
    dec2_spec(secs / 3600) + ":"@ + dec2_spec((secs % 3600) / 60) + ":"@ + dec2_spec(secs % 60)
}

/// The formatted local time, absent when no departure time is known.
pub open spec fn abs_time_spec(d: Departure, offset: int) -> Option<Seq<char>> {
    match effective_time(d) {
        Option::Some(t) => Option::Some(hhmm_spec(t, offset)),
        Option::None => Option::None,
    }
}

/// `e` is exactly the display entry the record `d` transforms to at time
/// `now` with the local offset `offset`.
pub open spec fn entry_matches(e: DisplayEntryV, d: Departure, now: int, offset: int) -> bool {
    &&& e.line == line_label_spec(d)
    &&& e.dir == dir_label_spec(d)
    &&& e.actual_mins == minutes_spec(d, now)
    &&& e.delay_mins == delay_mins_spec(d)
    &&& e.category == category_spec(product_of(d))
    &&& e.symbol == symbol_spec(category_spec(product_of(d)))
    &&& e.hex == hex_spec(category_spec(product_of(d)))
    &&& e.abs_time == abs_time_spec(d, offset)
}

/// Format the instant `t` as local wall-clock `HH:MM`.
pub fn format_hhmm(t: i64, offset_secs: i32) -> (r: String)
    requires
        -TS_BOUND <= t <= TS_BOUND,
        -86400 < offset_secs < 86400,
    ensures
        r@ == hhmm_spec(t as int, offset_secs as int),
{
    let local = t + (offset_secs as i64);
    let secs = floor_mod(local, 86400);
    let h = secs / 3600;
    let m = (secs % 3600) / 60;
    let mut s = u64_to_dec2(h);
    s.append(":");
    s.append(u64_to_dec2(m).as_str());
    proof {
        reveal_strlit(":");
        assert(s@ =~= hhmm_spec(t as int, offset_secs as int));
    }
    s
}

/// Format the instant `t` as local wall-clock `HH:MM:SS`.
pub fn format_hhmmss(t: i64, offset_secs: i32) -> (r: String)
    requires
        -TS_BOUND <= t <= TS_BOUND,
        -86400 < offset_secs < 86400,
    ensures
        r@ == hhmmss_spec(t as int, offset_secs as int),
{
    let local = t + (offset_secs as i64);
    let secs = floor_mod(local, 86400);
    let h = secs / 3600;
    let m = (secs % 3600) / 60;
    let sec = secs % 60;
    let mut s = u64_to_dec2(h);
    s.append(":");
    s.append(u64_to_dec2(m).as_str());
    s.append(":");
    s.append(u64_to_dec2(sec).as_str());
    proof {
        reveal_strlit(":");
        assert(s@ =~= hhmmss_spec(t as int, offset_secs as int));
    }
    s
}

/// Transform one raw departure record.  Missing fields resolve to the
/// documented defaults and nothing here can fail: the line label falls back
/// to `"?"`, the direction to the empty string, the minutes to zero, the
/// delay and the wall-clock time to absent.
pub fn transform_departure(d: &Departure, now: i64, offset_secs: i32) -> (e: DisplayEntry)
    requires
        departure_wf(*d),
        -TS_BOUND <= now <= TS_BOUND,
        -86400 < offset_secs < 86400,
    ensures
        entry_matches(e@, *d, now as int, offset_secs as int),
        e.actual_mins >= 0,
{
    let line: String = match &d.line {
        Option::Some(l) => match &l.name {
            Option::Some(n) => n.clone(),
            Option::None => String::from_str("?"),
        },
        Option::None => String::from_str("?"),
    };
    let dir: String = match &d.direction {
        Option::Some(s) => s.clone(),
        Option::None => String::new(),
    };
    proof {
        if d.direction is None {
            reveal_strlit("");
            assert(""@ =~= Seq::<char>::empty());
        }
    }
    let eff: Option<i64> = match d.when {
        Option::Some(t) => Option::Some(t),
        Option::None => d.planned_when,
    };
    let actual_mins: i64 = match eff {
        Option::Some(t) => {
            let diff = t - now;
            if diff <= 0 {
                proof {
                    lemma_div_is_ordered(diff as int, 0, 60);
                }
                0
            } else {
                floor_div(diff, 60)
            }
        },
        Option::None => 0,
    };
    let delay_mins: Option<i64> = match d.delay {
        Option::Some(s) => Option::Some(floor_div(s, 60)),
        Option::None => Option::None,
    };
    let abs_time: Option<String> = match eff {
        Option::Some(t) => Option::Some(format_hhmm(t, offset_secs)),
        Option::None => Option::None,
    };
    let category = match &d.line {
        Option::Some(l) => match &l.product {
            Option::Some(p) => product_category(p.as_str()),
            Option::None => product_category(""),
        },
        Option::None => product_category(""),
    };
    let symbol = match &d.line {
        Option::Some(l) => match &l.product {
            Option::Some(p) => product_symbol(p.as_str()),
            Option::None => product_symbol(""),
        },
        Option::None => product_symbol(""),
    };
    let hex = match &d.line {
        Option::Some(l) => match &l.product {
            Option::Some(p) => product_hex(p.as_str()),
            Option::None => product_hex(""),
        },
        Option::None => product_hex(""),
    };
    proof {
        if actual_mins > 0 {
            lemma_div_pos_is_pos((eff->0 - now) as int, 60);
        }
    }
    DisplayEntry { line, dir, actual_mins, delay_mins, category, symbol, hex, abs_time }
}

/// Every record of `resp` is well formed.
pub open spec fn response_wf(resp: DeparturesResponse) -> bool {
    forall|i: int|
        0 <= i < resp.departures@.len() ==> departure_wf(#[trigger] resp.departures@[i])
}

/// Every record of every station is well formed.
pub open spec fn stations_wf(stations: Seq<(String, DeparturesResponse)>) -> bool {
    forall|i: int| 0 <= i < stations.len() ==> response_wf((#[trigger] stations[i]).1)
}

/// `groups` is exactly the transformed image of `stations` at `now` with the
/// local offset `offset`: same stations in the same order, and per station
/// one entry per record, in order, each matching its record.
pub open spec fn groups_match(
    stations: Seq<(String, DeparturesResponse)>,
    groups: Seq<StationGroup>,
    now: int,
    offset: int,
) -> bool {
    &&& groups.len() == stations.len()
    &&& forall|i: int|
        0 <= i < stations.len() ==> {
            let g = #[trigger] groups[i];
            &&& g.name@ == stations[i].0@
            &&& g.entries@.len() == stations[i].1.departures@.len()
            &&& forall|j: int|
                0 <= j < g.entries@.len() ==> entry_matches(
                    (#[trigger] g.entries@[j])@,
                    stations[i].1.departures@[j],
                    now,
                    offset,
                )
        }
}

/// Transform a whole fetch result: per station, in input order, one group
/// holding the transformed departures in source order.  Pure in its inputs;
/// no filtering, sorting or truncation happens here.
pub fn transform(stations: &Vec<(String, DeparturesResponse)>, now: i64, offset_secs: i32) -> (groups:
    Vec<StationGroup>)
    requires
        stations_wf(stations@),
        -TS_BOUND <= now <= TS_BOUND,
        -86400 < offset_secs < 86400,
    ensures
        groups_match(stations@, groups@, now as int, offset_secs as int),
{
    let mut groups: Vec<StationGroup> = Vec::new();
    let n = stations.len();
    let mut i: usize = 0;
    while i < n
        invariant
            i <= n,
            n == stations@.len(),
            stations_wf(stations@),
            -TS_BOUND <= now <= TS_BOUND,
            -86400 < offset_secs < 86400,
            groups@.len() == i,
            forall|k: int|
                0 <= k < i ==> {
                    let g = #[trigger] groups@[k];
                    &&& g.name@ == stations@[k].0@
                    &&& g.entries@.len() == stations@[k].1.departures@.len()
                    &&& forall|j: int|
                        0 <= j < g.entries@.len() ==> entry_matches(
                            (#[trigger] g.entries@[j])@,
                            stations@[k].1.departures@[j],
                            now as int,
                            offset_secs as int,
                        )
                },
        decreases n - i,
    {
        let station = &stations[i];
        let mut entries: Vec<DisplayEntry> = Vec::new();
        let m = station.1.departures.len();
        let mut j: usize = 0;
        while j < m
            invariant
                j <= m,
                0 <= i < stations@.len(),
                station == stations@[i as int],
                m == station.1.departures@.len(),
                response_wf(station.1),
                -TS_BOUND <= now <= TS_BOUND,
                -86400 < offset_secs < 86400,
                entries@.len() == j,
                forall|l: int|
                    0 <= l < j ==> entry_matches(
                        (#[trigger] entries@[l])@,
                        station.1.departures@[l],
                        now as int,
                        offset_secs as int,
                    ),
            decreases m - j,
        {
            let e = transform_departure(&station.1.departures[j], now, offset_secs);
            entries.push(e);
            j += 1;
        }
        let name = station.0.clone();
        groups.push(StationGroup { name, entries });
        i += 1;
    }
    groups
}

} // verus!

use bvg_api::model::{Departure, DeparturesResponse, InputStop, Line};
use bvg_api::transform::{transform, transform_departure, StationGroup};

fn bare_departure() -> Departure {
    Departure {
        trip_id: None,
        direction: None,
        line: None,
        when: None,
        planned_when: None,
        delay: None,
        platform: None,
        planned_platform: None,
        stop: None,
        remarks: None,
    }
}

fn line_named(name: &str, product: &str) -> Line {
    Line {
        kind: Some("line".to_string()),
        id: None,
        name: Some(name.to_string()),
        mode: None,
        product: Some(product.to_string()),
    }
}

#[test]
fn all_fields_missing_yields_documented_defaults() {
    let d = bare_departure();
    let e = transform_departure(&d, 1_700_000_000, 3600);
    assert_eq!(e.line, "?");
    assert_eq!(e.dir, "");
    assert_eq!(e.actual_mins, 0);
    assert_eq!(e.delay_mins, None);
    assert_eq!(e.abs_time, None);
    assert_eq!(e.symbol, "\u{1F680}");
    assert_eq!(e.hex, "#00FFFF");
}

#[test]
fn past_timestamps_never_read_negative() {
    let now = 1_700_000_000;
    let mut d = bare_departure();
    d.when = Some(now - 1);
    assert_eq!(transform_departure(&d, now, 0).actual_mins, 0);
    d.when = Some(now - 86_400);
    assert_eq!(transform_departure(&d, now, 0).actual_mins, 0);
    d.when = Some(0);
    assert_eq!(transform_departure(&d, now, 0).actual_mins, 0);
    d.when = Some(-5_000);
    assert_eq!(transform_departure(&d, now, 0).actual_mins, 0);
}

#[test]
fn minutes_floor_and_clamp_boundaries() {
    let now = 1_700_000_000;
    let mut d = bare_departure();
    d.when = Some(now + 59);
    assert_eq!(transform_departure(&d, now, 0).actual_mins, 0);
    d.when = Some(now + 60);
    assert_eq!(transform_departure(&d, now, 0).actual_mins, 1);
    d.when = Some(now + 119);
    assert_eq!(transform_departure(&d, now, 0).actual_mins, 1);
    d.when = Some(now + 600);
    assert_eq!(transform_departure(&d, now, 0).actual_mins, 10);
}

#[test]
fn realtime_preferred_over_schedule() {
    let now = 1_700_000_000;
    let mut d = bare_departure();
    d.when = Some(now + 240);
    d.planned_when = Some(now + 360);
    assert_eq!(transform_departure(&d, now, 0).actual_mins, 4);
    d.when = None;
    assert_eq!(transform_departure(&d, now, 0).actual_mins, 6);
}

#[test]
fn delay_floor_division() {
    let now = 1_700_000_000;
    let mut d = bare_departure();
    d.delay = Some(120);
    assert_eq!(transform_departure(&d, now, 0).delay_mins, Some(2));
    d.delay = Some(0);
    assert_eq!(transform_departure(&d, now, 0).delay_mins, Some(0));
    d.delay = Some(59);
    assert_eq!(transform_departure(&d, now, 0).delay_mins, Some(0));
    d.delay = Some(-90);
    assert_eq!(transform_departure(&d, now, 0).delay_mins, Some(-2));
    d.delay = Some(-60);
    assert_eq!(transform_departure(&d, now, 0).delay_mins, Some(-1));
}

#[test]
fn wall_clock_time_from_effective_time() {
    let now = 0;
    let mut d = bare_departure();
    // 05:07:00 UTC, offset zero
    d.when = Some(5 * 3600 + 7 * 60);
    let e = transform_departure(&d, now, 0);
    assert_eq!(e.abs_time.as_deref(), Some("05:07"));
    // one hour of local offset
    let e = transform_departure(&d, now, 3600);
    assert_eq!(e.abs_time.as_deref(), Some("06:07"));
    // shortly before midnight, shifted back below the epoch
    d.when = Some(-60);
    let e = transform_departure(&d, now, 0);
    assert_eq!(e.abs_time.as_deref(), Some("23:59"));
}

#[test]
fn round_trip_two_stops() {
    let now = 1_700_000_000;
    let alex = Departure {
        direction: Some("Pankow".to_string()),
        line: Some(line_named("U2", "subway")),
        when: Some(now + 240),
        planned_when: Some(now + 360),
        delay: Some(120),
        ..bare_departure()
    };
    let pots = Departure {
        direction: Some("Hauptbahnhof".to_string()),
        line: Some(line_named("M41", "bus")),
        when: None,
        planned_when: Some(now + 300),
        delay: None,
        ..bare_departure()
    };
    let stations = vec![
        (
            "Alexanderplatz".to_string(),
            DeparturesResponse { departures: vec![alex], realtime_data_updated_at: None },
        ),
        (
            "Potsdamer Platz".to_string(),
            DeparturesResponse { departures: vec![pots], realtime_data_updated_at: None },
        ),
    ];
    let groups: Vec<StationGroup> = transform(&stations, now, 0);
    assert_eq!(groups.len(), 2);
    assert_eq!(groups[0].name, "Alexanderplatz");
    assert_eq!(groups[1].name, "Potsdamer Platz");
    let first = &groups[0].entries[0];
    assert_eq!(first.line, "U2");
    assert_eq!(first.actual_mins, 4);
    assert_eq!(first.delay_mins, Some(2));
    assert_eq!(first.symbol, "\u{1F687}");
    let second = &groups[1].entries[0];
    assert_eq!(second.line, "M41");
    assert_eq!(second.actual_mins, 5);
    assert_eq!(second.delay_mins, None);
    assert_eq!(second.symbol, "\u{1F68C}");
    // the delay annotation of the two entries
    assert_eq!(
        bvg_api::render::delay_annotation(first.delay_mins),
        " (+2min)"
    );
    assert_eq!(bvg_api::render::delay_annotation(second.delay_mins), "");
}

#[test]
fn order_and_count_preserved() {
    let now = 1_700_000_000;
    let mk = |secs: i64| Departure { when: Some(now + secs), ..bare_departure() };
    let stations = vec![(
        "S".to_string(),
        DeparturesResponse {
            departures: vec![mk(600), mk(60), mk(300)],
            realtime_data_updated_at: Some(now),
        },
    )];
    let groups = transform(&stations, now, 0);
    assert_eq!(groups[0].entries.len(), 3);
    assert_eq!(groups[0].entries[0].actual_mins, 10);
    assert_eq!(groups[0].entries[1].actual_mins, 1);
    assert_eq!(groups[0].entries[2].actual_mins, 5);
}

#[test]
fn build_display_lines_runs_against_the_real_clock() {
    let d = Departure {
        line: Some(line_named("U6", "subway")),
        ..bare_departure()
    };
    let stations = vec![(
        "Alt-Tegel".to_string(),
        DeparturesResponse { departures: vec![d], realtime_data_updated_at: None },
    )];
    let groups = bvg_api::clock::build_display_lines(&stations);
    assert_eq!(groups.len(), 1);
    assert_eq!(groups[0].name, "Alt-Tegel");
    assert_eq!(groups[0].entries.len(), 1);
    assert_eq!(groups[0].entries[0].line, "U6");
    assert_eq!(groups[0].entries[0].symbol, "\u{1F687}");
    assert!(groups[0].entries[0].actual_mins >= 0);
    // no departure time is known, so no wall-clock column
    assert_eq!(groups[0].entries[0].abs_time, None);
}

#[test]
fn filter_retains_matching_directions() {
    let mk = |dir: Option<&str>| Departure {
        direction: dir.map(|s| s.to_string()),
        ..bare_departure()
    };
    let stop = InputStop {
        id: "900001".to_string(),
        name: "S".to_string(),
        look_ahead: 15,
        directions: vec!["Pankow".to_string(), "Ruhleben".to_string()],
    };
    let mut resp = DeparturesResponse {
        departures: vec![
            mk(Some("Pankow via X")),
            mk(Some("Krumme Lanke")),
            mk(None),
            mk(Some("Ruhleben")),
        ],
        realtime_data_updated_at: Some(7),
    };
    bvg_api::model::filter(&stop, &mut resp);
    let dirs: Vec<Option<String>> = resp.departures.iter().map(|d| d.direction.clone()).collect();
    assert_eq!(
        dirs,
        vec![Some("Pankow via X".to_string()), None, Some("Ruhleben".to_string())]
    );
    assert_eq!(resp.realtime_data_updated_at, Some(7));
}

#[test]
fn filter_with_empty_filter_set_keeps_all() {
    let stop = InputStop {
        id: "1".to_string(),
        name: "S".to_string(),
        look_ahead: 15,
        directions: vec![],
    };
    let mut resp = DeparturesResponse {
        departures: vec![
            Departure { direction: Some("A".to_string()), ..bare_departure() },
            Departure { direction: None, ..bare_departure() },
        ],
        realtime_data_updated_at: None,
    };
    bvg_api::model::filter(&stop, &mut resp);
    assert_eq!(resp.departures.len(), 2);
}

#[test]
fn params_for_stop() {
    let stop = InputStop {
        id: "900055151".to_string(),
        name: "S".to_string(),
        look_ahead: 25,
        directions: vec![],
    };
    let p = bvg_api::model::departures_params_for_stop(&stop);
    assert_eq!(p.duration, Some(25));
    assert_eq!(p.lines_of_stops, Some(false));
    assert_eq!(p.remarks, Some(true));
    assert_eq!(p.language.as_deref(), Some("de"));
    assert_eq!(p.when, None);
    assert_eq!(p.results, None);
    assert_eq!(p.subway, None);
    assert_eq!(p.pretty, None);
}

#[test]
fn default_look_ahead() {
    assert_eq!(bvg_api::model::u32_value_15(), 15);
}

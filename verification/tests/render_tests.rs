use bvg_api::model::{Departure, DeparturesResponse, Line};
use bvg_api::render::{
    column_widths, delay_annotation, log_panel_lines, plain_entry_line, render_plain,
    station_header, tui_content_lines, tui_entry_line,
};
use bvg_api::text::truncate_width;
use bvg_api::transform::{transform, StationGroup};

fn departure(line: &str, product: &str, dir: &str, when: Option<i64>, delay: Option<i64>) -> Departure {
    Departure {
        trip_id: None,
        direction: Some(dir.to_string()),
        line: Some(Line {
            kind: None,
            id: None,
            name: Some(line.to_string()),
            mode: None,
            product: Some(product.to_string()),
        }),
        when,
        planned_when: None,
        delay,
        platform: None,
        planned_platform: None,
        stop: None,
        remarks: None,
    }
}

fn one_group(now: i64) -> Vec<StationGroup> {
    let stations = vec![(
        "Alexanderplatz".to_string(),
        DeparturesResponse {
            departures: vec![departure("U2", "subway", "Pankow", Some(now + 240), Some(120))],
            realtime_data_updated_at: None,
        },
    )];
    transform(&stations, now, 0)
}

#[test]
fn delay_annotation_iff_nonzero() {
    assert_eq!(delay_annotation(None), "");
    assert_eq!(delay_annotation(Some(0)), "");
    assert_eq!(delay_annotation(Some(2)), " (+2min)");
    assert_eq!(delay_annotation(Some(1)), " (+1min)");
    assert_eq!(delay_annotation(Some(-1)), " (-1min)");
    assert_eq!(delay_annotation(Some(-12)), " (-12min)");
    assert_eq!(delay_annotation(Some(100)), " (+100min)");
}

#[test]
fn station_header_line() {
    assert_eq!(station_header("Alexanderplatz"), "Station: Alexanderplatz");
}

#[test]
fn plain_entry_exact_text() {
    let now = 1_700_000_000;
    let groups = one_group(now);
    let line = plain_entry_line(&groups[0].entries[0]);
    assert_eq!(
        line,
        format!("\u{1F687} U2    |Pankow{}|04min (+2min)", " ".repeat(29))
    );
}

#[test]
fn plain_report_layout() {
    let now = 1_700_000_000;
    let groups = one_group(now);
    let report = render_plain(&groups);
    assert_eq!(report.len(), 3);
    assert_eq!(report[0], "Station: Alexanderplatz");
    assert!(report[1].starts_with("\u{1F687} U2    |Pankow"));
    assert_eq!(report[2], "");
}

#[test]
fn column_widths_respect_floors_and_longest_labels() {
    let now = 1_700_000_000;
    // short labels: the floors win
    let groups = one_group(now);
    assert_eq!(column_widths(&groups), (5, 30));
    // a long direction label wins over its floor
    let stations = vec![(
        "S".to_string(),
        DeparturesResponse {
            departures: vec![departure(
                "M41777",
                "bus",
                "S+U Hauptbahnhof via Potsdamer Platz",
                Some(now + 60),
                None,
            )],
            realtime_data_updated_at: None,
        },
    )];
    let groups = transform(&stations, now, 0);
    assert_eq!(column_widths(&groups), (6, 36));
}

#[test]
fn dashboard_entry_exact_text() {
    let now = 1_700_000_000;
    let groups = one_group(now);
    let line = tui_entry_line(&groups[0].entries[0], 5, 30);
    let abs = groups[0].entries[0].abs_time.clone().unwrap();
    assert_eq!(
        line,
        format!(
            "\u{1F687} U2   | Pankow{} | {} |  4min (+2min)",
            " ".repeat(24),
            abs
        )
    );
}

#[test]
fn dashboard_uses_placeholder_when_no_time_is_known() {
    let now = 1_700_000_000;
    let stations = vec![(
        "S".to_string(),
        DeparturesResponse {
            departures: vec![departure("M41", "bus", "X", None, None)],
            realtime_data_updated_at: None,
        },
    )];
    let groups = transform(&stations, now, 0);
    let line = tui_entry_line(&groups[0].entries[0], 5, 30);
    assert!(line.contains("|    -- |"));
    assert!(line.ends_with(" 0min"));
}

#[test]
fn dashboard_content_region_layout() {
    let now = 0; // midnight UTC
    let groups = one_group(now);
    let (lw, dw) = column_widths(&groups);
    let content = tui_content_lines(&groups, now, 0, lw, dw);
    assert_eq!(content[0], "Request time: 00:00:00");
    assert_eq!(content[1], "");
    assert_eq!(content[2], "Station: Alexanderplatz");
    assert!(content[3].starts_with("\u{1F687} U2   | Pankow"));
    assert_eq!(content[4], "");
    assert_eq!(content.len(), 5);
}

#[test]
fn log_panel_shows_the_most_recent_lines_truncated() {
    let snapshot = vec![
        "first".to_string(),
        "second".to_string(),
        "a very long third line".to_string(),
    ];
    let panel = log_panel_lines(&snapshot, 2, 10);
    assert_eq!(panel.len(), 2);
    assert_eq!(panel[0], "second");
    assert_eq!(panel[1], "a very lon");
    // more rows than lines: all of them, untouched
    let panel = log_panel_lines(&snapshot, 10, 80);
    assert_eq!(panel.len(), 3);
    assert_eq!(panel[2], "a very long third line");
}

#[test]
fn truncation_never_splits_a_wide_character() {
    // the glyphs below are two columns wide each
    assert_eq!(truncate_width("\u{65E5}\u{672C}\u{8A9E}", 4), "\u{65E5}\u{672C}");
    assert_eq!(truncate_width("\u{65E5}\u{672C}\u{8A9E}", 5), "\u{65E5}\u{672C}");
    assert_eq!(truncate_width("\u{65E5}\u{672C}\u{8A9E}", 6), "\u{65E5}\u{672C}\u{8A9E}");
    assert_eq!(truncate_width("abc", 2), "ab");
    assert_eq!(truncate_width("abc", 0), "");
    // an emoji glyph counts two columns
    assert_eq!(truncate_width("\u{1F687}U2", 2), "\u{1F687}");
    assert_eq!(truncate_width("\u{1F687}U2", 1), "");
}

#[test]
fn whole_frame_is_content_then_log_region() {
    let now = 0;
    let groups = one_group(now);
    let snapshot = vec![
        "old line".to_string(),
        "recent line that is rather long".to_string(),
    ];
    let frame = bvg_api::render::frame_lines(&groups, &snapshot, now, 0, 12, 8);
    // 8 rows give a 2-line log region; both snapshot lines fit it
    assert_eq!(frame.len(), 5 + 2);
    assert_eq!(frame[0], "Request time: 00:00:00");
    assert_eq!(frame[2], "Station: Alexanderplatz");
    assert_eq!(frame[5], "old line");
    // the log region truncates to the 12-column terminal width
    assert_eq!(frame[6], "recent line ");
    // 4 rows give a 1-line log region: only the most recent line shows
    let frame = bvg_api::render::frame_lines(&groups, &snapshot, now, 0, 80, 4);
    assert_eq!(frame.len(), 5 + 1);
    assert_eq!(frame[5], "recent line that is rather long");
}

//! The renderers' shared text layer: the delay annotation, the plain
//! one-shot report, and the dashboard's content and log regions.  Everything
//! returns plain text lines; writing them to a stream or a terminal is the
//! embedding's business.

use vstd::prelude::*;
use crate::text::{dec_seq, dec2_spec, i64_to_signed_dec, lemma_views_push, lpad_spec, lpad_to,
    pad_spec, pad_to, seq_width, signed_dec_spec, truncate_width, u64_to_dec, u64_to_dec2,
    views_of};
use crate::transform::{hhmmss_spec, DisplayEntry, DisplayEntryV, StationGroup, StationGroupV};
use crate::model::TS_BOUND;

verus! {

/// The delay annotation of an entry: present exactly when a delay is known
/// and nonzero, its sign always written; zero or unknown delay shows
/// nothing.
pub open spec fn delay_text_spec(delay: Option<int>) -> Seq<char> {
    match delay {
        Option::Some(d) => if d != 0 {
            " ("@ + signed_dec_spec(d) + "min)"@
        } else {
            Seq::empty()
        },
        Option::None => Seq::empty(),
    }
}

/// Render the delay annotation.  The text is empty exactly when no nonzero
/// delay is known.
pub fn delay_annotation(delay_mins: Option<i64>) -> (r: String)
    requires
        delay_mins matches Some(d) ==> d > i64::MIN,
    ensures
        r@ == delay_text_spec(
            match delay_mins {
                Option::Some(d) => Option::Some(d as int),
                Option::None => Option::None,
            },
        ),
        r@.len() == 0 <==> !(delay_mins matches Some(d) && d != 0),
{
    match delay_mins {
        Option::Some(d) => {
            if d != 0 {
                let mut s = String::from_str(" (");
                s.append(i64_to_signed_dec(d).as_str());
                s.append("min)");
                proof {
                    reveal_strlit(" (");
                    reveal_strlit("min)");
                    assert(s@ =~= delay_text_spec(Option::Some(d as int)));
                }
                s
            } else {
                String::new()
            }
        },
        Option::None => String::new(),
    }
}

/// The header line naming a station.
pub open spec fn header_spec(name: Seq<char>) -> Seq<char> {
    "Station: "@ + name
}

/// Render a station header line.
pub fn station_header(name: &str) -> (r: String)
    ensures
        r@ == header_spec(name@),
{
    let mut s = String::from_str("Station: ");
    s.append(name);
    s
}

/// An entry the text layer can render: its minutes are non-negative (as the
/// transformer guarantees) and its delay is representable.
pub open spec fn entry_renderable(e: DisplayEntryV) -> bool {
    &&& 0 <= e.actual_mins
    &&& (e.delay_mins matches Some(d) ==> i64::MIN < d <= i64::MAX)
}

/// Every entry of every group is renderable.
pub open spec fn groups_renderable(gs: Seq<StationGroup>) -> bool {
    forall|i: int, j: int|
        0 <= i < gs.len() && 0 <= j < (#[trigger] gs[i])@.entries.len() ==> entry_renderable(
            #[trigger] gs[i]@.entries[j],
        )
}

/// One line of the plain report: glyph, line label padded to 6, direction
/// padded to 35, zero-padded minutes, delay annotation.
pub open spec fn plain_entry_spec(e: DisplayEntryV) -> Seq<char> {
    e.symbol + " "@ + pad_spec(e.line, 6) + "|"@ + pad_spec(e.dir, 35) + "|"@ + dec2_spec(
        e.actual_mins,
    ) + "min"@ + delay_text_spec(e.delay_mins)
}

/// Render one plain report line.
pub fn plain_entry_line(e: &DisplayEntry) -> (r: String)
    requires
        entry_renderable(e@),
    ensures
        r@ == plain_entry_spec(e@),
{
    let mut s = String::from_str(e.symbol);
    s.append(" ");
    s.append(pad_to(e.line.as_str(), 6).as_str());
    s.append("|");
    s.append(pad_to(e.dir.as_str(), 35).as_str());
    s.append("|");
    s.append(u64_to_dec2(e.actual_mins as u64).as_str());
    s.append("min");
    s.append(delay_annotation(e.delay_mins).as_str());
    proof {
        reveal_strlit(" ");
        reveal_strlit("|");
        reveal_strlit("min");
        assert(s@ =~= plain_entry_spec(e@));
    }
    s
}

/// The plain report lines of one station: its header, one line per entry in
/// order, one closing blank line.
pub open spec fn plain_group_spec(g: StationGroupV) -> Seq<Seq<char>> {
    seq![header_spec(g.name)] + g.entries.map_values(|e: DisplayEntryV| plain_entry_spec(e))
        + seq![Seq::<char>::empty()]
}

/// The plain report lines of the whole board, station by station in order.
pub open spec fn plain_report_spec(gs: Seq<StationGroupV>) -> Seq<Seq<char>>
    decreases gs.len(),
{
    if gs.len() == 0 {
        Seq::empty()
    } else {
        plain_group_spec(gs[0]) + plain_report_spec(gs.skip(1))
    }
}

proof fn lemma_plain_report_take_step(gs: Seq<StationGroupV>, k: int)
    requires
        0 <= k < gs.len(),
    ensures
        plain_report_spec(gs.take(k + 1)) == plain_report_spec(gs.take(k)) + plain_group_spec(
            gs[k],
        ),
    decreases k,
{
    if k == 0 {
        assert(gs.take(1).skip(1) =~= Seq::<StationGroupV>::empty());
        assert(gs.take(0) =~= Seq::<StationGroupV>::empty());
        assert(gs.take(1)[0] == gs[0]);
        assert(plain_report_spec(Seq::<StationGroupV>::empty()) == Seq::<Seq<char>>::empty());
        assert(plain_report_spec(gs.take(1)) == plain_group_spec(gs[0]) + plain_report_spec(
            gs.take(1).skip(1),
        ));
        assert(plain_group_spec(gs[0]) + Seq::<Seq<char>>::empty() =~= plain_group_spec(gs[0]));
        assert(Seq::<Seq<char>>::empty() + plain_group_spec(gs[0]) =~= plain_group_spec(gs[0]));
    } else {
        assert(gs.take(k + 1).skip(1) =~= gs.skip(1).take(k));
        assert(gs.take(k).skip(1) =~= gs.skip(1).take(k - 1));
        assert(gs.take(k + 1)[0] == gs[0]);
        assert(gs.take(k)[0] == gs[0]);
        lemma_plain_report_take_step(gs.skip(1), k - 1);
        assert(gs.skip(1)[k - 1] == gs[k]);
        assert(plain_group_spec(gs[0]) + (plain_report_spec(gs.skip(1).take(k - 1))
            + plain_group_spec(gs[k])) =~= (plain_group_spec(gs[0]) + plain_report_spec(
            gs.skip(1).take(k - 1),
        )) + plain_group_spec(gs[k]));
    }
}

/// Render the whole plain report: per station a header line, one line per
/// departure, and a blank separator line.
pub fn render_plain(groups: &Vec<StationGroup>) -> (r: Vec<String>)
    requires
        groups_renderable(groups@),
    ensures
        views_of(r@) == plain_report_spec(groups@.map_values(|g: StationGroup| g@)),
{
    let ghost gsv = groups@.map_values(|g: StationGroup| g@);
    let mut r: Vec<String> = Vec::new();
    let n = groups.len();
    let mut i: usize = 0;
    proof {
        assert(views_of(r@) =~= plain_report_spec(gsv.take(0)));
    }
    while i < n
        invariant
            i <= n,
            n == groups@.len(),
            gsv == groups@.map_values(|g: StationGroup| g@),
            groups_renderable(groups@),
            views_of(r@) == plain_report_spec(gsv.take(i as int)),
        decreases n - i,
    {
        let g = &groups[i];
        let ghost r0 = r@;
        let header = station_header(g.name.as_str());
        proof {
            lemma_views_push(r0, header);
        }
        r.push(header);
        let m = g.entries.len();
        let mut j: usize = 0;
        proof {
            assert(views_of(r@) =~= plain_report_spec(gsv.take(i as int)) + seq![
                header_spec(gsv[i as int].name),
            ] + gsv[i as int].entries.take(0).map_values(
                |e: DisplayEntryV| plain_entry_spec(e),
            ));
        }
        while j < m
            invariant
                j <= m,
                0 <= i < groups@.len(),
                n == groups@.len(),
                gsv == groups@.map_values(|g2: StationGroup| g2@),
                g == groups@[i as int],
                m == g.entries@.len(),
                groups_renderable(groups@),
                views_of(r@) == plain_report_spec(gsv.take(i as int)) + seq![
                    header_spec(gsv[i as int].name),
                ] + gsv[i as int].entries.take(j as int).map_values(
                    |e: DisplayEntryV| plain_entry_spec(e),
                ),
            decreases m - j,
        {
            proof {
                assert(gsv[i as int].entries[j as int] == g.entries@[j as int]@);
                assert(entry_renderable(g.entries@[j as int]@));
            }
            let line = plain_entry_line(&g.entries[j]);
            proof {
                lemma_views_push(r@, line);
            }
            r.push(line);
            proof {
                assert(views_of(r@) =~= plain_report_spec(gsv.take(i as int)) + seq![
                    header_spec(gsv[i as int].name),
                ] + gsv[i as int].entries.take(j + 1).map_values(
                    |e: DisplayEntryV| plain_entry_spec(e),
                ));
            }
            j += 1;
        }
        let blank = String::new();
        proof {
            lemma_views_push(r@, blank);
        }
        r.push(blank);
        proof {
            assert(gsv[i as int].entries.take(m as int) =~= gsv[i as int].entries);
            lemma_plain_report_take_step(gsv, i as int);
            assert(views_of(r@) =~= plain_report_spec(gsv.take(i as int)) + plain_group_spec(
                gsv[i as int],
            ));
        }
        i += 1;
    }
    proof {
        assert(gsv.take(n as int) =~= gsv);
    }
    r
}

/// The dashboard's minimum width for the line-label column.
pub const LINE_W_FLOOR: usize = 5;

/// The dashboard's minimum width for the direction column.
pub const DIR_W_FLOOR: usize = 30;

/// The label of `e` that the column `which` shows: the line label when
/// `which` is true, else the direction.
pub open spec fn label_len(e: DisplayEntryV, which: bool) -> int {
    if which {
        e.line.len() as int
    } else {
        e.dir.len() as int
    }
}

/// Entry position `(a, b)` comes before position `(i, j)` in reading order.
pub open spec fn pos_before(a: int, b: int, i: int, j: int) -> bool {
    a < i || (a == i && b < j)
}

/// Every entry before position `(i, j)` has its `which` label within `w`.
pub open spec fn labels_bounded(gs: Seq<StationGroup>, i: int, j: int, w: int, which: bool) -> bool {
    forall|a: int, b: int|
        0 <= a < gs.len() && 0 <= b < (#[trigger] gs[a])@.entries.len() && pos_before(a, b, i, j)
            ==> label_len(#[trigger] gs[a]@.entries[b], which) <= w
}

/// Some entry before position `(i, j)` has its `which` label exactly `w`.
pub open spec fn label_attained(gs: Seq<StationGroup>, i: int, j: int, w: int, which: bool) -> bool {
    exists|a: int, b: int|
        0 <= a < gs.len() && 0 <= b < (#[trigger] gs[a])@.entries.len() && pos_before(a, b, i, j)
            && label_len(#[trigger] gs[a]@.entries[b], which) == w
}

/// The dashboard's column widths: for the line label and the direction, the
/// widest label currently displayed, with the floors [`LINE_W_FLOOR`] and
/// [`DIR_W_FLOOR`]; recomputed on every redraw.
pub fn column_widths(groups: &Vec<StationGroup>) -> (r: (usize, usize))
    ensures
        r.0 >= LINE_W_FLOOR,
        r.1 >= DIR_W_FLOOR,
        labels_bounded(groups@, groups@.len() as int, 0, r.0 as int, true),
        r.0 == LINE_W_FLOOR || label_attained(groups@, groups@.len() as int, 0, r.0 as int, true),
        labels_bounded(groups@, groups@.len() as int, 0, r.1 as int, false),
        r.1 == DIR_W_FLOOR || label_attained(groups@, groups@.len() as int, 0, r.1 as int, false),
{
    let mut wl: usize = LINE_W_FLOOR;
    let mut wd: usize = DIR_W_FLOOR;
    let n = groups.len();
    let mut i: usize = 0;
    while i < n
        invariant
            i <= n,
            n == groups@.len(),
            wl >= LINE_W_FLOOR,
            wd >= DIR_W_FLOOR,
            labels_bounded(groups@, i as int, 0, wl as int, true),
            wl == LINE_W_FLOOR || label_attained(groups@, i as int, 0, wl as int, true),
            labels_bounded(groups@, i as int, 0, wd as int, false),
            wd == DIR_W_FLOOR || label_attained(groups@, i as int, 0, wd as int, false),
        decreases n - i,
    {
        let g = &groups[i];
        let m = g.entries.len();
        let mut j: usize = 0;
        while j < m
            invariant
                j <= m,
                0 <= i < groups@.len(),
                n == groups@.len(),
                g == groups@[i as int],
                m == g.entries@.len(),
                wl >= LINE_W_FLOOR,
                wd >= DIR_W_FLOOR,
                labels_bounded(groups@, i as int, j as int, wl as int, true),
                wl == LINE_W_FLOOR || label_attained(groups@, i as int, j as int, wl as int, true),
                labels_bounded(groups@, i as int, j as int, wd as int, false),
                wd == DIR_W_FLOOR || label_attained(groups@, i as int, j as int, wd as int, false),
            decreases m - j,
        {
            let ll = g.entries[j].line.as_str().unicode_len();
            let dl = g.entries[j].dir.as_str().unicode_len();
            proof {
                assert(label_len(groups@[i as int]@.entries[j as int], true) == ll);
                assert(label_len(groups@[i as int]@.entries[j as int], false) == dl);
            }
            if ll > wl {
                wl = ll;
            }
            if dl > wd {
                wd = dl;
            }
            j += 1;
        }
        i += 1;
    }
    (wl, wd)
}

/// The wall-clock column: the formatted time, or `"--"` when none is known.
pub open spec fn abs_or_dashes(t: Option<Seq<char>>) -> Seq<char> {
    match t {
        Option::Some(s) => s,
        Option::None => "--"@,
    }
}

/// One line of the dashboard's content region: glyph, line label and
/// direction padded to the given column widths, the wall-clock column
/// right-aligned to 5, the minutes right-aligned to 2, delay annotation.
pub open spec fn tui_entry_spec(e: DisplayEntryV, line_w: int, dir_w: int) -> Seq<char> {
    e.symbol + " "@ + pad_spec(e.line, line_w) + "| "@ + pad_spec(e.dir, dir_w) + " | "@
        + lpad_spec(abs_or_dashes(e.abs_time), 5) + " | "@ + lpad_spec(dec_seq(e.actual_mins), 2)
        + "min"@ + delay_text_spec(e.delay_mins)
}

/// Render one dashboard content line.
pub fn tui_entry_line(e: &DisplayEntry, line_w: usize, dir_w: usize) -> (r: String)
    requires
        entry_renderable(e@),
    ensures
        r@ == tui_entry_spec(e@, line_w as int, dir_w as int),
{
    let mut s = String::from_str(e.symbol);
    s.append(" ");
    s.append(pad_to(e.line.as_str(), line_w).as_str());
    s.append("| ");
    s.append(pad_to(e.dir.as_str(), dir_w).as_str());
    s.append(" | ");
    let abs: String = match &e.abs_time {
        Option::Some(t) => t.clone(),
        Option::None => String::from_str("--"),
    };
    s.append(lpad_to(abs.as_str(), 5).as_str());
    s.append(" | ");
    s.append(lpad_to(u64_to_dec(e.actual_mins as u64).as_str(), 2).as_str());
    s.append("min");
    s.append(delay_annotation(e.delay_mins).as_str());
    proof {
        reveal_strlit(" ");
        reveal_strlit("| ");
        reveal_strlit(" | ");
        reveal_strlit("min");
        assert(s@ =~= tui_entry_spec(e@, line_w as int, dir_w as int));
    }
    s
}

/// The dashboard lines of one station: its header, one content line per
/// entry in order, one closing blank line.
pub open spec fn tui_group_spec(g: StationGroupV, lw: int, dw: int) -> Seq<Seq<char>> {
    seq![header_spec(g.name)] + g.entries.map_values(|e: DisplayEntryV| tui_entry_spec(e, lw, dw))
        + seq![Seq::<char>::empty()]
}

/// The dashboard lines of all stations, in order.
pub open spec fn tui_groups_spec(gs: Seq<StationGroupV>, lw: int, dw: int) -> Seq<Seq<char>>
    decreases gs.len(),
{
    if gs.len() == 0 {
        Seq::empty()
    } else {
        tui_group_spec(gs[0], lw, dw) + tui_groups_spec(gs.skip(1), lw, dw)
    }
}

proof fn lemma_tui_groups_take_step(gs: Seq<StationGroupV>, lw: int, dw: int, k: int)
    requires
        0 <= k < gs.len(),
    ensures
        tui_groups_spec(gs.take(k + 1), lw, dw) == tui_groups_spec(gs.take(k), lw, dw)
            + tui_group_spec(gs[k], lw, dw),
    decreases k,
{
    if k == 0 {
        assert(gs.take(1).skip(1) =~= Seq::<StationGroupV>::empty());
        assert(gs.take(0) =~= Seq::<StationGroupV>::empty());
        assert(gs.take(1)[0] == gs[0]);
        assert(tui_groups_spec(Seq::<StationGroupV>::empty(), lw, dw) == Seq::<Seq<char>>::empty());
        assert(tui_groups_spec(gs.take(1), lw, dw) == tui_group_spec(gs[0], lw, dw)
            + tui_groups_spec(gs.take(1).skip(1), lw, dw));
        assert(tui_group_spec(gs[0], lw, dw) + Seq::<Seq<char>>::empty() =~= tui_group_spec(
            gs[0],
            lw,
            dw,
        ));
        assert(Seq::<Seq<char>>::empty() + tui_group_spec(gs[0], lw, dw) =~= tui_group_spec(
            gs[0],
            lw,
            dw,
        ));
    } else {
        assert(gs.take(k + 1).skip(1) =~= gs.skip(1).take(k));
        assert(gs.take(k).skip(1) =~= gs.skip(1).take(k - 1));
        assert(gs.take(k + 1)[0] == gs[0]);
        assert(gs.take(k)[0] == gs[0]);
        lemma_tui_groups_take_step(gs.skip(1), lw, dw, k - 1);
        assert(gs.skip(1)[k - 1] == gs[k]);
        assert(tui_group_spec(gs[0], lw, dw) + (tui_groups_spec(gs.skip(1).take(k - 1), lw, dw)
            + tui_group_spec(gs[k], lw, dw)) =~= (tui_group_spec(gs[0], lw, dw) + tui_groups_spec(
            gs.skip(1).take(k - 1),
            lw,
            dw,
        )) + tui_group_spec(gs[k], lw, dw));
    }
}

/// The dashboard's whole content region: the request-time header, a blank
/// line, then the station groups.
pub open spec fn tui_content_spec(
    gs: Seq<StationGroupV>,
    now: int,
    offset: int,
    lw: int,
    dw: int,
) -> Seq<Seq<char>> {
    seq!["Request time: "@ + hhmmss_spec(now, offset), Seq::<char>::empty()] + tui_groups_spec(
        gs,
        lw,
        dw,
    )
}

/// Render the dashboard's content region with the given column widths.
pub fn tui_content_lines(
    groups: &Vec<StationGroup>,
    now: i64,
    offset_secs: i32,
    line_w: usize,
    dir_w: usize,
) -> (r: Vec<String>)
    requires
        groups_renderable(groups@),
        -TS_BOUND <= now <= TS_BOUND,
        -86400 < offset_secs < 86400,
    ensures
        views_of(r@) == tui_content_spec(
            groups@.map_values(|g: StationGroup| g@),
            now as int,
            offset_secs as int,
            line_w as int,
            dir_w as int,
        ),
{
    let ghost gsv = groups@.map_values(|g: StationGroup| g@);
    let ghost lw = line_w as int;
    let ghost dw = dir_w as int;
    let mut r: Vec<String> = Vec::new();
    let mut header = String::from_str("Request time: ");
    header.append(crate::transform::format_hhmmss(now, offset_secs).as_str());
    proof {
        lemma_views_push(r@, header);
    }
    r.push(header);
    let blank0 = String::new();
    proof {
        lemma_views_push(r@, blank0);
    }
    r.push(blank0);
    let n = groups.len();
    let mut i: usize = 0;
    proof {
        assert(views_of(r@) =~= seq![
            "Request time: "@ + hhmmss_spec(now as int, offset_secs as int),
            Seq::<char>::empty(),
        ] + tui_groups_spec(gsv.take(0), lw, dw));
    }
    while i < n
        invariant
            i <= n,
            n == groups@.len(),
            gsv == groups@.map_values(|g: StationGroup| g@),
            groups_renderable(groups@),
            lw == line_w as int,
            dw == dir_w as int,
            -TS_BOUND <= now <= TS_BOUND,
            -86400 < offset_secs < 86400,
            views_of(r@) == seq![
                "Request time: "@ + hhmmss_spec(now as int, offset_secs as int),
                Seq::<char>::empty(),
            ] + tui_groups_spec(gsv.take(i as int), lw, dw),
        decreases n - i,
    {
        let g = &groups[i];
        let header = station_header(g.name.as_str());
        proof {
            lemma_views_push(r@, header);
        }
        r.push(header);
        let m = g.entries.len();
        let mut j: usize = 0;
        proof {
            assert(views_of(r@) =~= seq![
                "Request time: "@ + hhmmss_spec(now as int, offset_secs as int),
                Seq::<char>::empty(),
            ] + tui_groups_spec(gsv.take(i as int), lw, dw) + seq![
                header_spec(gsv[i as int].name),
            ] + gsv[i as int].entries.take(0).map_values(
                |e: DisplayEntryV| tui_entry_spec(e, lw, dw),
            ));
        }
        while j < m
            invariant
                j <= m,
                0 <= i < groups@.len(),
                n == groups@.len(),
                gsv == groups@.map_values(|g2: StationGroup| g2@),
                g == groups@[i as int],
                m == g.entries@.len(),
                groups_renderable(groups@),
                lw == line_w as int,
                dw == dir_w as int,
                views_of(r@) == seq![
                    "Request time: "@ + hhmmss_spec(now as int, offset_secs as int),
                    Seq::<char>::empty(),
                ] + tui_groups_spec(gsv.take(i as int), lw, dw) + seq![
                    header_spec(gsv[i as int].name),
                ] + gsv[i as int].entries.take(j as int).map_values(
                    |e: DisplayEntryV| tui_entry_spec(e, lw, dw),
                ),
            decreases m - j,
        {
            proof {
                assert(gsv[i as int].entries[j as int] == g.entries@[j as int]@);
                assert(entry_renderable(g.entries@[j as int]@));
            }
            let line = tui_entry_line(&g.entries[j], line_w, dir_w);
            proof {
                lemma_views_push(r@, line);
            }
            r.push(line);
            proof {
                assert(views_of(r@) =~= seq![
                    "Request time: "@ + hhmmss_spec(now as int, offset_secs as int),
                    Seq::<char>::empty(),
                ] + tui_groups_spec(gsv.take(i as int), lw, dw) + seq![
                    header_spec(gsv[i as int].name),
                ] + gsv[i as int].entries.take(j + 1).map_values(
                    |e: DisplayEntryV| tui_entry_spec(e, lw, dw),
                ));
            }
            j += 1;
        }
        let blank = String::new();
        proof {
            lemma_views_push(r@, blank);
        }
        r.push(blank);
        proof {
            assert(gsv[i as int].entries.take(m as int) =~= gsv[i as int].entries);
            lemma_tui_groups_take_step(gsv, lw, dw, i as int);
            assert(views_of(r@) =~= seq![
                "Request time: "@ + hhmmss_spec(now as int, offset_secs as int),
                Seq::<char>::empty(),
            ] + tui_groups_spec(gsv.take(i as int), lw, dw) + tui_group_spec(
                gsv[i as int],
                lw,
                dw,
            ));
        }
        i += 1;
    }
    proof {
        assert(gsv.take(n as int) =~= gsv);
    }
    r
}

/// `p` is the longest prefix of `s` that fits within `w` terminal columns,
/// cut at a character boundary.
pub open spec fn width_prefix(p: Seq<char>, s: Seq<char>, w: int) -> bool {
    exists|k: int|
        0 <= k <= s.len() && p == #[trigger] s.take(k) && seq_width(s.take(k)) <= w && (k == s.len()
            || seq_width(s.take(k + 1)) > w)
}

/// The dashboard's log region: the most recent `rows` snapshot lines (all of
/// them when fewer are held), oldest of those first, each truncated to the
/// region's width at a character boundary.
pub fn log_panel_lines(snapshot: &Vec<String>, rows: usize, width: usize) -> (r: Vec<String>)
    ensures
        r@.len() == if snapshot@.len() <= rows {
            snapshot@.len() as int
        } else {
            rows as int
        },
        forall|i: int|
            0 <= i < r@.len() ==> width_prefix(
                (#[trigger] r@[i])@,
                snapshot@[snapshot@.len() - r@.len() + i]@,
                width as int,
            ),
{
    let n = snapshot.len();
    let count = if n <= rows {
        n
    } else {
        rows
    };
    let start = n - count;
    let mut r: Vec<String> = Vec::new();
    let mut i: usize = 0;
    while i < count
        invariant
            i <= count,
            count <= n,
            start == n - count,
            n == snapshot@.len(),
            r@.len() == i,
            forall|k: int|
                0 <= k < i ==> width_prefix(
                    (#[trigger] r@[k])@,
                    snapshot@[start + k]@,
                    width as int,
                ),
        decreases count - i,
    {
        let t = truncate_width(snapshot[start + i].as_str(), width);
        r.push(t);
        i += 1;
    }
    r
}

/// One whole dashboard frame: the content region (request-time header,
/// blank line, station groups laid out with the current column widths),
/// followed by the log region showing the most recent snapshot lines — at
/// most a quarter of the terminal's rows — each truncated to the terminal's
/// width.
pub fn frame_lines(
    groups: &Vec<StationGroup>,
    snapshot: &Vec<String>,
    now: i64,
    offset_secs: i32,
    cols: u16,
    rows: u16,
) -> (r: Vec<String>)
    requires
        groups_renderable(groups@),
        -TS_BOUND <= now <= TS_BOUND,
        -86400 < offset_secs < 86400,
    ensures
        exists|lw: int, dw: int|
            {
                &&& lw >= LINE_W_FLOOR as int
                &&& dw >= DIR_W_FLOOR as int
                &&& #[trigger] labels_bounded(groups@, groups@.len() as int, 0, lw, true)
                &&& #[trigger] labels_bounded(groups@, groups@.len() as int, 0, dw, false)
                &&& {
                    let content = tui_content_spec(
                        groups@.map_values(|g: StationGroup| g@),
                        now as int,
                        offset_secs as int,
                        lw,
                        dw,
                    );
                    let panel_len = if snapshot@.len() <= rows as int / 4 {
                        snapshot@.len() as int
                    } else {
                        rows as int / 4
                    };
                    &&& r@.len() == content.len() + panel_len
                    &&& views_of(r@).take(content.len() as int) == content
                    &&& forall|i: int|
                        0 <= i < panel_len ==> width_prefix(
                            (#[trigger] r@[content.len() + i])@,
                            snapshot@[snapshot@.len() - panel_len + i]@,
                            cols as int,
                        )
                }
            },
{
    let (lw, dw) = column_widths(groups);
    let mut r = tui_content_lines(groups, now, offset_secs, lw, dw);
    let ghost content = tui_content_spec(
        groups@.map_values(|g: StationGroup| g@),
        now as int,
        offset_secs as int,
        lw as int,
        dw as int,
    );
    let panel = log_panel_lines(snapshot, (rows / 4) as usize, cols as usize);
    let ghost content_vec = r@;
    let mut i: usize = 0;
    let n = panel.len();
    while i < n
        invariant
            i <= n,
            n == panel@.len(),
            r@ == content_vec + panel@.take(i as int),
        decreases n - i,
    {
        let line = panel[i].clone();
        proof {
            assert(line@ == panel@[i as int]@);
        }
        r.push(line);
        proof {
            assert(r@ =~= content_vec + panel@.take(i + 1));
        }
        i += 1;
    }
    proof {
        assert(panel@.take(n as int) =~= panel@);
        assert(views_of(content_vec) == content);
        assert(views_of(r@).take(content.len() as int) =~= content) by {
            assert(r@ == content_vec + panel@);
            assert(views_of(r@) =~= views_of(content_vec) + views_of(panel@));
        }
        assert forall|i2: int|
            0 <= i2 < panel@.len() implies width_prefix(
            (#[trigger] r@[content.len() + i2])@,
            snapshot@[snapshot@.len() - panel@.len() + i2]@,
            cols as int,
        ) by {
            assert(r@[content.len() + i2] == panel@[i2]);
        }
    }
    r
}

} // verus!

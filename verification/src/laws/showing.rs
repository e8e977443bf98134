//! Promises on what the views show, and where.

use crate::laws::writing::{is_distance, law_countdown};
use crate::layout::{
    divisible, extent, first_share, head, inside, tail, Area, Constraint, Direction, Edges,
};
use crate::logs::LogLine;
use crate::station::{Job, Station, StationStatus};
use crate::text::{decimal, explicit_decimal, left_aligned, right_aligned, signed_decimal, Color};
use crate::time::{chrono_display, chrono_format, gap, Timestamp};
use crate::ui::{
    body, column_shows, drawable, left_side, log_side, logs_shown, ready, right_shows, right_side,
    scene_shows, Column, DrawError, Scene, UiView,
};
use crate::views::{
    blank_lines, future_jobs_lines, future_jobs_text, listed_job_text, listed_jobs,
    listed_jobs_text, log_edges, log_line_text, log_text, lower, map_layers, next_job_lines,
    next_job_text, nothing_text, panel_text, passing, polar_plot, satellite_lines, satellite_text,
    station_lines, station_text, status_name, upper, zipped, LogView, MapLayer, MapView, Mark, Part,
    Spectrum,
};
use vstd::prelude::*;

verus! {

/// An area holds the cells from its corner on, as many as it is wide and high. All
/// of them have coordinates.
pub proof fn law_areas(area: Area, x: int, y: int)
    ensures
        area.covers(x, y) <==> area.x <= x < area.x + area.width && area.y <= y < area.y
            + area.height,
        area.wf() <==> area.x + area.width <= 65_535 && area.y + area.height <= 65_535,
        crate::layout::corners(area) == (area.x, area.y, area.width, area.height),
{
}

/// A station can be shown if both times of each of its jobs lie within the
/// calendar.
pub proof fn law_stations(station: Station)
    ensures
        station.wf() <==> forall|i: int|
            0 <= i < station.jobs@.len() ==> (#[trigger] station.jobs@[i]).start.wf()
                && station.jobs@[i].end.wf(),
{
    if station.wf() {
        assert forall|i: int| 0 <= i < station.jobs@.len() implies (
        #[trigger] station.jobs@[i]).start.wf() && station.jobs@[i].end.wf() by {
            assert(station.jobs@[i].wf());
        }
    }
}

/// A panel shows its spans, each with its text and its colour.
pub proof fn law_panels(panel: crate::views::Panel)
    ensures
        panel_text(panel).len() == panel.spans@.len(),
        forall|i: int|
            0 <= i < panel.spans@.len() ==> #[trigger] panel_text(panel)[i] == (
                panel.spans@[i].text@,
                panel.spans@[i].color,
            ),
{
}

/// A label in cyan.
pub open spec fn label(text: Seq<char>) -> (Seq<char>, Color) {
    (text, Color::Cyan)
}

/// A value in white at the right end of nineteen columns, before `after`.
pub open spec fn value(text: Seq<char>, after: Seq<char>) -> (Seq<char>, Color) {
    (right_aligned(text, 19) + after, Color::White)
}

/// A value in white at the right end of nineteen columns.
pub open spec fn bare(text: Seq<char>) -> (Seq<char>, Color) {
    (right_aligned(text, 19), Color::White)
}

/// A unit in light green.
pub open spec fn unit(text: Seq<char>) -> (Seq<char>, Color) {
    (text, Color::LightGreen)
}

/// How the job view writes a moment.
pub open spec fn date(t: Timestamp) -> Seq<char> {
    chrono_format(t.secs, t.nanos, "%Y-%m-%d %H:%M:%S"@)
}

/// The clock of the next job shows how far now is from its start, before, at and
/// after it: the whole minutes with their sign and the whole seconds of that
/// distance. It is green exactly from the start on. What comes before the id does
/// not depend on anything else of the job.
pub proof fn law_next_job_clock(job: Job, now: Timestamp, minutes: int, seconds: nat, other: Job)
    requires
        job.wf(),
        now.wf(),
        is_distance(minutes, seconds as int, gap(job.start, now)),
        other.start == job.start,
    ensures
        ({
            let text = next_job_text(job, now);
            &&& text[0] == ("Next Job"@, Color::Yellow)
            &&& text[1].0 == "                "@ + (right_aligned(explicit_decimal(minutes), 4)
                + "'"@ + right_aligned(decimal(seconds), 2) + "\""@) + "\n\n"@
            &&& text[1].1 == Color::Green <==> gap(job.start, now) >= 0
            &&& text[1].1 == Color::DarkGray <==> gap(job.start, now) < 0
            &&& next_job_text(other, now)[0] == text[0]
            &&& next_job_text(other, now)[1] == text[1]
        }),
{
    law_countdown(job.start, now, minutes, seconds as int);
}

/// The clock of the next job turns green exactly at its start, where no leap
/// second is near.
pub proof fn law_next_job_turns_green(job: Job, now: Timestamp)
    requires
        job.start.nanos < 1_000_000_000,
        now.nanos < 1_000_000_000,
    ensures
        next_job_text(job, now)[1].1 == (if now.at_or_after(job.start) {
            Color::Green
        } else {
            Color::DarkGray
        }),
{
}

/// Below its clock the next job is shown with its own data, each behind its label
/// and before its unit.
pub proof fn law_next_job_data(job: Job, now: Timestamp)
    ensures
        next_job_text(job, now).skip(2) == seq![
            label("ID           "@),
            value(decimal(job.id as nat), "\n"@),
            label("Vessel       "@),
            value(job.vessel_name@, "\n"@),
            label("Start        "@),
            value(date(job.start), "\n"@),
            label("End          "@),
            value(date(job.end), "\n"@),
            label("Mode         "@),
            value(job.mode@, "\n"@),
            label("Frequency    "@),
            bare(job.frequency_mhz@),
            unit(" MHz\n\n"@),
            label("Rise         "@),
            bare(job.rise_azimuth@),
            unit(" °\n"@),
            label("Max          "@),
            bare(job.max_altitude@),
            unit(" °\n"@),
            label("Set          "@),
            bare(job.set_azimuth@),
            unit(" °\n"@),
        ],
        next_job_text(job, now).len() == 24,
{
    assert(next_job_text(job, now).skip(2) =~= seq![
        label("ID           "@),
        value(decimal(job.id as nat), "\n"@),
        label("Vessel       "@),
        value(job.vessel_name@, "\n"@),
        label("Start        "@),
        value(date(job.start), "\n"@),
        label("End          "@),
        value(date(job.end), "\n"@),
        label("Mode         "@),
        value(job.mode@, "\n"@),
        label("Frequency    "@),
        bare(job.frequency_mhz@),
        unit(" MHz\n\n"@),
        label("Rise         "@),
        bare(job.rise_azimuth@),
        unit(" °\n"@),
        label("Max          "@),
        bare(job.max_altitude@),
        unit(" °\n"@),
        label("Set          "@),
        bare(job.set_azimuth@),
        unit(" °\n"@),
    ]);
}

/// The satellite is shown with its own data, each behind its label and before its
/// unit.
pub proof fn law_satellite_data(job: Job)
    ensures
        satellite_text(job) == seq![
            ("Satellite\n\n"@, Color::Yellow),
            label("Orbit        "@),
            bare(signed_decimal(job.sat.orbit_nr as int)),
            unit("\n"@),
            label("Latitude     "@),
            bare(job.sat.lat_deg@),
            unit(" °\n"@),
            label("Longitude    "@),
            bare(job.sat.lon_deg@),
            unit(" °\n"@),
            label("Altitude     "@),
            bare(job.sat.alt_km@),
            unit(" km\n"@),
            label("Velocity     "@),
            bare(job.sat.vel_km_s@),
            unit(" km/s\n"@),
            label("Range        "@),
            bare(job.sat.range_km@),
            unit(" km\n"@),
            label("Range Rate   "@),
            bare(job.sat.range_rate_km_sec@),
            unit(" km/s\n"@),
        ],
{
    assert(satellite_text(job) =~= seq![
        ("Satellite\n\n"@, Color::Yellow),
        label("Orbit        "@),
        bare(signed_decimal(job.sat.orbit_nr as int)),
        unit("\n"@),
        label("Latitude     "@),
        bare(job.sat.lat_deg@),
        unit(" °\n"@),
        label("Longitude    "@),
        bare(job.sat.lon_deg@),
        unit(" °\n"@),
        label("Altitude     "@),
        bare(job.sat.alt_km@),
        unit(" km\n"@),
        label("Velocity     "@),
        bare(job.sat.vel_km_s@),
        unit(" km/s\n"@),
        label("Range        "@),
        bare(job.sat.range_km@),
        unit(" km\n"@),
        label("Range Rate   "@),
        bare(job.sat.range_rate_km_sec@),
        unit(" km/s\n"@),
    ]);
}

/// One for what is known.
pub open spec fn count(known: bool) -> int {
    if known {
        1
    } else {
        0
    }
}

/// The station is shown with its status, and with each measurement that is known
/// on a line of its own, in a fixed order; one that is not known takes no line.
pub proof fn law_station_data(station: Station)
    ensures
        ({
            let text = station_text(station);
            let info = station.sys_info;
            let temp = 3 + 3 * count(info.cpu_load is Some);
            let mem = temp + 3 * count(info.cpu_temp is Some);
            let end = mem + 3 * count(info.mem is Some);
            &&& text.len() == end
            &&& text[0] == ("Station Status\n\n"@, Color::Yellow)
            &&& text[1] == label("Observation  "@)
            &&& text[2] == (right_aligned(status_name(station.status), 19) + "\n"@, Color::Yellow)
            &&& info.cpu_load matches Some(load) ==> {
                &&& text[3] == label("CPU          "@)
                &&& text[4] == value(load@, " "@)
                &&& text[5] == unit("%\n"@)
            }
            &&& info.cpu_temp matches Some(degrees) ==> {
                &&& text[temp] == label("CPU Temp     "@)
                &&& text[temp + 1].0 =~= right_aligned(degrees@, 19)
                &&& text[temp + 1].1 == Color::White
                &&& text[temp + 2] == unit(" °C\n"@)
            }
            &&& info.mem matches Some(used) ==> {
                &&& text[mem] == label("Mem          "@)
                &&& text[mem + 1].0 =~= right_aligned(used@, 19)
                &&& text[mem + 1].1 == Color::White
                &&& text[mem + 2] == unit(" %\n"@)
            }
            &&& station_lines(station) == 4 + count(info.cpu_load is Some) + count(
                info.cpu_temp is Some,
            ) + count(info.mem is Some)
        }),
        status_name(StationStatus::Online) == "ONLINE"@,
        status_name(StationStatus::Offline) == "OFFLINE"@,
        status_name(StationStatus::Testing) == "TESTING"@,
{
    reveal_strlit("");
}

/// The rows of a view with and without a job, and what is shown without one.
pub proof fn law_rows_of_views(station: Station, title: Seq<char>)
    ensures
        next_job_lines(station) == if station.jobs@.len() > 0 {
            13int
        } else {
            4
        },
        satellite_lines(station) == if station.jobs@.len() > 0 {
            10int
        } else {
            4
        },
        nothing_text(title) == seq![(title, Color::Yellow), ("None\n"@, Color::Red)],
{
}

/// As many jobs are listed as fit below the title, two rows each: each listed one
/// fits, and one is left out only if it would not.
pub proof fn law_jobs_are_listed_as_far_as_they_fit(jobs: nat, height: int)
    requires
        height >= 0,
    ensures
        ({
            let n = listed_jobs(jobs, height);
            &&& 0 <= n <= jobs
            &&& n > 0 ==> 2 + 2 * n <= height
            &&& n < jobs ==> 2 + 2 * (n + 1) > height
            &&& future_jobs_lines(jobs, height) == 4 + 2 * n
        }),
{
}

/// The list shows the number of all jobs and, behind it, the first of them in
/// their order, nine spans each; it leaves one out only if two more rows would
/// not fit.
pub proof fn law_list_of_jobs(jobs: Seq<Job>, height: int, now: Timestamp, i: int, k: int)
    requires
        height >= 0,
    ensures
        ({
            let text = future_jobs_text(jobs, height, now);
            let n = (text.len() - 1) / 9;
            &&& text[0] == ("Future Jobs ("@ + decimal(jobs.len()) + ")\n\n"@, Color::Yellow)
            &&& jobs.len() == 0 ==> text.len() == 2 && text[1] == ("None\n"@, Color::Red)
            &&& jobs.len() > 0 ==> {
                &&& text.len() == 1 + 9 * n
                &&& 0 <= n <= jobs.len()
                &&& n > 0 ==> 2 + 2 * n <= height
                &&& n < jobs.len() ==> 2 + 2 * (n + 1) > height
                &&& future_jobs_lines(jobs.len(), height) == 4 + 2 * n
                &&& 0 <= i < n && 0 <= k < 9 ==> text[1 + 9 * i + k] == listed_job_text(
                    jobs[i],
                    now,
                )[k]
            }
        }),
{
    if jobs.len() > 0 {
        let n = listed_jobs(jobs.len(), height);
        law_jobs_are_listed_as_far_as_they_fit(jobs.len(), height);
        let first = jobs.take(n);
        lemma_listed(first, now, i, k);
        let text = future_jobs_text(jobs, height, now);
        assert(text.len() == 1 + 9 * n);
        assert((9 * n) / 9 == n);
        if 0 <= i < n && 0 <= k < 9 {
            assert(text[1 + 9 * i + k] == listed_jobs_text(first, now)[9 * i + k]);
        }
    }
}

proof fn lemma_listed(jobs: Seq<Job>, now: Timestamp, i: int, k: int)
    ensures
        listed_jobs_text(jobs, now).len() == 9 * jobs.len(),
        0 <= i < jobs.len() && 0 <= k < 9 ==> listed_jobs_text(jobs, now)[9 * i + k]
            == listed_job_text(jobs[i], now)[k],
    decreases jobs.len(),
{
    if jobs.len() > 0 {
        lemma_listed(jobs.drop_last(), now, i, k);
        if 0 <= i < jobs.len() - 1 {
            assert(jobs.drop_last()[i] == jobs[i]);
        }
    }
}

/// A listed job is shown in two lines with its own data and how far now is from
/// its start.
pub proof fn law_listed_job(job: Job, now: Timestamp, minutes: int, seconds: nat)
    requires
        job.wf(),
        now.wf(),
        is_distance(minutes, seconds as int, gap(job.start, now)),
    ensures
        listed_job_text(job, now) == seq![
            ("#"@ + left_aligned(decimal(job.id as nat), 7) + "─┬"@, Color::Cyan),
            (right_aligned(job.vessel_name@, 26), Color::Yellow),
            ("┐\n"@, Color::Cyan),
            (
                right_aligned(signed_decimal(minutes), 5) + "'"@ + right_aligned(
                    decimal(seconds),
                    2,
                ) + "\""@,
                Color::DarkGray,
            ),
            ("└"@, Color::Cyan),
            (right_aligned(job.mode@, 10) + " "@, Color::White),
            (right_aligned(job.frequency_mhz@, 11), Color::White),
            (" MHz"@, Color::LightGreen),
            ("┘\n"@, Color::Cyan),
        ],
{
    law_countdown(job.start, now, minutes, seconds as int);
}

/// The current orbit is one of so many equal shares of the track, and the first
/// of them; it is drawn in yellow above all others, which are drawn in cyan. The
/// footprint is drawn in green above both, if it is wanted.
pub proof fn law_current_orbit(len: usize, ground_tracks: usize, footprint: bool)
    requires
        ground_tracks > 0,
    ensures
        ({
            let layers = map_layers(len, ground_tracks, footprint);
            &&& layers.len() == 2 + count(footprint)
            &&& layers[1] matches MapLayer::Track(current) && {
                &&& current.from == 0
                &&& current.color == Color::Yellow
                &&& current.to * ground_tracks <= len
                &&& len < (current.to + 1) * ground_tracks
                &&& layers[0] == MapLayer::Track(
                    Part { from: current.to, to: len, color: Color::Cyan },
                )
            }
            &&& footprint ==> layers[2] == MapLayer::Footprint(Color::Green)
        }),
{
    let a = len as int;
    let b = ground_tracks as int;
    vstd::arithmetic::div_mod::lemma_fundamental_div_mod(a, b);
    vstd::arithmetic::div_mod::lemma_mod_bound(a, b);
    vstd::arithmetic::div_mod::lemma_div_pos_is_pos(a, b);
    let c = a / b;
    assert(c * b <= a < (c + 1) * b) by (nonlinear_arith)
        requires
            a == b * c + a % b,
            0 <= a % b < b,
    ;
    assert(c <= a) by (nonlinear_arith)
        requires
            c * b <= a,
            b >= 1,
            c >= 0,
    ;
    let layers = map_layers(len, ground_tracks, footprint);
    let current = Part { from: 0, to: c as usize, color: Color::Yellow };
    assert(layers[1] == MapLayer::Track(current));
}

/// All of a track across the sky is plotted in cyan. If it has a point, its first
/// is marked in green and its last in red. The satellite is marked from the start
/// of the pass to its end, both included.
pub proof fn law_polar_plot(area: Area, job: Job, now: Timestamp)
    ensures
        ({
            let plot = polar_plot(area, job.polar_track_len, passing(job, now));
            &&& plot.area == area
            &&& plot.track == Part { from: 0, to: job.polar_track_len, color: Color::Cyan }
            &&& plot.rise is Some <==> job.polar_track_len > 0
            &&& plot.set is Some <==> job.polar_track_len > 0
            &&& plot.rise matches Some(mark) ==> mark == Mark { point: 0, color: Color::Green }
            &&& plot.set matches Some(mark) ==> mark.point + 1 == job.polar_track_len && mark.color
                == Color::Red
            &&& plot.in_pass <==> now.at_or_after(job.start) && job.end.at_or_after(now)
        }),
        now == job.start && job.end.at_or_after(job.start) ==> passing(job, now),
        now == job.end && job.end.at_or_after(job.start) ==> passing(job, now),
{
}

/// A view takes the first rows of what is left, as many as it wants and there
/// are, and leaves those below.
pub proof fn law_rows_are_taken_from_the_top(rect: Area, lines: int, x: int, y: int)
    requires
        rect.wf(),
        lines >= 0,
    ensures
        upper(rect, lines).covers(x, y) <==> rect.covers(x, y) && y < rect.y + lines,
        lower(rect, lines).covers(x, y) <==> rect.covers(x, y) && y >= rect.y + lines,
        upper(rect, lines).x == rect.x && upper(rect, lines).y == rect.y && upper(rect, lines).width
            == rect.width,
        lower(rect, lines).x == rect.x && lower(rect, lines).width == rect.width,
        upper(rect, lines).height + lower(rect, lines).height == rect.height,
        lower(rect, lines).y == rect.y + upper(rect, lines).height,
        lines <= rect.height ==> upper(rect, lines).height == lines,
        lines > rect.height ==> upper(rect, lines).height == rect.height,
{
}

/// A length is given from its own end as far as there is room, a percentage is
/// rounded down, and the other part takes the rest.
pub proof fn law_shares(direction: Direction, area: Area, n: u16, percent: u16)
    requires
        area.wf(),
    ensures
        ({
            let whole = extent(direction, area) as int;
            let fixed = Constraint::Length(n);
            let rest = Constraint::Min(0);
            let share = Constraint::Percentage(percent);
            &&& direction == Direction::Horizontal ==> whole == area.width
            &&& direction == Direction::Vertical ==> whole == area.height
            &&& divisible(fixed, rest, whole)
            &&& divisible(rest, fixed, whole)
            &&& n <= whole ==> first_share(fixed, rest, whole) == n && first_share(
                rest,
                fixed,
                whole,
            ) == whole - n
            &&& n > whole ==> first_share(fixed, rest, whole) == whole && first_share(
                rest,
                fixed,
                whole,
            ) == 0
            &&& divisible(share, rest, whole) <==> percent <= 100 && percent * whole <= u16::MAX
            &&& divisible(share, rest, whole) ==> {
                let part = first_share(share, rest, whole);
                100 * part <= percent * whole < 100 * part + 100
            }
        }),
{
}

/// The two parts of a division lie behind each other in its direction.
pub proof fn law_parts(direction: Direction, area: Area, n: int, x: int, y: int)
    requires
        area.wf(),
        0 <= n <= extent(direction, area),
    ensures
        head(direction, area, n).covers(x, y) <==> area.covers(x, y) && (match direction {
            Direction::Horizontal => x < area.x + n,
            Direction::Vertical => y < area.y + n,
        }),
        tail(direction, area, n).covers(x, y) <==> area.covers(x, y) && (match direction {
            Direction::Horizontal => x >= area.x + n,
            Direction::Vertical => y >= area.y + n,
        }),
{
}

/// A titled block leaves for its content the cells that are neither in its first
/// row nor on one of its edges.
pub proof fn law_inside(edges: Edges, area: Area, x: int, y: int)
    requires
        area.wf(),
        area.width >= 2,
        area.height >= 2,
    ensures
        inside(edges, area).covers(x, y) <==> {
            &&& area.covers(x, y)
            &&& y > area.y
            &&& edges.bottom ==> y < area.y + area.height - 1
            &&& edges.left ==> x > area.x
            &&& edges.right ==> x < area.x + area.width - 1
        },
        log_edges().top && log_edges().left && log_edges().right && !log_edges().bottom,
{
}

/// The bar takes the first two rows of the screen, the column the first forty
/// columns below it and the map the others; the log window lies over the last ten
/// rows.
pub proof fn law_places_on_the_screen(size: Area, x: int, y: int)
    requires
        size.wf(),
    ensures
        body(size).covers(x, y) <==> size.covers(x, y) && y >= size.y + 2,
        left_side(size).covers(x, y) <==> size.covers(x, y) && y >= size.y + 2 && x < size.x + 40,
        right_side(size).covers(x, y) <==> size.covers(x, y) && y >= size.y + 2 && x >= size.x + 40,
        log_side(size).covers(x, y) <==> size.covers(x, y) && y >= size.y + size.height - 10,
        body(size).wf(),
        left_side(size).wf(),
        right_side(size).wf(),
        log_side(size).wf(),
{
}

/// `next` lies directly below `area`, is as wide, and takes `lines` rows or what is
/// left above the row `end`.
pub open spec fn follows(area: Area, next: Area, lines: int, end: int) -> bool {
    &&& next.x == area.x
    &&& next.width == area.width
    &&& next.y == area.y + area.height
    &&& next.y + lines <= end ==> next.height == lines
    &&& next.y + lines > end ==> next.y + next.height == end
}

/// The views of the column stand one below the other from its top, each with its
/// rows as far as there is room: the station, the next job, its plot if there is
/// a job, the satellite, the list of jobs, and what is left.
pub proof fn law_views_stand_below_each_other(
    views: Column,
    column: Area,
    station: Station,
    now: Timestamp,
)
    requires
        column.wf(),
        column_shows(views, column, station, now),
    ensures
        ({
            let end = column.y + column.height;
            let some = station.jobs@.len() > 0;
            let above = Area { height: 0, ..column };
            let before = if some {
                views.polar->0.area
            } else {
                views.next_job.area
            };
            let list = views.future_jobs.area;
            let rows = future_jobs_lines(
                station.jobs@.len(),
                end - (views.satellite.area.y + views.satellite.area.height),
            );
            &&& follows(above, views.station.area, station_lines(station), end)
            &&& follows(
                views.station.area,
                views.next_job.area,
                if some {
                    13
                } else {
                    4
                },
                end,
            )
            &&& views.polar is Some <==> some
            &&& some ==> follows(
                views.next_job.area,
                views.polar->0.area,
                column.width as int / 2,
                end,
            )
            &&& follows(
                before,
                views.satellite.area,
                if some {
                    10
                } else {
                    4
                },
                end,
            )
            &&& follows(views.satellite.area, list, rows, end)
            &&& follows(list, views.filler, end - (list.y + list.height), end)
        }),
{
}

/// The views of the column show the given station at the given moment, and its
/// first job as the next one.
pub proof fn law_views_show_the_station(
    views: Column,
    column: Area,
    station: Station,
    now: Timestamp,
)
    requires
        column.wf(),
        column_shows(views, column, station, now),
    ensures
        panel_text(views.station) == station_text(station),
        station.jobs@.len() > 0 ==> {
            let job = station.jobs@[0];
            &&& panel_text(views.next_job) == next_job_text(job, now)
            &&& panel_text(views.satellite) == satellite_text(job)
            &&& views.polar->0 == polar_plot(
                views.polar->0.area,
                job.polar_track_len,
                passing(job, now),
            )
        },
        station.jobs@.len() == 0 ==> {
            &&& panel_text(views.next_job) == nothing_text("Next Job\n\n"@)
            &&& panel_text(views.satellite) == nothing_text("Satellite\n\n"@)
        },
        panel_text(views.future_jobs) == future_jobs_text(
            station.jobs@,
            column.y + column.height - (views.satellite.area.y + views.satellite.area.height),
            now,
        ),
{
}

/// The map fills the right side unless there is a line of a waterfall; then it
/// takes the upper half, rounded down, and the spectrum of the latest line the
/// rest. The map shows the first job.
pub proof fn law_map_and_spectrum(
    v: UiView,
    map: MapView,
    spectrum: Option<Spectrum>,
    right: Area,
    station: Station,
    i: int,
)
    requires
        right.wf(),
        right_shows(v, map, spectrum, right, station),
    ensures
        spectrum is Some <==> v.data.len() > 0,
        spectrum is None ==> map.area == right,
        spectrum matches Some(chart) ==> {
            let samples = v.data[v.data.len() - 1].1;
            &&& map.area.x == right.x && map.area.y == right.y && map.area.width == right.width
            &&& 2 * map.area.height <= right.height < 2 * map.area.height + 2
            &&& chart.area.x == right.x && chart.area.width == right.width
            &&& chart.area.y == right.y + map.area.height
            &&& chart.area.y + chart.area.height == right.y + right.height
            &&& v.frequencies.len() > 0 ==> chart.bounds == (
                v.frequencies[0],
                v.frequencies[v.frequencies.len() - 1],
            )
            &&& chart.points@.len() <= v.frequencies.len()
            &&& chart.points@.len() <= samples.len()
            &&& chart.points@.len() == v.frequencies.len() || chart.points@.len() == samples.len()
            &&& 0 <= i < chart.points@.len() ==> chart.points@[i] == (v.frequencies[i], samples[i])
        },
        map.track is Some <==> station.jobs@.len() > 0,
        map.track matches Some(track) ==> {
            let job = station.jobs@[0];
            &&& track.label@ == "■─"@ + job.vessel_name@
            &&& track.layers@ == map_layers(
                job.ground_track_len,
                v.ground_track_num as usize,
                v.sat_footprint,
            )
        },
{
}

/// Frequencies and samples are paired in their order, as far as there are both.
pub proof fn law_zipped(frequencies: Seq<u32>, samples: Seq<u32>, i: int)
    ensures
        ({
            let pairs = zipped(frequencies, samples);
            &&& pairs.len() <= frequencies.len()
            &&& pairs.len() <= samples.len()
            &&& pairs.len() == frequencies.len() || pairs.len() == samples.len()
            &&& 0 <= i < pairs.len() ==> pairs[i] == (frequencies[i], samples[i])
        }),
{
}

/// Each shown message takes three spans: its moment, its level and its text, in
/// the order of the messages.
pub proof fn law_log_text(lines: Seq<LogLine>, i: int)
    ensures
        log_text(lines).len() == 3 * lines.len(),
        0 <= i < lines.len() ==> {
            let line = lines[i];
            let text = log_text(lines);
            &&& text[3 * i] == (chrono_display(line.time.secs, line.time.nanos), Color::Plain)
            &&& text[3 * i + 1].0 == " "@ + left_aligned(
                crate::event::level_name(line.level),
                8,
            ) + " "@
            &&& text[3 * i + 1].1 == Color::Red <==> line.level == crate::event::Level::Error
            &&& text[3 * i + 1].1 == Color::Yellow <==> line.level == crate::event::Level::Warn
            &&& text[3 * i + 1].1 == Color::Plain <==> line.level != crate::event::Level::Error
                && line.level != crate::event::Level::Warn
            &&& text[3 * i + 2] == (line.message@ + "\n"@, Color::Plain)
        },
    decreases lines.len(),
{
    if lines.len() > 0 {
        law_log_text(lines.drop_last(), i);
        if 0 <= i < lines.len() - 1 {
            assert(lines.drop_last()[i] == lines[i]);
        }
    }
}

/// The log window is shown exactly if it is wanted. It shows the last nine
/// messages, or all if there are fewer, the newest last, and hides what is behind
/// it by as many blank lines of its inner width as it has inner rows.
pub proof fn law_log_window(v: UiView, logs: Option<LogView>, area: Area, i: int)
    requires
        logs_shown(v, logs, area),
    ensures
        logs is Some <==> v.show_logs,
        logs matches Some(view) ==> {
            let text = crate::text::shown(view.spans@);
            let n: int = if v.logs.len() < 9 {
                v.logs.len() as int
            } else {
                9
            };
            let back = crate::text::shown(view.background@);
            &&& view.area == area
            &&& view.inner == inside(log_edges(), area)
            &&& text.len() == 3 * n
            &&& 0 <= i < n ==> {
                let line = v.logs[v.logs.len() - n + i];
                &&& text[3 * i] == log_line_text(line)[0]
                &&& text[3 * i + 1] == log_line_text(line)[1]
                &&& text[3 * i + 2] == log_line_text(line)[2]
                &&& text[3 * i + 2].0 == line.message@ + "\n"@
            }
            &&& back.len() == view.inner.height
            &&& 0 <= i < back.len() ==> back[i].0 == crate::text::blanks(
                view.inner.width as nat,
            ) + "\n"@
        },
{
    if let Some(view) = logs {
        let lines = crate::logs::kept(v.logs, 9);
        law_log_text(lines, i);
        if 0 <= i < lines.len() {
            law_log_text(seq![lines[i]], 0);
        }
    }
}

/// A blank background has a line for each row, as wide as the area.
pub proof fn law_blank_lines(inner: Area, i: int)
    ensures
        blank_lines(inner).len() == inner.height,
        0 <= i < inner.height ==> blank_lines(inner)[i].0.len() == inner.width + 1
            && blank_lines(inner)[i].0.last() == '\n' && blank_lines(inner)[i].1 == Color::Plain,
{
    reveal_strlit("\n");
}

/// A screen is drawn in the size of the terminal once the terminal has that size,
/// and never otherwise.
pub proof fn law_ready(v: UiView, size: Option<Area>, resized: bool)
    ensures
        size is None <==> ready(v, size, resized) == Err::<Area, DrawError>(DrawError::Size),
        ready(v, size, resized) == Err::<Area, DrawError>(DrawError::Resize) <==> (size matches
            Some(area) && area != v.size && !resized),
        ready(v, size, resized) matches Ok(area) ==> size == Some(area) && (area == v.size
            || resized),
        size matches Some(area) && (area == v.size || resized) ==> ready(v, size, resized) is Ok,
{
}

/// A screen can be drawn unless a job would be shown without orbits to plot, or a
/// waterfall without frequencies or on a screen too high for halving.
pub proof fn law_drawable(v: UiView, size: Area, station: Station)
    requires
        size.wf(),
    ensures
        drawable(v, size, station) <==> {
            &&& !(station.jobs@.len() > 0 && v.ground_track_num == 0)
            &&& !(v.data.len() > 0 && v.frequencies.len() == 0)
            &&& !(v.data.len() > 0 && size.height > 1312)
        },
{
}

/// A drawn screen has all its views in their places: the bar in the first two
/// rows, and the others where the screen is shared among them.
pub proof fn law_scene(v: UiView, scene: Scene, size: Area, station: Station, now: Timestamp)
    requires
        size.wf(),
        scene_shows(v, scene, size, station, now),
    ensures
        scene.info_bar.x == size.x && scene.info_bar.y == size.y && scene.info_bar.width
            == size.width,
        scene.info_bar.height == (if size.height < 2 {
            size.height
        } else {
            2
        }),
        column_shows(scene.column, left_side(size), station, now),
        right_shows(v, scene.map, scene.spectrum, right_side(size), station),
        logs_shown(v, scene.logs, log_side(size)),
{
}

} // verus!

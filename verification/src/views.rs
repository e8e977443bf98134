//! What the views of the screen show, and how much of the screen each takes.

use crate::event::Level;
use crate::layout::{cut_rows, inner_area, Area, Edges};
use crate::logs::{LogLine, LogQueue};
use crate::station::{Job, Station, StationStatus};
use crate::text::{
    align_left, align_right, blank_text, decimal_text, push_span, push_str, signed_decimal_text,
    Color, Span,
};
use crate::time::{countdown, date_text, moment_text, plain_clock, signed_clock, Timestamp};
use vstd::prelude::*;

verus! {

/// A view of text in its place.
#[derive(Debug)]
pub struct Panel {
    pub area: Area,
    pub spans: Vec<Span>,
}

/// What a panel shows.
pub open spec fn panel_text(panel: Panel) -> Seq<(Seq<char>, Color)> {
    crate::text::shown(panel.spans@)
}

/// The first `lines` rows of `rect`, as far as it has them.
pub open spec fn upper(rect: Area, lines: int) -> Area {
    crate::layout::head(
        crate::layout::Direction::Vertical,
        rect,
        crate::layout::least(lines, rect.height as int),
    )
}

/// What is left of `rect` below its first `lines` rows.
pub open spec fn lower(rect: Area, lines: int) -> Area {
    crate::layout::tail(
        crate::layout::Direction::Vertical,
        rect,
        crate::layout::least(lines, rect.height as int),
    )
}

/// Puts `spans` into the first `lines` rows of `rect`, and returns the rest too.
fn place(spans: Vec<Span>, lines: u16, rect: Area) -> (r: (Panel, Area))
    requires
        rect.wf(),
    ensures
        r.0.spans == spans,
        r.0.area == upper(rect, lines as int),
        r.1 == lower(rect, lines as int),
        r.1.wf(),
{
    let (area, rest) = cut_rows(rect, lines);
    (Panel { area, spans }, rest)
}

/// A label and its value on a line.
pub open spec fn pair(label: Seq<char>, value: Seq<char>) -> Seq<(Seq<char>, Color)> {
    seq![(label, Color::Cyan), (crate::text::right_aligned(value, 19) + "\n"@, Color::White)]
}

/// A label, its value and the unit, which ends the line.
pub open spec fn measure(label: Seq<char>, value: Seq<char>, unit: Seq<char>) -> Seq<
    (Seq<char>, Color),
> {
    seq![
        (label, Color::Cyan),
        (crate::text::right_aligned(value, 19), Color::White),
        (unit, Color::LightGreen),
    ]
}

fn push_pair(spans: &mut Vec<Span>, label: &str, value: &str)
    ensures
        crate::text::shown(final(spans)@) == crate::text::shown(old(spans)@) + pair(
            label@,
            value@,
        ),
{
    let ghost before = crate::text::shown(spans@);
    push_str(spans, label, Color::Cyan);
    let mut text = align_right(value, 19);
    text.append("\n");
    push_span(spans, text, Color::White);
    assert(crate::text::shown(spans@) =~= before + pair(label@, value@));
}

fn push_measure(spans: &mut Vec<Span>, label: &str, value: &str, unit: &str)
    ensures
        crate::text::shown(final(spans)@) == crate::text::shown(old(spans)@) + measure(
            label@,
            value@,
            unit@,
        ),
{
    let ghost before = crate::text::shown(spans@);
    push_str(spans, label, Color::Cyan);
    push_span(spans, align_right(value, 19), Color::White);
    push_str(spans, unit, Color::LightGreen);
    assert(crate::text::shown(spans@) =~= before + measure(label@, value@, unit@));
}

/// The word for a status.
pub open spec fn status_name(status: StationStatus) -> Seq<char> {
    match status {
        StationStatus::Online => "ONLINE"@,
        StationStatus::Offline => "OFFLINE"@,
        StationStatus::Testing => "TESTING"@,
    }
}

/// The line of a measurement that may be missing.
pub open spec fn measured(
    label: Seq<char>,
    value: Option<String>,
    gap: Seq<char>,
    unit: Seq<char>,
) -> Seq<(Seq<char>, Color)> {
    match value {
        Some(v) => seq![
            (label, Color::Cyan),
            (crate::text::right_aligned(v@, 19) + gap, Color::White),
            (unit, Color::LightGreen),
        ],
        None => Seq::empty(),
    }
}

/// What the station view shows: the status, and what is known of the machine.
pub open spec fn station_text(station: Station) -> Seq<(Seq<char>, Color)> {
    seq![
        ("Station Status\n\n"@, Color::Yellow),
        ("Observation  "@, Color::Cyan),
        (
            crate::text::right_aligned(status_name(station.status), 19) + "\n"@,
            Color::Yellow,
        ),
    ] + measured("CPU          "@, station.sys_info.cpu_load, " "@, "%\n"@) + measured(
        "CPU Temp     "@,
        station.sys_info.cpu_temp,
        ""@,
        " °C\n"@,
    ) + measured("Mem          "@, station.sys_info.mem, ""@, " %\n"@)
}

/// One for a value that is known.
pub open spec fn known(value: Option<String>) -> int {
    if value is Some {
        1
    } else {
        0
    }
}

/// The rows of the station view.
pub open spec fn station_lines(station: Station) -> int {
    4 + known(station.sys_info.cpu_load) + known(station.sys_info.cpu_temp) + known(
        station.sys_info.mem,
    )
}

/// Appends the line of a measurement, if there is one, and counts it.
fn push_measured(
    spans: &mut Vec<Span>,
    label: &str,
    value: &Option<String>,
    gap: &str,
    unit: &str,
) -> (r: u16)
    ensures
        crate::text::shown(final(spans)@) == crate::text::shown(old(spans)@) + measured(
            label@,
            *value,
            gap@,
            unit@,
        ),
        r == known(*value),
{
    let ghost before = crate::text::shown(spans@);
    match value {
        Some(v) => {
            push_str(spans, label, Color::Cyan);
            let mut text = align_right(v.as_str(), 19);
            text.append(gap);
            push_span(spans, text, Color::White);
            push_str(spans, unit, Color::LightGreen);
            assert(crate::text::shown(spans@) =~= before + measured(label@, *value, gap@, unit@));
            1
        },
        None => {
            assert(crate::text::shown(spans@) =~= before + measured(label@, *value, gap@, unit@));
            0
        },
    }
}

/// The view of the station, at the top of `rect`, and what it leaves.
pub fn render_station_view(rect: Area, station: &Station) -> (r: (Panel, Area))
    requires
        rect.wf(),
    ensures
        panel_text(r.0) == station_text(*station),
        r.0.area == upper(rect, station_lines(*station)),
        r.1 == lower(rect, station_lines(*station)),
        r.1.wf(),
{
    let status = match station.status {
        StationStatus::Online => "ONLINE",
        StationStatus::Offline => "OFFLINE",
        StationStatus::Testing => "TESTING",
    };
    let mut spans: Vec<Span> = Vec::new();
    push_str(&mut spans, "Station Status\n\n", Color::Yellow);
    push_str(&mut spans, "Observation  ", Color::Cyan);
    let mut text = align_right(status, 19);
    text.append("\n");
    push_span(&mut spans, text, Color::Yellow);
    assert(crate::text::shown(spans@) =~= seq![
        ("Station Status\n\n"@, Color::Yellow),
        ("Observation  "@, Color::Cyan),
        (
            crate::text::right_aligned(status_name(station.status), 19) + "\n"@,
            Color::Yellow,
        ),
    ]);
    let info = &station.sys_info;
    let cpu: u16 = push_measured(&mut spans, "CPU          ", &info.cpu_load, " ", "%\n");
    let temp: u16 = push_measured(&mut spans, "CPU Temp     ", &info.cpu_temp, "", " °C\n");
    let mem: u16 = push_measured(&mut spans, "Mem          ", &info.mem, "", " %\n");
    place(spans, 4 + cpu + temp + mem, rect)
}

/// What the views show where there is no job.
pub open spec fn nothing_text(title: Seq<char>) -> Seq<(Seq<char>, Color)> {
    seq![(title, Color::Yellow), ("None\n"@, Color::Red)]
}

/// What the view of the next job shows at `now`.
pub open spec fn next_job_text(job: Job, now: Timestamp) -> Seq<(Seq<char>, Color)> {
    let count = crate::time::countdown_spec(job.start, now);
    let clock = crate::time::clock(
        crate::text::right_aligned(crate::text::explicit_decimal(count.minutes as int), 4),
        count.seconds as nat,
    );
    seq![
        ("Next Job"@, Color::Yellow),
        (
            "                "@ + clock + "\n\n"@,
            if count.reached {
                Color::Green
            } else {
                Color::DarkGray
            },
        ),
    ] + pair("ID           "@, crate::text::decimal(job.id as nat)) + pair(
        "Vessel       "@,
        job.vessel_name@,
    ) + pair("Start        "@, date_spec(job.start)) + pair("End          "@, date_spec(job.end))
        + pair("Mode         "@, job.mode@) + measure(
        "Frequency    "@,
        job.frequency_mhz@,
        " MHz\n\n"@,
    ) + measure("Rise         "@, job.rise_azimuth@, " °\n"@) + measure(
        "Max          "@,
        job.max_altitude@,
        " °\n"@,
    ) + measure("Set          "@, job.set_azimuth@, " °\n"@)
}

/// The date and time of day of `t`.
pub open spec fn date_spec(t: Timestamp) -> Seq<char> {
    crate::time::chrono_format(t.secs, t.nanos, crate::time::date_pattern())
}

/// The rows of the view of the next job.
pub open spec fn next_job_lines(station: Station) -> int {
    if station.jobs@.len() > 0 {
        13
    } else {
        4
    }
}

/// The text of the next job.
fn next_job_spans(job: &Job, now: Timestamp) -> (spans: Vec<Span>)
    requires
        job.wf(),
        now.wf(),
    ensures
        crate::text::shown(spans@) == next_job_text(*job, now),
{
    let count = countdown(job.start, now);
    let mut spans: Vec<Span> = Vec::new();
    push_str(&mut spans, "Next Job", Color::Yellow);
    let mut clock = "                ".to_owned();
    clock.append(signed_clock(count, 4).as_str());
    clock.append("\n\n");
    push_span(
        &mut spans,
        clock,
        if count.reached {
            Color::Green
        } else {
            Color::DarkGray
        },
    );
    let ghost head = crate::text::shown(spans@);
    push_pair(&mut spans, "ID           ", decimal_text(job.id).as_str());
    push_pair(&mut spans, "Vessel       ", job.vessel_name.as_str());
    push_pair(&mut spans, "Start        ", date_text(job.start).as_str());
    push_pair(&mut spans, "End          ", date_text(job.end).as_str());
    push_pair(&mut spans, "Mode         ", job.mode.as_str());
    push_measure(&mut spans, "Frequency    ", job.frequency_mhz.as_str(), " MHz\n\n");
    push_measure(&mut spans, "Rise         ", job.rise_azimuth.as_str(), " °\n");
    push_measure(&mut spans, "Max          ", job.max_altitude.as_str(), " °\n");
    push_measure(&mut spans, "Set          ", job.set_azimuth.as_str(), " °\n");
    assert(head =~= seq![
        ("Next Job"@, Color::Yellow),
        (
            clock@,
            if count.reached {
                Color::Green
            } else {
                Color::DarkGray
            },
        ),
    ]);
    spans
}

/// The view of the next job, at the top of `rect`, and what it leaves.
pub fn render_next_job_view(rect: Area, station: &Station, now: Timestamp) -> (r: (Panel, Area))
    requires
        rect.wf(),
        station.wf(),
        now.wf(),
    ensures
        panel_text(r.0) == (if station.jobs@.len() > 0 {
            next_job_text(station.jobs@[0], now)
        } else {
            nothing_text("Next Job\n\n"@)
        }),
        r.0.area == upper(rect, next_job_lines(*station)),
        r.1 == lower(rect, next_job_lines(*station)),
        r.1.wf(),
{
    if station.jobs.len() > 0 {
        let spans = next_job_spans(&station.jobs[0], now);
        place(spans, 13, rect)
    } else {
        let mut spans: Vec<Span> = Vec::new();
        push_str(&mut spans, "Next Job\n\n", Color::Yellow);
        push_str(&mut spans, "None\n", Color::Red);
        assert(crate::text::shown(spans@) =~= nothing_text("Next Job\n\n"@));
        place(spans, 4, rect)
    }
}

/// What the view of the satellite shows.
pub open spec fn satellite_text(job: Job) -> Seq<(Seq<char>, Color)> {
    seq![("Satellite\n\n"@, Color::Yellow)] + measure(
        "Orbit        "@,
        crate::text::signed_decimal(job.sat.orbit_nr as int),
        "\n"@,
    ) + measure("Latitude     "@, job.sat.lat_deg@, " °\n"@) + measure(
        "Longitude    "@,
        job.sat.lon_deg@,
        " °\n"@,
    ) + measure("Altitude     "@, job.sat.alt_km@, " km\n"@) + measure(
        "Velocity     "@,
        job.sat.vel_km_s@,
        " km/s\n"@,
    ) + measure("Range        "@, job.sat.range_km@, " km\n"@) + measure(
        "Range Rate   "@,
        job.sat.range_rate_km_sec@,
        " km/s\n"@,
    )
}

/// The rows of the view of the satellite.
pub open spec fn satellite_lines(station: Station) -> int {
    if station.jobs@.len() > 0 {
        10
    } else {
        4
    }
}

/// The view of the satellite of the next job, at the top of `rect`, and what it
/// leaves.
pub fn render_satellite_view(rect: Area, station: &Station) -> (r: (Panel, Area))
    requires
        rect.wf(),
    ensures
        panel_text(r.0) == (if station.jobs@.len() > 0 {
            satellite_text(station.jobs@[0])
        } else {
            nothing_text("Satellite\n\n"@)
        }),
        r.0.area == upper(rect, satellite_lines(*station)),
        r.1 == lower(rect, satellite_lines(*station)),
        r.1.wf(),
{
    let mut spans: Vec<Span> = Vec::new();
    push_str(&mut spans, "Satellite\n\n", Color::Yellow);
    assert(crate::text::shown(spans@) =~= seq![("Satellite\n\n"@, Color::Yellow)]);
    if station.jobs.len() == 0 {
        push_str(&mut spans, "None\n", Color::Red);
        assert(crate::text::shown(spans@) =~= nothing_text("Satellite\n\n"@));
        place(spans, 4, rect)
    } else {
        let sat = &station.jobs[0].sat;
        let orbit = signed_decimal_text(sat.orbit_nr);
        push_measure(&mut spans, "Orbit        ", orbit.as_str(), "\n");
        push_measure(&mut spans, "Latitude     ", sat.lat_deg.as_str(), " °\n");
        push_measure(&mut spans, "Longitude    ", sat.lon_deg.as_str(), " °\n");
        push_measure(&mut spans, "Altitude     ", sat.alt_km.as_str(), " km\n");
        push_measure(&mut spans, "Velocity     ", sat.vel_km_s.as_str(), " km/s\n");
        push_measure(&mut spans, "Range        ", sat.range_km.as_str(), " km\n");
        push_measure(&mut spans, "Range Rate   ", sat.range_rate_km_sec.as_str(), " km/s\n");
        place(spans, 10, rect)
    }
}

/// The two lines of a job in the list at `now`.
pub open spec fn listed_job_text(job: Job, now: Timestamp) -> Seq<(Seq<char>, Color)> {
    let count = crate::time::countdown_spec(job.start, now);
    seq![
        (
            "#"@ + crate::text::left_aligned(crate::text::decimal(job.id as nat), 7) + "─┬"@,
            Color::Cyan,
        ),
        (crate::text::right_aligned(job.vessel_name@, 26), Color::Yellow),
        ("┐\n"@, Color::Cyan),
        (
            crate::time::clock(
                crate::text::right_aligned(crate::text::signed_decimal(count.minutes as int), 5),
                count.seconds as nat,
            ),
            Color::DarkGray,
        ),
        ("└"@, Color::Cyan),
        (crate::text::right_aligned(job.mode@, 10) + " "@, Color::White),
        (crate::text::right_aligned(job.frequency_mhz@, 11), Color::White),
        (" MHz"@, Color::LightGreen),
        ("┘\n"@, Color::Cyan),
    ]
}

/// The lines of `jobs`, one after the other.
pub open spec fn listed_jobs_text(jobs: Seq<Job>, now: Timestamp) -> Seq<(Seq<char>, Color)>
    decreases jobs.len(),
{
    if jobs.len() == 0 {
        Seq::empty()
    } else {
        listed_jobs_text(jobs.drop_last(), now) + listed_job_text(jobs.last(), now)
    }
}

/// How many of `jobs` jobs the list shows in `height` rows: a job takes two,
/// and the title two more.
pub open spec fn listed_jobs(jobs: nat, height: int) -> int {
    let room = if height < 2 {
        0
    } else {
        (height - 2) / 2
    };
    crate::layout::least(jobs as int, room)
}

/// What the list of jobs shows at `now` in `height` rows.
pub open spec fn future_jobs_text(jobs: Seq<Job>, height: int, now: Timestamp) -> Seq<
    (Seq<char>, Color),
> {
    let title = ("Future Jobs ("@ + crate::text::decimal(jobs.len()) + ")\n\n"@, Color::Yellow);
    seq![title] + if jobs.len() == 0 {
        seq![("None\n"@, Color::Red)]
    } else {
        listed_jobs_text(jobs.take(listed_jobs(jobs.len(), height)), now)
    }
}

/// The rows of the list of jobs.
pub open spec fn future_jobs_lines(jobs: nat, height: int) -> int {
    4 + 2 * listed_jobs(jobs, height)
}

fn push_listed_job(spans: &mut Vec<Span>, job: &Job, now: Timestamp)
    requires
        job.wf(),
        now.wf(),
    ensures
        crate::text::shown(final(spans)@) == crate::text::shown(old(spans)@) + listed_job_text(
            *job,
            now,
        ),
{
    let ghost before = crate::text::shown(spans@);
    let count = countdown(job.start, now);
    let mut id = "#".to_owned();
    id.append(align_left(decimal_text(job.id).as_str(), 7).as_str());
    id.append("─┬");
    push_span(spans, id, Color::Cyan);
    push_span(spans, align_right(job.vessel_name.as_str(), 26), Color::Yellow);
    push_str(spans, "┐\n", Color::Cyan);
    push_span(spans, plain_clock(count, 5), Color::DarkGray);
    push_str(spans, "└", Color::Cyan);
    let mut mode = align_right(job.mode.as_str(), 10);
    mode.append(" ");
    push_span(spans, mode, Color::White);
    push_span(spans, align_right(job.frequency_mhz.as_str(), 11), Color::White);
    push_str(spans, " MHz", Color::LightGreen);
    push_str(spans, "┘\n", Color::Cyan);
    assert(crate::text::shown(spans@) =~= before + listed_job_text(*job, now));
}

/// The list of jobs, at the top of `rect`, and what it leaves.
pub fn render_future_jobs_view(rect: Area, station: &Station, now: Timestamp) -> (r: (Panel, Area))
    requires
        rect.wf(),
        station.wf(),
        now.wf(),
        future_jobs_lines(station.jobs@.len(), rect.height as int) <= u16::MAX,
    ensures
        panel_text(r.0) == future_jobs_text(station.jobs@, rect.height as int, now),
        r.0.area == upper(rect, future_jobs_lines(station.jobs@.len(), rect.height as int)),
        r.1 == lower(rect, future_jobs_lines(station.jobs@.len(), rect.height as int)),
        r.1.wf(),
{
    let jobs = &station.jobs;
    let mut spans: Vec<Span> = Vec::new();
    let mut title = "Future Jobs (".to_owned();
    title.append(decimal_text(jobs.len() as u64).as_str());
    title.append(")\n\n");
    let ghost first = (title@, Color::Yellow);
    push_span(&mut spans, title, Color::Yellow);
    assert(crate::text::shown(spans@) =~= seq![first]);
    if jobs.len() == 0 {
        push_str(&mut spans, "None\n", Color::Red);
        assert(crate::text::shown(spans@) =~= future_jobs_text(
            station.jobs@,
            rect.height as int,
            now,
        ));
        return place(spans, 4, rect);
    }
    let room: usize = if rect.height < 2 {
        0
    } else {
        ((rect.height - 2) / 2) as usize
    };
    let n: usize = if jobs.len() < room {
        jobs.len()
    } else {
        room
    };
    let mut i: usize = 0;
    let mut lines: u16 = 4;
    proof {
        assert(jobs@.take(0) =~= Seq::<Job>::empty());
        assert(crate::text::shown(spans@) =~= seq![first] + listed_jobs_text(jobs@.take(0), now));
    }
    while i < n
        invariant
            i <= n <= jobs@.len(),
            jobs == &station.jobs,
            station.wf(),
            now.wf(),
            lines == 4 + 2 * i,
            4 + 2 * n <= u16::MAX,
            crate::text::shown(spans@) == seq![first] + listed_jobs_text(
                jobs@.take(i as int),
                now,
            ),
        decreases n - i,
    {
        push_listed_job(&mut spans, &jobs[i], now);
        proof {
            let longer = jobs@.take(i + 1);
            assert(longer.drop_last() =~= jobs@.take(i as int));
            assert(longer.last() == jobs@[i as int]);
            assert(crate::text::shown(spans@) =~= seq![first] + listed_jobs_text(longer, now));
        }
        lines = lines + 2;
        i = i + 1;
    }
    place(spans, lines, rect)
}

/// The points of a track from `from` on and before `to`, in one colour.
#[derive(Clone, Copy, Debug, PartialEq, Eq, Structural)]
pub struct Part {
    pub from: usize,
    pub to: usize,
    pub color: Color,
}

/// A dot at a point of a track.
#[derive(Clone, Copy, Debug, PartialEq, Eq, Structural)]
pub struct Mark {
    pub point: usize,
    pub color: Color,
}

/// The polar plot of a pass in its place.
#[derive(Clone, Copy, Debug, PartialEq, Eq, Structural)]
pub struct PolarPlot {
    pub area: Area,
    /// What is drawn of the track across the sky.
    pub track: Part,
    /// Where the satellite rises.
    pub rise: Option<Mark>,
    /// Where the satellite sets.
    pub set: Option<Mark>,
    /// Whether the satellite is marked where it is now.
    pub in_pass: bool,
}

/// The plot of a track of `len` points: all of it in cyan, its first point in
/// green and its last one in red. A track without points has no marks.
pub open spec fn polar_plot(area: Area, len: usize, in_pass: bool) -> PolarPlot {
    PolarPlot {
        area,
        track: Part { from: 0, to: len, color: Color::Cyan },
        rise: if len > 0 {
            Some(Mark { point: 0, color: Color::Green })
        } else {
            None
        },
        set: if len > 0 {
            Some(Mark { point: (len - 1) as usize, color: Color::Red })
        } else {
            None
        },
        in_pass,
    }
}

/// Whether `now` lies in the pass of `job`, both ends included.
pub open spec fn passing(job: Job, now: Timestamp) -> bool {
    now.at_or_after(job.start) && job.end.at_or_after(now)
}

/// The polar plot of `job`, at the top of `rect`, and what it leaves. The plot
/// is half as high as wide. The satellite is marked from the start of the job to
/// its end.
pub fn render_polar_plot(rect: Area, job: &Job, now: Timestamp) -> (r: (PolarPlot, Area))
    requires
        rect.wf(),
    ensures
        r.0 == polar_plot(
            upper(rect, rect.width as int / 2),
            job.polar_track_len,
            passing(*job, now),
        ),
        r.1 == lower(rect, rect.width as int / 2),
        r.1.wf(),
{
    let (area, rest) = cut_rows(rect, rect.width / 2);
    let len: usize = job.polar_track_len;
    let (rise, set) = if len > 0 {
        (
            Some(Mark { point: 0, color: Color::Green }),
            Some(Mark { point: len - 1, color: Color::Red }),
        )
    } else {
        (None, None)
    };
    let track = Part { from: 0, to: len, color: Color::Cyan };
    let in_pass = now.not_before(job.start) && job.end.not_before(now);
    (PolarPlot { area, track, rise, set, in_pass }, rest)
}

/// What is drawn of a job on a layer of the map.
#[derive(Clone, Copy, Debug, PartialEq, Eq, Structural)]
pub enum MapLayer {
    /// A part of the ground track.
    Track(Part),
    /// The footprint of the satellite.
    Footprint(Color),
}

/// What the map shows of a job.
#[derive(Debug)]
pub struct MapTrack {
    /// The text at the satellite.
    pub label: String,
    /// The layers, from the lowest to the highest.
    pub layers: Vec<MapLayer>,
}

/// The map in its place. The station is always marked.
#[derive(Debug)]
pub struct MapView {
    pub area: Area,
    /// The next job, if there is one.
    pub track: Option<MapTrack>,
}

/// How many of the `len` points of a ground track of so many orbits belong to
/// the current orbit.
pub open spec fn current_orbit(len: usize, ground_tracks: usize) -> usize {
    (len as int / ground_tracks as int) as usize
}

/// The layers for a ground track of `len` points: later orbits in cyan, above
/// them the current one in yellow, and on top the footprint in green, if it is
/// wanted.
pub open spec fn map_layers(len: usize, ground_tracks: usize, footprint: bool) -> Seq<MapLayer> {
    let current = current_orbit(len, ground_tracks);
    seq![
        MapLayer::Track(Part { from: current, to: len, color: Color::Cyan }),
        MapLayer::Track(Part { from: 0, to: current, color: Color::Yellow }),
    ] + if footprint {
        seq![MapLayer::Footprint(Color::Green)]
    } else {
        Seq::empty()
    }
}

/// The map of `station` in `rect` for `ground_tracks` plotted orbits.
pub fn render_map_view(rect: Area, station: &Station, ground_tracks: usize, footprint: bool) -> (r:
    MapView)
    requires
        station.jobs@.len() > 0 ==> ground_tracks > 0,
    ensures
        r.area == rect,
        r.track is Some <==> station.jobs@.len() > 0,
        r.track matches Some(track) ==> {
            &&& track.label@ == "■─"@ + station.jobs@[0].vessel_name@
            &&& track.layers@ == map_layers(
                station.jobs@[0].ground_track_len,
                ground_tracks,
                footprint,
            )
            &&& current_orbit(station.jobs@[0].ground_track_len, ground_tracks)
                <= station.jobs@[0].ground_track_len
        },
{
    if station.jobs.len() > 0 {
        let job = &station.jobs[0];
        let len: usize = job.ground_track_len;
        let mut label = "■─".to_owned();
        label.append(job.vessel_name.as_str());
        let current: usize = len / ground_tracks;
        proof {
            lemma_current_fits(len, ground_tracks);
        }
        let mut layers: Vec<MapLayer> = Vec::new();
        layers.push(MapLayer::Track(Part { from: current, to: len, color: Color::Cyan }));
        layers.push(MapLayer::Track(Part { from: 0, to: current, color: Color::Yellow }));
        if footprint {
            layers.push(MapLayer::Footprint(Color::Green));
        }
        assert(layers@ =~= map_layers(len, ground_tracks, footprint));
        MapView { area: rect, track: Some(MapTrack { label, layers }) }
    } else {
        MapView { area: rect, track: None }
    }
}

proof fn lemma_current_fits(len: usize, ground_tracks: usize)
    requires
        ground_tracks > 0,
    ensures
        0 <= len as int / ground_tracks as int <= len,
{
    vstd::arithmetic::div_mod::lemma_div_is_ordered_by_denominator(
        len as int,
        1,
        ground_tracks as int,
    );
    vstd::arithmetic::div_mod::lemma_div_pos_is_pos(len as int, ground_tracks as int);
}

/// Whether the point `i` of the ground track is drawn on `layer`.
pub open spec fn drawn_on(layer: MapLayer, i: int) -> bool {
    layer matches MapLayer::Track(part) && part.from <= i < part.to
}

/// Each point of the ground track is drawn on exactly one of the two layers for
/// it, and nothing else is. The current orbit comes first in the track and is
/// drawn above the later ones; of a single orbit all is current.
pub proof fn law_track_is_drawn_once(len: usize, ground_tracks: usize, footprint: bool, i: int)
    requires
        ground_tracks > 0,
    ensures
        ({
            let layers = map_layers(len, ground_tracks, footprint);
            &&& 0 <= i < len <==> drawn_on(layers[0], i) || drawn_on(layers[1], i)
            &&& !(drawn_on(layers[0], i) && drawn_on(layers[1], i))
            &&& drawn_on(layers[1], i) <==> 0 <= i < current_orbit(len, ground_tracks)
            &&& ground_tracks == 1 ==> current_orbit(len, ground_tracks) == len
            &&& footprint <==> layers.len() == 3
            &&& footprint ==> layers[2] == MapLayer::Footprint(Color::Green)
        }),
{
    let layers = map_layers(len, ground_tracks, footprint);
    let current = current_orbit(len, ground_tracks);
    lemma_current_fits(len, ground_tracks);
    assert(current == len as int / ground_tracks as int);
    if ground_tracks == 1 {
        vstd::arithmetic::div_mod::lemma_div_basics_2(len as int);
    }
    assert(layers[0] == MapLayer::Track(Part { from: current, to: len, color: Color::Cyan }));
    assert(layers[1] == MapLayer::Track(Part { from: 0, to: current, color: Color::Yellow }));
}

/// The window of the log messages in its place.
#[derive(Debug)]
pub struct LogView {
    /// The window with its border.
    pub area: Area,
    /// The window without its border.
    pub inner: Area,
    /// Blank lines that hide what is behind.
    pub background: Vec<Span>,
    pub spans: Vec<Span>,
}

/// The border of the log window: open at the bottom.
pub open spec fn log_edges() -> Edges {
    Edges { top: true, right: true, bottom: false, left: true }
}

/// How many messages the log window shows.
pub const LOG_LINES: usize = 9;

/// The colour of a level.
pub open spec fn level_color(level: Level) -> Color {
    match level {
        Level::Warn => Color::Yellow,
        Level::Error => Color::Red,
        _ => Color::Plain,
    }
}

/// A message in the log window.
pub open spec fn log_line_text(line: LogLine) -> Seq<(Seq<char>, Color)> {
    seq![
        (crate::time::chrono_display(line.time.secs, line.time.nanos), Color::Plain),
        (
            " "@ + crate::text::left_aligned(crate::event::level_name(line.level), 8) + " "@,
            level_color(line.level),
        ),
        (line.message@ + "\n"@, Color::Plain),
    ]
}

/// Messages in the log window, one after the other.
pub open spec fn log_text(lines: Seq<LogLine>) -> Seq<(Seq<char>, Color)>
    decreases lines.len(),
{
    if lines.len() == 0 {
        Seq::empty()
    } else {
        log_text(lines.drop_last()) + log_line_text(lines.last())
    }
}

/// `inner.height` blank lines of `inner.width` characters.
pub open spec fn blank_lines(inner: Area) -> Seq<(Seq<char>, Color)> {
    Seq::new(
        inner.height as nat,
        |i: int| (crate::text::blanks(inner.width as nat) + "\n"@, Color::Plain),
    )
}

fn background(inner: Area) -> (spans: Vec<Span>)
    ensures
        crate::text::shown(spans@) == blank_lines(inner),
{
    let mut spans: Vec<Span> = Vec::new();
    let mut i: u16 = 0;
    while i < inner.height
        invariant
            i <= inner.height,
            crate::text::shown(spans@) =~= blank_lines(inner).take(i as int),
        decreases inner.height - i,
    {
        let mut line = blank_text(inner.width as usize);
        line.append("\n");
        push_span(&mut spans, line, Color::Plain);
        i = i + 1;
    }
    assert(blank_lines(inner).take(i as int) =~= blank_lines(inner));
    spans
}

fn push_log_line(spans: &mut Vec<Span>, line: &LogLine)
    requires
        line.time.wf(),
    ensures
        crate::text::shown(final(spans)@) == crate::text::shown(old(spans)@) + log_line_text(
            *line,
        ),
{
    let ghost before = crate::text::shown(spans@);
    push_span(spans, moment_text(line.time), Color::Plain);
    let mut level = " ".to_owned();
    level.append(align_left(line.level.name(), 8).as_str());
    level.append(" ");
    let color = match line.level {
        Level::Warn => Color::Yellow,
        Level::Error => Color::Red,
        _ => Color::Plain,
    };
    push_span(spans, level, color);
    let mut message = line.message.clone();
    message.append("\n");
    push_span(spans, message, Color::Plain);
    assert(crate::text::shown(spans@) =~= before + log_line_text(*line));
}

/// The log window over `rect` with the latest messages, the newest last.
pub fn render_log_view(rect: Area, logs: &LogQueue) -> (r: LogView)
    requires
        rect.wf(),
        forall|i: int| 0 <= i < logs@.len() ==> (#[trigger] logs@[i]).time.wf(),
    ensures
        r.area == rect,
        r.inner == crate::layout::inside(log_edges(), rect),
        crate::text::shown(r.background@) == blank_lines(r.inner),
        crate::text::shown(r.spans@) == log_text(crate::logs::kept(logs@, LOG_LINES as nat)),
{
    let edges = Edges { top: true, right: true, bottom: false, left: true };
    let inner = inner_area(edges, "Log", rect);
    let lines = logs.latest(LOG_LINES);
    let mut spans: Vec<Span> = Vec::new();
    let mut i: usize = 0;
    proof {
        assert(lines@.take(0) =~= Seq::<LogLine>::empty());
        assert(crate::text::shown(spans@) =~= log_text(lines@.take(0)));
    }
    while i < lines.len()
        invariant
            i <= lines@.len(),
            forall|j: int| 0 <= j < logs@.len() ==> (#[trigger] logs@[j]).time.wf(),
            lines@ == crate::logs::kept(logs@, LOG_LINES as nat),
            crate::text::shown(spans@) == log_text(lines@.take(i as int)),
        decreases lines@.len() - i,
    {
        assert(lines@[i as int].time.wf()) by {
            let skipped = logs@.len() - lines@.len();
            assert(lines@[i as int] == logs@[skipped + i]);
        }
        push_log_line(&mut spans, &lines[i]);
        proof {
            let longer = lines@.take(i + 1);
            assert(longer.drop_last() =~= lines@.take(i as int));
            assert(longer.last() == lines@[i as int]);
        }
        i = i + 1;
    }
    assert(lines@.take(i as int) =~= lines@);
    LogView { area: rect, inner, background: background(inner), spans }
}

/// The spectrum in its place. Numbers are the bits of single precision numbers.
#[derive(Debug)]
pub struct Spectrum {
    pub area: Area,
    /// The first and the last frequency.
    pub bounds: (u32, u32),
    /// The frequencies with their samples.
    pub points: Vec<(u32, u32)>,
}

/// The frequencies with their samples, as far as there are both.
pub open spec fn zipped(frequencies: Seq<u32>, samples: Seq<u32>) -> Seq<(u32, u32)> {
    Seq::new(
        crate::layout::least(frequencies.len() as int, samples.len() as int) as nat,
        |i: int| (frequencies[i], samples[i]),
    )
}

/// The spectrum of the latest `samples` in `rect`.
pub fn render_spectrum(rect: Area, frequencies: &Vec<u32>, samples: &Vec<u32>) -> (r: Spectrum)
    requires
        frequencies@.len() > 0,
    ensures
        r.area == rect,
        r.bounds == (frequencies@[0], frequencies@.last()),
        r.points@ == zipped(frequencies@, samples@),
{
    let mut points: Vec<(u32, u32)> = Vec::new();
    let mut i: usize = 0;
    while i < frequencies.len() && i < samples.len()
        invariant
            i <= frequencies@.len(),
            i <= samples@.len(),
            points@ =~= zipped(frequencies@, samples@).take(i as int),
        decreases frequencies@.len() - i,
    {
        points.push((frequencies[i], samples[i]));
        i = i + 1;
    }
    assert(zipped(frequencies@, samples@).take(i as int) =~= zipped(frequencies@, samples@));
    let bounds: (u32, u32) = (frequencies[0], frequencies[frequencies.len() - 1]);
    Spectrum { area: rect, bounds, points }
}

} // verus!

use satnogs_monitor::event::Level;
use satnogs_monitor::layout::Area;
use satnogs_monitor::logs::{LogLine, LogQueue};
use satnogs_monitor::station::{Job, Sat, Station, StationStatus, SysInfo};
use satnogs_monitor::text::{Color, Span};
use satnogs_monitor::time::Timestamp;
use satnogs_monitor::views::{
    render_future_jobs_view, render_log_view, render_map_view, render_next_job_view,
    render_polar_plot, render_satellite_view, render_spectrum, render_station_view, MapLayer, Mark,
    Part,
};

fn area(x: u16, y: u16, width: u16, height: u16) -> Area {
    Area { x, y, width, height }
}

fn at(secs: i64) -> Timestamp {
    Timestamp { secs, nanos: 0 }
}

fn job(id: u64, start: i64) -> Job {
    Job {
        id,
        vessel_name: "NOAA 19".to_string(),
        start: at(start),
        end: at(start + 600),
        mode: "APT".to_string(),
        frequency_mhz: "137.100".to_string(),
        rise_azimuth: "10.000".to_string(),
        max_altitude: "83.000".to_string(),
        set_azimuth: "190.000".to_string(),
        sat: Sat {
            orbit_nr: 53_712,
            lat_deg: "51.000".to_string(),
            lon_deg: "-13.700".to_string(),
            alt_km: "861.250".to_string(),
            vel_km_s: "7.421".to_string(),
            range_km: "2412.000".to_string(),
            range_rate_km_sec: "-5.125".to_string(),
        },
        ground_track_len: 100,
        polar_track_len: 1,
    }
}

fn station(jobs: Vec<Job>) -> Station {
    Station {
        status: StationStatus::Testing,
        sys_info: SysInfo { cpu_load: None, cpu_temp: None, mem: None, uptime: Some(9) },
        jobs,
    }
}

fn text(spans: &Vec<Span>) -> String {
    spans.iter().map(|s| s.text.as_str()).collect()
}

fn colors(spans: &Vec<Span>) -> Vec<Color> {
    spans.iter().map(|s| s.color).collect()
}

#[test]
fn the_station_view_shows_what_is_known() {
    let rect = area(0, 2, 40, 30);
    let (panel, rest) = render_station_view(rect, &station(vec![]));
    assert_eq!(text(&panel.spans), format!("Station Status\n\nObservation  {:>19}\n", "TESTING"));
    assert_eq!(colors(&panel.spans), vec![Color::Yellow, Color::Cyan, Color::Yellow]);
    assert_eq!(panel.area, area(0, 2, 40, 4));
    assert_eq!(rest, area(0, 6, 40, 26));

    let mut full = station(vec![]);
    full.status = StationStatus::Online;
    full.sys_info.cpu_load = Some("12.5".to_string());
    full.sys_info.cpu_temp = Some("48.3".to_string());
    full.sys_info.mem = Some("71.0".to_string());
    let (panel, rest) = render_station_view(rect, &full);
    let expected = format!(
        "Station Status\n\nObservation  {:>19}\nCPU          {:>19.1} %\nCPU Temp     {:19.1} °C\nMem          {:19.1} %\n",
        "ONLINE", 12.5f32, 48.3f32, 71.0f32
    );
    assert_eq!(text(&panel.spans), expected);
    assert_eq!(
        colors(&panel.spans)[3..6],
        [Color::Cyan, Color::White, Color::LightGreen]
    );
    assert_eq!(panel.area.height, 7);
    assert_eq!(rest, area(0, 9, 40, 23));

    full.status = StationStatus::Offline;
    full.sys_info.cpu_load = None;
    let (panel, _) = render_station_view(rect, &full);
    assert!(text(&panel.spans).contains("            OFFLINE\n"));
    assert_eq!(panel.area.height, 6);
}

#[test]
fn the_next_job_is_described() {
    let rect = area(0, 6, 40, 30);
    let now = at(1_562_068_800 - 125);
    let one = station(vec![job(684_211, 1_562_068_800), job(9, 1_562_070_000)]);
    let (panel, rest) = render_next_job_view(rect, &one, now);
    let expected = format!(
        "Next Job                {:+4}'{:2}\"\n\nID           {:>19}\nVessel       {:>19}\nStart        {:>19}\nEnd          {:>19}\nMode         {:>19}\nFrequency    {:19.3} MHz\n\nRise         {:19.3} °\nMax          {:19.3} °\nSet          {:19.3} °\n",
        -2, 5, 684_211, "NOAA 19", "2019-07-02 12:00:00", "2019-07-02 12:10:00", "APT", 137.1f64,
        10.0f64, 83.0f64, 190.0f64
    );
    assert_eq!(text(&panel.spans), expected);
    assert_eq!(panel.spans[1].color, Color::DarkGray);
    assert_eq!(panel.area, area(0, 6, 40, 13));
    assert_eq!(rest, area(0, 19, 40, 17));
    let (panel, _) = render_next_job_view(rect, &one, at(1_562_068_800));
    assert_eq!(panel.spans[1].color, Color::Green);
    assert_eq!(panel.spans[1].text, "                  +0' 0\"\n\n");
}

#[test]
fn no_job_is_told() {
    let rect = area(0, 6, 40, 3);
    let (panel, rest) = render_next_job_view(rect, &station(vec![]), at(0));
    assert_eq!(text(&panel.spans), "Next Job\n\nNone\n");
    assert_eq!(colors(&panel.spans), vec![Color::Yellow, Color::Red]);
    assert_eq!(panel.area, rect);
    assert_eq!(rest, area(0, 9, 40, 0));
    let (panel, _) = render_satellite_view(rect, &station(vec![]));
    assert_eq!(text(&panel.spans), "Satellite\n\nNone\n");
    let (panel, _) = render_future_jobs_view(rect, &station(vec![]), at(0));
    assert_eq!(text(&panel.spans), "Future Jobs (0)\n\nNone\n");
}

#[test]
fn the_satellite_is_described() {
    let rect = area(0, 0, 40, 30);
    let (panel, rest) = render_satellite_view(rect, &station(vec![job(1, 0)]));
    let expected = format!(
        "Satellite\n\nOrbit        {:>19}\nLatitude     {:>19.3} °\nLongitude    {:>19.3} °\nAltitude     {:>19.3} km\nVelocity     {:>19.3} km/s\nRange        {:>19.3} km\nRange Rate   {:>19.3} km/s\n",
        53_712, 51.0f64, -13.7f64, 861.25f64, 7.421f64, 2412.0f64, -5.125f64
    );
    assert_eq!(text(&panel.spans), expected);
    assert_eq!(panel.area.height, 10);
    assert_eq!(rest, area(0, 10, 40, 20));
}

#[test]
fn jobs_are_listed_as_far_as_there_is_room() {
    let now = at(100_000);
    let jobs: Vec<Job> = (0..5).map(|i| job(100 + i, 100_061 + 3_600 * i as i64)).collect();
    let many = station(jobs);
    let (panel, rest) = render_future_jobs_view(area(0, 20, 40, 7), &many, now);
    let line = |id: u64, minutes: i64, seconds: i64| {
        format!(
            "#{:<7}─┬{:>26}┐\n{:5}'{:2}\"└{:>10} {:11.3} MHz┘\n",
            id, "NOAA 19", minutes, seconds, "APT", 137.1f64
        )
    };
    let expected = format!("Future Jobs (5)\n\n{}{}", line(100, -1, 1), line(101, -61, 1));
    assert_eq!(text(&panel.spans), expected);
    assert_eq!(panel.spans.len(), 19);
    assert_eq!(panel.area, area(0, 20, 40, 7));
    assert_eq!(rest, area(0, 27, 40, 0));
    let (panel, rest) = render_future_jobs_view(area(0, 20, 40, 40), &many, now);
    assert_eq!(panel.spans.len(), 46);
    assert_eq!(panel.area.height, 14);
    assert_eq!(rest.height, 26);
    for height in 0..4 {
        let (panel, _) = render_future_jobs_view(area(0, 0, 40, height), &many, now);
        assert_eq!(text(&panel.spans), "Future Jobs (5)\n\n");
    }
}

#[test]
fn the_plot_marks_a_satellite_in_its_pass() {
    let rect = area(0, 0, 41, 30);
    let pass = job(1, 1_000);
    for (now, marked) in [(999, false), (1_000, true), (1_600, true), (1_601, false)] {
        let (plot, rest) = render_polar_plot(rect, &pass, at(now));
        assert_eq!(plot.in_pass, marked);
        assert_eq!(plot.area, area(0, 0, 41, 20));
        assert_eq!(rest, area(0, 20, 41, 10));
    }
    let (plot, _) = render_polar_plot(rect, &pass, at(0));
    assert_eq!(plot.track, Part { from: 0, to: 1, color: Color::Cyan });
    assert_eq!(plot.rise, Some(Mark { point: 0, color: Color::Green }));
    assert_eq!(plot.set, Some(Mark { point: 0, color: Color::Red }));
    let unknown = Job { polar_track_len: 0, ..pass.clone() };
    let (plot, _) = render_polar_plot(rect, &unknown, at(0));
    assert_eq!(plot.track, Part { from: 0, to: 0, color: Color::Cyan });
    assert!(plot.rise.is_none() && plot.set.is_none());
    let late = Timestamp { secs: 1_600, nanos: 1 };
    assert!(!render_polar_plot(rect, &pass, late).0.in_pass);
}

#[test]
fn the_map_divides_the_track() {
    let rect = area(40, 2, 80, 38);
    let view = render_map_view(rect, &station(vec![job(1, 0)]), 3, true);
    assert_eq!(view.area, rect);
    let track = view.track.unwrap();
    assert_eq!(track.label, "■─NOAA 19");
    let later = MapLayer::Track(Part { from: 33, to: 100, color: Color::Cyan });
    let current = MapLayer::Track(Part { from: 0, to: 33, color: Color::Yellow });
    assert_eq!(track.layers, vec![later, current, MapLayer::Footprint(Color::Green)]);
    let track = render_map_view(rect, &station(vec![job(1, 0)]), 3, false).track.unwrap();
    assert_eq!(track.layers, vec![later, current]);
    let track = render_map_view(rect, &station(vec![job(1, 0)]), 1, false).track.unwrap();
    let none = MapLayer::Track(Part { from: 100, to: 100, color: Color::Cyan });
    let all = MapLayer::Track(Part { from: 0, to: 100, color: Color::Yellow });
    assert_eq!(track.layers, vec![none, all]);
    assert!(render_map_view(rect, &station(vec![]), 0, true).track.is_none());
}

#[test]
fn the_spectrum_pairs_frequencies_and_samples() {
    let rect = area(40, 20, 80, 18);
    let chart = render_spectrum(rect, &vec![1, 2, 3], &vec![7, 8]);
    assert_eq!(chart.area, rect);
    assert_eq!(chart.bounds, (1, 3));
    assert_eq!(chart.points, vec![(1, 7), (2, 8)]);
    assert_eq!(render_spectrum(rect, &vec![4], &vec![5, 6]).points, vec![(4, 5)]);
}

fn line(n: i64, level: Level) -> LogLine {
    LogLine { time: at(n), level, message: format!("message {}", n) }
}

#[test]
fn the_log_window_shows_the_latest_messages() {
    let mut logs = LogQueue::with_capacity(100);
    logs.push(line(1, Level::Info));
    logs.push(line(2, Level::Warn));
    logs.push(line(3, Level::Error));
    let view = render_log_view(area(0, 30, 20, 10), &logs);
    assert_eq!(view.area, area(0, 30, 20, 10));
    assert_eq!(view.inner, area(1, 31, 18, 9));
    assert_eq!(text(&view.background), format!("{:18}\n", "").repeat(9));
    assert_eq!(view.background.len(), 9);
    let expected = format!(
        "1970-01-01 00:00:01 UTC {:8} message 1\n1970-01-01 00:00:02 UTC {:8} message 2\n1970-01-01 00:00:03 UTC {:8} message 3\n",
        "INFO", "WARN", "ERROR"
    );
    assert_eq!(text(&view.spans), expected);
    let plain = Color::Plain;
    assert_eq!(
        colors(&view.spans),
        vec![plain, plain, plain, plain, Color::Yellow, plain, plain, Color::Red, plain]
    );
    for n in 4..=20 {
        logs.push(line(n, Level::Debug));
    }
    let view = render_log_view(area(0, 30, 20, 10), &logs);
    assert_eq!(view.spans.len(), 27);
    assert_eq!(view.spans[2].text, "message 12\n");
    assert_eq!(view.spans[26].text, "message 20\n");
}

#[test]
fn the_queue_forgets_the_oldest() {
    let mut logs = LogQueue::with_capacity(3);
    assert!(logs.latest(2).is_empty());
    for n in 0..5 {
        logs.push(line(n, Level::Trace));
    }
    let messages = |n: usize| -> Vec<String> {
        logs.latest(n).iter().map(|l| l.message.clone()).collect()
    };
    assert_eq!(messages(9), vec!["message 2", "message 3", "message 4"]);
    assert_eq!(messages(2), vec!["message 3", "message 4"]);
    assert!(messages(0).is_empty());
    let mut none = LogQueue::with_capacity(0);
    none.push(line(1, Level::Trace));
    assert!(none.latest(5).is_empty());
}

use satnogs_monitor::event::{Data, Event, Input, Key, Level};
use satnogs_monitor::layout::Area;
use satnogs_monitor::settings::{Settings, StationConfig, UiSettings};
use satnogs_monitor::station::{Job, Sat, Station, StationStatus, SysInfo};
use satnogs_monitor::text::Color;
use satnogs_monitor::time::Timestamp;
use satnogs_monitor::ui::{DrawError, Effect, Scene, Signal, Step, Ui};
use satnogs_monitor::views::{MapLayer, Mark, Part};

const NOW: Timestamp = Timestamp { secs: 1_562_068_800, nanos: 0 };

fn area(x: u16, y: u16, width: u16, height: u16) -> Area {
    Area { x, y, width, height }
}

fn new_ui() -> Ui {
    let settings = Settings {
        api_endpoint: "https://network.satnogs.org/api/".to_string(),
        log_level: None,
        stations: vec![StationConfig::new(4), StationConfig::new(7)],
        ui: UiSettings { ground_track_num: 3, sat_footprint: false },
        waterfall_zoom: 1.0f32.to_bits(),
    };
    Ui::new(settings, vec![4, 7])
}

fn no_info() -> SysInfo {
    SysInfo { cpu_load: None, cpu_temp: None, mem: None, uptime: None }
}

fn job(id: u64) -> Job {
    Job {
        id,
        vessel_name: "ISS".to_string(),
        start: NOW,
        end: NOW,
        mode: "AFSK".to_string(),
        frequency_mhz: "145.825".to_string(),
        rise_azimuth: "1.000".to_string(),
        max_altitude: "2.000".to_string(),
        set_azimuth: "3.000".to_string(),
        sat: Sat {
            orbit_nr: -1,
            lat_deg: "0.000".to_string(),
            lon_deg: "0.000".to_string(),
            alt_km: "0.000".to_string(),
            vel_km_s: "0.000".to_string(),
            range_km: "0.000".to_string(),
            range_rate_km_sec: "0.000".to_string(),
        },
        ground_track_len: 30,
        polar_track_len: 12,
    }
}

fn station(jobs: Vec<Job>) -> Station {
    Station { status: StationStatus::Online, sys_info: no_info(), jobs }
}

fn told(effects: &Vec<Effect>) -> Vec<String> {
    effects
        .iter()
        .map(|e| match e {
            Effect::UpdateJobs(id, jobs) => {
                let ids: Vec<u64> = jobs.iter().map(|j| j.id).collect();
                format!("jobs {} {:?}", id, ids)
            }
            Effect::UpdateVesselPosition(n) => format!("positions {}", n),
            Effect::UpdateSysInfo(ids, info) => format!("info {:?} {:?}", ids, info.mem),
            Effect::RequestJobs(ids) => format!("request {:?}", ids),
            Effect::RemoveFinishedJobs => "finished".to_string(),
            Effect::NextStation => "next".to_string(),
            Effect::PrevStation => "previous".to_string(),
            Effect::ZoomIn => "in".to_string(),
            Effect::ZoomOut => "out".to_string(),
            Effect::Log(level, message) => format!("{:?} {}", level, message),
            Effect::LogKey(key) => format!("key {:?}", key),
        })
        .collect()
}

const ASKING: &str = "Trace Requesting jobs update";

/// Draws in a terminal that can be resized.
fn drawn(ui: &mut Ui, size: Area, station: &Station) -> Scene {
    ui.draw(Some(size), true, station, NOW).unwrap()
}

fn press(ui: &mut Ui, key: Key) -> Vec<String> {
    told(&ui.handle_event(Event::Input(Input::Key(key)), NOW, 0))
}

#[test]
fn keys_switch_and_cause() {
    let mut ui = new_ui();
    assert!(press(&mut ui, Key::Char('f')).is_empty());
    assert!(ui.settings.ui.sat_footprint);
    assert!(press(&mut ui, Key::Char('f')).is_empty());
    assert!(!ui.settings.ui.sat_footprint);
    press(&mut ui, Key::Char('l'));
    assert!(ui.show_logs);
    press(&mut ui, Key::Char('l'));
    assert!(!ui.show_logs);
    assert_eq!(press(&mut ui, Key::Char('\t')), vec!["next"]);
    assert_eq!(press(&mut ui, Key::Ctrl('\t')), vec!["previous"]);
    assert_eq!(press(&mut ui, Key::Char('x')), vec!["key Char('x')"]);
    assert_eq!(press(&mut ui, Key::Ctrl('f')), vec!["key Ctrl('f')"]);
    assert_eq!(press(&mut ui, Key::Alt('q')), vec!["key Alt('q')"]);
    assert_eq!(press(&mut ui, Key::F(5)), vec!["key F(5)"]);
    assert_eq!(press(&mut ui, Key::PageUp), vec!["key PageUp"]);
    assert!(ui.handle_input(Input::Other).is_empty());
    assert!(!ui.shutdown);
}

#[test]
fn two_keys_end_the_monitor() {
    for key in [Key::Char('q'), Key::Ctrl('c')] {
        let mut ui = new_ui();
        assert!(press(&mut ui, key).is_empty());
        assert!(ui.shutdown);
    }
    for key in [Key::Char('c'), Key::Ctrl('q')] {
        let mut ui = new_ui();
        press(&mut ui, key);
        assert!(!ui.shutdown);
    }
}

fn zoom(ui: &Ui) -> f32 {
    f32::from_bits(ui.settings.waterfall_zoom)
}

#[test]
fn the_zoom_has_bounds() {
    let mut ui = new_ui();
    assert!(press(&mut ui, Key::Char('-')).is_empty());
    assert_eq!(zoom(&ui), 1.0);
    for k in 3..=24 {
        assert!(press(&mut ui, Key::Char('+')).is_empty());
        assert_eq!(zoom(&ui), (k as f32 / 2.0).min(10.0));
    }
    for k in (0..=19).rev() {
        assert!(press(&mut ui, Key::Char('-')).is_empty());
        assert_eq!(zoom(&ui), (k as f32 / 2.0).max(1.0));
    }
}

#[test]
fn zoom_steps_undo_each_other() {
    for k in 2..=20 {
        let start = k as f32 / 2.0;
        let mut ui = new_ui();
        ui.set_zoom(start.to_bits());
        press(&mut ui, Key::Char('+'));
        press(&mut ui, Key::Char('-'));
        assert_eq!(zoom(&ui), start.min(9.5));
        ui.set_zoom(start.to_bits());
        press(&mut ui, Key::Char('-'));
        press(&mut ui, Key::Char('+'));
        assert_eq!(zoom(&ui), start.max(1.5));
        press(&mut ui, Key::Char('f'));
        press(&mut ui, Key::Left);
        assert_eq!(zoom(&ui), start.max(1.5));
    }
}

#[test]
fn another_zoom_asks_for_a_sum() {
    let mut ui = new_ui();
    for (start, up, down) in [
        (1.25f32, true, true),
        (9.999_999, true, true),
        (0.5, true, false),
        (-3.0, true, false),
        (10.5, false, true),
        (f32::INFINITY, false, true),
        (f32::NAN, false, false),
    ] {
        ui.set_zoom(start.to_bits());
        let asked = press(&mut ui, Key::Char('+'));
        assert_eq!(asked, if up { vec!["in"] } else { vec![] });
        let asked = press(&mut ui, Key::Char('-'));
        assert_eq!(asked, if down { vec!["out"] } else { vec![] });
        assert_eq!(ui.settings.waterfall_zoom, start.to_bits());
    }
}

#[test]
fn jobs_and_measurements_are_handed_on() {
    let mut ui = new_ui();
    let response = Event::CommandResponse(Data::Jobs(7, vec![job(1), job(2)]));
    assert_eq!(told(&ui.handle_event(response, NOW, 0)), vec!["jobs 7 [1, 2]", "positions 3"]);
    let info = SysInfo { mem: Some("50.0".to_string()), ..no_info() };
    let event = Event::SystemInfo(vec![7, 5, 4, 7], info);
    assert_eq!(told(&ui.handle_event(event, NOW, 0)), vec![
        "Trace Got system info for stations [7, 5, 4, 7]",
        "info [7, 4, 7] Some(\"50.0\")",
    ]);
    let event = Event::SystemInfo(vec![], no_info());
    let effects = told(&ui.handle_event(event, NOW, 0));
    assert_eq!(effects, vec!["Trace Got system info for stations []", "info [] None"]);
    let effects = told(&ui.handle_event(Event::Resize, NOW, 0));
    assert_eq!(effects, vec!["Debug Terminal size changed"]);
    assert!(ui.monitors(4));
    assert!(!ui.monitors(5));
}

#[test]
fn ticks_keep_the_schedule() {
    let mut ui = new_ui();
    for n in 1..=120u32 {
        let effects = told(&ui.handle_event(Event::Tick, NOW, 599_999_999_999));
        let mut expected: Vec<&str> = vec![];
        if n % 5 == 0 {
            expected.push("positions 3");
        }
        if n % 60 == 0 {
            expected.push("finished");
        }
        assert_eq!(effects, expected);
        assert_eq!(ui.ticks, n);
    }
    let second = 1_000_000_000;
    assert_eq!(told(&ui.handle_tick(600 * second)), vec![ASKING, "request [4, 7]"]);
    assert_eq!(ui.last_job_update, 600 * second);
    assert!(ui.handle_tick(900 * second).is_empty());
    assert!(ui.handle_tick(1200 * second - 1).is_empty());
    assert!(ui.handle_tick(0).is_empty());
    ui.ticks = 59;
    let effects = told(&ui.handle_tick(1200 * second));
    assert_eq!(effects, vec![ASKING, "request [4, 7]", "positions 3", "finished"]);
}

#[test]
fn messages_are_logged_with_their_time() {
    let mut ui = new_ui();
    for n in 0..130 {
        let event = Event::Log((Level::Info, format!("{}", n)));
        assert!(ui.handle_event(event, NOW, 0).is_empty());
    }
    let lines = ui.logs.latest(1000);
    assert_eq!(lines.len(), 100);
    assert_eq!(lines[0].message, "30");
    assert_eq!(lines[99].message, "129");
    assert_eq!(lines[99].time, NOW);
    assert_eq!(lines[99].level, Level::Info);
}

#[test]
fn a_waterfall_comes_and_goes() {
    let mut ui = new_ui();
    ui.handle_event(Event::WaterfallCreated(42, vec![1, 2]), NOW, 0);
    assert_eq!(ui.waterfall_obs_id, 42);
    assert_eq!(ui.waterfall_frequencies, vec![1, 2]);
    ui.handle_event(Event::WaterfallData(5, vec![8, 9]), NOW, 0);
    ui.handle_event(Event::WaterfallData(6, vec![7, 7]), NOW, 0);
    assert_eq!(ui.waterfall_data, vec![(5, vec![8, 9]), (6, vec![7, 7])]);
    ui.handle_event(Event::WaterfallCreated(43, vec![3]), NOW, 0);
    assert_eq!(ui.waterfall_data.len(), 2);
    ui.handle_event(Event::WaterfallClosed(1), NOW, 0);
    assert_eq!(ui.waterfall_obs_id, 0);
    assert!(ui.waterfall_frequencies.is_empty());
    assert!(ui.waterfall_data.is_empty());
}

#[test]
fn the_loop_draws_after_each_batch() {
    let mut ui = new_ui();
    let turn = ui.run(Signal::Begin(7));
    assert_eq!(ui.last_job_update, 7);
    assert_eq!(told(&turn.effects), vec![ASKING, "request [4, 7]"]);
    assert_eq!(turn.step, Step::Draw);
    assert_eq!(ui.run(Signal::Drawn).step, Step::Receive);
    let tick = |ui: &mut Ui| ui.run(Signal::Received(Event::Tick, NOW, 0));
    assert_eq!(tick(&mut ui).step, Step::StartClock);
    assert_eq!(ui.run(Signal::Elapsed(6_000_000)).step, Step::ReceiveWithin(10_000_000));
    assert_eq!(tick(&mut ui).step, Step::ReadClock);
    assert_eq!(ui.run(Signal::Elapsed(16_000_000)).step, Step::ReceiveWithin(0));
    assert_eq!(tick(&mut ui).step, Step::ReadClock);
    assert_eq!(ui.run(Signal::Elapsed(16_000_001)).step, Step::Draw);
    assert_eq!(ui.ticks, 3);
    assert_eq!(ui.run(Signal::Drawn).step, Step::Receive);
    assert_eq!(tick(&mut ui).step, Step::StartClock);
    assert_eq!(ui.run(Signal::Elapsed(0)).step, Step::ReceiveWithin(16_000_000));
    assert_eq!(ui.run(Signal::TimedOut).step, Step::Draw);
}

#[test]
fn the_loop_ends_after_a_last_redraw() {
    let mut ui = new_ui();
    ui.run(Signal::Begin(0));
    ui.run(Signal::Drawn);
    let quit = Event::Input(Input::Key(Key::Char('q')));
    assert_eq!(ui.run(Signal::Received(quit, NOW, 0)).step, Step::StartClock);
    assert_eq!(ui.run(Signal::Elapsed(20_000_000)).step, Step::Draw);
    assert_eq!(ui.run(Signal::Drawn).step, Step::Stop);
    assert!(!ui.expects(&Signal::Drawn));
    assert!(!ui.expects(&Signal::Begin(0)));
}

#[test]
fn an_event_is_waited_for_after_the_first_drawing() {
    let mut ui = new_ui();
    press(&mut ui, Key::Char('q'));
    ui.run(Signal::Begin(0));
    assert_eq!(ui.run(Signal::Drawn).step, Step::Receive);
    assert_eq!(ui.run(Signal::Received(Event::Resize, NOW, 0)).step, Step::StartClock);
    assert_eq!(ui.run(Signal::Elapsed(20_000_000)).step, Step::Draw);
    assert_eq!(ui.run(Signal::Drawn).step, Step::Stop);
}

fn assert_ended(ui: &Ui) {
    for signal in [
        Signal::Begin(0),
        Signal::Drawn,
        Signal::DrawFailed(DrawError::Size),
        Signal::Received(Event::Resize, NOW, 0),
        Signal::Elapsed(0),
        Signal::TimedOut,
        Signal::Disconnected,
    ] {
        assert!(!ui.expects(&signal));
    }
}

#[test]
fn a_failed_drawing_ends_the_loop() {
    let mut ui = new_ui();
    assert!(!ui.expects(&Signal::DrawFailed(DrawError::Size)));
    ui.run(Signal::Begin(0));
    assert!(ui.expects(&Signal::DrawFailed(DrawError::Size)));
    let turn = ui.run(Signal::DrawFailed(DrawError::Size));
    assert!(turn.effects.is_empty());
    assert_eq!(turn.step, Step::Fail(DrawError::Size));
    assert_ended(&ui);

    for error in [DrawError::Size, DrawError::Resize, DrawError::Draw] {
        for key in ['q', 'x'] {
            let mut ui = new_ui();
            ui.run(Signal::Begin(0));
            ui.run(Signal::Drawn);
            assert!(!ui.expects(&Signal::DrawFailed(error)));
            let event = Event::Input(Input::Key(Key::Char(key)));
            ui.run(Signal::Received(event, NOW, 0));
            ui.run(Signal::Elapsed(20_000_000));
            let turn = ui.run(Signal::DrawFailed(error));
            assert!(turn.effects.is_empty());
            assert_eq!(turn.step, Step::Fail(error));
            assert_eq!(ui.shutdown, key == 'q');
            assert_ended(&ui);
        }
    }
}

#[test]
fn the_loop_ends_without_events() {
    let mut ui = new_ui();
    ui.run(Signal::Begin(0));
    ui.run(Signal::Drawn);
    assert_eq!(ui.run(Signal::Disconnected).step, Step::Stop);
    let mut ui = new_ui();
    ui.run(Signal::Begin(0));
    ui.run(Signal::Drawn);
    ui.run(Signal::Received(Event::Resize, NOW, 0));
    ui.run(Signal::Elapsed(1));
    assert_eq!(ui.run(Signal::Disconnected).step, Step::Draw);
    assert!(ui.shutdown);
    assert_eq!(ui.run(Signal::Drawn).step, Step::Stop);
}

#[test]
fn signals_have_their_place() {
    let mut ui = new_ui();
    assert!(ui.expects(&Signal::Begin(0)));
    assert!(!ui.expects(&Signal::Drawn));
    assert!(!ui.expects(&Signal::Received(Event::Tick, NOW, 0)));
    ui.run(Signal::Begin(0));
    assert!(ui.expects(&Signal::Drawn));
    ui.run(Signal::Drawn);
    assert!(ui.expects(&Signal::Received(Event::Tick, NOW, 0)));
    assert!(ui.expects(&Signal::Disconnected));
    assert!(!ui.expects(&Signal::TimedOut));
    assert!(!ui.expects(&Signal::Elapsed(0)));
    let never = Timestamp { secs: i64::MAX, nanos: 0 };
    assert!(!ui.expects(&Signal::Received(Event::Resize, never, 0)));
    ui.ticks = u32::MAX;
    assert!(!ui.expects(&Signal::Received(Event::Tick, NOW, 0)));
    assert!(ui.expects(&Signal::Received(Event::Resize, NOW, 0)));
}

#[test]
fn the_screen_is_divided() {
    let mut ui = new_ui();
    let size = area(0, 0, 120, 60);
    let scene = drawn(&mut ui, size, &station(vec![job(1)]));
    assert_eq!(scene.info_bar, area(0, 0, 120, 2));
    assert_eq!(scene.column.station.area, area(0, 2, 40, 4));
    assert_eq!(scene.column.next_job.area, area(0, 6, 40, 13));
    assert_eq!(scene.column.polar.unwrap().area, area(0, 19, 40, 20));
    assert_eq!(scene.column.satellite.area, area(0, 39, 40, 10));
    assert_eq!(scene.column.future_jobs.area, area(0, 49, 40, 6));
    assert_eq!(scene.column.filler, area(0, 55, 40, 5));
    assert_eq!(scene.map.area, area(40, 2, 80, 58));
    assert!(scene.spectrum.is_none());
    assert!(scene.logs.is_none());
    assert_eq!(ui.size, size);
}

#[test]
fn a_size_is_taken_over_with_the_terminal() {
    let mut ui = new_ui();
    let none = station(vec![]);
    let size = area(0, 0, 80, 30);
    let before = ui.size;
    assert!(ui.needs_resize(size));
    assert_eq!(ui.draw(None, true, &none, NOW).unwrap_err(), DrawError::Size);
    assert_eq!(ui.draw(Some(size), false, &none, NOW).unwrap_err(), DrawError::Resize);
    assert_eq!(ui.size, before);
    assert!(ui.needs_resize(size));
    assert!(ui.draw(Some(size), true, &none, NOW).is_ok());
    assert_eq!(ui.size, size);
    assert!(!ui.needs_resize(size));
    assert!(ui.draw(Some(size), false, &none, NOW).is_ok());
    assert_eq!(ui.draw(Some(before), false, &none, NOW).unwrap_err(), DrawError::Resize);
    assert_eq!(ui.size, size);
    assert_eq!(DrawError::Size.message(), "Failed to get terminal size");
    assert_eq!(DrawError::Resize.message(), "Failed to resize terminal");
    assert_eq!(DrawError::Draw.message(), "Failed to draw to terminal");
}

#[test]
fn the_next_job_is_plotted() {
    let mut ui = new_ui();
    press(&mut ui, Key::Char('f'));
    let scene = drawn(&mut ui, area(0, 0, 120, 60), &station(vec![job(1)]));
    let plot = scene.column.polar.unwrap();
    assert!(plot.in_pass);
    assert_eq!(plot.track, Part { from: 0, to: 12, color: Color::Cyan });
    assert_eq!(plot.rise, Some(Mark { point: 0, color: Color::Green }));
    assert_eq!(plot.set, Some(Mark { point: 11, color: Color::Red }));
    assert_eq!(scene.map.track.unwrap().layers, vec![
        MapLayer::Track(Part { from: 10, to: 30, color: Color::Cyan }),
        MapLayer::Track(Part { from: 0, to: 10, color: Color::Yellow }),
        MapLayer::Footprint(Color::Green),
    ]);
}

#[test]
fn every_cell_of_the_screen_is_drawn_once() {
    for (width, height) in [(0u16, 0u16), (10, 1), (39, 30), (40, 45), (100, 50), (90, 80)] {
        for jobs in [0usize, 1, 12] {
            let mut ui = new_ui();
            ui.handle_event(Event::WaterfallCreated(1, vec![1]), NOW, 0);
            ui.handle_event(Event::WaterfallData(1, vec![1]), NOW, 0);
            let jobs: Vec<Job> = (0..jobs).map(|i| job(i as u64)).collect();
            let scene = drawn(&mut ui, area(0, 0, width, height), &station(jobs));
            let mut areas = vec![
                scene.info_bar,
                scene.column.station.area,
                scene.column.next_job.area,
                scene.column.satellite.area,
                scene.column.future_jobs.area,
                scene.column.filler,
                scene.map.area,
                scene.spectrum.unwrap().area,
            ];
            if let Some(plot) = scene.column.polar {
                areas.push(plot.area);
            }
            for x in 0..width + 2 {
                for y in 0..height + 2 {
                    let inside = |a: &&Area| {
                        a.x <= x && x < a.x + a.width && a.y <= y && y < a.y + a.height
                    };
                    let hits = areas.iter().filter(inside).count();
                    assert_eq!(hits, (x < width && y < height) as usize);
                }
            }
        }
    }
}

#[test]
fn the_spectrum_shares_the_right_side() {
    let mut ui = new_ui();
    ui.handle_event(Event::WaterfallCreated(1, vec![10, 20, 30]), NOW, 0);
    ui.handle_event(Event::WaterfallData(1, vec![4, 5, 6]), NOW, 0);
    ui.handle_event(Event::WaterfallData(2, vec![7, 8, 9]), NOW, 0);
    ui.handle_event(Event::Input(Input::Key(Key::Char('l'))), NOW, 0);
    ui.handle_event(Event::Log((Level::Warn, "low".to_string())), NOW, 0);
    let scene = drawn(&mut ui, area(0, 0, 100, 43), &station(vec![]));
    assert_eq!(scene.map.area, area(40, 2, 60, 20));
    let chart = scene.spectrum.unwrap();
    assert_eq!(chart.area, area(40, 22, 60, 21));
    assert_eq!(chart.bounds, (10, 30));
    assert_eq!(chart.points, vec![(10, 7), (20, 8), (30, 9)]);
    let logs = scene.logs.unwrap();
    assert_eq!(logs.area, area(0, 33, 100, 10));
    assert_eq!(logs.spans[2].text, "low\n");
}

#[test]
fn some_screens_cannot_be_drawn() {
    let mut ui = new_ui();
    let size = area(0, 0, 100, 43);
    assert!(ui.can_draw(size, &station(vec![job(1)]), NOW));
    ui.settings.ui.ground_track_num = 0;
    assert!(!ui.can_draw(size, &station(vec![job(1)]), NOW));
    assert!(ui.can_draw(size, &station(vec![]), NOW));
    ui.handle_event(Event::WaterfallData(1, vec![4]), NOW, 0);
    assert!(!ui.can_draw(size, &station(vec![]), NOW));
    ui.handle_event(Event::WaterfallCreated(1, vec![4]), NOW, 0);
    assert!(ui.can_draw(size, &station(vec![]), NOW));
    assert!(ui.can_draw(area(0, 0, 1, 1312), &station(vec![]), NOW));
    assert!(!ui.can_draw(area(0, 0, 1, 1313), &station(vec![]), NOW));
    let never = Timestamp { secs: i64::MIN, nanos: 0 };
    assert!(!ui.can_draw(size, &station(vec![]), never));
    let late = Job { end: never, ..job(1) };
    ui.settings.ui.ground_track_num = 1;
    assert!(ui.can_draw(size, &station(vec![job(1)]), NOW));
    assert!(!ui.can_draw(size, &station(vec![job(1), late]), NOW));
    assert!(!ui.can_draw(area(60_000, 0, 6_000, 10), &station(vec![]), NOW));
}

//! The state of the user interface: what events do to it, when it is drawn, and
//! what a drawn screen consists of.

use crate::event::{Data, Event, Input, Key, Level};
use crate::layout::{cut_rows, split, Area, Constraint, Direction};
use crate::logs::{LogLine, LogQueue};
use crate::settings::{Settings, StationConfig};
use crate::single::{bits_of_halves, count_halves, is_less};
use crate::station::{Job, Station, SysInfo};
use crate::text::list_text;
use crate::time::{Timestamp, NANOS};
use crate::views::{
    render_future_jobs_view, render_log_view, render_map_view, render_next_job_view,
    render_polar_plot, render_satellite_view, render_spectrum, render_station_view, LogView,
    MapView, Panel, PolarPlot, Spectrum,
};
use vstd::prelude::*;

verus! {

/// How many log messages are kept.
pub const LOG_CAPACITY: usize = 100;

/// The seconds after which the jobs are asked for again.
pub const JOBS_PERIOD: u64 = 600;

/// The nanoseconds during which events are taken up before a redraw.
pub const FRAME_NANOS: u64 = 16_000_000;

/// The bits of the lowest zoom, 1.0.
pub const MIN_ZOOM: u32 = 0x3f80_0000;

/// The bits of the highest zoom, 10.0.
pub const MAX_ZOOM: u32 = 0x4120_0000;

/// What has to be done outside the user interface because of an event.
#[derive(Debug)]
pub enum Effect {
    /// Take over the jobs of a station.
    UpdateJobs(u64, Vec<Job>),
    /// Compute the positions of the satellites anew, with so many orbits.
    UpdateVesselPosition(u8),
    /// Note the measurements for these stations.
    UpdateSysInfo(Vec<u64>, SysInfo),
    /// Ask the network for the jobs of these stations.
    RequestJobs(Vec<u64>),
    /// Drop the finished jobs of all stations.
    RemoveFinishedJobs,
    /// Show the next station.
    NextStation,
    /// Show the previous station.
    PrevStation,
    /// Add a half to the zoom, and report the rounded sum by [`Ui::set_zoom`].
    ZoomIn,
    /// Take a half off the zoom, and report the rounded difference by
    /// [`Ui::set_zoom`].
    ZoomOut,
    /// Log a message.
    Log(Level, String),
    /// Log a key that means nothing, by its name and for debugging.
    LogKey(Key),
}

/// An effect in terms of sequences.
pub enum EffectView {
    UpdateJobs(u64, Seq<Job>),
    UpdateVesselPosition(u8),
    UpdateSysInfo(Seq<u64>, SysInfo),
    RequestJobs(Seq<u64>),
    RemoveFinishedJobs,
    NextStation,
    PrevStation,
    ZoomIn,
    ZoomOut,
    Log(Level, Seq<char>),
    LogKey(Key),
}

impl View for Effect {
    type V = EffectView;

    open spec fn view(&self) -> EffectView {
        match self {
            Effect::UpdateJobs(id, jobs) => EffectView::UpdateJobs(*id, jobs@),
            Effect::UpdateVesselPosition(n) => EffectView::UpdateVesselPosition(*n),
            Effect::UpdateSysInfo(ids, info) => EffectView::UpdateSysInfo(ids@, *info),
            Effect::RequestJobs(ids) => EffectView::RequestJobs(ids@),
            Effect::RemoveFinishedJobs => EffectView::RemoveFinishedJobs,
            Effect::NextStation => EffectView::NextStation,
            Effect::PrevStation => EffectView::PrevStation,
            Effect::ZoomIn => EffectView::ZoomIn,
            Effect::ZoomOut => EffectView::ZoomOut,
            Effect::Log(level, message) => EffectView::Log(*level, message@),
            Effect::LogKey(key) => EffectView::LogKey(*key),
        }
    }
}

/// A list of effects in terms of sequences.
pub open spec fn effect_views(effects: Seq<Effect>) -> Seq<EffectView> {
    effects.map_values(|e: Effect| e@)
}

/// Where the main loop stands.
#[derive(Clone, Copy, Debug, PartialEq, Eq, Structural)]
pub enum Phase {
    /// Before the first turn.
    Starting,
    /// While the screen is drawn for the first time.
    Opening,
    /// While the screen is drawn after events.
    Drawing,
    /// While waiting for an event.
    Receiving,
    /// While the time since the first event is looked up.
    Timing,
    /// While waiting for a further event before the redraw.
    Draining,
    /// After the last turn.
    Stopped,
}

/// What the main loop is told.
#[derive(Debug)]
pub enum Signal {
    /// The loop begins, at this time on the monotonic clock.
    Begin(u64),
    /// The screen is drawn.
    Drawn,
    /// The screen could not be drawn.
    DrawFailed(DrawError),
    /// An event came, at this moment and at this time on the monotonic clock.
    Received(Event, Timestamp, u64),
    /// So many nanoseconds have passed since the clock was started.
    Elapsed(u64),
    /// No event came in time.
    TimedOut,
    /// No event can come any more.
    Disconnected,
}

/// What the main loop does next.
#[derive(Clone, Copy, Debug, PartialEq, Eq, Structural)]
pub enum Step {
    Draw,
    /// Wait for an event.
    Receive,
    /// Start the clock and look at it.
    StartClock,
    /// Look at the clock.
    ReadClock,
    /// Wait for an event for so many nanoseconds.
    ReceiveWithin(u64),
    Stop,
    /// Stop with this error.
    Fail(DrawError),
}

/// A turn of the main loop: effects, in their order, and then the next step.
#[derive(Debug)]
pub struct Turn {
    pub effects: Vec<Effect>,
    pub step: Step,
}

/// The user interface.
pub struct Ui {
    pub logs: LogQueue,
    pub settings: Settings,
    /// The ids of the monitored stations.
    pub stations: Vec<u64>,
    pub show_logs: bool,
    pub shutdown: bool,
    /// When the jobs were last asked for, in nanoseconds on the monotonic clock.
    /// That clock starts when the user interface is made.
    pub last_job_update: u64,
    /// The size of the screen when it was last drawn.
    pub size: Area,
    pub ticks: u32,
    pub waterfall_obs_id: u64,
    pub waterfall_frequencies: Vec<u32>,
    pub waterfall_data: Vec<(u32, Vec<u32>)>,
    pub phase: Phase,
}

/// The user interface in terms of sequences.
pub struct UiView {
    pub logs: Seq<LogLine>,
    pub api_endpoint: Seq<char>,
    pub log_level: Option<u64>,
    pub configured: Seq<StationConfig>,
    pub stations: Seq<u64>,
    pub ground_track_num: u8,
    pub sat_footprint: bool,
    pub zoom: u32,
    pub show_logs: bool,
    pub shutdown: bool,
    pub last_job_update: u64,
    pub size: Area,
    pub ticks: u32,
    pub obs_id: u64,
    pub frequencies: Seq<u32>,
    pub data: Seq<(u32, Seq<u32>)>,
    pub phase: Phase,
}

/// The lines of a waterfall in terms of sequences.
pub open spec fn line_views(data: Seq<(u32, Vec<u32>)>) -> Seq<(u32, Seq<u32>)> {
    data.map_values(|line: (u32, Vec<u32>)| (line.0, line.1@))
}

impl View for Ui {
    type V = UiView;

    open spec fn view(&self) -> UiView {
        UiView {
            logs: self.logs@,
            api_endpoint: self.settings.api_endpoint@,
            log_level: self.settings.log_level,
            configured: self.settings.stations@,
            stations: self.stations@,
            ground_track_num: self.settings.ui.ground_track_num,
            sat_footprint: self.settings.ui.sat_footprint,
            zoom: self.settings.waterfall_zoom,
            show_logs: self.show_logs,
            shutdown: self.shutdown,
            last_job_update: self.last_job_update,
            size: self.size,
            ticks: self.ticks,
            obs_id: self.waterfall_obs_id,
            frequencies: self.waterfall_frequencies@,
            data: line_views(self.waterfall_data@),
            phase: self.phase,
        }
    }
}

/// The user interface for the monitored `stations`, before anything has happened.
pub open spec fn untouched(settings: Settings, stations: Seq<u64>) -> UiView {
    UiView {
        logs: Seq::empty(),
        api_endpoint: settings.api_endpoint@,
        log_level: settings.log_level,
        configured: settings.stations@,
        stations,
        ground_track_num: settings.ui.ground_track_num,
        sat_footprint: settings.ui.sat_footprint,
        zoom: settings.waterfall_zoom,
        show_logs: false,
        shutdown: false,
        last_job_update: 0,
        size: Area { x: 0, y: 0, width: 0, height: 0 },
        ticks: 0,
        obs_id: 0,
        frequencies: Seq::empty(),
        data: Seq::empty(),
        phase: Phase::Starting,
    }
}

/// What a key changes. A zoom in halves changes by a half, between its bounds.
pub open spec fn key_state(v: UiView, key: Key) -> UiView {
    let zoom = crate::single::halves(v.zoom);
    if key == Key::Ctrl('c') || key == Key::Char('q') {
        UiView { shutdown: true, ..v }
    } else if key == Key::Char('f') {
        UiView { sat_footprint: !v.sat_footprint, ..v }
    } else if key == Key::Char('l') {
        UiView { show_logs: !v.show_logs, ..v }
    } else if key == Key::Char('+') && 2 <= zoom < 20 {
        UiView { zoom: crate::single::half_bits(zoom + 1), ..v }
    } else if key == Key::Char('-') && 2 < zoom <= 20 {
        UiView { zoom: crate::single::half_bits(zoom - 1), ..v }
    } else {
        v
    }
}

/// Whether a key means something.
pub open spec fn is_bound(key: Key) -> bool {
    match key {
        Key::Char(c) => c == 'f' || c == 'l' || c == '\t' || c == 'q' || c == '+' || c == '-',
        Key::Ctrl(c) => c == 'c' || c == '\t',
        _ => false,
    }
}

/// What a key causes. Any other zoom changes between its bounds too, but the sum
/// has to be rounded.
pub open spec fn key_effects(v: UiView, key: Key) -> Seq<EffectView> {
    let rounded = crate::single::halves(v.zoom) == 0;
    if key == Key::Char('\t') {
        seq![EffectView::NextStation]
    } else if key == Key::Ctrl('\t') {
        seq![EffectView::PrevStation]
    } else if key == Key::Char('+') && crate::single::less(v.zoom, MAX_ZOOM) && rounded {
        seq![EffectView::ZoomIn]
    } else if key == Key::Char('-') && crate::single::less(MIN_ZOOM, v.zoom) && rounded {
        seq![EffectView::ZoomOut]
    } else if !is_bound(key) {
        seq![EffectView::LogKey(key)]
    } else {
        Seq::empty()
    }
}

/// The request of the jobs of all stations, which is logged.
pub open spec fn jobs_request(v: UiView) -> Seq<EffectView> {
    seq![
        EffectView::Log(Level::Trace, "Requesting jobs update"@),
        EffectView::RequestJobs(v.stations),
    ]
}

/// Whether the jobs are to be asked for again at the time `uptime`.
pub open spec fn jobs_due(v: UiView, uptime: u64) -> bool {
    uptime - v.last_job_update >= JOBS_PERIOD * NANOS
}

/// What a tick at the time `uptime` changes.
pub open spec fn tick_state(v: UiView, uptime: u64) -> UiView {
    UiView {
        ticks: (v.ticks + 1) as u32,
        last_job_update: if jobs_due(v, uptime) {
            uptime
        } else {
            v.last_job_update
        },
        ..v
    }
}

/// What a tick at the time `uptime` causes.
pub open spec fn tick_effects(v: UiView, uptime: u64) -> Seq<EffectView> {
    let tick = v.ticks + 1;
    let jobs = if jobs_due(v, uptime) {
        jobs_request(v)
    } else {
        Seq::empty()
    };
    let positions = if tick % 5 == 0 {
        seq![EffectView::UpdateVesselPosition(v.ground_track_num)]
    } else {
        Seq::empty()
    };
    let finished = if tick % 60 == 0 {
        seq![EffectView::RemoveFinishedJobs]
    } else {
        Seq::empty()
    };
    jobs + positions + finished
}

/// Those of `ids` that are monitored.
pub open spec fn monitored(ids: Seq<u64>, stations: Seq<u64>) -> Seq<u64> {
    ids.filter(|id: u64| stations.contains(id))
}

/// What an event at the moment `now` and the time `uptime` changes.
pub open spec fn event_state(v: UiView, event: Event, now: Timestamp, uptime: u64) -> UiView {
    match event {
        Event::Input(Input::Key(key)) => key_state(v, key),
        Event::Log(entry) => {
            let line = LogLine { time: now, level: entry.0, message: entry.1 };
            UiView { logs: crate::logs::kept(v.logs.push(line), LOG_CAPACITY as nat), ..v }
        },
        Event::Tick => tick_state(v, uptime),
        Event::WaterfallCreated(id, frequencies) => UiView {
            obs_id: id,
            frequencies: frequencies@,
            ..v
        },
        Event::WaterfallData(seconds, data) => UiView { data: v.data.push((seconds, data@)), ..v },
        Event::WaterfallClosed(_) => UiView {
            obs_id: 0,
            frequencies: Seq::empty(),
            data: Seq::empty(),
            ..v
        },
        _ => v,
    }
}

/// What an event at the time `uptime` causes.
pub open spec fn event_effects(v: UiView, event: Event, uptime: u64) -> Seq<EffectView> {
    match event {
        Event::CommandResponse(Data::Jobs(id, jobs)) => seq![
            EffectView::UpdateJobs(id, jobs@),
            EffectView::UpdateVesselPosition(v.ground_track_num),
        ],
        Event::Input(Input::Key(key)) => key_effects(v, key),
        Event::Resize => seq![EffectView::Log(Level::Debug, "Terminal size changed"@)],
        Event::SystemInfo(ids, info) => seq![
            EffectView::Log(
                Level::Trace,
                "Got system info for stations "@ + crate::text::bracketed(ids@),
            ),
            EffectView::UpdateSysInfo(monitored(ids@, v.stations), info),
        ],
        Event::Tick => tick_effects(v, uptime),
        _ => Seq::empty(),
    }
}

/// Ticks can be counted as long as the counter has room.
pub open spec fn countable(v: UiView, event: Event) -> bool {
    event is Tick ==> v.ticks < u32::MAX
}

/// The screen is being drawn.
pub open spec fn drawing(v: UiView) -> bool {
    v.phase == Phase::Opening || v.phase == Phase::Drawing
}

/// What the loop can be told where it stands.
pub open spec fn expected(v: UiView, signal: Signal) -> bool {
    match signal {
        Signal::Begin(_) => v.phase == Phase::Starting,
        Signal::Drawn => drawing(v),
        Signal::DrawFailed(_) => drawing(v),
        Signal::Received(event, now, _) => {
            &&& v.phase == Phase::Receiving || v.phase == Phase::Draining
            &&& now.wf()
            &&& countable(v, event)
        },
        Signal::Elapsed(_) => v.phase == Phase::Timing,
        Signal::TimedOut => v.phase == Phase::Draining,
        Signal::Disconnected => v.phase == Phase::Receiving || v.phase == Phase::Draining,
    }
}

/// The next step of the loop. After a first event, further ones are taken up
/// until a frame's time is over; then the screen is drawn, and the loop ends if
/// it was told to. An event is waited for after the first drawing in any case. A
/// drawing that fails ends the loop at once.
pub open spec fn next_step(v: UiView, signal: Signal) -> Step {
    match signal {
        Signal::Begin(_) => Step::Draw,
        Signal::Drawn => if v.shutdown && v.phase == Phase::Drawing {
            Step::Stop
        } else {
            Step::Receive
        },
        Signal::DrawFailed(error) => Step::Fail(error),
        Signal::Received(_, _, _) => if v.phase == Phase::Receiving {
            Step::StartClock
        } else {
            Step::ReadClock
        },
        Signal::Elapsed(nanos) => if nanos <= FRAME_NANOS {
            Step::ReceiveWithin((FRAME_NANOS - nanos) as u64)
        } else {
            Step::Draw
        },
        Signal::TimedOut => Step::Draw,
        Signal::Disconnected => if v.phase == Phase::Receiving {
            Step::Stop
        } else {
            Step::Draw
        },
    }
}

/// Where a step leaves the loop that stood at `phase`.
pub open spec fn phase_of(phase: Phase, step: Step) -> Phase {
    match step {
        Step::Draw => if phase == Phase::Starting {
            Phase::Opening
        } else {
            Phase::Drawing
        },
        Step::Receive => Phase::Receiving,
        Step::StartClock => Phase::Timing,
        Step::ReadClock => Phase::Timing,
        Step::ReceiveWithin(_) => Phase::Draining,
        Step::Stop => Phase::Stopped,
        Step::Fail(_) => Phase::Stopped,
    }
}

/// The user interface after a turn. Losing the source of events while a redraw
/// is due ends the loop after that redraw.
pub open spec fn turn_state(v: UiView, signal: Signal) -> UiView {
    let phase = phase_of(v.phase, next_step(v, signal));
    match signal {
        Signal::Begin(uptime) => UiView { phase, last_job_update: uptime, ..v },
        Signal::Received(event, now, uptime) => UiView {
            phase,
            ..event_state(v, event, now, uptime)
        },
        Signal::Disconnected => UiView {
            phase,
            shutdown: v.shutdown || v.phase == Phase::Draining,
            ..v
        },
        _ => UiView { phase, ..v },
    }
}

/// The effects of a turn.
pub open spec fn turn_effects(v: UiView, signal: Signal) -> Seq<EffectView> {
    match signal {
        Signal::Begin(_) => jobs_request(v),
        Signal::Received(event, _, uptime) => event_effects(v, event, uptime),
        _ => Seq::empty(),
    }
}

fn one(effect: Effect) -> (r: Vec<Effect>)
    ensures
        effect_views(r@) == seq![effect@],
{
    let mut r: Vec<Effect> = Vec::new();
    r.push(effect);
    assert(effect_views(r@) =~= seq![effect@]);
    r
}

fn none() -> (r: Vec<Effect>)
    ensures
        effect_views(r@) == Seq::<EffectView>::empty(),
{
    let r: Vec<Effect> = Vec::new();
    assert(effect_views(r@) =~= Seq::empty());
    r
}

fn push_effect(effects: &mut Vec<Effect>, effect: Effect)
    ensures
        effect_views(final(effects)@) == effect_views(old(effects)@).push(effect@),
{
    effects.push(effect);
    assert(effect_views(effects@) =~= effect_views(old(effects)@).push(effect@));
}

/// A copy of a list of ids.
fn copy_ids(ids: &Vec<u64>) -> (r: Vec<u64>)
    ensures
        r@ == ids@,
{
    let mut r: Vec<u64> = Vec::new();
    let mut i: usize = 0;
    while i < ids.len()
        invariant
            i <= ids@.len(),
            r@ =~= ids@.take(i as int),
        decreases ids@.len() - i,
    {
        r.push(ids[i]);
        i = i + 1;
    }
    assert(ids@.take(i as int) =~= ids@);
    r
}

impl Ui {
    /// The log has its full room, and its moments lie within the calendar.
    pub open spec fn wf(&self) -> bool {
        &&& self.logs.capacity() == LOG_CAPACITY
        &&& self.logs@.len() <= LOG_CAPACITY
        &&& forall|i: int| 0 <= i < self.logs@.len() ==> (#[trigger] self.logs@[i]).time.wf()
    }

    /// The user interface for the monitored `stations`, before anything has
    /// happened.
    pub fn new(settings: Settings, stations: Vec<u64>) -> (r: Ui)
        ensures
            r.wf(),
            r@ == untouched(settings, stations@),
    {
        let data: Vec<(u32, Vec<u32>)> = Vec::new();
        assert(line_views(data@) =~= Seq::empty());
        Ui {
            logs: LogQueue::with_capacity(LOG_CAPACITY),
            settings,
            stations,
            show_logs: false,
            shutdown: false,
            last_job_update: 0,
            size: Area { x: 0, y: 0, width: 0, height: 0 },
            ticks: 0,
            waterfall_obs_id: 0,
            waterfall_frequencies: Vec::new(),
            waterfall_data: data,
            phase: Phase::Starting,
        }
    }

    /// Takes over a new zoom.
    pub fn set_zoom(&mut self, zoom: u32)
        requires
            old(self).wf(),
        ensures
            final(self).wf(),
            final(self)@ == (UiView { zoom, ..old(self)@ }),
    {
        self.settings.waterfall_zoom = zoom;
    }

    /// Takes up what came from the terminal.
    pub fn handle_input(&mut self, input: Input) -> (r: Vec<Effect>)
        requires
            old(self).wf(),
        ensures
            final(self).wf(),
            final(self)@ == (match input {
                Input::Key(key) => key_state(old(self)@, key),
                Input::Other => old(self)@,
            }),
            effect_views(r@) == (match input {
                Input::Key(key) => key_effects(old(self)@, key),
                Input::Other => Seq::empty(),
            }),
    {
        let mut effects: Vec<Effect> = none();
        match input {
            Input::Key(Key::Ctrl('c')) => {
                self.shutdown = true;
            },
            Input::Key(Key::Char('f')) => {
                self.settings.ui.sat_footprint = !self.settings.ui.sat_footprint;
            },
            Input::Key(Key::Char('l')) => {
                self.show_logs = !self.show_logs;
            },
            Input::Key(Key::Char('\t')) => {
                effects = one(Effect::NextStation);
            },
            Input::Key(Key::Ctrl('\t')) => {
                effects = one(Effect::PrevStation);
            },
            Input::Key(Key::Char('q')) => {
                self.shutdown = true;
            },
            Input::Key(Key::Char('+')) => {
                let zoom: u32 = count_halves(self.settings.waterfall_zoom);
                if is_less(self.settings.waterfall_zoom, MAX_ZOOM) {
                    if zoom == 0 {
                        effects = one(Effect::ZoomIn);
                    } else {
                        self.settings.waterfall_zoom = bits_of_halves(zoom + 1);
                    }
                }
            },
            Input::Key(Key::Char('-')) => {
                let zoom: u32 = count_halves(self.settings.waterfall_zoom);
                if is_less(MIN_ZOOM, self.settings.waterfall_zoom) {
                    if zoom == 0 {
                        effects = one(Effect::ZoomOut);
                    } else {
                        self.settings.waterfall_zoom = bits_of_halves(zoom - 1);
                    }
                }
            },
            Input::Key(key) => {
                effects = one(Effect::LogKey(key));
            },
            Input::Other => {},
        }
        effects
    }

    /// Counts a tick at the time `uptime`.
    pub fn handle_tick(&mut self, uptime: u64) -> (r: Vec<Effect>)
        requires
            old(self).wf(),
            old(self)@.ticks < u32::MAX,
        ensures
            final(self).wf(),
            final(self)@ == tick_state(old(self)@, uptime),
            effect_views(r@) == tick_effects(old(self)@, uptime),
    {
        let mut effects: Vec<Effect> = none();
        let elapsed: u64 = if uptime < self.last_job_update {
            0
        } else {
            uptime - self.last_job_update
        };
        if elapsed / NANOS as u64 >= JOBS_PERIOD {
            effects = self.update_jobs(uptime);
        }
        self.ticks = self.ticks + 1;
        if self.ticks % 5 == 0 {
            let n: u8 = self.settings.ui.ground_track_num;
            push_effect(&mut effects, Effect::UpdateVesselPosition(n));
        }
        if self.ticks % 60 == 0 {
            push_effect(&mut effects, Effect::RemoveFinishedJobs);
        }
        assert(effect_views(effects@) =~= tick_effects(old(self)@, uptime));
        effects
    }

    /// Asks for the jobs of all stations at the time `uptime`.
    pub fn update_jobs(&mut self, uptime: u64) -> (r: Vec<Effect>)
        requires
            old(self).wf(),
        ensures
            final(self).wf(),
            final(self)@ == (UiView { last_job_update: uptime, ..old(self)@ }),
            effect_views(r@) == jobs_request(old(self)@),
    {
        self.last_job_update = uptime;
        let mut effects = one(Effect::Log(Level::Trace, "Requesting jobs update".to_owned()));
        push_effect(&mut effects, Effect::RequestJobs(copy_ids(&self.stations)));
        effects
    }

    /// Those of `ids` that are monitored.
    fn monitored_of(&self, ids: &Vec<u64>) -> (r: Vec<u64>)
        ensures
            r@ == monitored(ids@, self@.stations),
    {
        let mut r: Vec<u64> = Vec::new();
        let mut i: usize = 0;
        proof {
            reveal(Seq::filter);
            assert(ids@.take(0) =~= Seq::<u64>::empty());
            assert(r@ =~= monitored(ids@.take(0), self@.stations));
        }
        while i < ids.len()
            invariant
                i <= ids@.len(),
                r@ == monitored(ids@.take(i as int), self@.stations),
            decreases ids@.len() - i,
        {
            if self.monitors(ids[i]) {
                r.push(ids[i]);
            }
            proof {
                reveal(Seq::filter);
                let longer = ids@.take(i + 1);
                assert(longer.drop_last() =~= ids@.take(i as int));
                assert(longer.last() == ids@[i as int]);
            }
            i = i + 1;
        }
        assert(ids@.take(i as int) =~= ids@);
        r
    }

    /// Whether the station `id` is monitored.
    pub fn monitors(&self, id: u64) -> (r: bool)
        ensures
            r == self@.stations.contains(id),
    {
        let mut i: usize = 0;
        while i < self.stations.len()
            invariant
                i <= self.stations@.len(),
                forall|j: int| 0 <= j < i ==> self.stations@[j] != id,
            decreases self.stations@.len() - i,
        {
            if self.stations[i] == id {
                assert(self.stations@[i as int] == id);
                return true;
            }
            i = i + 1;
        }
        false
    }

    /// Takes up an event that came at the moment `now` and the time `uptime`.
    pub fn handle_event(&mut self, event: Event, now: Timestamp, uptime: u64) -> (r: Vec<
        Effect,
    >)
        requires
            old(self).wf(),
            now.wf(),
            countable(old(self)@, event),
        ensures
            final(self).wf(),
            final(self)@ == event_state(old(self)@, event, now, uptime),
            effect_views(r@) == event_effects(old(self)@, event, uptime),
    {
        match event {
            Event::CommandResponse(Data::Jobs(id, jobs)) => {
                let mut effects = one(Effect::UpdateJobs(id, jobs));
                let n: u8 = self.settings.ui.ground_track_num;
                push_effect(&mut effects, Effect::UpdateVesselPosition(n));
                effects
            },
            Event::Resize => {
                one(Effect::Log(Level::Debug, "Terminal size changed".to_owned()))
            },
            Event::Input(input) => self.handle_input(input),
            Event::Log(entry) => {
                let line = LogLine { time: now, level: entry.0, message: entry.1 };
                self.logs.push(line);
                none()
            },
            Event::SystemInfo(ids, info) => {
                let known = self.monitored_of(&ids);
                let mut message = "Got system info for stations ".to_owned();
                message.append(list_text(&ids).as_str());
                let mut effects = one(Effect::Log(Level::Trace, message));
                push_effect(&mut effects, Effect::UpdateSysInfo(known, info));
                effects
            },
            Event::Tick => self.handle_tick(uptime),
            Event::WaterfallCreated(id, frequencies) => {
                self.waterfall_obs_id = id;
                self.waterfall_frequencies = frequencies;
                none()
            },
            Event::WaterfallData(seconds, data) => {
                self.waterfall_data.push((seconds, data));
                assert(self@.data =~= old(self)@.data.push((seconds, data@)));
                none()
            },
            Event::WaterfallClosed(_) => {
                self.waterfall_data.clear();
                self.waterfall_frequencies.clear();
                self.waterfall_obs_id = 0;
                assert(self@.data =~= Seq::empty());
                none()
            },
        }
    }

    /// Whether the loop can be told `signal` where it stands.
    pub fn expects(&self, signal: &Signal) -> (r: bool)
        ensures
            r == expected(self@, *signal),
    {
        match signal {
            Signal::Begin(_) => self.phase == Phase::Starting,
            Signal::Drawn => self.phase == Phase::Opening || self.phase == Phase::Drawing,
            Signal::DrawFailed(_) => {
                self.phase == Phase::Opening || self.phase == Phase::Drawing
            },
            Signal::Received(event, now, _) => {
                let open = self.phase == Phase::Receiving || self.phase == Phase::Draining;
                let full = match event {
                    Event::Tick => self.ticks == u32::MAX,
                    _ => false,
                };
                open && now.valid() && !full
            },
            Signal::Elapsed(_) => self.phase == Phase::Timing,
            Signal::TimedOut => self.phase == Phase::Draining,
            Signal::Disconnected => {
                self.phase == Phase::Receiving || self.phase == Phase::Draining
            },
        }
    }

    /// Takes a turn of the main loop.
    pub fn run(&mut self, signal: Signal) -> (r: Turn)
        requires
            old(self).wf(),
            expected(old(self)@, signal),
        ensures
            final(self).wf(),
            final(self)@ == turn_state(old(self)@, signal),
            effect_views(r.effects@) == turn_effects(old(self)@, signal),
            r.step == next_step(old(self)@, signal),
    {
        let phase = self.phase;
        let receiving = phase == Phase::Receiving;
        let (effects, step) = match signal {
            Signal::Begin(uptime) => (self.update_jobs(uptime), Step::Draw),
            Signal::Drawn => (
                none(),
                if self.shutdown && phase == Phase::Drawing {
                    Step::Stop
                } else {
                    Step::Receive
                },
            ),
            Signal::DrawFailed(error) => (none(), Step::Fail(error)),
            Signal::Received(event, now, uptime) => (
                self.handle_event(event, now, uptime),
                if receiving {
                    Step::StartClock
                } else {
                    Step::ReadClock
                },
            ),
            Signal::Elapsed(nanos) => (
                none(),
                if nanos <= FRAME_NANOS {
                    Step::ReceiveWithin(FRAME_NANOS - nanos)
                } else {
                    Step::Draw
                },
            ),
            Signal::TimedOut => (none(), Step::Draw),
            Signal::Disconnected => {
                if receiving {
                    (none(), Step::Stop)
                } else {
                    self.shutdown = true;
                    (none(), Step::Draw)
                }
            },
        };
        self.phase = match step {
            Step::Draw => if phase == Phase::Starting {
                Phase::Opening
            } else {
                Phase::Drawing
            },
            Step::Receive => Phase::Receiving,
            Step::StartClock => Phase::Timing,
            Step::ReadClock => Phase::Timing,
            Step::ReceiveWithin(_) => Phase::Draining,
            Step::Stop => Phase::Stopped,
            Step::Fail(_) => Phase::Stopped,
        };
        Turn { effects, step }
    }
}

/// The column of text views, in the order in which they are drawn.
#[derive(Debug)]
pub struct Column {
    pub station: Panel,
    pub next_job: Panel,
    /// The plot of the next job, if there is one.
    pub polar: Option<PolarPlot>,
    pub satellite: Panel,
    pub future_jobs: Panel,
    /// What is left below the views.
    pub filler: Area,
}

/// A drawn screen: its views in the order in which they are drawn.
#[derive(Debug)]
pub struct Scene {
    pub info_bar: Area,
    pub column: Column,
    pub map: MapView,
    /// The spectrum, while there is a waterfall.
    pub spectrum: Option<Spectrum>,
    /// The log window, while it is wanted.
    pub logs: Option<LogView>,
}

/// The rows of the bar at the top.
pub const BAR_ROWS: u16 = 2;

/// The columns of the views on the left.
pub const LEFT_COLUMNS: u16 = 40;

/// The rows of the log window.
pub const LOG_ROWS: u16 = 10;

/// The screen below the bar.
pub open spec fn body(size: Area) -> Area {
    crate::views::lower(size, BAR_ROWS as int)
}

/// The part of the body for the column of text views.
pub open spec fn left_side(size: Area) -> Area {
    crate::layout::head(
        Direction::Horizontal,
        body(size),
        crate::layout::least(LEFT_COLUMNS as int, size.width as int),
    )
}

/// The part of the body for the map and the spectrum.
pub open spec fn right_side(size: Area) -> Area {
    crate::layout::tail(
        Direction::Horizontal,
        body(size),
        crate::layout::least(LEFT_COLUMNS as int, size.width as int),
    )
}

/// The last rows of the screen, for the log window.
pub open spec fn log_side(size: Area) -> Area {
    crate::views::lower(
        size,
        size.height - crate::layout::least(LOG_ROWS as int, size.height as int),
    )
}

/// What the column has left below the views up to the one named.
pub open spec fn below_station(column: Area, station: Station) -> Area {
    crate::views::lower(column, crate::views::station_lines(station))
}

pub open spec fn below_next_job(column: Area, station: Station) -> Area {
    crate::views::lower(
        below_station(column, station),
        crate::views::next_job_lines(station),
    )
}

/// The rows of the polar plot: none without a job.
pub open spec fn polar_lines(column: Area, station: Station) -> int {
    if station.jobs@.len() > 0 {
        column.width as int / 2
    } else {
        0
    }
}

pub open spec fn below_polar(column: Area, station: Station) -> Area {
    crate::views::lower(below_next_job(column, station), polar_lines(column, station))
}

pub open spec fn below_satellite(column: Area, station: Station) -> Area {
    crate::views::lower(below_polar(column, station), crate::views::satellite_lines(station))
}

/// The rows of the list of jobs.
pub open spec fn list_lines(column: Area, station: Station) -> int {
    crate::views::future_jobs_lines(
        station.jobs@.len(),
        below_satellite(column, station).height as int,
    )
}

/// What the column has left below all views.
pub open spec fn below_future_jobs(column: Area, station: Station) -> Area {
    crate::views::lower(below_satellite(column, station), list_lines(column, station))
}

/// The views of the column show `station` at `now`, one below the other.
pub open spec fn column_shows(views: Column, column: Area, station: Station, now: Timestamp) -> bool {
    &&& views.station.area == crate::views::upper(column, crate::views::station_lines(station))
    &&& crate::views::panel_text(views.station) == crate::views::station_text(station)
    &&& views.next_job.area == crate::views::upper(
        below_station(column, station),
        crate::views::next_job_lines(station),
    )
    &&& crate::views::panel_text(views.next_job) == (if station.jobs@.len() > 0 {
        crate::views::next_job_text(station.jobs@[0], now)
    } else {
        crate::views::nothing_text("Next Job\n\n"@)
    })
    &&& views.polar == (if station.jobs@.len() > 0 {
        Some(
            crate::views::polar_plot(
                crate::views::upper(below_next_job(column, station), polar_lines(column, station)),
                station.jobs@[0].polar_track_len,
                crate::views::passing(station.jobs@[0], now),
            ),
        )
    } else {
        None
    })
    &&& views.satellite.area == crate::views::upper(
        below_polar(column, station),
        crate::views::satellite_lines(station),
    )
    &&& crate::views::panel_text(views.satellite) == (if station.jobs@.len() > 0 {
        crate::views::satellite_text(station.jobs@[0])
    } else {
        crate::views::nothing_text("Satellite\n\n"@)
    })
    &&& views.future_jobs.area == crate::views::upper(
        below_satellite(column, station),
        list_lines(column, station),
    )
    &&& crate::views::panel_text(views.future_jobs) == crate::views::future_jobs_text(
        station.jobs@,
        below_satellite(column, station).height as int,
        now,
    )
    &&& views.filler == below_future_jobs(column, station)
}

/// The map shows the next job of `station`.
pub open spec fn map_shows(v: UiView, map: MapView, station: Station) -> bool {
    &&& map.track is Some <==> station.jobs@.len() > 0
    &&& map.track matches Some(track) ==> {
        &&& track.label@ == "■─"@ + station.jobs@[0].vessel_name@
        &&& track.layers@ == crate::views::map_layers(
            station.jobs@[0].ground_track_len,
            v.ground_track_num as usize,
            v.sat_footprint,
        )
    }
}

/// The map fills the right side, or shares it with the spectrum of the latest
/// line while there is a waterfall.
pub open spec fn right_shows(
    v: UiView,
    map: MapView,
    spectrum: Option<Spectrum>,
    right: Area,
    station: Station,
) -> bool {
    let half = right.height as int / 2;
    &&& map_shows(v, map, station)
    &&& spectrum is Some <==> v.data.len() > 0
    &&& map.area == (if v.data.len() > 0 {
        crate::views::upper(right, half)
    } else {
        right
    })
    &&& spectrum matches Some(chart) ==> {
        &&& chart.area == crate::views::lower(right, half)
        &&& chart.bounds == (v.frequencies[0], v.frequencies.last())
        &&& chart.points@ == crate::views::zipped(v.frequencies, v.data.last().1)
    }
}

/// The log window shows the latest messages if it is wanted.
pub open spec fn logs_shown(v: UiView, logs: Option<LogView>, area: Area) -> bool {
    &&& logs is Some <==> v.show_logs
    &&& logs matches Some(view) ==> {
        &&& view.area == area
        &&& view.inner == crate::layout::inside(crate::views::log_edges(), area)
        &&& crate::text::shown(view.background@) == crate::views::blank_lines(view.inner)
        &&& crate::text::shown(view.spans@) == crate::views::log_text(
            crate::logs::kept(v.logs, crate::views::LOG_LINES as nat),
        )
    }
}

/// What a screen of `size` shows, and where.
pub open spec fn scene_shows(
    v: UiView,
    scene: Scene,
    size: Area,
    station: Station,
    now: Timestamp,
) -> bool {
    &&& scene.info_bar == crate::views::upper(size, BAR_ROWS as int)
    &&& column_shows(scene.column, left_side(size), station, now)
    &&& right_shows(v, scene.map, scene.spectrum, right_side(size), station)
    &&& logs_shown(v, scene.logs, log_side(size))
}

/// Why a screen is not drawn.
#[derive(Clone, Copy, Debug, PartialEq, Eq, Structural)]
pub enum DrawError {
    /// The size of the terminal could not be read.
    Size,
    /// The terminal could not be resized.
    Resize,
    /// The terminal could not be drawn to.
    Draw,
}

/// The text of an error.
pub open spec fn draw_message(error: DrawError) -> Seq<char> {
    match error {
        DrawError::Size => "Failed to get terminal size"@,
        DrawError::Resize => "Failed to resize terminal"@,
        DrawError::Draw => "Failed to draw to terminal"@,
    }
}

impl DrawError {
    /// The text of the error.
    pub fn message(self) -> (r: &'static str)
        ensures
            r@ == draw_message(self),
    {
        match self {
            DrawError::Size => "Failed to get terminal size",
            DrawError::Resize => "Failed to resize terminal",
            DrawError::Draw => "Failed to draw to terminal",
        }
    }
}

/// The size to draw in: that of the terminal, once the terminal has it.
pub open spec fn ready(v: UiView, size: Option<Area>, resized: bool) -> Result<Area, DrawError> {
    match size {
        None => Err(DrawError::Size),
        Some(area) => if area != v.size && !resized {
            Err(DrawError::Resize)
        } else {
            Ok(area)
        },
    }
}

/// The screen can be drawn: where a job is shown, some orbit is plotted, and
/// where a spectrum is shown, there are frequencies and the screen is not too
/// high for halving.
pub open spec fn drawable(v: UiView, size: Area, station: Station) -> bool {
    &&& station.jobs@.len() > 0 ==> v.ground_track_num > 0
    &&& v.data.len() > 0 ==> v.frequencies.len() > 0 && 50 * body(size).height <= u16::MAX
}

impl Ui {
    /// Whether a screen of `size` can be drawn for `station` at the moment `now`.
    pub fn can_draw(&self, size: Area, station: &Station, now: Timestamp) -> (r: bool)
        ensures
            r == (size.wf() && station.wf() && now.wf() && drawable(self@, size, *station)),
    {
        let rows: u16 = if size.height < BAR_ROWS {
            0
        } else {
            size.height - BAR_ROWS
        };
        let orbits = station.jobs.len() == 0 || self.settings.ui.ground_track_num > 0;
        let spectrum = self.waterfall_data.len() == 0 || (self.waterfall_frequencies.len() > 0
            && rows <= u16::MAX / 50);
        size.valid() && station.valid() && now.valid() && orbits && spectrum
    }

    /// The map and the spectrum on the right side.
    fn render_right(&self, right: Area, station: &Station) -> (r: (MapView, Option<Spectrum>))
        requires
            right.wf(),
            station.jobs@.len() > 0 ==> self@.ground_track_num > 0,
            self@.data.len() > 0 ==> self@.frequencies.len() > 0 && 50 * right.height <= u16::MAX,
        ensures
            right_shows(self@, r.0, r.1, right, *station),
    {
        let orbits: usize = self.settings.ui.ground_track_num as usize;
        let footprint = self.settings.ui.sat_footprint;
        if self.waterfall_data.len() > 0 {
            let (upper, lower) = split(
                Direction::Vertical,
                Constraint::Percentage(50),
                Constraint::Min(0),
                right,
            );
            let last: usize = self.waterfall_data.len() - 1;
            let spectrum = render_spectrum(
                lower,
                &self.waterfall_frequencies,
                &self.waterfall_data[last].1,
            );
            (render_map_view(upper, station, orbits, footprint), Some(spectrum))
        } else {
            (render_map_view(right, station, orbits, footprint), None)
        }
    }

    /// Whether the terminal has to be resized before a screen of `size` is drawn.
    pub fn needs_resize(&self, size: Area) -> (r: bool)
        ensures
            r == (self@.size != size),
    {
        self.size != size
    }

    /// Draws a screen with `station` at the moment `now`, in the size of the
    /// terminal, if that could be read. Where the terminal has to be resized first,
    /// `resized` says whether it was. A size is only taken over once the terminal
    /// has it.
    pub fn draw(
        &mut self,
        size: Option<Area>,
        resized: bool,
        station: &Station,
        now: Timestamp,
    ) -> (r: Result<Scene, DrawError>)
        requires
            old(self).wf(),
            ready(old(self)@, size, resized) is Ok ==> {
                &&& size->0.wf()
                &&& station.wf()
                &&& now.wf()
                &&& drawable(old(self)@, size->0, *station)
            },
        ensures
            final(self).wf(),
            match ready(old(self)@, size, resized) {
                Err(error) => r == Err::<Scene, DrawError>(error) && final(self)@ == old(self)@,
                Ok(area) => {
                    &&& final(self)@ == (UiView { size: area, ..old(self)@ })
                    &&& r is Ok
                    &&& scene_shows(old(self)@, r->Ok_0, area, *station, now)
                },
            },
    {
        let size = match size {
            Some(size) => size,
            None => {
                return Err(DrawError::Size);
            },
        };
        if self.size != size {
            if !resized {
                return Err(DrawError::Resize);
            }
            self.size = size;
        }
        let (info_bar, rows) = cut_rows(size, BAR_ROWS);
        let (left, right) = split(
            Direction::Horizontal,
            Constraint::Length(LEFT_COLUMNS),
            Constraint::Min(0),
            rows,
        );
        let (_, log_area) = split(
            Direction::Vertical,
            Constraint::Min(0),
            Constraint::Length(LOG_ROWS),
            size,
        );
        let column = render_column(left, station, now);
        let (map, spectrum) = self.render_right(right, station);
        let logs = if self.show_logs {
            Some(render_log_view(log_area, &self.logs))
        } else {
            None
        };
        Ok(Scene { info_bar, column, map, spectrum, logs })
    }
}

/// The views of `station` at `now`, one below the other in `rect`.
pub fn render_column(rect: Area, station: &Station, now: Timestamp) -> (r: Column)
    requires
        rect.wf(),
        station.wf(),
        now.wf(),
        list_lines(rect, *station) <= u16::MAX,
    ensures
        column_shows(r, rect, *station, now),
{
    let (station_panel, rest) = render_station_view(rect, station);
    let (next_job, rest) = render_next_job_view(rest, station, now);
    let (polar, rest) = if station.jobs.len() > 0 {
        let (plot, rest) = render_polar_plot(rest, &station.jobs[0], now);
        (Some(plot), rest)
    } else {
        (None, rest)
    };
    assert(rest == below_polar(rect, *station));
    let (satellite, rest) = render_satellite_view(rest, station);
    let (future_jobs, filler) = render_future_jobs_view(rest, station, now);
    Column { station: station_panel, next_job, polar, satellite, future_jobs, filler }
}

/// One if the cell (`x`, `y`) lies in `area`.
pub open spec fn hit(area: Area, x: int, y: int) -> int {
    if area.covers(x, y) {
        1
    } else {
        0
    }
}

proof fn lemma_rows_tile(rect: Area, lines: int, x: int, y: int)
    requires
        rect.wf(),
        lines >= 0,
    ensures
        hit(rect, x, y) == hit(crate::views::upper(rect, lines), x, y) + hit(
            crate::views::lower(rect, lines),
            x,
            y,
        ),
        crate::views::lower(rect, lines).wf(),
{
}

/// The bar, the left side and the right side share the screen: each cell of it
/// lies in exactly one of them, and no other cell does.
pub proof fn law_screen_is_shared(size: Area, x: int, y: int)
    requires
        size.wf(),
    ensures
        hit(size, x, y) == hit(crate::views::upper(size, BAR_ROWS as int), x, y) + hit(
            left_side(size),
            x,
            y,
        ) + hit(right_side(size), x, y),
{
    lemma_rows_tile(size, BAR_ROWS as int, x, y);
}

/// The views of the column share it: each cell of the column lies in exactly
/// one of them or below all, and no other cell does.
pub proof fn law_column_is_shared(
    views: Column,
    column: Area,
    station: Station,
    now: Timestamp,
    x: int,
    y: int,
)
    requires
        column.wf(),
        column_shows(views, column, station, now),
    ensures
        hit(column, x, y) == hit(views.station.area, x, y) + hit(views.next_job.area, x, y) + (
        match views.polar {
            Some(plot) => hit(plot.area, x, y),
            None => 0,
        }) + hit(views.satellite.area, x, y) + hit(views.future_jobs.area, x, y) + hit(
            views.filler,
            x,
            y,
        ),
{
    lemma_rows_tile(column, crate::views::station_lines(station), x, y);
    lemma_rows_tile(
        below_station(column, station),
        crate::views::next_job_lines(station),
        x,
        y,
    );
    lemma_rows_tile(below_next_job(column, station), polar_lines(column, station), x, y);
    lemma_rows_tile(
        below_polar(column, station),
        crate::views::satellite_lines(station),
        x,
        y,
    );
    lemma_rows_tile(below_satellite(column, station), list_lines(column, station), x, y);
}

/// The map and the spectrum share the right side.
pub proof fn law_right_side_is_shared(
    v: UiView,
    map: MapView,
    spectrum: Option<Spectrum>,
    right: Area,
    station: Station,
    x: int,
    y: int,
)
    requires
        right.wf(),
        right_shows(v, map, spectrum, right, station),
    ensures
        hit(right, x, y) == hit(map.area, x, y) + (match spectrum {
            Some(chart) => hit(chart.area, x, y),
            None => 0,
        }),
{
    lemma_rows_tile(right, right.height as int / 2, x, y);
}

/// Nothing takes back the wish to end, and the loop ends after the redraw that
/// follows the next event or is due already.
pub proof fn law_shutdown_ends_the_loop(v: UiView, signal: Signal)
    requires
        expected(v, signal),
        v.shutdown,
    ensures
        turn_state(v, signal).shutdown,
        signal is Drawn && v.phase == Phase::Drawing ==> next_step(v, signal) is Stop,
        next_step(v, signal) is Receive ==> signal is Drawn && v.phase == Phase::Opening,
        turn_state(v, signal).phase == Phase::Opening ==> signal is Begin,
{
}

/// Without a wish to end, the loop only stops when no event can come any more,
/// and only where none is waited for with a redraw due, or because the screen
/// could not be drawn.
pub proof fn law_loop_goes_on(v: UiView, signal: Signal)
    requires
        expected(v, signal),
        !v.shutdown,
    ensures
        next_step(v, signal) is Stop ==> signal is Disconnected && v.phase == Phase::Receiving,
        next_step(v, signal) is Fail ==> signal is DrawFailed,
        turn_state(v, signal).shutdown ==> signal is Disconnected || (signal matches
            Signal::Received(Event::Input(Input::Key(key)), _, _) && (key == Key::Char('q')
            || key == Key::Ctrl('c'))),
{
}

/// A drawing that fails ends the loop at once with its error, whether or not the
/// loop was to end: nothing is caused, nothing else changes, and nothing is taken
/// up afterwards.
pub proof fn law_failed_draw_ends_the_loop(v: UiView, error: DrawError, later: Signal)
    requires
        expected(v, Signal::DrawFailed(error)),
    ensures
        next_step(v, Signal::DrawFailed(error)) == Step::Fail(error),
        turn_effects(v, Signal::DrawFailed(error)) == Seq::<EffectView>::empty(),
        turn_state(v, Signal::DrawFailed(error)) == (UiView { phase: Phase::Stopped, ..v }),
        !expected(turn_state(v, Signal::DrawFailed(error)), later),
{
}

/// A loop that has stopped stays so: no signal is expected any more.
pub proof fn law_stop_is_final(v: UiView, signal: Signal, later: Signal)
    requires
        expected(v, signal),
        next_step(v, signal) is Stop || next_step(v, signal) is Fail,
    ensures
        !expected(turn_state(v, signal), later),
{
}

/// Further events are waited for until a frame's time has passed since the
/// first, and no longer.
pub proof fn law_frame_time(v: UiView, nanos: u64)
    requires
        v.phase == Phase::Timing,
    ensures
        nanos > FRAME_NANOS ==> next_step(v, Signal::Elapsed(nanos)) is Draw,
        nanos <= FRAME_NANOS ==> (next_step(v, Signal::Elapsed(nanos)) matches
            Step::ReceiveWithin(wait) && nanos + wait == FRAME_NANOS),
{
}

/// Pressing a key that switches something on or off twice changes nothing.
pub proof fn law_switches_switch_back(v: UiView, key: Key)
    requires
        key == Key::Char('f') || key == Key::Char('l'),
    ensures
        key_state(key_state(v, key), key) == v,
        key_state(v, key) != v,
        key_effects(v, key) == Seq::<EffectView>::empty(),
{
}

/// The zoom is not raised from its upper bound on nor lowered from its lower
/// bound on. A number can always be changed one way.
pub proof fn law_zoom_is_bounded(v: UiView)
    ensures
        !crate::single::less(v.zoom, MAX_ZOOM) ==> !zooms(v, Key::Char('+')),
        !crate::single::less(MIN_ZOOM, v.zoom) ==> !zooms(v, Key::Char('-')),
        zooms(v, Key::Char('+')) || zooms(v, Key::Char('-')) || crate::single::is_nan(v.zoom),
{
    let k = crate::single::halves(v.zoom);
    if k != 0 {
        crate::single::law_half_bits_have_their_value(k, 20, 0);
        crate::single::law_half_bits_have_their_value(2, k, 0);
        lemma_halves_found(v.zoom);
        if k < 20 {
            crate::single::law_half_bits_have_their_value(k + 1, k, 0);
        }
        if k > 2 {
            crate::single::law_half_bits_have_their_value(k - 1, k, 0);
        }
    } else if crate::single::less(v.zoom, MAX_ZOOM) {
        assert(key_effects(v, Key::Char('+'))[0] == EffectView::ZoomIn);
    } else if crate::single::less(MIN_ZOOM, v.zoom) {
        assert(key_effects(v, Key::Char('-'))[0] == EffectView::ZoomOut);
    }
}

/// Whether a key changes the zoom or asks for a change.
pub open spec fn zooms(v: UiView, key: Key) -> bool {
    ||| key_state(v, key).zoom != v.zoom
    ||| key_effects(v, key).contains(EffectView::ZoomIn)
    ||| key_effects(v, key).contains(EffectView::ZoomOut)
}

proof fn lemma_halves_found(bits: u32)
    requires
        crate::single::halves(bits) != 0,
    ensures
        2 <= crate::single::halves(bits) <= 20,
        crate::single::half_bits(crate::single::halves(bits)) == bits,
{
}

/// The zoom is a multiple of a half from 1.0 to 10.0.
pub open spec fn zoom_in_halves(v: UiView) -> bool {
    crate::single::halves(v.zoom) != 0
}

/// What inputs change, one after the other.
pub open spec fn inputs_state(v: UiView, inputs: Seq<Input>) -> UiView
    decreases inputs.len(),
{
    if inputs.len() == 0 {
        v
    } else {
        let before = inputs_state(v, inputs.drop_last());
        match inputs.last() {
            Input::Key(key) => key_state(before, key),
            Input::Other => before,
        }
    }
}

/// A zoom in halves from 1.0 to 10.0 stays one after each key, and no sum is
/// asked for. A step up and a step down undo each other unless the first was
/// stopped by a bound, and no other key changes the zoom.
pub proof fn law_zoom_steps(v: UiView, key: Key)
    requires
        zoom_in_halves(v),
    ensures
        zoom_in_halves(key_state(v, key)),
        !key_effects(v, key).contains(EffectView::ZoomIn),
        !key_effects(v, key).contains(EffectView::ZoomOut),
        crate::single::less(v.zoom, MAX_ZOOM) ==> key_state(
            key_state(v, Key::Char('+')),
            Key::Char('-'),
        ) == v,
        crate::single::less(MIN_ZOOM, v.zoom) ==> key_state(
            key_state(v, Key::Char('-')),
            Key::Char('+'),
        ) == v,
        key != Key::Char('+') && key != Key::Char('-') ==> key_state(v, key).zoom == v.zoom,
        !crate::single::less(v.zoom, MIN_ZOOM),
        !crate::single::less(MAX_ZOOM, v.zoom),
{
    let k = crate::single::halves(v.zoom);
    lemma_halves_found(v.zoom);
    crate::single::law_half_bits_have_their_value(k, 20, 0);
    crate::single::law_half_bits_have_their_value(k, 2, 0);
    crate::single::law_half_bits_have_their_value(20, k, 0);
    crate::single::law_half_bits_have_their_value(2, k, 0);
    if k < 20 {
        crate::single::law_half_bits_have_their_value(k + 1, k, 0);
    }
    if k > 2 {
        crate::single::law_half_bits_have_their_value(k - 1, k, 0);
    }
}

/// A zoom in halves from 1.0 to 10.0 stays one, whatever comes from the terminal.
pub proof fn law_zoom_stays_in_halves(v: UiView, inputs: Seq<Input>)
    requires
        zoom_in_halves(v),
    ensures
        zoom_in_halves(inputs_state(v, inputs)),
    decreases inputs.len(),
{
    if inputs.len() > 0 {
        law_zoom_stays_in_halves(v, inputs.drop_last());
        if let Input::Key(key) = inputs.last() {
            law_zoom_steps(inputs_state(v, inputs.drop_last()), key);
        }
    }
}

/// Of `period` ticks in a row, exactly one comes due.
pub proof fn law_one_tick_in_a_period_is_due(period: int, first: int)
    requires
        period > 0,
    ensures
        exists|i: int| first <= i < first + period && #[trigger] due(i, period),
        forall|i: int, j: int|
            first <= i < first + period && first <= j < first + period && #[trigger] due(i, period)
                && #[trigger] due(j, period) ==> i == j,
{
    let past = first % period;
    let a = first + (period - 1 - past);
    vstd::arithmetic::div_mod::lemma_mod_bound(first, period);
    vstd::arithmetic::div_mod::lemma_fundamental_div_mod(first, period);
    assert(due(a, period)) by {
        assert(a + 1 == period * (first / period + 1) + 0) by (nonlinear_arith)
            requires
                a + 1 == first + period - past,
                first == period * (first / period) + past,
        ;
        vstd::arithmetic::div_mod::lemma_fundamental_div_mod_converse(
            a + 1,
            period,
            first / period + 1,
            0,
        );
    }
    assert forall|i: int, j: int|
        first <= i < first + period && first <= j < first + period && #[trigger] due(i, period)
            && #[trigger] due(j, period) implies i == j by {
        if i < j {
            lemma_due_apart(i, j, period);
        } else if j < i {
            lemma_due_apart(j, i, period);
        }
    }
}

/// Two ticks that come due are at least a period apart.
proof fn lemma_due_apart(i: int, j: int, period: int)
    requires
        period > 0,
        i < j,
        due(i, period),
        due(j, period),
    ensures
        j - i >= period,
{
    vstd::arithmetic::div_mod::lemma_fundamental_div_mod(i + 1, period);
    vstd::arithmetic::div_mod::lemma_fundamental_div_mod(j + 1, period);
    let a = (i + 1) / period;
    let b = (j + 1) / period;
    assert(j - i >= period) by (nonlinear_arith)
        requires
            i + 1 == period * a,
            j + 1 == period * b,
            i < j,
            period > 0,
    ;
}

/// Each fifth tick brings new positions, each sixtieth drops the finished jobs
/// too, and no other tick does either. A tick asks for the jobs exactly if that
/// is due.
pub proof fn law_tick_schedule(v: UiView, uptime: u64)
    ensures
        tick_effects(v, uptime).contains(EffectView::RemoveFinishedJobs) <==> due(
            v.ticks as int,
            60,
        ),
        tick_effects(v, uptime).contains(
            EffectView::UpdateVesselPosition(v.ground_track_num),
        ) <==> due(v.ticks as int, 5),
        due(v.ticks as int, 60) ==> due(v.ticks as int, 5),
        tick_effects(v, uptime).contains(EffectView::RequestJobs(v.stations)) <==> jobs_due(
            v,
            uptime,
        ),
{
    let effects = tick_effects(v, uptime);
    if due(v.ticks as int, 60) {
        assert(effects.last() == EffectView::RemoveFinishedJobs);
    }
    if jobs_due(v, uptime) {
        assert(effects[1] == EffectView::RequestJobs(v.stations));
        if due(v.ticks as int, 5) {
            assert(effects[2] == EffectView::UpdateVesselPosition(v.ground_track_num));
        }
    } else if due(v.ticks as int, 5) {
        assert(effects[0] == EffectView::UpdateVesselPosition(v.ground_track_num));
    }
}

/// Between two requests of the jobs lies the whole period: after one at the time
/// `asked`, a tick at a later time asks again exactly if the period is over, and
/// other ticks leave the time of the request as it is.
pub proof fn law_jobs_are_asked_for_once_a_period(v: UiView, asked: u64, later: u64)
    requires
        v.last_job_update == asked,
        asked <= later,
    ensures
        tick_effects(v, later).contains(EffectView::RequestJobs(v.stations)) <==> later - asked
            >= JOBS_PERIOD * NANOS,
        tick_state(v, later).last_job_update == (if later - asked >= JOBS_PERIOD * NANOS {
            later
        } else {
            asked
        }),
{
    law_tick_schedule(v, later);
}

/// Whether the tick after `ticks` ticks completes a group of `period`.
pub open spec fn due(ticks: int, period: int) -> bool {
    (ticks + 1) % period == 0
}

/// What there is of a waterfall to draw.
pub open spec fn spectrum_complete(v: UiView) -> bool {
    v.data.len() > 0 ==> v.frequencies.len() > 0
}

/// The spectrum can be drawn throughout a waterfall: an event leaves it
/// drawable, unless a line comes without frequencies or a waterfall is begun
/// without any. The end of a waterfall leaves nothing of it.
pub proof fn law_waterfall_session(v: UiView, event: Event, now: Timestamp, uptime: u64)
    requires
        spectrum_complete(v),
        event matches Event::WaterfallCreated(_, frequencies) ==> frequencies@.len() > 0,
        event is WaterfallData ==> v.frequencies.len() > 0,
    ensures
        spectrum_complete(event_state(v, event, now, uptime)),
        event is WaterfallClosed ==> {
            &&& event_state(v, event, now, uptime).data.len() == 0
            &&& event_state(v, event, now, uptime).frequencies.len() == 0
            &&& event_state(v, event, now, uptime).obs_id == 0
        },
        event matches Event::WaterfallData(seconds, samples) ==> {
            &&& event_state(v, event, now, uptime).data.last() == (seconds, samples@)
            &&& event_state(v, event, now, uptime).frequencies == v.frequencies
        },
{
}

/// A logged message is the newest, and there are never more than fit.
pub proof fn law_log_keeps_the_newest(v: UiView, event: Event, now: Timestamp, uptime: u64)
    requires
        event is Log,
    ensures
        event_state(v, event, now, uptime).logs.len() <= LOG_CAPACITY,
        event_state(v, event, now, uptime).logs.last() == (LogLine {
            time: now,
            level: event->Log_0.0,
            message: event->Log_0.1,
        }),
{
}

} // verus!

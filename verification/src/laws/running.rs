//! Promises on the main loop and on what events do.

use crate::event::{Data, Event, Input, Key, Level};
use crate::logs::LogLine;
use crate::single::{half_bits, halves, is_halves, less};
use crate::time::Timestamp;
use crate::ui::{
    event_effects, event_state, expected, key_effects, key_state, monitored, next_step,
    tick_effects, tick_state, turn_effects, turn_state, untouched, EffectView, Phase, Signal, Step,
    UiView,
};
use vstd::prelude::*;

verus! {

/// `a` and `b` differ at most in where the main loop stands.
pub open spec fn same_but_phase(a: UiView, b: UiView) -> bool {
    (UiView { phase: b.phase, ..a }) == b
}

/// Each event that the loop receives is taken up, the first of a frame and each
/// further one alike: the turn does to the state, and causes, what handling the
/// event does. Only where the loop stands is the turn's own.
pub proof fn law_each_event_is_taken_up(v: UiView, event: Event, now: Timestamp, uptime: u64)
    requires
        v.phase == Phase::Receiving || v.phase == Phase::Draining,
    ensures
        same_but_phase(
            event_state(v, event, now, uptime),
            turn_state(v, Signal::Received(event, now, uptime)),
        ),
        turn_effects(v, Signal::Received(event, now, uptime)) == event_effects(v, event, uptime),
{
}

/// Signals that do not bring an event, begin the loop or cut it off change and
/// cause nothing; only where the loop stands changes.
pub proof fn law_other_signals_change_nothing(v: UiView, signal: Signal)
    requires
        !(signal is Received),
        !(signal is Begin),
        !(signal is Disconnected),
    ensures
        same_but_phase(v, turn_state(v, signal)),
        turn_effects(v, signal).len() == 0,
{
}

/// The state after a batch of signals.
pub open spec fn turns(v: UiView, signals: Seq<Signal>) -> UiView
    decreases signals.len(),
{
    if signals.len() == 0 {
        v
    } else {
        turn_state(turns(v, signals.drop_last()), signals.last())
    }
}

/// What a batch of signals causes.
pub open spec fn caused(v: UiView, signals: Seq<Signal>) -> Seq<EffectView>
    decreases signals.len(),
{
    if signals.len() == 0 {
        Seq::empty()
    } else {
        let before = signals.drop_last();
        caused(v, before) + turn_effects(turns(v, before), signals.last())
    }
}

/// The signals of a batch come where they are expected, and neither begin the
/// loop nor cut it off.
pub open spec fn ordinary(v: UiView, signals: Seq<Signal>) -> bool
    decreases signals.len(),
{
    signals.len() > 0 ==> {
        &&& ordinary(v, signals.drop_last())
        &&& expected(turns(v, signals.drop_last()), signals.last())
        &&& !(signals.last() is Begin)
        &&& !(signals.last() is Disconnected)
    }
}

/// The state after the events of a batch have been handled one after the other.
pub open spec fn handled(v: UiView, signals: Seq<Signal>) -> UiView
    decreases signals.len(),
{
    if signals.len() == 0 {
        v
    } else {
        let before = handled(v, signals.drop_last());
        match signals.last() {
            Signal::Received(event, now, uptime) => event_state(before, event, now, uptime),
            _ => before,
        }
    }
}

/// What the events of a batch cause, one after the other.
pub open spec fn handled_effects(v: UiView, signals: Seq<Signal>) -> Seq<EffectView>
    decreases signals.len(),
{
    if signals.len() == 0 {
        Seq::empty()
    } else {
        let before = signals.drop_last();
        handled_effects(v, before) + match signals.last() {
            Signal::Received(event, _, uptime) => event_effects(
                handled(v, before),
                event,
                uptime,
            ),
            _ => Seq::empty(),
        }
    }
}

/// Handling an event does not depend on where the loop stands.
pub proof fn law_events_do_not_depend_on_the_phase(
    v: UiView,
    phase: Phase,
    event: Event,
    now: Timestamp,
    uptime: u64,
)
    ensures
        event_state(UiView { phase, ..v }, event, now, uptime) == (UiView {
            phase,
            ..event_state(v, event, now, uptime)
        }),
        event_effects(UiView { phase, ..v }, event, uptime) == event_effects(v, event, uptime),
{
    if event is Tick {
        assert(tick_effects(UiView { phase, ..v }, uptime) =~= tick_effects(v, uptime));
    }
}

/// None of the events of a batch is left out: after any number of turns, the
/// state and what was caused are those of handling all received events, in their
/// order.
pub proof fn law_no_event_is_left_out(v: UiView, signals: Seq<Signal>)
    requires
        ordinary(v, signals),
    ensures
        same_but_phase(handled(v, signals), turns(v, signals)),
        caused(v, signals) == handled_effects(v, signals),
    decreases signals.len(),
{
    if signals.len() > 0 {
        let before = signals.drop_last();
        law_no_event_is_left_out(v, before);
        let there = turns(v, before);
        let ideal = handled(v, before);
        assert(there == UiView { phase: there.phase, ..ideal });
        match signals.last() {
            Signal::Received(event, now, uptime) => {
                law_each_event_is_taken_up(there, event, now, uptime);
                law_events_do_not_depend_on_the_phase(ideal, there.phase, event, now, uptime);
            },
            _ => {
                law_other_signals_change_nothing(there, signals.last());
                assert(turn_effects(there, signals.last()) =~= Seq::empty());
            },
        }
    }
}

/// The lines of a waterfall that a batch of signals brings.
pub open spec fn lines_in(signals: Seq<Signal>) -> Seq<(u32, Seq<u32>)>
    decreases signals.len(),
{
    if signals.len() == 0 {
        Seq::empty()
    } else {
        match signals.last() {
            Signal::Received(Event::WaterfallData(seconds, samples), _, _) => lines_in(
                signals.drop_last(),
            ).push((seconds, samples@)),
            _ => lines_in(signals.drop_last()),
        }
    }
}

/// How many ticks a batch of signals brings.
pub open spec fn ticks_in(signals: Seq<Signal>) -> nat
    decreases signals.len(),
{
    if signals.len() == 0 {
        0
    } else {
        ticks_in(signals.drop_last()) + (if signals.last() matches Signal::Received(
            Event::Tick,
            _,
            _,
        ) {
            1nat
        } else {
            0nat
        })
    }
}

/// Whether a signal brings a key that ends the monitor.
pub open spec fn quits(signal: Signal) -> bool {
    signal matches Signal::Received(Event::Input(Input::Key(key)), _, _) && (key == Key::Char('q')
        || key == Key::Ctrl('c'))
}

/// A batch of signals leaves its mark in full: every line of the waterfall is
/// there in its order as long as none is closed, every tick is counted, and the
/// wish to end is there exactly if it was or a key for it came. The stations,
/// the settings of the network and the size of the screen stay.
pub proof fn law_batch_leaves_its_mark(v: UiView, signals: Seq<Signal>)
    requires
        ordinary(v, signals),
    ensures
        (forall|i: int|
            0 <= i < signals.len() ==> !((#[trigger] signals[i]) matches Signal::Received(
                Event::WaterfallClosed(_),
                _,
                _,
            ))) ==> turns(v, signals).data == v.data + lines_in(signals),
        turns(v, signals).ticks == v.ticks + ticks_in(signals),
        turns(v, signals).shutdown <==> v.shutdown || exists|i: int|
            0 <= i < signals.len() && quits(#[trigger] signals[i]),
        turns(v, signals).stations == v.stations,
        turns(v, signals).configured == v.configured,
        turns(v, signals).api_endpoint == v.api_endpoint,
        turns(v, signals).log_level == v.log_level,
        turns(v, signals).ground_track_num == v.ground_track_num,
        turns(v, signals).size == v.size,
    decreases signals.len(),
{
    if signals.len() == 0 {
        assert(v.data + lines_in(signals) =~= v.data);
    } else {
        let earlier = signals.drop_last();
        let last = signals.len() - 1;
        law_batch_leaves_its_mark(v, earlier);
        let before = turns(v, earlier);
        let after = turns(v, signals);
        assert(forall|i: int| 0 <= i < last ==> #[trigger] earlier[i] == signals[i]);
        assert(signals[last] == signals.last());
        assert(after.shutdown <==> before.shutdown || quits(signals.last()));
        if after.shutdown && !v.shutdown {
            if before.shutdown {
                let i = choose|i: int| 0 <= i < earlier.len() && quits(#[trigger] earlier[i]);
                assert(quits(signals[i]));
            } else {
                assert(quits(signals[last]));
            }
        }
        if exists|i: int| 0 <= i < signals.len() && quits(#[trigger] signals[i]) {
            let i = choose|i: int| 0 <= i < signals.len() && quits(#[trigger] signals[i]);
            if i < last {
                assert(quits(earlier[i]));
            }
        }
        if forall|i: int|
            0 <= i < signals.len() ==> !((#[trigger] signals[i]) matches Signal::Received(
                Event::WaterfallClosed(_),
                _,
                _,
            )) {
            assert forall|i: int|
                0 <= i < earlier.len() implies !((#[trigger] earlier[i]) matches Signal::Received(
                Event::WaterfallClosed(_),
                _,
                _,
            )) by {
                assert(earlier[i] == signals[i]);
            }
            assert(before.data == v.data + lines_in(earlier));
            assert(after.data =~= v.data + lines_in(signals));
        }
    }
}

/// A line is added behind those that are there, and changes nothing else.
pub proof fn law_line_is_added(v: UiView, seconds: u32, data: Vec<u32>, now: Timestamp, uptime: u64)
    ensures
        ({
            let next = event_state(v, Event::WaterfallData(seconds, data), now, uptime);
            &&& next.data.len() == v.data.len() + 1
            &&& next.data.drop_last() == v.data
            &&& next.data.last() == (seconds, data@)
            &&& (UiView { data: v.data, ..next }) == v
            &&& event_effects(v, Event::WaterfallData(seconds, data), uptime).len() == 0
        }),
{
    assert(v.data.push((seconds, data@)).drop_last() =~= v.data);
}

/// A waterfall that begins brings its observation and its frequencies, and one
/// that ends takes them and all lines away, whichever it is. Neither changes or
/// causes anything else.
pub proof fn law_waterfall_begins_and_ends(
    v: UiView,
    id: u64,
    frequencies: Vec<u32>,
    now: Timestamp,
    uptime: u64,
)
    ensures
        ({
            let next = event_state(v, Event::WaterfallCreated(id, frequencies), now, uptime);
            &&& next.obs_id == id
            &&& next.frequencies == frequencies@
            &&& (UiView { obs_id: v.obs_id, frequencies: v.frequencies, ..next }) == v
            &&& event_effects(v, Event::WaterfallCreated(id, frequencies), uptime).len() == 0
        }),
        ({
            let next = event_state(v, Event::WaterfallClosed(id), now, uptime);
            &&& next.obs_id == 0
            &&& next.frequencies.len() == 0
            &&& next.data.len() == 0
            &&& (UiView {
                obs_id: v.obs_id,
                frequencies: v.frequencies,
                data: v.data,
                ..next
            }) == v
            &&& event_effects(v, Event::WaterfallClosed(id), uptime).len() == 0
        }),
{
}

/// A logged message becomes the newest, with the moment at which it came; up to a
/// hundred stay, and only the oldest goes. Nothing else changes or is caused.
pub proof fn law_message_is_kept(
    v: UiView,
    level: Level,
    message: String,
    now: Timestamp,
    uptime: u64,
)
    requires
        v.logs.len() <= 100,
    ensures
        ({
            let event = Event::Log((level, message));
            let next = event_state(v, event, now, uptime);
            let newest = LogLine { time: now, level, message };
            &&& v.logs.len() < 100 ==> next.logs == v.logs.push(newest)
            &&& v.logs.len() == 100 ==> next.logs == v.logs.skip(1).push(newest)
            &&& (UiView { logs: v.logs, ..next }) == v
            &&& event_effects(v, event, uptime).len() == 0
        }),
{
    let newest = LogLine { time: now, level, message };
    if v.logs.len() == 100 {
        assert(v.logs.push(newest).skip(1) =~= v.logs.skip(1).push(newest));
    }
}

/// An answer with jobs is handed on as it came, and the positions are computed
/// anew after that. The state stays.
pub proof fn law_jobs_are_handed_on(
    v: UiView,
    id: u64,
    jobs: Vec<crate::station::Job>,
    now: Timestamp,
    uptime: u64,
)
    ensures
        ({
            let event = Event::CommandResponse(Data::Jobs(id, jobs));
            &&& event_state(v, event, now, uptime) == v
            &&& event_effects(v, event, uptime) == seq![
                EffectView::UpdateJobs(id, jobs@),
                EffectView::UpdateVesselPosition(v.ground_track_num),
            ]
        }),
{
}

/// A resize is logged and does nothing else. What comes from the terminal and is
/// no key does nothing at all.
pub proof fn law_resize_is_logged(v: UiView, now: Timestamp, uptime: u64)
    ensures
        event_state(v, Event::Resize, now, uptime) == v,
        event_effects(v, Event::Resize, uptime) == seq![
            EffectView::Log(Level::Debug, "Terminal size changed"@),
        ],
        event_state(v, Event::Input(Input::Other), now, uptime) == v,
        event_effects(v, Event::Input(Input::Other), uptime).len() == 0,
{
}

/// Measurements are logged and noted as they came for those of the given
/// stations that are monitored, each as often as it was given and in the given
/// order. The state stays.
pub proof fn law_measurements_are_noted(
    v: UiView,
    ids: Vec<u64>,
    info: crate::station::SysInfo,
    now: Timestamp,
    uptime: u64,
)
    ensures
        ({
            let event = Event::SystemInfo(ids, info);
            let effects = event_effects(v, event, uptime);
            &&& event_state(v, event, now, uptime) == v
            &&& effects.len() == 2
            &&& effects[0] == EffectView::Log(
                Level::Trace,
                "Got system info for stations "@ + crate::text::bracketed(ids@),
            )
            &&& effects[1] == EffectView::UpdateSysInfo(monitored(ids@, v.stations), info)
        }),
{
}

/// Of a list that becomes longer, the last id is kept behind the others exactly
/// if it is monitored.
pub proof fn law_monitored_are_kept(ids: Seq<u64>, id: u64, stations: Seq<u64>)
    ensures
        monitored(Seq::empty(), stations).len() == 0,
        stations.contains(id) ==> monitored(ids.push(id), stations) == monitored(
            ids,
            stations,
        ).push(id),
        !stations.contains(id) ==> monitored(ids.push(id), stations) == monitored(ids, stations),
{
    reveal(Seq::filter);
    let longer = ids.push(id);
    assert(longer.drop_last() =~= ids);
    assert(longer.last() == id);
}

/// What each key changes: the wish to end, the footprint, the log window or the
/// zoom, by the keys for it and no others; nothing else ever.
pub proof fn law_keys_change(v: UiView, key: Key, now: Timestamp, uptime: u64)
    ensures
        ({
            let next = key_state(v, key);
            &&& next.shutdown == (v.shutdown || key == Key::Char('q') || key == Key::Ctrl('c'))
            &&& next.sat_footprint == (v.sat_footprint != (key == Key::Char('f')))
            &&& next.show_logs == (v.show_logs != (key == Key::Char('l')))
            &&& key != Key::Char('+') && key != Key::Char('-') ==> next.zoom == v.zoom
            &&& (UiView {
                shutdown: v.shutdown,
                sat_footprint: v.sat_footprint,
                show_logs: v.show_logs,
                zoom: v.zoom,
                ..next
            }) == v
        }),
        event_state(v, Event::Input(Input::Key(key)), now, uptime) == key_state(v, key),
{
}

/// What each key causes: at most one thing. The tabulator shows the next or the
/// previous station, and a key for which there is no use is logged.
pub proof fn law_keys_cause(v: UiView, key: Key, uptime: u64)
    ensures
        ({
            let effects = key_effects(v, key);
            let used = key == Key::Char('q') || key == Key::Ctrl('c') || key == Key::Char('f')
                || key == Key::Char('l') || key == Key::Char('+') || key == Key::Char('-');
            &&& key == Key::Char('\t') ==> effects == seq![EffectView::NextStation]
            &&& key == Key::Ctrl('\t') ==> effects == seq![EffectView::PrevStation]
            &&& key == Key::Char('q') || key == Key::Ctrl('c') || key == Key::Char('f') || key
                == Key::Char('l') ==> effects.len() == 0
            &&& !used && key != Key::Char('\t') && key != Key::Ctrl('\t') ==> effects == seq![
                EffectView::LogKey(key),
            ]
        }),
        event_effects(v, Event::Input(Input::Key(key)), uptime) == key_effects(v, key),
{
}

/// The keys for the zoom change a zoom of `k` halves, from 1.0 to 10.0, by exactly
/// one half, within these bounds, and cause nothing.
pub proof fn law_zoom_changes_by_a_half(v: UiView, k: int)
    requires
        2 <= k <= 20,
        is_halves(v.zoom, k),
    ensures
        is_halves(
            key_state(v, Key::Char('+')).zoom,
            if k < 20 {
                k + 1
            } else {
                20
            },
        ),
        is_halves(
            key_state(v, Key::Char('-')).zoom,
            if k > 2 {
                k - 1
            } else {
                2
            },
        ),
        key_effects(v, Key::Char('+')).len() == 0,
        key_effects(v, Key::Char('-')).len() == 0,
{
    crate::single::law_half_bits_have_their_value(k, 2, v.zoom);
    if k < 20 {
        crate::single::law_half_bits_have_their_value(k + 1, 2, v.zoom);
    }
    if k > 2 {
        crate::single::law_half_bits_have_their_value(k - 1, 2, v.zoom);
    }
}

/// Any other zoom is left to a rounded sum, which is asked for exactly if the
/// zoom is below 10.0, or above 1.0 for the other way.
pub proof fn law_other_zoom_is_asked_for(v: UiView, ten: u32, one: u32)
    requires
        forall|k: int| 2 <= k <= 20 ==> !(#[trigger] is_halves(v.zoom, k)),
        is_halves(ten, 20),
        is_halves(one, 2),
    ensures
        key_state(v, Key::Char('+')) == v,
        key_state(v, Key::Char('-')) == v,
        less(v.zoom, ten) ==> key_effects(v, Key::Char('+')) == seq![EffectView::ZoomIn],
        !less(v.zoom, ten) ==> key_effects(v, Key::Char('+')).len() == 0,
        less(one, v.zoom) ==> key_effects(v, Key::Char('-')) == seq![EffectView::ZoomOut],
        !less(one, v.zoom) ==> key_effects(v, Key::Char('-')).len() == 0,
{
    crate::single::law_half_bits_have_their_value(20, 2, ten);
    crate::single::law_half_bits_have_their_value(2, 2, one);
    let k = halves(v.zoom);
    if k != 0 {
        assert(exists|j: int| 2 <= j <= 20 && #[trigger] half_bits(j) == v.zoom);
        assert(2 <= k <= 20 && half_bits(k) == v.zoom);
        crate::single::law_half_bits_have_their_value(k, 2, v.zoom);
        assert(is_halves(v.zoom, k));
    }
}

/// What a tick does, in this order: after ten minutes without a request it asks
/// for the jobs of all stations, each fifth computes the positions anew, and each
/// sixtieth drops the finished jobs.
pub proof fn law_tick_does_in_order(v: UiView, now: Timestamp, uptime: u64)
    requires
        v.ticks < u32::MAX,
    ensures
        ({
            let due = uptime >= v.last_job_update + 600_000_000_000;
            let next = tick_state(v, uptime);
            let effects = tick_effects(v, uptime);
            let jobs = if due {
                2int
            } else {
                0
            };
            let positions = if (v.ticks + 1) % 5 == 0 {
                1int
            } else {
                0
            };
            &&& next.ticks == v.ticks + 1
            &&& next.last_job_update == if due {
                uptime
            } else {
                v.last_job_update
            }
            &&& (UiView { ticks: v.ticks, last_job_update: v.last_job_update, ..next }) == v
            &&& due ==> effects[0] == EffectView::Log(Level::Trace, "Requesting jobs update"@)
            &&& due ==> effects[1] == EffectView::RequestJobs(v.stations)
            &&& positions == 1 ==> effects[jobs] == EffectView::UpdateVesselPosition(
                v.ground_track_num,
            )
            &&& (v.ticks + 1) % 60 == 0 ==> effects[jobs + positions]
                == EffectView::RemoveFinishedJobs
            &&& effects.len() == jobs + positions + if (v.ticks + 1) % 60 == 0 {
                1int
            } else {
                0
            }
        }),
        event_state(v, Event::Tick, now, uptime) == tick_state(v, uptime),
        event_effects(v, Event::Tick, uptime) == tick_effects(v, uptime),
{
}

/// A new user interface has its settings and its stations and nothing else: no
/// messages, no waterfall, no wish to end, no log window, no size, and the loop
/// is still to begin.
pub proof fn law_untouched(settings: crate::settings::Settings, stations: Seq<u64>, uptime: u64)
    ensures
        ({
            let v = untouched(settings, stations);
            &&& v.stations == stations
            &&& v.configured == settings.stations@
            &&& v.api_endpoint == settings.api_endpoint@
            &&& v.log_level == settings.log_level
            &&& v.ground_track_num == settings.ui.ground_track_num
            &&& v.sat_footprint == settings.ui.sat_footprint
            &&& v.zoom == settings.waterfall_zoom
            &&& v.logs.len() == 0 && v.data.len() == 0 && v.frequencies.len() == 0 && v.obs_id == 0
            &&& !v.shutdown && !v.show_logs && v.ticks == 0 && v.last_job_update == 0
            &&& v.size.x == 0 && v.size.y == 0 && v.size.width == 0 && v.size.height == 0
            &&& expected(v, Signal::Begin(uptime))
        }),
{
}

/// The loop begins by asking for the jobs of all stations, which is logged and
/// whose time is noted, and by drawing the screen.
pub proof fn law_loop_begins(v: UiView, uptime: u64)
    requires
        v.phase == Phase::Starting,
    ensures
        expected(v, Signal::Begin(uptime)),
        next_step(v, Signal::Begin(uptime)) is Draw,
        turn_effects(v, Signal::Begin(uptime)) == seq![
            EffectView::Log(Level::Trace, "Requesting jobs update"@),
            EffectView::RequestJobs(v.stations),
        ],
        turn_state(v, Signal::Begin(uptime)).last_job_update == uptime,
        same_but_phase(
            UiView { last_job_update: uptime, ..v },
            turn_state(v, Signal::Begin(uptime)),
        ),
{
}

/// Whatever the loop asks for can be told it: after a turn, each answer to its
/// step is expected, and an answer to another step is not.
pub proof fn law_each_step_can_be_answered(v: UiView, signal: Signal, answer: Signal)
    requires
        expected(v, signal),
    ensures
        expected(turn_state(v, signal), answer) <==> (match next_step(v, signal) {
            Step::Draw => answer is Drawn || answer is DrawFailed,
            Step::Receive => answer is Disconnected || can_come(turn_state(v, signal), answer),
            Step::StartClock => answer is Elapsed,
            Step::ReadClock => answer is Elapsed,
            Step::ReceiveWithin(_) => answer is Disconnected || answer is TimedOut || can_come(
                turn_state(v, signal),
                answer,
            ),
            Step::Stop => false,
            Step::Fail(_) => false,
        }),
{
}

/// Any event can come at a moment of the calendar, but for a tick that cannot be
/// counted any more.
pub open spec fn can_come(v: UiView, signal: Signal) -> bool {
    signal matches Signal::Received(event, now, _) && now.wf() && !(event is Tick && v.ticks
        == u32::MAX)
}

/// The steps of the loop: the clock is started at the first event of a frame and
/// read at each further one; within sixteen milliseconds more events are waited
/// for, for the time that is left, and after that the screen is drawn. After a
/// drawing an event is waited for, unless the end is wished for.
pub proof fn law_steps_of_a_frame(v: UiView, signal: Signal)
    requires
        expected(v, signal),
    ensures
        next_step(v, signal) is StartClock <==> signal is Received && v.phase == Phase::Receiving,
        next_step(v, signal) is ReadClock <==> signal is Received && v.phase == Phase::Draining,
        next_step(v, signal) is Draw <==> {
            ||| signal is Begin
            ||| signal is TimedOut
            ||| signal is Disconnected && v.phase == Phase::Draining
            ||| signal matches Signal::Elapsed(nanos) && nanos > 16_000_000
        },
        next_step(v, signal) is ReceiveWithin <==> (signal matches Signal::Elapsed(nanos) && nanos
            <= 16_000_000),
        next_step(v, signal) matches Step::ReceiveWithin(wait) ==> wait + signal->Elapsed_0
            == 16_000_000,
        next_step(v, signal) is Receive <==> signal is Drawn && !(v.shutdown && v.phase
            == Phase::Drawing),
        next_step(v, signal) is Stop <==> (signal is Drawn && v.shutdown && v.phase
            == Phase::Drawing) || (signal is Disconnected && v.phase == Phase::Receiving),
        next_step(v, signal) is Fail <==> signal is DrawFailed,
{
}

/// Without a source of events the loop ends: at once where it waits for one, and
/// after the redraw that is due otherwise. Nothing else changes.
pub proof fn law_cut_off(v: UiView)
    requires
        v.phase == Phase::Receiving || v.phase == Phase::Draining,
    ensures
        ({
            let next = turn_state(v, Signal::Disconnected);
            &&& turn_effects(v, Signal::Disconnected).len() == 0
            &&& v.phase == Phase::Receiving ==> next_step(v, Signal::Disconnected) is Stop
                && next.shutdown == v.shutdown
            &&& v.phase == Phase::Draining ==> next_step(v, Signal::Disconnected) is Draw
                && next_step(next, Signal::Drawn) is Stop
            &&& same_but_phase(UiView { shutdown: next.shutdown, ..v }, next)
        }),
{
}

} // verus!

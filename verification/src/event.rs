//! What can happen while the monitor runs.

use crate::station::{Job, SysInfo};
use vstd::prelude::*;

verus! {

/// A key of the keyboard.
#[derive(Clone, Copy, Debug, PartialEq, Eq, Structural)]
pub enum Key {
    Backspace,
    Left,
    Right,
    Up,
    Down,
    Home,
    End,
    PageUp,
    PageDown,
    BackTab,
    Delete,
    Insert,
    F(u8),
    Char(char),
    Alt(char),
    Ctrl(char),
    Null,
    Esc,
}

/// What came from the terminal.
#[derive(Clone, Copy, Debug, PartialEq, Eq, Structural)]
pub enum Input {
    Key(Key),
    Other,
}

/// How severe a log message is.
#[derive(Clone, Copy, Debug, PartialEq, Eq, Structural)]
pub enum Level {
    Error,
    Warn,
    Info,
    Debug,
    Trace,
}

/// The name under which a level is logged.
pub open spec fn level_name(level: Level) -> Seq<char> {
    match level {
        Level::Error => "ERROR"@,
        Level::Warn => "WARN"@,
        Level::Info => "INFO"@,
        Level::Debug => "DEBUG"@,
        Level::Trace => "TRACE"@,
    }
}

impl Level {
    /// The name of the level.
    pub fn name(self) -> (r: &'static str)
        ensures
            r@ == level_name(self),
    {
        match self {
            Level::Error => "ERROR",
            Level::Warn => "WARN",
            Level::Info => "INFO",
            Level::Debug => "DEBUG",
            Level::Trace => "TRACE",
        }
    }
}

/// An answer of the network.
#[derive(Debug)]
pub enum Data {
    /// The jobs of the station with the given id.
    Jobs(u64, Vec<Job>),
}

/// Something that happened. Samples of the waterfall are the bits of single
/// precision numbers.
#[derive(Debug)]
pub enum Event {
    Input(Input),
    Log((Level, String)),
    CommandResponse(Data),
    Resize,
    SystemInfo(Vec<u64>, SysInfo),
    Tick,
    /// A waterfall with these frequencies was begun for the observation.
    WaterfallCreated(u64, Vec<u32>),
    /// The waterfall got a line: the seconds since its start, and the samples.
    WaterfallData(u32, Vec<u32>),
    WaterfallClosed(u64),
}

/// An event in terms of sequences.
pub enum EventView {
    Input(Input),
    Log(Level, Seq<char>),
    Jobs(u64, Seq<Job>),
    Resize,
    SystemInfo(Seq<u64>, SysInfo),
    Tick,
    WaterfallCreated(u64, Seq<u32>),
    WaterfallData(u32, Seq<u32>),
    WaterfallClosed(u64),
}

impl View for Event {
    type V = EventView;

    open spec fn view(&self) -> EventView {
        match self {
            Event::Input(input) => EventView::Input(*input),
            Event::Log(entry) => EventView::Log(entry.0, entry.1@),
            Event::CommandResponse(Data::Jobs(id, jobs)) => EventView::Jobs(*id, jobs@),
            Event::Resize => EventView::Resize,
            Event::SystemInfo(ids, info) => EventView::SystemInfo(ids@, *info),
            Event::Tick => EventView::Tick,
            Event::WaterfallCreated(id, frequencies) => EventView::WaterfallCreated(
                *id,
                frequencies@,
            ),
            Event::WaterfallData(seconds, data) => EventView::WaterfallData(*seconds, data@),
            Event::WaterfallClosed(id) => EventView::WaterfallClosed(*id),
        }
    }
}

/// The events of a list other than log messages.
pub open spec fn apart_from_logs(events: Seq<EventView>) -> Seq<EventView>
    decreases events.len(),
{
    if events.len() == 0 {
        events
    } else if events.last() is Log {
        apart_from_logs(events.drop_last())
    } else {
        apart_from_logs(events.drop_last()).push(events.last())
    }
}

/// A list of events in terms of sequences.
pub open spec fn event_views(events: Seq<Event>) -> Seq<EventView> {
    events.map_values(|e: Event| e@)
}

} // verus!
